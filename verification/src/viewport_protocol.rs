use vstd::prelude::*;

verus! {

/// Shared state for custom protocol viewport
/// This holds the latest frame data
#[derive(Clone)]
pub struct ViewportProtocolState {
    pub frame_counter: u64,
    pub latest_frame: Option<Vec<u8>>,
}

/// The bytes of a frame, if there is one.
pub open spec fn frame_bytes(f: Option<Vec<u8>>) -> Option<Seq<u8>> {
    match f {
        Some(v) => Some(v@),
        None => None,
    }
}

impl ViewportProtocolState {
    pub fn new() -> (r: Self)
        ensures
            r.frame_counter == 0,
            r.latest_frame is None,
    {
        ViewportProtocolState { frame_counter: 0, latest_frame: None }
    }

    /// Stores a new frame and counts it. The counter cannot pass `u64::MAX`.
    pub fn update_frame(&mut self, frame_data: Vec<u8>)
        requires
            old(self).frame_counter < u64::MAX,
        ensures
            final(self).frame_counter == old(self).frame_counter + 1,
            frame_bytes(final(self).latest_frame) == Some(frame_data@),
    {
        self.latest_frame = Some(frame_data);
        self.frame_counter = self.frame_counter + 1;
    }

    /// A copy of the latest frame, if any.
    pub fn get_frame(&self) -> (r: Option<Vec<u8>>)
        ensures
            frame_bytes(r) == frame_bytes(self.latest_frame),
    {
        match &self.latest_frame {
            Some(v) => {
                let c = v.clone();
                assert(c@ =~= v@);
                Some(c)
            },
            None => None,
        }
    }

    pub fn frame_counter(&self) -> (r: u64)
        ensures
            r == self.frame_counter,
    {
        self.frame_counter
    }
}

impl Default for ViewportProtocolState {
    fn default() -> (r: Self)
        ensures
            r.frame_counter == 0,
            r.latest_frame is None,
    {
        Self::new()
    }
}

} // verus!
