use vstd::prelude::*;

use base64::Engine;
use std::collections::VecDeque;

verus! {

/// The big-endian number that the first four bytes of `b` spell.
pub open spec fn be_u32(b: Seq<u8>) -> int {
    b[0] * 16777216 + b[1] * 65536 + b[2] * 256 + b[3]
}

/// The frame that a shared-memory buffer holds: the buffer starts with the
/// frame's length as a big-endian `u32`, followed by the frame's bytes. There
/// is no frame when the buffer is too short for the length, the length is
/// zero, or the buffer is too short for the frame.
pub open spec fn frame_in_buffer(shm: Seq<u8>) -> Option<Seq<u8>> {
    if shm.len() < 4 {
        None
    } else {
        let len = be_u32(shm);
        if len == 0 || 4 + len > shm.len() {
            None
        } else {
            Some(shm.subrange(4, 4 + len))
        }
    }
}

/// The frame's bytes, if there is a frame.
pub open spec fn payload_bytes(f: Option<Vec<u8>>) -> Option<Seq<u8>> {
    match f {
        Some(v) => Some(v@),
        None => None,
    }
}

/// Law: the frame a buffer holds is announced by its first four bytes read
/// as one big-endian 32-bit number `n` (`b0 * 2^24 + b1 * 2^16 + b2 * 2^8 + b3`):
/// there is a frame exactly when `n` is not zero and the buffer holds `n`
/// bytes after the header, and the frame is those `n` bytes.
pub proof fn law_frame_is_announced_by_big_endian_header(shm: Seq<u8>)
    requires
        shm.len() >= 4,
    ensures
        ({
            let n = shm[0] as int * 16777216 + shm[1] as int * 65536 + shm[2] as int * 256
                + shm[3] as int;
            &&& frame_in_buffer(shm) is Some <==> (n != 0 && 4 + n <= shm.len())
            &&& frame_in_buffer(shm) matches Some(f) ==> f.len() == n && f == shm.subrange(4, 4 + n)
        }),
{
}

/// Law: a buffer shorter than the four-byte header holds no frame.
pub proof fn law_short_buffer_has_no_frame(shm: Seq<u8>)
    requires
        shm.len() < 4,
    ensures
        frame_in_buffer(shm) is None,
{
}

/// The length of the frame held in a shared-memory buffer, if it holds one.
pub fn frame_length(shm: &[u8]) -> (r: Option<usize>)
    ensures
        r is Some <==> frame_in_buffer(shm@) is Some,
        r matches Some(n) ==> n == frame_in_buffer(shm@).unwrap().len() && 4 + n <= shm@.len(),
        r matches Some(n) ==> n == shm@[0] as int * 16777216 + shm@[1] as int * 65536 + shm@[2] as int
            * 256 + shm@[3] as int,
{
    if shm.len() < 4 {
        return None;
    }
    let len: u32 = (shm[0] as u32) * 16777216 + (shm[1] as u32) * 65536 + (shm[2] as u32) * 256
        + (shm[3] as u32);
    let len = len as usize;
    if len == 0 || len > shm.len() - 4 {
        return None;
    }
    Some(len)
}

/// The frame held in a shared-memory buffer, copied out.
pub fn frame_payload(shm: &[u8]) -> (r: Option<Vec<u8>>)
    ensures
        payload_bytes(r) == frame_in_buffer(shm@),
{
    let len = match frame_length(shm) {
        Some(n) => n,
        None => return None,
    };
    let mut out: Vec<u8> = Vec::new();
    let mut i: usize = 0;
    while i < len
        invariant
            shm.len() == shm@.len(),
            4 + len <= shm@.len(),
            i <= len,
            out@ == shm@.subrange(4, 4 + i),
        decreases len - i,
    {
        out.push(shm[4 + i]);
        i = i + 1;
        assert(out@ =~= shm@.subrange(4, 4 + i));
    }
    Some(out)
}

/// The character of the standard Base64 alphabet for the six-bit value `v`:
/// `A`-`Z`, `a`-`z`, `0`-`9`, `+`, `/`.
pub open spec fn base64_char(v: int) -> char {
    if v < 26 {
        (65 + v) as char
    } else if v < 52 {
        (97 + (v - 26)) as char
    } else if v < 62 {
        (48 + (v - 52)) as char
    } else if v == 62 {
        '+'
    } else {
        '/'
    }
}

/// The standard Base64 text of `data` (RFC 4648 alphabet, padded with `=`):
/// each group of three bytes becomes four characters of six bits each; a
/// final group of one or two bytes becomes two or three characters and `=`
/// up to four.
pub open spec fn base64_standard(data: Seq<u8>) -> Seq<char>
    decreases data.len(),
{
    if data.len() == 0 {
        Seq::empty()
    } else {
        let b0 = data[0] as int;
        let b1 = if data.len() > 1 { data[1] as int } else { 0 };
        let b2 = if data.len() > 2 { data[2] as int } else { 0 };
        let c0 = base64_char(b0 / 4);
        let c1 = base64_char((b0 % 4) * 16 + b1 / 16);
        let c2 = base64_char((b1 % 16) * 4 + b2 / 64);
        let c3 = base64_char(b2 % 64);
        if data.len() == 1 {
            seq![c0, c1, '=', '=']
        } else if data.len() == 2 {
            seq![c0, c1, c2, '=']
        } else {
            seq![c0, c1, c2, c3] + base64_standard(data.skip(3))
        }
    }
}

/// Calls `base64::engine::general_purpose::STANDARD.encode`: the contract
/// claims that the text is the standard padded Base64 of the bytes; the
/// encoder panics when the text's length does not fit in a `usize`, which
/// `requires` rules out.
#[verifier::external_body]
fn encode_base64(data: &Vec<u8>) -> (r: String)
    requires
        data@.len() <= usize::MAX / 4 * 3,
    ensures
        r@ == base64_standard(data@),
{
    base64::engine::general_purpose::STANDARD.encode(data)
}

/// How far back frames count toward the frame rate: one second, in nanoseconds.
pub const FRAME_WINDOW_NANOS: u64 = 1_000_000_000;

/// `stamps` without its leading stamps older than `cutoff`.
pub open spec fn drop_stale_prefix(stamps: Seq<u64>, cutoff: int) -> Seq<u64>
    decreases stamps.len(),
{
    if stamps.len() > 0 && stamps[0] < cutoff {
        drop_stale_prefix(stamps.drop_first(), cutoff)
    } else {
        stamps
    }
}

/// The stamps kept at time `now`: those from the last second onward, read
/// from the oldest and stopping at the first recent one.
pub open spec fn kept_stamps(stamps: Seq<u64>, now: u64) -> Seq<u64> {
    drop_stale_prefix(stamps, now - FRAME_WINDOW_NANOS)
}

/// The stamps never decrease, as readings of a monotonic clock.
pub open spec fn nondecreasing(s: Seq<u64>) -> bool {
    forall|i: int, j: int| 0 <= i <= j < s.len() ==> s[i] <= s[j]
}

proof fn lemma_drop_stale_prefix(s: Seq<u64>, cutoff: int)
    requires
        nondecreasing(s),
    ensures
        exists|k: int|
            0 <= k <= s.len() && drop_stale_prefix(s, cutoff) == s.subrange(k, s.len() as int)
                && (forall|j: int| 0 <= j < k ==> s[j] < cutoff) && (forall|j: int|
                k <= j < s.len() ==> s[j] >= cutoff),
    decreases s.len(),
{
    if s.len() > 0 && s[0] < cutoff {
        let d = s.drop_first();
        lemma_drop_stale_prefix(d, cutoff);
        let k = choose|k: int|
            0 <= k <= d.len() && drop_stale_prefix(d, cutoff) == d.subrange(k, d.len() as int)
                && (forall|j: int| 0 <= j < k ==> d[j] < cutoff) && (forall|j: int|
                k <= j < d.len() ==> d[j] >= cutoff);
        assert(d.subrange(k, d.len() as int) =~= s.subrange(k + 1, s.len() as int));
        assert forall|j: int| 0 <= j < k + 1 implies s[j] < cutoff by {
            if j > 0 {
                assert(s[j] == d[j - 1]);
            }
        }
        assert forall|j: int| k + 1 <= j < s.len() implies s[j] >= cutoff by {
            assert(s[j] == d[j - 1]);
        }
    } else {
        assert(s.subrange(0, s.len() as int) =~= s);
        assert forall|j: int| 0 <= j < s.len() implies s[j] >= cutoff by {
            assert(s[0] <= s[j]);
        }
    }
}

/// Law: with frame times read from a monotonic clock, the frames kept at
/// `now` (whose number is the frame rate) are exactly the frames of the last
/// second: the older ones are dropped, and all the recent ones stay, in order.
pub proof fn law_frame_rate_counts_last_second(stamps: Seq<u64>, now: u64)
    requires
        nondecreasing(stamps),
    ensures
        exists|k: int|
            0 <= k <= stamps.len() && kept_stamps(stamps, now) == stamps.subrange(
                k,
                stamps.len() as int,
            ) && (forall|j: int| 0 <= j < k ==> stamps[j] < now - FRAME_WINDOW_NANOS) && (forall|
                j: int,
            | k <= j < stamps.len() ==> stamps[j] >= now - FRAME_WINDOW_NANOS),
{
    lemma_drop_stale_prefix(stamps, now - FRAME_WINDOW_NANOS);
}

/// Viewport streaming state: frames received, the recent frame times
/// (nanoseconds on a monotonic clock), the frame rate they give, and the
/// latest frame as Base64 text.
pub struct ViewportState {
    pub is_opened: bool,
    pub frame_count: usize,
    pub fps: usize,
    pub frame_timestamps: VecDeque<u64>,
    pub frame: Option<String>,
}

impl ViewportState {
    pub fn new() -> (r: Self)
        ensures
            !r.is_opened,
            r.frame_count == 0,
            r.fps == 0,
            r.frame_timestamps@.len() == 0,
            r.frame is None,
    {
        ViewportState {
            is_opened: false,
            frame_count: 0,
            fps: 0,
            frame_timestamps: VecDeque::new(),
            frame: None,
        }
    }

    /// Drops the frame times older than one second before `now`, oldest
    /// first, and sets the frame rate to the number of times left.
    pub fn prune(&mut self, now: u64)
        ensures
            final(self).frame_timestamps@ == kept_stamps(old(self).frame_timestamps@, now),
            final(self).fps == final(self).frame_timestamps@.len(),
            final(self).is_opened == old(self).is_opened,
            final(self).frame_count == old(self).frame_count,
            final(self).frame == old(self).frame,
    {
        let cutoff = now.saturating_sub(FRAME_WINDOW_NANOS);
        while self.frame_timestamps.len() > 0 && self.frame_timestamps[0] < cutoff
            invariant
                cutoff == if now >= FRAME_WINDOW_NANOS {
                    now - FRAME_WINDOW_NANOS
                } else {
                    0
                },
                kept_stamps(self.frame_timestamps@, now) == kept_stamps(old(self).frame_timestamps@, now),
                self.is_opened == old(self).is_opened,
                self.frame_count == old(self).frame_count,
                self.frame == old(self).frame,
            decreases self.frame_timestamps@.len(),
        {
            let ghost before = self.frame_timestamps@;
            let _ = self.frame_timestamps.pop_front();
            assert(self.frame_timestamps@ =~= before.drop_first());
        }
        self.fps = self.frame_timestamps.len();
    }

    /// Takes a frame, already Base64-encoded, received at `now`: keeps it as
    /// the latest frame, counts it, records its time and recomputes the rate.
    pub fn record_frame(&mut self, encoded: String, now: u64)
        requires
            old(self).frame_count < usize::MAX,
        ensures
            final(self).frame == Some(encoded),
            final(self).frame_count == old(self).frame_count + 1,
            final(self).frame_timestamps@ == kept_stamps(old(self).frame_timestamps@.push(now), now),
            final(self).fps == final(self).frame_timestamps@.len(),
            final(self).is_opened == old(self).is_opened,
    {
        self.frame = Some(encoded);
        self.frame_count = self.frame_count + 1;
        self.frame_timestamps.push_back(now);
        self.prune(now);
    }

    /// Reads the frame that a shared-memory buffer holds, if any, and takes
    /// it as received at `now`. Returns whether there was a frame; without
    /// one the state is left unchanged.
    pub fn receive_frame(&mut self, shm: &[u8], now: u64) -> (r: bool)
        requires
            frame_in_buffer(shm@) matches Some(f) ==> old(self).frame_count < usize::MAX && f.len()
                <= usize::MAX / 4 * 3,
        ensures
            r == frame_in_buffer(shm@) is Some,
            !r ==> *final(self) == *old(self),
            r ==> {
                &&& final(self).frame matches Some(f) && f@ == base64_standard(
                    frame_in_buffer(shm@).unwrap(),
                )
                &&& final(self).frame_count == old(self).frame_count + 1
                &&& final(self).frame_timestamps@ == kept_stamps(
                    old(self).frame_timestamps@.push(now),
                    now,
                )
                &&& final(self).fps == final(self).frame_timestamps@.len()
                &&& final(self).is_opened == old(self).is_opened
            },
    {
        match frame_payload(shm) {
            Some(data) => {
                let encoded = encode_base64(&data);
                self.record_frame(encoded, now);
                true
            },
            None => false,
        }
    }
}

} // verus!
