use vstd::prelude::*;
use vstd::string::*;

verus! {

/// The separator between the parts of an identifier.
pub open spec fn sep() -> Seq<char> {
    seq![':', ':']
}

pub open spec fn panel_word() -> Seq<char> {
    seq!['p', 'a', 'n', 'e', 'l']
}

pub open spec fn workspace_word() -> Seq<char> {
    seq!['w', 'o', 'r', 'k', 's', 'p', 'a', 'c', 'e']
}

pub open spec fn tool_word() -> Seq<char> {
    seq!['t', 'o', 'o', 'l']
}

/// The parts of `s` between occurrences of the separator, scanning from
/// position `i` within the part that began at `start`. The separator is
/// matched left to right without overlap.
pub open spec fn scan(s: Seq<char>, start: int, i: int) -> Seq<Seq<char>>
    decreases s.len() - i,
{
    if i + 2 > s.len() {
        seq![s.subrange(start, s.len() as int)]
    } else if s[i] == ':' && s[i + 1] == ':' {
        seq![s.subrange(start, i)] + scan(s, i + 2, i + 2)
    } else {
        scan(s, start, i + 1)
    }
}

/// The parts of `s` between occurrences of `::`.
pub open spec fn split_parts(s: Seq<char>) -> Seq<Seq<char>> {
    scan(s, 0, 0)
}

/// The subsequences of `s` that the index pairs `b` delimit.
pub open spec fn segments(s: Seq<char>, b: Seq<(usize, usize)>) -> Seq<Seq<char>> {
    b.map_values(|p: (usize, usize)| s.subrange(p.0 as int, p.1 as int))
}

/// Kind of resource an identifier names.
#[derive(Clone, Copy, Debug, PartialEq, Eq, Structural)]
pub enum ResourceType {
    Panel,
    Workspace,
    Tool,
}

/// The word that stands for a resource type inside an identifier.
pub open spec fn type_word(t: ResourceType) -> Seq<char> {
    match t {
        ResourceType::Panel => panel_word(),
        ResourceType::Workspace => workspace_word(),
        ResourceType::Tool => tool_word(),
    }
}

/// The resource type that a word stands for, if any.
pub open spec fn type_of_word(w: Seq<char>) -> Option<ResourceType> {
    if w == panel_word() {
        Some(ResourceType::Panel)
    } else if w == workspace_word() {
        Some(ResourceType::Workspace)
    } else if w == tool_word() {
        Some(ResourceType::Tool)
    } else {
        None
    }
}

/// An identifier's components (resource type, plugin, name): present exactly
/// when the text has three `::`-separated parts and the middle one names a
/// resource type.
pub open spec fn parse_spec(s: Seq<char>) -> Option<(ResourceType, Seq<char>, Seq<char>)> {
    let parts = split_parts(s);
    if parts.len() == 3 {
        match type_of_word(parts[1]) {
            Some(t) => Some((t, parts[0], parts[2])),
            None => None,
        }
    } else {
        None
    }
}

/// Every text has at least one part.
pub proof fn lemma_scan_nonempty(s: Seq<char>, start: int, i: int)
    ensures
        scan(s, start, i).len() >= 1,
    decreases s.len() - i,
{
    if i + 2 > s.len() {
    } else if s[i] == ':' && s[i + 1] == ':' {
        lemma_scan_nonempty(s, i + 2, i + 2);
    } else {
        lemma_scan_nonempty(s, start, i + 1);
    }
}

/// `s` has a separator at position `j`.
pub open spec fn sep_at(s: Seq<char>, j: int) -> bool {
    0 <= j && j + 1 < s.len() && s[j] == ':' && s[j + 1] == ':'
}

/// `x` holds no `::`.
pub open spec fn no_sep(x: Seq<char>) -> bool {
    forall|j: int| !#[trigger] sep_at(x, j)
}

/// `x` ends with `:`.
pub open spec fn ends_with_colon(x: Seq<char>) -> bool {
    x.len() > 0 && x.last() == ':'
}

/// A plugin or resource name from which an identifier can be taken apart
/// again: no `::` inside it, and (for the leading part) no trailing `:`.
pub open spec fn clean_leading_part(x: Seq<char>) -> bool {
    no_sep(x) && !ends_with_colon(x)
}

/// The parts joined again with `::`.
pub open spec fn join_parts(parts: Seq<Seq<char>>) -> Seq<char>
    decreases parts.len(),
{
    if parts.len() == 0 {
        seq![]
    } else if parts.len() == 1 {
        parts[0]
    } else {
        parts[0] + sep() + join_parts(parts.drop_first())
    }
}

proof fn lemma_scan_to_next_sep(s: Seq<char>, start: int, i: int, k: int)
    requires
        0 <= start <= i <= k,
        sep_at(s, k),
        forall|j: int| i <= j < k ==> !#[trigger] sep_at(s, j),
    ensures
        scan(s, start, i) == seq![s.subrange(start, k)] + scan(s, k + 2, k + 2),
    decreases k - i,
{
    if i < k {
        assert(!sep_at(s, i));
        lemma_scan_to_next_sep(s, start, i + 1, k);
    }
}

proof fn lemma_scan_to_end(s: Seq<char>, start: int, i: int)
    requires
        0 <= start <= i,
        forall|j: int| i <= j ==> !#[trigger] sep_at(s, j),
    ensures
        scan(s, start, i) == seq![s.subrange(start, s.len() as int)],
    decreases s.len() - i,
{
    if i + 2 <= s.len() {
        assert(!sep_at(s, i));
        lemma_scan_to_end(s, start, i + 1);
    }
}

proof fn lemma_join_scan(s: Seq<char>, start: int, i: int)
    requires
        0 <= start <= i <= s.len(),
    ensures
        join_parts(scan(s, start, i)) == s.subrange(start, s.len() as int),
    decreases s.len() - i,
{
    if i + 2 > s.len() {
    } else if s[i] == ':' && s[i + 1] == ':' {
        lemma_join_scan(s, i + 2, i + 2);
        lemma_scan_nonempty(s, i + 2, i + 2);
        let rest = scan(s, i + 2, i + 2);
        let parts = seq![s.subrange(start, i)] + rest;
        assert(parts.drop_first() =~= rest);
        assert(s.subrange(start, s.len() as int) =~= s.subrange(start, i) + sep() + s.subrange(
            i + 2,
            s.len() as int,
        ));
    } else {
        lemma_join_scan(s, start, i + 1);
    }
}

proof fn lemma_type_word(t: ResourceType)
    ensures
        type_of_word(type_word(t)) == Some(t),
        forall|j: int| 0 <= j < type_word(t).len() ==> type_word(t)[j] != ':',
{
    assert(panel_word() != workspace_word()) by {
        assert(panel_word().len() != workspace_word().len());
    }
    assert(panel_word() != tool_word()) by {
        assert(panel_word().len() != tool_word().len());
    }
    assert(workspace_word() != tool_word()) by {
        assert(workspace_word().len() != tool_word().len());
    }
}

/// Law: an identifier built from a plugin name and a resource name parses
/// back into its kind, plugin and name, provided neither name holds `::` and
/// the plugin name does not end with `:` (otherwise the separators would be
/// found in other places).
pub proof fn law_parse_of_built_id(t: ResourceType, plugin: Seq<char>, name: Seq<char>)
    requires
        clean_leading_part(plugin),
        no_sep(name),
    ensures
        parse_spec(id_text(t, plugin, name)) == Some((t, plugin, name)),
        split_parts(id_text(t, plugin, name))[0] == plugin,
{
    let w = type_word(t);
    let s = id_text(t, plugin, name);
    lemma_type_word(t);
    let k1 = plugin.len() as int;
    let k2 = k1 + 2 + w.len();
    assert forall|j: int| 0 <= j < k1 implies !#[trigger] sep_at(s, j) by {
        if j + 1 < k1 {
            assert(!sep_at(plugin, j));
        } else {
            assert(s[j] == plugin.last());
        }
    }
    assert(sep_at(s, k1));
    lemma_scan_to_next_sep(s, 0, 0, k1);
    assert forall|j: int| k1 + 2 <= j < k2 implies !#[trigger] sep_at(s, j) by {
        assert(s[j] == w[j - k1 - 2]);
    }
    assert(sep_at(s, k2));
    lemma_scan_to_next_sep(s, k1 + 2, k1 + 2, k2);
    assert forall|j: int| k2 + 2 <= j implies !#[trigger] sep_at(s, j) by {
        if sep_at(s, j) {
            assert(sep_at(name, j - k2 - 2));
        }
    }
    lemma_scan_to_end(s, k2 + 2, k2 + 2);
    assert(s.subrange(0, k1) =~= plugin);
    assert(s.subrange(k1 + 2, k2) =~= w);
    assert(s.subrange(k2 + 2, s.len() as int) =~= name);
    let parts = split_parts(s);
    assert(parts =~= seq![plugin, w, name]);
}

/// Law: whenever an identifier parses, its components put together again
/// give back the identifier's text.
pub proof fn law_parsed_parts_rebuild_id(s: Seq<char>)
    requires
        parse_spec(s) is Some,
    ensures
        parse_spec(s) matches Some((t, p, n)) && s == id_text(t, p, n),
{
    let parts = split_parts(s);
    lemma_join_scan(s, 0, 0);
    assert(s.subrange(0, s.len() as int) =~= s);
    let (t, p, n) = parse_spec(s).unwrap();
    assert(parts[1] == type_word(t));
    let d1 = parts.drop_first();
    let d2 = d1.drop_first();
    assert(d2 =~= seq![parts[2]]);
    assert(join_parts(d2) == parts[2]);
    assert(d1[0] == parts[1]);
    assert(join_parts(d1) == parts[1] + sep() + parts[2]);
    assert(s =~= id_text(t, p, n));
}

/// The text of the identifier of resource `name` of kind `t` of plugin `plugin`:
/// `plugin::type::name`.
pub open spec fn id_text(t: ResourceType, plugin: Seq<char>, name: Seq<char>) -> Seq<char> {
    plugin + sep() + type_word(t) + sep() + name
}

/// Unique identifier for plugin resources (panels, workspaces, tools).
#[derive(Clone, Debug, Eq, Hash)]
pub struct ResourceId(String);

impl View for ResourceId {
    type V = Seq<char>;

    closed spec fn view(&self) -> Seq<char> {
        self.0@
    }
}

impl PartialEq for ResourceId {
    fn eq(&self, other: &Self) -> (r: bool) {
        self.0 == other.0
    }
}

impl vstd::std_specs::cmp::PartialEqSpecImpl for ResourceId {
    open spec fn obeys_eq_spec() -> bool {
        true
    }

    open spec fn eq_spec(&self, other: &Self) -> bool {
        self@ == other@
    }
}

/// The characters of `s`, in order.
fn chars_of(s: &str) -> (v: Vec<char>)
    ensures
        v@ == s@,
{
    broadcast use vstd::string::group_string_axioms;
    let mut v: Vec<char> = Vec::new();
    for c in it: s.chars()
        invariant
            v@ == it.seq().take(it.index() as int),
    {
        v.push(c);
    }
    v
}

/// The bounds of the parts of `v` between occurrences of `::`.
fn split_bounds(v: &Vec<char>) -> (r: Vec<(usize, usize)>)
    ensures
        segments(v@, r@) == split_parts(v@),
        forall|k: int| 0 <= k < r@.len() ==> (#[trigger] r@[k]).0 <= r@[k].1 <= v@.len(),
{
    let n = v.len();
    let mut r: Vec<(usize, usize)> = Vec::new();
    let mut start: usize = 0;
    let mut i: usize = 0;
    while n >= 2 && i <= n - 2
        invariant
            n == v@.len(),
            start <= i <= n,
            segments(v@, r@) + scan(v@, start as int, i as int) == split_parts(v@),
            forall|k: int| 0 <= k < r@.len() ==> (#[trigger] r@[k]).0 <= r@[k].1 <= v@.len(),
        decreases n - i,
    {
        if v[i] == ':' && v[i + 1] == ':' {
            let ghost old_r = r@;
            r.push((start, i));
            assert(segments(v@, r@) =~= segments(v@, old_r) + seq![v@.subrange(start as int, i as int)]);
            i = i + 2;
            start = i;
        } else {
            i = i + 1;
        }
    }
    let ghost old_r = r@;
    r.push((start, n));
    assert(segments(v@, r@) =~= segments(v@, old_r) + seq![v@.subrange(start as int, n as int)]);
    r
}

/// Whether `v[from..to]` is the word `w`.
fn segment_is(v: &Vec<char>, from: usize, to: usize, w: &[char]) -> (r: bool)
    requires
        from <= to <= v@.len(),
    ensures
        r == (v@.subrange(from as int, to as int) == w@),
{
    if to - from != w.len() {
        return false;
    }
    let mut k: usize = 0;
    while k < w.len()
        invariant
            from <= to <= v@.len(),
            to - from == w@.len(),
            k <= w@.len(),
            forall|j: int| 0 <= j < k ==> v@[from + j] == w@[j],
        decreases w@.len() - k,
    {
        if v[from + k] != w[k] {
            assert(v@.subrange(from as int, to as int)[k as int] != w@[k as int]);
            return false;
        }
        k = k + 1;
    }
    assert(v@.subrange(from as int, to as int) =~= w@);
    true
}

/// The resource type that `v[from..to]` names, if any.
fn type_of_segment(v: &Vec<char>, from: usize, to: usize) -> (r: Option<ResourceType>)
    requires
        from <= to <= v@.len(),
    ensures
        r == type_of_word(v@.subrange(from as int, to as int)),
{
    let panel: [char; 5] = ['p', 'a', 'n', 'e', 'l'];
    let workspace: [char; 9] = ['w', 'o', 'r', 'k', 's', 'p', 'a', 'c', 'e'];
    let tool: [char; 4] = ['t', 'o', 'o', 'l'];
    assert(panel@ =~= panel_word());
    assert(workspace@ =~= workspace_word());
    assert(tool@ =~= tool_word());
    if segment_is(v, from, to, &panel) {
        Some(ResourceType::Panel)
    } else if segment_is(v, from, to, &workspace) {
        Some(ResourceType::Workspace)
    } else if segment_is(v, from, to, &tool) {
        Some(ResourceType::Tool)
    } else {
        None
    }
}

fn make_id(plugin: &str, middle: &str, name: &str) -> (r: ResourceId)
    ensures
        r@ == plugin@ + middle@ + name@,
{
    let mut s = String::from_str(plugin);
    s.append(middle);
    s.append(name);
    ResourceId(s)
}

impl ResourceId {
    /// Create an ID for a panel
    pub fn panel(plugin: &str, name: &str) -> (r: Self)
        ensures
            r@ == id_text(ResourceType::Panel, plugin@, name@),
    {
        let r = make_id(plugin, "::panel::", name);
        proof {
            reveal_strlit("::panel::");
            assert(plugin@ + "::panel::"@ + name@ =~= id_text(ResourceType::Panel, plugin@, name@));
        }
        r
    }

    /// Create an ID for a workspace
    pub fn workspace(plugin: &str, name: &str) -> (r: Self)
        ensures
            r@ == id_text(ResourceType::Workspace, plugin@, name@),
    {
        let r = make_id(plugin, "::workspace::", name);
        proof {
            reveal_strlit("::workspace::");
            assert(plugin@ + "::workspace::"@ + name@ =~= id_text(
                ResourceType::Workspace,
                plugin@,
                name@,
            ));
        }
        r
    }

    /// Create an ID for a tool
    pub fn tool(plugin: &str, name: &str) -> (r: Self)
        ensures
            r@ == id_text(ResourceType::Tool, plugin@, name@),
    {
        let r = make_id(plugin, "::tool::", name);
        proof {
            reveal_strlit("::tool::");
            assert(plugin@ + "::tool::"@ + name@ =~= id_text(ResourceType::Tool, plugin@, name@));
        }
        r
    }

    /// Get the string representation of the ID
    pub fn as_str(&self) -> (r: &str)
        ensures
            r@ == self@,
    {
        self.0.as_str()
    }

    /// The string representation of the ID, as an owned string.
    pub fn to_string(&self) -> (r: String)
        ensures
            r@ == self@,
    {
        self.0.clone()
    }

    /// A copy of this ID.
    pub fn duplicate(&self) -> (r: Self)
        ensures
            r@ == self@,
    {
        ResourceId(self.0.clone())
    }

    /// Whether two IDs are the same text.
    pub fn same_as(&self, other: &Self) -> (r: bool)
        ensures
            r == (self@ == other@),
    {
        self.0 == other.0
    }

    /// Parse the ID into components (resource type, plugin, name)
    pub fn parse(&self) -> (r: Option<(ResourceType, &str, &str)>)
        ensures
            r is None <==> parse_spec(self@) is None,
            r matches Some((t, p, n)) ==> parse_spec(self@) == Some((t, p@, n@)),
    {
        let s = self.0.as_str();
        let v = chars_of(s);
        let b = split_bounds(&v);
        if b.len() != 3 {
            return None;
        }
        let (m0, m1) = b[1];
        let t = match type_of_segment(&v, m0, m1) {
            Some(t) => t,
            None => return None,
        };
        let (p0, p1) = b[0];
        let (n0, n1) = b[2];
        let plugin = s.substring_char(p0, p1);
        let name = s.substring_char(n0, n1);
        proof {
            let parts = split_parts(self@);
            assert(parts[0] == v@.subrange(p0 as int, p1 as int));
            assert(parts[1] == v@.subrange(m0 as int, m1 as int));
            assert(parts[2] == v@.subrange(n0 as int, n1 as int));
        }
        Some((t, plugin, name))
    }

    /// Get the plugin name
    pub fn plugin(&self) -> (r: Option<&str>)
        ensures
            r matches Some(p) && p@ == split_parts(self@)[0],
    {
        let s = self.0.as_str();
        let v = chars_of(s);
        let b = split_bounds(&v);
        proof {
            lemma_scan_nonempty(v@, 0, 0);
        }
        let (p0, p1) = b[0];
        Some(s.substring_char(p0, p1))
    }

    /// Get the resource type
    pub fn resource_type(&self) -> (r: Option<ResourceType>)
        ensures
            r == (match parse_spec(self@) {
                Some((t, _, _)) => Some(t),
                None => None,
            }),
    {
        match self.parse() {
            Some((t, _, _)) => Some(t),
            None => None,
        }
    }

    /// Get the resource name
    pub fn name(&self) -> (r: Option<&str>)
        ensures
            r is None <==> parse_spec(self@) is None,
            r matches Some(n) ==> parse_spec(self@) matches Some((_, _, m)) && n@ == m,
    {
        match self.parse() {
            Some((_, _, n)) => Some(n),
            None => None,
        }
    }
}

impl From<&str> for ResourceId {
    fn from(s: &str) -> (r: Self)
        ensures
            r@ == s@,
    {
        ResourceId(String::from_str(s))
    }
}

impl vstd::std_specs::convert::FromSpecImpl<&str> for ResourceId {
    /// `from` is described by its own `ensures`: the identifier's text is the
    /// given text.
    open spec fn obeys_from_spec() -> bool {
        false
    }

    open spec fn from_spec(v: &str) -> Self {
        choose|r: ResourceId| r@ == v@
    }
}

impl From<String> for ResourceId {
    fn from(s: String) -> (r: Self)
        ensures
            r@ == s@,
    {
        ResourceId(s)
    }
}

impl vstd::std_specs::convert::FromSpecImpl<String> for ResourceId {
    /// See the impl for `&str`.
    open spec fn obeys_from_spec() -> bool {
        false
    }

    open spec fn from_spec(v: String) -> Self {
        choose|r: ResourceId| r@ == v@
    }
}

} // verus!
