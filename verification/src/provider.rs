//! Identifiers and wire-level data of the provider protocol: entry names,
//! stream paths, timestamps, packed payloads, and the two protocol enums.

use vstd::prelude::*;

verus! {

/// An identifier in a hierarchy of the node/metadata/stream.
#[derive(Debug, Hash)]
pub struct EntryId(String);

impl View for EntryId {
    type V = Seq<char>;

    closed spec fn view(&self) -> Seq<char> {
        self.0@
    }
}

impl Clone for EntryId {
    fn clone(&self) -> (r: EntryId)
        ensures
            r@ == self@,
    {
        EntryId(self.0.clone())
    }
}

impl EntryId {
    /// Builds an entry identifier from a borrowed string.
    pub fn from_str(value: &str) -> (r: EntryId)
        ensures
            r@ == value@,
    {
        EntryId(value.to_owned())
    }

    /// Builds an entry identifier from an owned string.
    pub fn from_string(value: String) -> (r: EntryId)
        ensures
            r@ == value@,
    {
        EntryId(value)
    }

    /// The textual form of the identifier.
    pub fn as_str(&self) -> (r: &str)
        ensures
            r@ == self@,
    {
        self.0.as_str()
    }
}

impl PartialEq for EntryId {
    fn eq(&self, other: &EntryId) -> bool {
        self.0 == other.0
    }
}

impl vstd::std_specs::cmp::PartialEqSpecImpl for EntryId {
    open spec fn obeys_eq_spec() -> bool {
        true
    }

    open spec fn eq_spec(&self, other: &EntryId) -> bool {
        self@ == other@
    }
}

/// An ordered sequence of entry identifiers naming exactly one stream.
///
/// The printable form joins the entries with `.`; the parsed form splits
/// on `.`.
#[derive(Debug, Hash)]
pub struct Path(Vec<EntryId>);

impl View for Path {
    type V = Seq<Seq<char>>;

    closed spec fn view(&self) -> Seq<Seq<char>> {
        self.0@.map(|i: int, e: EntryId| e@)
    }
}

impl Clone for Path {
    fn clone(&self) -> (r: Path)
        ensures
            r@ == self@,
    {
        let entries = self.0.clone();
        proof {
            assert(forall|i: int|
                0 <= i < entries@.len() ==> #[trigger] entries@[i]@ == self.0@[i]@);
            assert(entries@.map(|i: int, e: EntryId| e@) =~= self@);
        }
        Path(entries)
    }
}

impl Path {
    /// A path of one entry.
    pub fn single(entry_id: EntryId) -> (r: Path)
        ensures
            r@ == seq![entry_id@],
    {
        let r = Path(vec![entry_id]);
        proof {
            assert(r@ =~= seq![r.0@[0]@]);
        }
        r
    }

    /// The empty path.
    pub fn root() -> (r: Path)
        ensures
            r@ == Seq::<Seq<char>>::empty(),
    {
        let r = Path(Vec::new());
        proof {
            assert(r@ =~= Seq::<Seq<char>>::empty());
        }
        r
    }

    /// Number of entries in the path.
    pub fn len(&self) -> (r: usize)
        ensures
            r == self@.len(),
    {
        self.0.len()
    }

    /// The entry at a position.
    pub fn get(&self, i: usize) -> (r: &EntryId)
        requires
            i < self@.len(),
        ensures
            r@ == self@[i as int],
    {
        &self.0[i]
    }

    /// A new path with one entry prepended.
    pub fn add_root(&self, entry_id: &EntryId) -> (r: Path)
        ensures
            r@ == seq![entry_id@] + self@,
    {
        let mut entries: Vec<EntryId> = Vec::new();
        entries.push(entry_id.clone());
        let n = self.0.len();
        let mut i: usize = 0;
        while i < n
            invariant
                n == self@.len(),
                i <= n,
                entries@.len() == i + 1,
                entries@[0]@ == entry_id@,
                forall|k: int| 1 <= k <= i ==> #[trigger] entries@[k]@ == self@[k - 1],
            decreases n - i,
        {
            entries.push(self.0[i].clone());
            i = i + 1;
        }
        let r = Path(entries);
        proof {
            assert forall|k: int| 0 <= k < r@.len() implies r@[k] == (seq![entry_id@]
                + self@)[k] by {
                assert(r@[k] == entries@[k]@);
            }
            assert(r@ =~= seq![entry_id@] + self@);
        }
        r
    }

    /// A new path with one entry appended.
    pub fn concat(&self, entry_id: EntryId) -> (r: Path)
        ensures
            r@ == self@ + seq![entry_id@],
    {
        let mut cloned = self.clone();
        cloned.0.push(entry_id);
        proof {
            assert(cloned@ =~= self@ + seq![cloned.0@[cloned.0@.len() - 1]@]);
        }
        cloned
    }

    /// The path without its first `drop_left` entries.
    pub fn subpath(&self, drop_left: usize) -> (r: Path)
        requires
            drop_left <= self@.len(),
        ensures
            r@ == self@.skip(drop_left as int),
    {
        let n = self.0.len();
        let mut entries: Vec<EntryId> = Vec::new();
        let mut i: usize = drop_left;
        while i < n
            invariant
                n == self@.len(),
                drop_left <= i <= n,
                entries@.len() == i - drop_left,
                forall|k: int|
                    0 <= k < i - drop_left ==> #[trigger] entries@[k]@ == self@[k
                        + drop_left],
            decreases n - i,
        {
            entries.push(self.0[i].clone());
            i = i + 1;
        }
        let r = Path(entries);
        proof {
            assert forall|k: int| 0 <= k < r@.len() implies r@[k] == self@.skip(
                drop_left as int,
            )[k] by {
                assert(r@[k] == entries@[k]@);
            }
            assert(r@ =~= self@.skip(drop_left as int));
        }
        r
    }

    /// Splits off the first entry, returning it and the remaining path.
    pub fn split(&self) -> (r: (Option<EntryId>, Path))
        ensures
            self@.len() == 0 ==> r.0 is None && r.1@ == self@,
            self@.len() > 0 ==> (r.0 matches Some(e) && e@ == self@[0]) && r.1@ == self@.skip(1),
    {
        if self.0.len() == 0 {
            let rest = self.subpath(0);
            proof {
                assert(self@.skip(0) =~= self@);
            }
            (None, rest)
        } else {
            let entry_id = self.0[0].clone();
            let rest = self.subpath(1);
            (Some(entry_id), rest)
        }
    }
}

impl PartialEq for Path {
    fn eq(&self, other: &Path) -> (r: bool)
        ensures
            r == (self@ == other@),
    {
        if self.0.len() != other.0.len() {
            proof {
                assert(self@.len() != other@.len());
            }
            return false;
        }
        let n = self.0.len();
        let mut i: usize = 0;
        while i < n
            invariant
                n == self@.len() == other@.len(),
                i <= n,
                forall|k: int| 0 <= k < i ==> self@[k] == other@[k],
            decreases n - i,
        {
            if !(self.0[i] == other.0[i]) {
                proof {
                    assert(self@[i as int] != other@[i as int]);
                }
                return false;
            }
            i = i + 1;
        }
        proof {
            assert(self@ =~= other@);
        }
        true
    }
}

impl vstd::std_specs::cmp::PartialEqSpecImpl for Path {
    open spec fn obeys_eq_spec() -> bool {
        true
    }

    open spec fn eq_spec(&self, other: &Path) -> bool {
        self@ == other@
    }
}

/// Error type of path parsing.  Parsing never fails, so no value of this
/// type is ever produced; it is kept so that the parsing API has a typed
/// error slot.
#[derive(Debug, Clone, PartialEq, Eq, Structural)]
pub struct PathError {}

/// Truncating (toward zero) division, the semantics of `/` on signed
/// machine integers.
pub open spec fn div_toward_zero(a: int, b: int) -> int
    recommends
        b > 0,
{
    if a >= 0 {
        a / b
    } else {
        -((-a) / b)
    }
}

/// Milliseconds since the Unix epoch, as a signed 64-bit value.
#[derive(Debug, Clone, Copy, PartialEq, Eq, Structural, Hash)]
pub struct Timestamp(pub i64);

impl View for Timestamp {
    type V = int;

    open spec fn view(&self) -> int {
        self.0 as int
    }
}

impl Timestamp {
    /// Whole seconds of the timestamp.
    pub fn as_secs(&self) -> (r: i64)
        ensures
            r == div_toward_zero(self@, 1000),
    {
        self.0 / 1000
    }

    /// The timestamp in milliseconds, its unit of account.
    pub fn as_millis(&self) -> (r: i64)
        ensures
            r == self@,
    {
        self.0
    }
}

impl Default for Timestamp {
    fn default() -> (r: Timestamp)
        ensures
            r@ == 0,
    {
        Timestamp(0)
    }
}

/// The text of a path: its segments joined with `.`.
pub open spec fn joined_text(segments: Seq<Seq<char>>) -> Seq<char>
    decreases segments.len(),
{
    if segments.len() == 0 {
        Seq::empty()
    } else if segments.len() == 1 {
        segments[0]
    } else {
        segments[0] + seq!['.'] + joined_text(segments.skip(1))
    }
}

/// The text of path segments joined with an arbitrary separator.
pub open spec fn joined_with(segments: Seq<Seq<char>>, sep: Seq<char>) -> Seq<char>
    decreases segments.len(),
{
    if segments.len() == 0 {
        Seq::empty()
    } else if segments.len() == 1 {
        segments[0]
    } else {
        segments[0] + sep + joined_with(segments.skip(1), sep)
    }
}

/// Appending a segment on the right extends the joined text with the
/// separator and that segment.
pub proof fn lemma_joined_with_push(segments: Seq<Seq<char>>, sep: Seq<char>, segment: Seq<char>)
    requires
        segments.len() > 0,
    ensures
        joined_with(segments.push(segment), sep) == joined_with(segments, sep) + sep + segment,
    decreases segments.len(),
{
    if segments.len() == 1 {
        assert(segments.push(segment).skip(1) =~= seq![segment]);
        assert(segments.push(segment)[0] == segments[0]);
        assert(joined_with(seq![segment], sep) == segment);
        assert(joined_with(segments.push(segment), sep) == segments.push(segment)[0] + sep
            + joined_with(segments.push(segment).skip(1), sep));
    } else {
        lemma_joined_with_push(segments.skip(1), sep, segment);
        assert(segments.push(segment).skip(1) =~= segments.skip(1).push(segment));
        assert(joined_with(segments, sep) + sep + segment =~= segments[0] + sep + (joined_with(
            segments.skip(1),
            sep,
        ) + sep + segment));
    }
}

/// The segments of a text: split on `.`; the empty text has one empty
/// segment.
pub open spec fn split_text(s: Seq<char>) -> Seq<Seq<char>>
    decreases s.len(),
{
    if s.len() == 0 {
        seq![Seq::empty()]
    } else if s.last() == '.' {
        split_text(s.drop_last()).push(Seq::empty())
    } else {
        let rest = split_text(s.drop_last());
        rest.update(rest.len() - 1, rest.last().push(s.last()))
    }
}

pub proof fn lemma_split_text_len(s: Seq<char>)
    ensures
        split_text(s).len() >= 1,
    decreases s.len(),
{
    if s.len() != 0 {
        lemma_split_text_len(s.drop_last());
    }
}

/// Appending a segment on the right extends the joined text with a dot and
/// that segment.
pub proof fn lemma_joined_text_push(segments: Seq<Seq<char>>, segment: Seq<char>)
    requires
        segments.len() > 0,
    ensures
        joined_text(segments.push(segment)) == joined_text(segments) + seq!['.'] + segment,
    decreases segments.len(),
{
    if segments.len() == 1 {
        assert(segments.push(segment).skip(1) =~= seq![segment]);
        assert(segments.push(segment)[0] == segments[0]);
        assert(joined_text(seq![segment]) == segment);
        assert(joined_text(segments.push(segment)) == segments.push(segment)[0] + seq!['.']
            + joined_text(segments.push(segment).skip(1)));
    } else {
        lemma_joined_text_push(segments.skip(1), segment);
        assert(segments.push(segment).skip(1) =~= segments.skip(1).push(segment));
        assert(joined_text(segments) + seq!['.'] + segment =~= segments[0] + seq!['.'] + (
        joined_text(segments.skip(1)) + seq!['.'] + segment));
    }
}

impl Path {
    /// The printable form of the path: entries joined with `.`.
    pub fn to_text(&self) -> (r: String)
        ensures
            r@ == joined_text(self@),
    {
        let mut buffer = String::new();
        let n = self.0.len();
        if n == 0 {
            return buffer;
        }
        buffer.append(self.0[0].as_str());
        let mut i: usize = 1;
        while i < n
            invariant
                n == self@.len(),
                1 <= i <= n,
                buffer@ == joined_text(self@.take(i as int)),
            decreases n - i,
        {
            proof {
                reveal_strlit(".");
            }
            buffer.append(".");
            buffer.append(self.0[i].as_str());
            proof {
                assert(self@.take(i as int).push(self@[i as int]) =~= self@.take(i + 1));
                lemma_joined_text_push(self@.take(i as int), self@[i as int]);
            }
            i = i + 1;
        }
        proof {
            assert(self@.take(n as int) =~= self@);
        }
        buffer
    }

    /// Parses the printable form: the text is split on `.`; parsing never
    /// fails.
    pub fn parse(s: &str) -> (r: Result<Path, PathError>)
        ensures
            r matches Ok(p) && p@ == split_text(s@),
    {
        let n = s.unicode_len();
        let mut done: Vec<EntryId> = Vec::new();
        let mut start: usize = 0;
        let mut i: usize = 0;
        proof {
            assert(s@.take(0) =~= Seq::<char>::empty());
            assert(s@.subrange(0, 0) =~= Seq::<char>::empty());
            assert(done@.map(|k: int, e: EntryId| e@).push(s@.subrange(0, 0)) =~= split_text(
                s@.take(0),
            ));
        }
        while i < n
            invariant
                n == s@.len(),
                start <= i <= n,
                done@.map(|k: int, e: EntryId| e@).push(
                    s@.subrange(start as int, i as int),
                ) =~= split_text(s@.take(i as int)),
            decreases n - i,
        {
            let ghost prefix = s@.take(i as int);
            let ghost cur = s@.subrange(start as int, i as int);
            let c = s.get_char(i);
            if c == '.' {
                let piece = s.substring_char(start, i);
                done.push(EntryId(piece.to_owned()));
                start = i + 1;
                proof {
                    assert(s@.take(i + 1).drop_last() =~= prefix);
                    assert(done@.map(|k: int, e: EntryId| e@) =~= split_text(prefix));
                    assert(s@.subrange(i + 1, i + 1) =~= Seq::<char>::empty());
                    assert(done@.map(|k: int, e: EntryId| e@).push(
                        s@.subrange(i + 1, i + 1),
                    ) =~= split_text(s@.take(i + 1)));
                }
            } else {
                proof {
                    assert(s@.take(i + 1).drop_last() =~= prefix);
                    lemma_split_text_len(prefix);
                    assert(s@.subrange(start as int, i + 1) =~= cur.push(s@[i as int]));
                    assert(done@.map(|k: int, e: EntryId| e@).push(
                        s@.subrange(start as int, i + 1),
                    ) =~= split_text(s@.take(i + 1)));
                }
            }
            i = i + 1;
        }
        let piece = s.substring_char(start, n);
        done.push(EntryId(piece.to_owned()));
        let r = Path(done);
        proof {
            assert(s@.take(n as int) =~= s@);
            assert(r@ =~= split_text(s@));
        }
        Ok(r)
    }
}

/// A configured pattern naming one exported path; matching is exact.
#[derive(Debug, Clone)]
pub struct PathPattern {
    pub path: Path,
}

impl PathPattern {
    /// The path the pattern names.
    pub fn into_path(self) -> (r: Path)
        ensures
            r@ == self.path@,
    {
        self.path
    }
}

/// Id of a column in a table.
#[derive(Debug, Clone, Copy, PartialEq, Eq, Structural, Hash)]
pub struct Col(pub u64);

impl Col {
    /// Builds a column id from a position.
    pub fn from_index(value: usize) -> (r: Col)
        ensures
            r.0 == value,
    {
        Col(value as u64)
    }
}

/// Id of a row in a table.
#[derive(Debug, Clone, Copy, PartialEq, Eq, Structural, Hash)]
pub struct Row(pub u64);

impl Row {
    /// Builds a row id from a position.
    pub fn from_index(value: usize) -> (r: Row)
        ensures
            r.0 == value,
    {
        Row(value as u64)
    }
}

/// A batch of dictionary changes, keyed by entry name.
#[derive(Debug, Clone)]
pub struct DictUpdate {
    pub map: Vec<(String, String)>,
}

/// A change of the set of entries below a node.
#[derive(Debug, Clone)]
pub enum EntryUpdate {
    Add { name: EntryId },
    Remove { name: EntryId },
}

/// A change of a table stream.
#[derive(Debug, Clone)]
pub enum TableUpdate {
    AddCol { col: Col, alias: Option<String> },
    DelCol { col: Col },
    AddRow { row: Row, alias: Option<String> },
    DelRow { row: Row },
    SetCell { row: Row, col: Col, value: String },
}

/// The kind of a stream, a dotted name carrying a version token
/// (`name.vN`).
#[derive(Debug, Hash)]
pub struct StreamType(String);

impl View for StreamType {
    type V = Seq<char>;

    closed spec fn view(&self) -> Seq<char> {
        self.0@
    }
}

impl Clone for StreamType {
    fn clone(&self) -> (r: StreamType)
        ensures
            r@ == self@,
    {
        StreamType(self.0.clone())
    }
}

impl StreamType {
    /// Builds a stream type from its name.
    pub fn of_str(name: &str) -> (r: StreamType)
        ensures
            r@ == name@,
    {
        StreamType(name.to_owned())
    }

    /// The textual form of the stream type.
    pub fn as_str(&self) -> (r: &str)
        ensures
            r@ == self@,
    {
        self.0.as_str()
    }

    /// Whether the stream type's text is exactly `other`.
    pub fn matches_str(&self, other: &str) -> (r: bool)
        ensures
            r == (self@ == other@),
    {
        self.0 == other.to_owned()
    }
}

impl PartialEq for StreamType {
    fn eq(&self, other: &StreamType) -> bool {
        self.0 == other.0
    }
}

impl vstd::std_specs::cmp::PartialEqSpecImpl for StreamType {
    open spec fn obeys_eq_spec() -> bool {
        true
    }

    open spec fn eq_spec(&self, other: &StreamType) -> bool {
        self@ == other@
    }
}

/// The kind of an entry in the naming hierarchy.
#[derive(Debug, Clone)]
pub enum EntryType {
    Node,
    Container,
    Provider,
    Stream(StreamType),
}

/// The text of an entry type, as the protocol prints it.
pub open spec fn entry_type_text(t: EntryType) -> Seq<char> {
    match t {
        EntryType::Node => "node"@,
        EntryType::Container => "container"@,
        EntryType::Provider => "provider"@,
        EntryType::Stream(stream_type) => "stream/"@ + stream_type@,
    }
}

impl EntryType {
    /// The printable form of the entry type.
    pub fn to_text(&self) -> (r: String)
        ensures
            r@ == entry_type_text(*self),
    {
        match self {
            EntryType::Node => {
                let r = "node".to_owned();
                r
            },
            EntryType::Container => {
                let r = "container".to_owned();
                r
            },
            EntryType::Provider => {
                let r = "provider".to_owned();
                r
            },
            EntryType::Stream(stream_type) => {
                let mut r = "stream/".to_owned();
                r.append(stream_type.as_str());
                r
            },
        }
    }
}

/// Packed flow metadata: an opaque byte string produced by a metric codec.
#[derive(Debug)]
pub struct PackedMetric(pub Vec<u8>);

impl Clone for PackedMetric {
    fn clone(&self) -> (r: PackedMetric)
        ensures
            r@ == self@,
    {
        let bytes = self.0.clone();
        proof {
            assert(forall|i: int| 0 <= i < bytes@.len() ==> #[trigger] bytes@[i] == self.0@[i]);
            assert(bytes@ =~= self.0@);
        }
        PackedMetric(bytes)
    }
}

impl View for PackedMetric {
    type V = Seq<u8>;

    open spec fn view(&self) -> Seq<u8> {
        self.0@
    }
}

/// Packed stream state: an opaque byte string produced by a flow codec.
#[derive(Debug)]
pub struct PackedState(pub Vec<u8>);

impl Clone for PackedState {
    fn clone(&self) -> (r: PackedState)
        ensures
            r@ == self@,
    {
        let bytes = self.0.clone();
        proof {
            assert(forall|i: int| 0 <= i < bytes@.len() ==> #[trigger] bytes@[i] == self.0@[i]);
            assert(bytes@ =~= self.0@);
        }
        PackedState(bytes)
    }
}

impl View for PackedState {
    type V = Seq<u8>;

    open spec fn view(&self) -> Seq<u8> {
        self.0@
    }
}

/// A packed delta: an ordered batch of timed events, as bytes.
#[derive(Debug)]
pub struct PackedDelta(pub Vec<u8>);

impl Clone for PackedDelta {
    fn clone(&self) -> (r: PackedDelta)
        ensures
            r@ == self@,
    {
        let bytes = self.0.clone();
        proof {
            assert(forall|i: int| 0 <= i < bytes@.len() ==> #[trigger] bytes@[i] == self.0@[i]);
            assert(bytes@ =~= self.0@);
        }
        PackedDelta(bytes)
    }
}

impl View for PackedDelta {
    type V = Seq<u8>;

    open spec fn view(&self) -> Seq<u8> {
        self.0@
    }
}

/// A packed client action, as bytes.
#[derive(Debug)]
pub struct PackedAction(pub Vec<u8>);

impl Clone for PackedAction {
    fn clone(&self) -> (r: PackedAction)
        ensures
            r@ == self@,
    {
        let bytes = self.0.clone();
        proof {
            assert(forall|i: int| 0 <= i < bytes@.len() ==> #[trigger] bytes@[i] == self.0@[i]);
            assert(bytes@ =~= self.0@);
        }
        PackedAction(bytes)
    }
}

impl View for PackedAction {
    type V = Seq<u8>;

    open spec fn view(&self) -> Seq<u8> {
        self.0@
    }
}

/// The immutable published description of one stream.
#[derive(Debug)]
pub struct Description {
    pub path: Path,
    pub info: String,
    pub stream_type: StreamType,
    pub metadata: PackedMetric,
}

/// The abstract value of a description.
pub ghost struct DescriptionV {
    pub path: Seq<Seq<char>>,
    pub info: Seq<char>,
    pub stream_type: Seq<char>,
    pub metadata: Seq<u8>,
}

impl View for Description {
    type V = DescriptionV;

    open spec fn view(&self) -> DescriptionV {
        DescriptionV {
            path: self.path@,
            info: self.info@,
            stream_type: self.stream_type@,
            metadata: self.metadata@,
        }
    }
}

impl Clone for Description {
    fn clone(&self) -> (r: Description)
        ensures
            r@ == self@,
    {
        Description {
            path: self.path.clone(),
            info: self.info.clone(),
            stream_type: self.stream_type.clone(),
            metadata: self.metadata.clone(),
        }
    }
}

/// The marker type of the provider protocol, the origin of its direct ids.
#[derive(Debug, Clone, Copy, PartialEq, Eq, Structural, Hash)]
pub struct ProviderProtocol;

impl Default for ProviderProtocol {
    fn default() -> (r: ProviderProtocol)
        ensures
            r == (ProviderProtocol),
    {
        ProviderProtocol
    }
}

/// Whether a subscriber starts or stops one stream.
#[derive(Debug, Clone, Copy, PartialEq, Eq, Structural)]
pub enum FlowControl {
    StartStream,
    StopStream,
}

/// A one-shot action of a subscriber on one stream.
#[derive(Debug, Clone)]
pub enum RecorderAction {
    GetSnapshot,
    GetFlow,
    DoEvent(PackedAction),
}

/// A request routed to the recorder of one stream.
#[derive(Debug, Clone)]
pub enum RecorderRequest {
    ControlStream(FlowControl),
    Action(RecorderAction),
}

/// Requests of the remote server to this provider.
#[derive(Debug, Clone)]
pub enum ServerToProvider {
    /// Turns on notifications about every added path.
    Describe { active: bool },
    ControlStream { path: Path, active: bool },
    GetSnapshot { path: Path },
}

/// Responses and data of this provider to the remote server.
#[derive(Debug, Clone)]
pub enum ProviderToServer {
    Declare { entry_id: EntryId },
    Description { list: Vec<Description> },
    Entries { entries: Vec<(EntryId, EntryType)> },
    /// The response to `ControlStream { active: true }`.
    State { state: PackedState },
    Data { delta: PackedDelta },
    EndStream,
    Error { reason: String },
}

/// Lexicographic order on text from position `i`, by scalar value; a
/// proper prefix sorts first.
pub open spec fn chars_lt_from(a: Seq<char>, b: Seq<char>, i: int) -> bool
    decreases b.len() - i,
{
    if i >= b.len() {
        false
    } else if i >= a.len() {
        true
    } else if a[i] != b[i] {
        (a[i] as u32) < (b[i] as u32)
    } else {
        chars_lt_from(a, b, i + 1)
    }
}

/// Lexicographic order on text.
pub open spec fn chars_lt(a: Seq<char>, b: Seq<char>) -> bool {
    chars_lt_from(a, b, 0)
}

/// Lexicographic order on paths from segment `i`: segments compare as
/// text, a proper prefix sorts first.
pub open spec fn path_lt_from(a: Seq<Seq<char>>, b: Seq<Seq<char>>, i: int) -> bool
    decreases b.len() - i,
{
    if i >= b.len() {
        false
    } else if i >= a.len() {
        true
    } else if a[i] != b[i] {
        chars_lt(a[i], b[i])
    } else {
        path_lt_from(a, b, i + 1)
    }
}

/// Lexicographic order on paths, the order streams list in.
pub open spec fn path_lt(a: Seq<Seq<char>>, b: Seq<Seq<char>>) -> bool {
    path_lt_from(a, b, 0)
}

/// No text sorts before itself.
pub proof fn lemma_chars_lt_irrefl(a: Seq<char>, i: int)
    ensures
        !chars_lt_from(a, a, i),
    decreases a.len() - i,
{
    if i < a.len() {
        lemma_chars_lt_irrefl(a, i + 1);
    }
}

/// Two texts equal up to `i` are ordered one way or the other, or they
/// are the same text.
pub proof fn lemma_chars_lt_total(a: Seq<char>, b: Seq<char>, i: int)
    requires
        0 <= i <= a.len(),
        i <= b.len(),
        forall|k: int| 0 <= k < i ==> a[k] == b[k],
    ensures
        chars_lt_from(a, b, i) || chars_lt_from(b, a, i) || a == b,
    decreases b.len() - i,
{
    if i >= b.len() {
        if i >= a.len() {
            assert(a =~= b);
        }
    } else if i >= a.len() {
    } else if a[i] != b[i] {
        vstd::utf8::char_u32_cast(a[i], a[i] as u32);
        vstd::utf8::char_u32_cast(b[i], b[i] as u32);
        assert((a[i] as u32) != (b[i] as u32));
    } else {
        lemma_chars_lt_total(a, b, i + 1);
    }
}

/// The order on text carries over a shared smaller text.
pub proof fn lemma_chars_lt_trans(a: Seq<char>, b: Seq<char>, c: Seq<char>, i: int)
    requires
        0 <= i,
        chars_lt_from(a, b, i),
        chars_lt_from(b, c, i),
    ensures
        chars_lt_from(a, c, i),
    decreases c.len() - i,
{
    if i >= a.len() {
    } else if a[i] == b[i] {
        if b[i] == c[i] {
            lemma_chars_lt_trans(a, b, c, i + 1);
        }
    }
}

/// No path sorts before itself.
pub proof fn lemma_path_lt_irrefl(a: Seq<Seq<char>>, i: int)
    ensures
        !path_lt_from(a, a, i),
    decreases a.len() - i,
{
    if i < a.len() {
        lemma_chars_lt_irrefl(a[i], 0);
        lemma_path_lt_irrefl(a, i + 1);
    }
}

/// Two paths equal up to segment `i` are ordered one way or the other,
/// or they are the same path.
pub proof fn lemma_path_lt_total(a: Seq<Seq<char>>, b: Seq<Seq<char>>, i: int)
    requires
        0 <= i <= a.len(),
        i <= b.len(),
        forall|k: int| 0 <= k < i ==> a[k] == b[k],
    ensures
        path_lt_from(a, b, i) || path_lt_from(b, a, i) || a == b,
    decreases b.len() - i,
{
    if i >= b.len() {
        if i >= a.len() {
            assert(a =~= b);
        }
    } else if i >= a.len() {
    } else if a[i] != b[i] {
        lemma_chars_lt_total(a[i], b[i], 0);
    } else {
        lemma_path_lt_total(a, b, i + 1);
    }
}

/// The order on paths carries over a shared smaller path.
pub proof fn lemma_path_lt_trans(a: Seq<Seq<char>>, b: Seq<Seq<char>>, c: Seq<Seq<char>>, i: int)
    requires
        0 <= i,
        path_lt_from(a, b, i),
        path_lt_from(b, c, i),
    ensures
        path_lt_from(a, c, i),
    decreases c.len() - i,
{
    if i >= a.len() {
    } else if a[i] == b[i] {
        if b[i] == c[i] {
            lemma_path_lt_trans(a, b, c, i + 1);
        }
    } else {
        if b[i] == c[i] {
        } else {
            lemma_chars_lt_trans(a[i], b[i], c[i], 0);
            if a[i] == c[i] {
                lemma_chars_lt_irrefl(a[i], 0);
            }
        }
    }
}

/// Whether one text sorts before another, from position `i`.
fn str_lt_from(a: &str, b: &str, i: usize) -> (r: bool)
    requires
        i <= a@.len(),
        i <= b@.len(),
    ensures
        r == chars_lt_from(a@, b@, i as int),
    decreases b@.len() - i,
{
    let bn = b.unicode_len();
    if i >= bn {
        return false;
    }
    let an = a.unicode_len();
    if i >= an {
        return true;
    }
    let ca = a.get_char(i);
    let cb = b.get_char(i);
    if ca != cb {
        (ca as u32) < (cb as u32)
    } else {
        str_lt_from(a, b, i + 1)
    }
}

impl Path {
    /// Whether this path sorts before the other, from segment `i`.
    fn before_from(&self, other: &Path, i: usize) -> (r: bool)
        requires
            i <= self@.len(),
            i <= other@.len(),
        ensures
            r == path_lt_from(self@, other@, i as int),
        decreases other@.len() - i,
    {
        if i >= other.len() {
            return false;
        }
        if i >= self.len() {
            return true;
        }
        let sa = self.get(i);
        let sb = other.get(i);
        if sa == sb {
            self.before_from(other, i + 1)
        } else {
            str_lt_from(sa.as_str(), sb.as_str(), 0)
        }
    }

    /// Whether this path sorts before the other, in the lexicographic
    /// order streams list in.
    pub fn before(&self, other: &Path) -> (r: bool)
        ensures
            r == path_lt(self@, other@),
    {
        self.before_from(other, 0)
    }
}

} // verus!
