//! Trace-point metadata: the kinds of instrumentation points, the info record
//! embedded in a binary's symbol names as JSON, and its decoding.

use vstd::prelude::*;

verus! {

/// Runtime id of a trace point: the address of its symbol within the
/// dedicated binary section.
pub type TracePointId = u8;

/// Kind of enter/exit point pairs.
/// - `AsyncInstantiation` points cover the lifecycle of an instrumented async
///   fn from the initial call until the future is dropped.
/// - `AsyncPoll` points cover each poll of the future.
/// - `Generic` points come from free-standing instrumentation.
#[derive(PartialEq, Eq, Structural, Debug, Clone, Copy)]
pub enum TracePointPairKind {
    SyncCall,
    AsyncInstantiation,
    AsyncPoll,
    Generic,
}

/// Kind of one specific instrumentation point.
#[derive(PartialEq, Eq, Structural, Debug, Clone, Copy, Hash)]
pub enum TracePointKind {
    SyncEnter,
    SyncExit,
    AsyncEnter,
    AsyncExit,
    AsyncPollEnter,
    AsyncPollExit,
    GenericEnter,
    GenericExit,
}

/// Metadata of one trace point, as serialized into its symbol name.
#[derive(PartialEq, Eq, Debug, Hash)]
pub struct TracePointInfo {
    pub kind: TracePointKind,
    pub name: Option<String>,
    pub comment: Option<String>,
    pub skip: Option<u32>,
    pub id: u64,
}

/// Trace-point metadata enriched with the source location recovered from the
/// binary's debug info.
#[derive(PartialEq, Eq, Debug)]
pub struct TracePointDataWithLocation {
    pub info: TracePointInfo,
    pub path: Option<String>,
    pub file_name: Option<String>,
    pub line: Option<u64>,
}

pub open spec fn spec_is_enter(k: TracePointKind) -> bool {
    match k {
        TracePointKind::SyncEnter
        | TracePointKind::AsyncEnter
        | TracePointKind::AsyncPollEnter
        | TracePointKind::GenericEnter => true,
        TracePointKind::SyncExit
        | TracePointKind::AsyncExit
        | TracePointKind::AsyncPollExit
        | TracePointKind::GenericExit => false,
    }
}

pub open spec fn spec_pair_of(k: TracePointKind) -> TracePointPairKind {
    match k {
        TracePointKind::SyncEnter | TracePointKind::SyncExit => TracePointPairKind::SyncCall,
        TracePointKind::AsyncEnter | TracePointKind::AsyncExit => TracePointPairKind::AsyncInstantiation,
        TracePointKind::AsyncPollEnter | TracePointKind::AsyncPollExit => TracePointPairKind::AsyncPoll,
        TracePointKind::GenericEnter | TracePointKind::GenericExit => TracePointPairKind::Generic,
    }
}

pub open spec fn spec_enter_point(pk: TracePointPairKind) -> TracePointKind {
    match pk {
        TracePointPairKind::SyncCall => TracePointKind::SyncEnter,
        TracePointPairKind::AsyncInstantiation => TracePointKind::AsyncEnter,
        TracePointPairKind::AsyncPoll => TracePointKind::AsyncPollEnter,
        TracePointPairKind::Generic => TracePointKind::GenericEnter,
    }
}

pub open spec fn spec_exit_point(pk: TracePointPairKind) -> TracePointKind {
    match pk {
        TracePointPairKind::SyncCall => TracePointKind::SyncExit,
        TracePointPairKind::AsyncInstantiation => TracePointKind::AsyncExit,
        TracePointPairKind::AsyncPoll => TracePointKind::AsyncPollExit,
        TracePointPairKind::Generic => TracePointKind::GenericExit,
    }
}

impl TracePointKind {
    pub fn is_enter(&self) -> (r: bool)
        ensures
            r == spec_is_enter(*self),
    {
        match self {
            TracePointKind::SyncEnter
            | TracePointKind::AsyncEnter
            | TracePointKind::AsyncPollEnter
            | TracePointKind::GenericEnter => true,
            TracePointKind::SyncExit
            | TracePointKind::AsyncExit
            | TracePointKind::AsyncPollExit
            | TracePointKind::GenericExit => false,
        }
    }

    pub fn is_exit(&self) -> (r: bool)
        ensures
            r == !spec_is_enter(*self),
    {
        !self.is_enter()
    }

    /// The label of the kind, as its symbol-name serialization spells it.
    pub fn label(&self) -> (r: String)
        ensures
            r@ == spec_kind_label(*self),
    {
        match self {
            TracePointKind::SyncEnter => "SyncEnter".to_owned(),
            TracePointKind::SyncExit => "SyncExit".to_owned(),
            TracePointKind::AsyncEnter => "AsyncEnter".to_owned(),
            TracePointKind::AsyncExit => "AsyncExit".to_owned(),
            TracePointKind::AsyncPollEnter => "AsyncPollEnter".to_owned(),
            TracePointKind::AsyncPollExit => "AsyncPollExit".to_owned(),
            TracePointKind::GenericEnter => "GenericEnter".to_owned(),
            TracePointKind::GenericExit => "GenericExit".to_owned(),
        }
    }
}

pub open spec fn spec_kind_label(k: TracePointKind) -> Seq<char> {
    match k {
        TracePointKind::SyncEnter => "SyncEnter"@,
        TracePointKind::SyncExit => "SyncExit"@,
        TracePointKind::AsyncEnter => "AsyncEnter"@,
        TracePointKind::AsyncExit => "AsyncExit"@,
        TracePointKind::AsyncPollEnter => "AsyncPollEnter"@,
        TracePointKind::AsyncPollExit => "AsyncPollExit"@,
        TracePointKind::GenericEnter => "GenericEnter"@,
        TracePointKind::GenericExit => "GenericExit"@,
    }
}

/// The kind named by a label, if any: the inverse of [`spec_kind_label`].
pub open spec fn spec_kind_of_label(s: Seq<char>) -> Option<TracePointKind> {
    if s == "SyncEnter"@ {
        Some(TracePointKind::SyncEnter)
    } else if s == "SyncExit"@ {
        Some(TracePointKind::SyncExit)
    } else if s == "AsyncEnter"@ {
        Some(TracePointKind::AsyncEnter)
    } else if s == "AsyncExit"@ {
        Some(TracePointKind::AsyncExit)
    } else if s == "AsyncPollEnter"@ {
        Some(TracePointKind::AsyncPollEnter)
    } else if s == "AsyncPollExit"@ {
        Some(TracePointKind::AsyncPollExit)
    } else if s == "GenericEnter"@ {
        Some(TracePointKind::GenericEnter)
    } else if s == "GenericExit"@ {
        Some(TracePointKind::GenericExit)
    } else {
        None
    }
}

/// The kind a label names.
pub fn kind_of_label(s: &str) -> (r: Option<TracePointKind>)
    ensures
        r == spec_kind_of_label(s@),
{
    let owned: String = s.to_owned();
    if owned == "SyncEnter".to_owned() {
        Some(TracePointKind::SyncEnter)
    } else if owned == "SyncExit".to_owned() {
        Some(TracePointKind::SyncExit)
    } else if owned == "AsyncEnter".to_owned() {
        Some(TracePointKind::AsyncEnter)
    } else if owned == "AsyncExit".to_owned() {
        Some(TracePointKind::AsyncExit)
    } else if owned == "AsyncPollEnter".to_owned() {
        Some(TracePointKind::AsyncPollEnter)
    } else if owned == "AsyncPollExit".to_owned() {
        Some(TracePointKind::AsyncPollExit)
    } else if owned == "GenericEnter".to_owned() {
        Some(TracePointKind::GenericEnter)
    } else if owned == "GenericExit".to_owned() {
        Some(TracePointKind::GenericExit)
    } else {
        None
    }
}

impl From<TracePointKind> for TracePointPairKind {
    fn from(v: TracePointKind) -> (r: TracePointPairKind) {
        match v {
            TracePointKind::SyncEnter | TracePointKind::SyncExit => TracePointPairKind::SyncCall,
            TracePointKind::AsyncEnter | TracePointKind::AsyncExit => TracePointPairKind::AsyncInstantiation,
            TracePointKind::AsyncPollEnter | TracePointKind::AsyncPollExit => TracePointPairKind::AsyncPoll,
            TracePointKind::GenericEnter | TracePointKind::GenericExit => TracePointPairKind::Generic,
        }
    }
}

impl vstd::std_specs::convert::FromSpecImpl<TracePointKind> for TracePointPairKind {
    open spec fn obeys_from_spec() -> bool {
        true
    }

    open spec fn from_spec(v: TracePointKind) -> TracePointPairKind {
        spec_pair_of(v)
    }
}

impl TracePointPairKind {
    pub fn enter_point(&self) -> (r: TracePointKind)
        ensures
            r == spec_enter_point(*self),
            spec_pair_of(r) == *self,
            spec_is_enter(r),
    {
        match self {
            TracePointPairKind::SyncCall => TracePointKind::SyncEnter,
            TracePointPairKind::AsyncInstantiation => TracePointKind::AsyncEnter,
            TracePointPairKind::AsyncPoll => TracePointKind::AsyncPollEnter,
            TracePointPairKind::Generic => TracePointKind::GenericEnter,
        }
    }

    pub fn exit_point(&self) -> (r: TracePointKind)
        ensures
            r == spec_exit_point(*self),
            spec_pair_of(r) == *self,
            !spec_is_enter(r),
    {
        match self {
            TracePointPairKind::SyncCall => TracePointKind::SyncExit,
            TracePointPairKind::AsyncInstantiation => TracePointKind::AsyncExit,
            TracePointPairKind::AsyncPoll => TracePointKind::AsyncPollExit,
            TracePointPairKind::Generic => TracePointKind::GenericExit,
        }
    }
}

impl Clone for TracePointInfo {
    fn clone(&self) -> (r: Self)
        ensures
            r == *self,
    {
        TracePointInfo {
            kind: self.kind,
            name: match &self.name {
                Some(s) => Some(s.clone()),
                None => None,
            },
            comment: match &self.comment {
                Some(s) => Some(s.clone()),
                None => None,
            },
            skip: self.skip,
            id: self.id,
        }
    }
}

impl Clone for TracePointDataWithLocation {
    fn clone(&self) -> (r: Self)
        ensures
            r == *self,
    {
        TracePointDataWithLocation {
            info: self.info.clone(),
            path: match &self.path {
                Some(s) => Some(s.clone()),
                None => None,
            },
            file_name: match &self.file_name {
                Some(s) => Some(s.clone()),
                None => None,
            },
            line: self.line,
        }
    }
}

/// Failure to recover a [`TracePointInfo`] from a symbol name.
#[derive(PartialEq, Eq, Structural, Debug, Clone, Copy)]
pub enum MetadataError {
    Malformed,
}

/// The fields that the JSON serialization of a [`TracePointInfo`] carries,
/// with the kind still a label: what decoding a symbol name yields, a
/// function of the name alone.
pub uninterp spec fn json_tp_fields(s: Seq<char>) -> Option<
    (Seq<char>, Option<Seq<char>>, Option<Seq<char>>, Option<u32>, u64),
>;

/// Relies on `serde_json::from_str::<serde_json::Value>` and the `Value`
/// accessors `get`, `as_str`, `as_u64` and `is_null`: parsing is
/// deterministic, so the decoded `kind`/`name`/`comment`/`skip`/`id` fields
/// depend on the input string alone.
#[verifier::external_body]
fn decode_info_json(s: &str) -> (r: Option<
    (String, Option<String>, Option<String>, Option<u32>, u64),
>)
    ensures
        r.deep_view() == json_tp_fields(s@),
{
    let v: serde_json::Value = serde_json::from_str(s).ok()?;
    let kind = v.get("kind")?.as_str()?.to_owned();
    let name_v = v.get("name")?;
    let name = if name_v.is_null() { None } else { Some(name_v.as_str()?.to_owned()) };
    let comment_v = v.get("comment")?;
    let comment = if comment_v.is_null() { None } else { Some(comment_v.as_str()?.to_owned()) };
    let skip_v = v.get("skip")?;
    let skip = if skip_v.is_null() { None } else { Some(u32::try_from(skip_v.as_u64()?).ok()?) };
    let id = v.get("id")?.as_u64()?;
    Some((kind, name, comment, skip, id))
}

/// Whether a symbol name decodes to a trace-point info record.
pub open spec fn spec_decodes_to_info(s: Seq<char>) -> bool {
    &&& json_tp_fields(s) is Some
    &&& spec_kind_of_label(json_tp_fields(s).unwrap().0) is Some
}

/// The record a symbol name decodes to, when [`spec_decodes_to_info`] holds.
pub open spec fn spec_info_matches(s: Seq<char>, info: TracePointInfo) -> bool {
    &&& json_tp_fields(s) matches Some(f)
    &&& Some(info.kind) == spec_kind_of_label(f.0)
    &&& info.name.deep_view() == f.1
    &&& info.comment.deep_view() == f.2
    &&& info.skip == f.3
    &&& info.id == f.4
}

impl TracePointInfo {
    /// Decode a trace-point record from the exported symbol name that carries
    /// it: undo the name escaping, then read the JSON fields.
    pub fn from_mangled_string(s: &str) -> (r: Result<TracePointInfo, MetadataError>)
        ensures
            (r is Ok) <==> spec_decodes_to_info(s@),
            r matches Ok(info) ==> spec_info_matches(s@, info),
    {
        let unescaped = unescape(s);
        match decode_info_json(unescaped.as_str()) {
            None => Err(MetadataError::Malformed),
            Some((kind_label, name, comment, skip, id)) => {
                match kind_of_label(kind_label.as_str()) {
                    None => Err(MetadataError::Malformed),
                    Some(kind) => Ok(TracePointInfo { kind, name, comment, skip, id }),
                }
            },
        }
    }
}

/// Relies on `String::push`: appends the given char to the end of the
/// string; vstd leaves it unspecified.
pub assume_specification[ String::push ](s: &mut String, ch: char)
    ensures
        final(s)@ == old(s)@.push(ch),
;

/// Relies on `str::chars`: the characters of the string, in order — the
/// string's view, as a vector.
#[verifier::external_body]
fn chars_of(s: &str) -> (r: Vec<char>)
    ensures
        r@ == s@,
{
    s.chars().collect()
}

/// The hex digit character for a value below 16, lower case.
pub open spec fn spec_hex_digit(n: int) -> char {
    if n == 0 {
        '0'
    } else if n == 1 {
        '1'
    } else if n == 2 {
        '2'
    } else if n == 3 {
        '3'
    } else if n == 4 {
        '4'
    } else if n == 5 {
        '5'
    } else if n == 6 {
        '6'
    } else if n == 7 {
        '7'
    } else if n == 8 {
        '8'
    } else if n == 9 {
        '9'
    } else if n == 10 {
        'a'
    } else if n == 11 {
        'b'
    } else if n == 12 {
        'c'
    } else if n == 13 {
        'd'
    } else if n == 14 {
        'e'
    } else {
        'f'
    }
}

/// The JSON string escape of one character: quote and backslash get a
/// backslash, the named control characters their short forms, the remaining
/// control characters a `\u00xx` escape; everything else stands as it is.
pub open spec fn spec_escape_char(c: char) -> Seq<char> {
    if c == '"' {
        seq!['\\', '"']
    } else if c == '\\' {
        seq!['\\', '\\']
    } else if c == '\u{08}' {
        seq!['\\', 'b']
    } else if c == '\u{09}' {
        seq!['\\', 't']
    } else if c == '\u{0A}' {
        seq!['\\', 'n']
    } else if c == '\u{0C}' {
        seq!['\\', 'f']
    } else if c == '\u{0D}' {
        seq!['\\', 'r']
    } else if (c as u32) < 0x20 {
        seq![
            '\\',
            'u',
            '0',
            '0',
            spec_hex_digit(((c as u32) / 16) as int),
            spec_hex_digit(((c as u32) % 16) as int),
        ]
    } else {
        seq![c]
    }
}

/// The JSON string escape of a character sequence.
pub open spec fn spec_json_escape(s: Seq<char>) -> Seq<char>
    decreases s.len(),
{
    if s.len() == 0 {
        Seq::<char>::empty()
    } else {
        spec_escape_char(s[0]) + spec_json_escape(s.skip(1))
    }
}

/// The decimal digits of a number, most significant first.
pub open spec fn spec_dec_digits(n: nat) -> Seq<char>
    decreases n,
{
    if n < 10 {
        seq![spec_hex_digit(n as int)]
    } else {
        spec_dec_digits(n / 10) + seq![spec_hex_digit((n % 10) as int)]
    }
}

/// A JSON string: the escaped characters between quotes.
pub open spec fn spec_quoted(s: Seq<char>) -> Seq<char> {
    seq!['"'] + spec_json_escape(s) + seq!['"']
}

/// An optional string field's JSON value.
pub open spec fn spec_opt_string_json(o: Option<Seq<char>>) -> Seq<char> {
    match o {
        Some(s) => spec_quoted(s),
        None => "null"@,
    }
}

/// An optional number field's JSON value.
pub open spec fn spec_opt_u32_json(o: Option<u32>) -> Seq<char> {
    match o {
        Some(n) => spec_dec_digits(n as nat),
        None => "null"@,
    }
}

/// The symbol-name serialization of a record: one JSON object, fields in
/// declaration order, the kind spelled by its label.
pub open spec fn spec_info_json(info: TracePointInfo) -> Seq<char> {
    "{\"kind\":\""@ + spec_kind_label(info.kind) + "\",\"name\":"@ + spec_opt_string_json(
        info.name.deep_view(),
    ) + ",\"comment\":"@ + spec_opt_string_json(info.comment.deep_view()) + ",\"skip\":"@
        + spec_opt_u32_json(info.skip) + ",\"id\":"@ + spec_dec_digits(info.id as nat) + "}"@
}

fn push_hex_digit(out: &mut String, n: u32)
    requires
        n < 16,
    ensures
        final(out)@ == old(out)@.push(spec_hex_digit(n as int)),
{
    let c: char = if n == 0 {
        '0'
    } else if n == 1 {
        '1'
    } else if n == 2 {
        '2'
    } else if n == 3 {
        '3'
    } else if n == 4 {
        '4'
    } else if n == 5 {
        '5'
    } else if n == 6 {
        '6'
    } else if n == 7 {
        '7'
    } else if n == 8 {
        '8'
    } else if n == 9 {
        '9'
    } else if n == 10 {
        'a'
    } else if n == 11 {
        'b'
    } else if n == 12 {
        'c'
    } else if n == 13 {
        'd'
    } else if n == 14 {
        'e'
    } else {
        'f'
    };
    out.push(c);
}

fn push_dec_u64(out: &mut String, n: u64)
    ensures
        final(out)@ == old(out)@ + spec_dec_digits(n as nat),
    decreases n,
{
    if n < 10 {
        push_hex_digit(out, n as u32);
        proof {
            assert(final(out)@ =~= old(out)@ + spec_dec_digits(n as nat));
        }
    } else {
        push_dec_u64(out, n / 10);
        push_hex_digit(out, (n % 10) as u32);
        proof {
            assert(final(out)@ =~= old(out)@ + spec_dec_digits(n as nat));
        }
    }
}

fn push_escaped(out: &mut String, s: &str)
    ensures
        final(out)@ == old(out)@ + spec_json_escape(s@),
{
    let cs = chars_of(s);
    let mut i: usize = 0;
    proof {
        assert(cs@.skip(0) =~= cs@);
        assert(out@ + spec_json_escape(cs@) =~= old(out)@ + spec_json_escape(s@));
    }
    while i < cs.len()
        invariant
            i <= cs@.len(),
            out@ + spec_json_escape(cs@.skip(i as int)) == old(out)@ + spec_json_escape(s@),
        decreases cs@.len() - i,
    {
        let ghost pre = out@;
        let c = cs[i];
        proof {
            assert(cs@.skip(i as int)[0] == c);
            assert(cs@.skip(i as int).skip(1) =~= cs@.skip(i as int + 1));
        }
        if c == '"' {
            out.push('\\');
            out.push('"');
        } else if c == '\\' {
            out.push('\\');
            out.push('\\');
        } else if c == '\u{08}' {
            out.push('\\');
            out.push('b');
        } else if c == '\u{09}' {
            out.push('\\');
            out.push('t');
        } else if c == '\u{0A}' {
            out.push('\\');
            out.push('n');
        } else if c == '\u{0C}' {
            out.push('\\');
            out.push('f');
        } else if c == '\u{0D}' {
            out.push('\\');
            out.push('r');
        } else if (c as u32) < 0x20 {
            out.push('\\');
            out.push('u');
            out.push('0');
            out.push('0');
            push_hex_digit(out, (c as u32) / 16);
            push_hex_digit(out, (c as u32) % 16);
        } else {
            out.push(c);
        }
        proof {
            assert(out@ =~= pre + spec_escape_char(c));
            assert(out@ + spec_json_escape(cs@.skip(i as int + 1)) =~= (pre + spec_escape_char(c))
                + spec_json_escape(cs@.skip(i as int + 1)));
            assert((pre + spec_escape_char(c)) + spec_json_escape(cs@.skip(i as int + 1)) =~= pre
                + spec_json_escape(cs@.skip(i as int)));
        }
        i = i + 1;
    }
    proof {
        assert(cs@.skip(cs@.len() as int) =~= Seq::<char>::empty());
        assert(out@ =~= out@ + spec_json_escape(cs@.skip(cs@.len() as int)));
    }
}

fn push_opt_string_json(out: &mut String, o: &Option<String>)
    ensures
        final(out)@ == old(out)@ + spec_opt_string_json(o.deep_view()),
{
    match o {
        Some(s) => {
            out.append("\"");
            push_escaped(out, s.as_str());
            out.append("\"");
            proof {
                reveal_strlit("\"");
                assert("\""@ =~= seq!['"']);
                assert(out@ =~= old(out)@ + spec_quoted(s@));
            }
        },
        None => {
            out.append("null");
        },
    }
}

impl TracePointInfo {
    /// Serialize the record into the name its symbol exports: the JSON
    /// object of its fields, then the (identity) name escaping.
    pub fn to_escaped_string(&self) -> (r: String)
        ensures
            r@ == spec_info_json(*self),
    {
        let mut out = String::new();
        out.append("{\"kind\":\"");
        let label = self.kind.label();
        out.append(label.as_str());
        out.append("\",\"name\":");
        push_opt_string_json(&mut out, &self.name);
        out.append(",\"comment\":");
        push_opt_string_json(&mut out, &self.comment);
        out.append(",\"skip\":");
        match self.skip {
            Some(n) => push_dec_u64(&mut out, n as u64),
            None => out.append("null"),
        }
        out.append(",\"id\":");
        push_dec_u64(&mut out, self.id);
        out.append("}");
        proof {
            assert(out@ =~= spec_info_json(*self));
        }
        let escaped = escape(out.as_str());
        escaped
    }
}

/// Symbol-name escaping of the serialized record; the identity mapping.
pub fn escape(inp: &str) -> (r: String)
    ensures
        r@ == inp@,
{
    inp.to_owned()
}

/// Inverse of [`escape`]; the identity mapping.
pub fn unescape(inp: &str) -> (r: String)
    ensures
        r@ == inp@,
{
    inp.to_owned()
}

} // verus!
