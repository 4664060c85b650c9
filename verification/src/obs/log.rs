//! Structured records, one JSON object per line.
//!
//! The keys of a record stand in a fixed order: the time stamp, the level
//! where there is one, the event, then the caller's fields in call order.

use crate::obs::clock::now_stamp;
use crate::text;
use crate::text::{bool_str, chars_of, push_decimal, push_hex, push_signed_decimal, same_text};
use vstd::prelude::*;
use vstd::string::StringExecFns;

verus! {

/// Severity, from the least verbose to the most: `Error < Warn < Info`. A
/// record is kept where it is no more verbose than the filter.
#[derive(Clone, Copy, PartialEq, Eq, PartialOrd, Ord, Debug, Structural)]
pub enum LogLevel {
    Error,
    Warn,
    Info,
}

impl Default for LogLevel {
    fn default() -> (l: Self)
        ensures
            l == LogLevel::Info,
    {
        LogLevel::Info
    }
}

impl LogLevel {
    /// How verbose the level is.
    pub open spec fn verbosity(self) -> int {
        match self {
            LogLevel::Error => 0,
            LogLevel::Warn => 1,
            LogLevel::Info => 2,
        }
    }

    /// The level's name.
    pub open spec fn name(self) -> Seq<char> {
        match self {
            LogLevel::Error => "error"@,
            LogLevel::Warn => "warn"@,
            LogLevel::Info => "info"@,
        }
    }

    /// The level's name.
    pub fn as_json_str(self) -> (s: &'static str)
        ensures
            s@ == self.name(),
    {
        match self {
            LogLevel::Error => "error",
            LogLevel::Warn => "warn",
            LogLevel::Info => "info",
        }
    }

    /// The level's number, larger where it is more verbose.
    pub fn to_u8(self) -> (v: u8)
        ensures
            v == self.verbosity(),
    {
        match self {
            LogLevel::Error => 0,
            LogLevel::Warn => 1,
            LogLevel::Info => 2,
        }
    }

    /// The level of a number; whatever is none is the most verbose.
    pub fn from_u8(v: u8) -> (l: LogLevel)
        ensures
            l == level_of(v),
    {
        match v {
            0 => LogLevel::Error,
            1 => LogLevel::Warn,
            _ => LogLevel::Info,
        }
    }

    /// The level of a name.
    pub fn parse(s: &str) -> (r: Result<LogLevel, String>)
        ensures
            match r {
                Ok(l) => s@ == l.name(),
                Err(m) => {
                    &&& s@ != LogLevel::Error.name()
                    &&& s@ != LogLevel::Warn.name()
                    &&& s@ != LogLevel::Info.name()
                    &&& m@ == bad_level_text(s@)
                },
            },
    {
        if same_text(s, "error") {
            return Ok(LogLevel::Error);
        }
        if same_text(s, "warn") {
            return Ok(LogLevel::Warn);
        }
        if same_text(s, "info") {
            return Ok(LogLevel::Info);
        }
        let mut m = "log.level must be one of error|warn|info, got \"".to_owned();
        m.append(s);
        m.append("\"");
        Err(m)
    }
}

/// The refusal of a name that is no level.
pub open spec fn bad_level_text(s: Seq<char>) -> Seq<char> {
    "log.level must be one of error|warn|info, got \""@ + s + "\""@
}

/// A field's value.
#[derive(Debug, Clone, Copy)]
pub enum FieldValue<'a> {
    U64(u64),
    I64(i64),
    Bool(bool),
    /// A field that is there and has no value in this record.
    Null,
    Str(&'a str),
}

impl<'a> From<u64> for FieldValue<'a> {
    fn from(v: u64) -> (r: Self) {
        FieldValue::U64(v)
    }
}

impl<'a> vstd::std_specs::convert::FromSpecImpl<u64> for FieldValue<'a> {
    open spec fn obeys_from_spec() -> bool {
        true
    }

    open spec fn from_spec(v: u64) -> Self {
        FieldValue::U64(v)
    }
}

impl<'a> From<i64> for FieldValue<'a> {
    fn from(v: i64) -> (r: Self) {
        FieldValue::I64(v)
    }
}

impl<'a> vstd::std_specs::convert::FromSpecImpl<i64> for FieldValue<'a> {
    open spec fn obeys_from_spec() -> bool {
        true
    }

    open spec fn from_spec(v: i64) -> Self {
        FieldValue::I64(v)
    }
}

impl<'a> From<bool> for FieldValue<'a> {
    fn from(v: bool) -> (r: Self) {
        FieldValue::Bool(v)
    }
}

impl<'a> vstd::std_specs::convert::FromSpecImpl<bool> for FieldValue<'a> {
    open spec fn obeys_from_spec() -> bool {
        true
    }

    open spec fn from_spec(v: bool) -> Self {
        FieldValue::Bool(v)
    }
}

impl<'a> From<&'a str> for FieldValue<'a> {
    fn from(v: &'a str) -> (r: Self) {
        FieldValue::Str(v)
    }
}

impl<'a> vstd::std_specs::convert::FromSpecImpl<&'a str> for FieldValue<'a> {
    open spec fn obeys_from_spec() -> bool {
        true
    }

    open spec fn from_spec(v: &'a str) -> Self {
        FieldValue::Str(v)
    }
}

/// One key and its value.
#[derive(Debug, Clone, Copy)]
pub struct Field<'a> {
    pub key: &'static str,
    pub value: FieldValue<'a>,
}

/// A character inside a JSON string.
pub open spec fn escaped_char(c: char) -> Seq<char> {
    if c == '"' {
        seq!['\\', '"']
    } else if c == '\\' {
        seq!['\\', '\\']
    } else if (c as int) < 0x20 {
        seq!['\\', 'u'] + text::hex_digits(c as nat, 4)
    } else {
        seq![c]
    }
}

/// A text inside a JSON string.
pub open spec fn escaped(s: Seq<char>) -> Seq<char>
    decreases s.len(),
{
    if s.len() == 0 {
        Seq::empty()
    } else {
        escaped(s.drop_last()) + escaped_char(s.last())
    }
}

/// Append `c` as it stands inside a JSON string.
fn push_escaped_char(out: &mut String, c: char)
    ensures
        final(out)@ == old(out)@ + escaped_char(c),
{
    if c == '"' {
        out.push('\\');
        out.push('"');
    } else if c == '\\' {
        out.push('\\');
        out.push('\\');
    } else if ' ' > c {
        out.push('\\');
        out.push('u');
        push_hex(out, c as u64, 4);
    } else {
        out.push(c);
    }
    assert(out@ =~= old(out)@ + escaped_char(c));
}

/// Append `s` as it stands inside a JSON string.
pub fn push_json_escaped(out: &mut String, s: &str)
    ensures
        final(out)@ == old(out)@ + escaped(s@),
{
    let v = chars_of(s);
    let ghost before = out@;
    assert(s@.take(0) =~= Seq::<char>::empty());
    for i in 0..v.len()
        invariant
            v@ == s@,
            out@ == before + escaped(s@.take(i as int)),
    {
        let c = v[i];
        assert(s@.take(i as int + 1).drop_last() =~= s@.take(i as int));
        push_escaped_char(out, c);
        assert(out@ =~= before + escaped(s@.take(i as int + 1)));
    }
    assert(s@.take(s@.len() as int) =~= s@);
}

/// A value as JSON.
pub open spec fn value_text(v: FieldValue) -> Seq<char> {
    match v {
        FieldValue::U64(n) => text::digits(n as nat),
        FieldValue::I64(n) => text::signed_digits(n as int),
        FieldValue::Bool(b) => text::bool_text(b),
        FieldValue::Null => "null"@,
        FieldValue::Str(s) => seq!['"'] + escaped(s@) + seq!['"'],
    }
}

/// A field as it stands in a record: `,"key":value`.
pub open spec fn field_text(f: Field) -> Seq<char> {
    seq![',', '"'] + f.key@ + "\":"@ + value_text(f.value)
}

/// The fields of a record, in order.
pub open spec fn fields_text(fields: Seq<Field>) -> Seq<char>
    decreases fields.len(),
{
    if fields.len() == 0 {
        Seq::empty()
    } else {
        fields_text(fields.drop_last()) + field_text(fields.last())
    }
}

/// The level of a record, where it has one.
pub open spec fn level_text(level: Option<LogLevel>) -> Seq<char> {
    match level {
        Some(l) => ",\"level\":\""@ + l.name() + seq!['"'],
        None => Seq::empty(),
    }
}

/// A record as a line, without the line end.
pub open spec fn record_text(
    ts_ns: u128,
    level: Option<LogLevel>,
    event: Seq<char>,
    fields: Seq<Field>,
) -> Seq<char> {
    "{\"ts_ns\":"@ + text::digits(ts_ns as nat) + level_text(level) + ",\"event\":\""@ + escaped(
        event,
    ) + seq!['"'] + fields_text(fields) + seq!['}']
}

/// Append one field.
fn push_field(out: &mut String, f: &Field)
    ensures
        final(out)@ == old(out)@ + field_text(*f),
{
    let ghost before = out@;
    out.push(',');
    out.push('"');
    out.append(f.key);
    out.append("\":");
    let ghost head = out@;
    assert(head =~= before + (seq![',', '"'] + f.key@ + "\":"@));
    match f.value {
        FieldValue::U64(n) => {
            push_decimal(out, n as u128);
        },
        FieldValue::I64(n) => {
            push_signed_decimal(out, n);
        },
        FieldValue::Bool(b) => {
            out.append(bool_str(b));
        },
        FieldValue::Null => {
            out.append("null");
        },
        FieldValue::Str(s) => {
            out.push('"');
            push_json_escaped(out, s);
            out.push('"');
        },
    }
    assert(out@ =~= head + value_text(f.value));
    assert(out@ =~= before + field_text(*f));
}

/// A record as its line. One formatter serves the log stream and the audit
/// file, so that the two cannot drift apart.
pub fn format_line_at(
    ts_ns: u128,
    level: Option<LogLevel>,
    event: &str,
    fields: &Vec<Field>,
) -> (line: String)
    ensures
        line@ == record_text(ts_ns, level, event@, fields@).push('\n'),
{
    let mut line = "{\"ts_ns\":".to_owned();
    push_decimal(&mut line, ts_ns);
    let ghost first = line@;
    match level {
        Some(l) => {
            line.append(",\"level\":\"");
            line.append(l.as_json_str());
            line.push('"');
        },
        None => {},
    }
    assert(line@ =~= first + level_text(level));
    line.append(",\"event\":\"");
    push_json_escaped(&mut line, event);
    line.push('"');
    let ghost head = line@;
    assert(head =~= "{\"ts_ns\":"@ + text::digits(ts_ns as nat) + level_text(level)
        + ",\"event\":\""@ + escaped(event@) + seq!['"']);
    assert(fields@.take(0) =~= Seq::<Field>::empty());
    for i in 0..fields.len()
        invariant
            line@ == head + fields_text(fields@.take(i as int)),
    {
        assert(fields@.take(i as int + 1).drop_last() =~= fields@.take(i as int));
        push_field(&mut line, &fields[i]);
        assert(line@ =~= head + fields_text(fields@.take(i as int + 1)));
    }
    assert(fields@.take(fields@.len() as int) =~= fields@);
    line.push('}');
    line.push('\n');
    assert(line@ =~= record_text(ts_ns, level, event@, fields@).push('\n'));
    line
}

/// Where records go.
#[derive(Clone, Copy, PartialEq, Eq, Debug, Structural)]
pub enum Sink {
    Stderr,
    /// Into `captured`.
    Capture,
}

/// The log: its filter, its sink, and what was captured.
#[derive(Debug)]
pub struct EventLog {
    pub level: LogLevel,
    pub sink: Sink,
    pub captured: String,
}

impl EventLog {
    /// A log at the default level that writes to standard error.
    pub fn new() -> (log: EventLog)
        ensures
            log.level == LogLevel::Info,
            log.sink == Sink::Stderr,
            log.captured@ == Seq::<char>::empty(),
    {
        EventLog { level: LogLevel::Info, sink: Sink::Stderr, captured: String::new() }
    }
}

/// Set the filter. Records that are more verbose are dropped.
pub fn set_level(log: &mut EventLog, l: LogLevel)
    ensures
        *final(log) == (EventLog { level: l, ..*old(log) }),
{
    log.level = l;
}

/// The filter.
pub fn level(log: &EventLog) -> (l: LogLevel)
    ensures
        l == log.level,
{
    log.level
}

/// Capture records from here on, starting from nothing.
pub fn capture_for_tests(log: &mut EventLog)
    ensures
        final(log).level == old(log).level,
        final(log).sink == Sink::Capture,
        final(log).captured@ == Seq::<char>::empty(),
{
    log.sink = Sink::Capture;
    log.captured = String::new();
}

/// Write records to standard error from here on. What was captured stays.
pub fn stderr_for_tests(log: &mut EventLog)
    ensures
        *final(log) == (EventLog { sink: Sink::Stderr, ..*old(log) }),
{
    log.sink = Sink::Stderr;
}

/// Whether the filter keeps a record at `l`.
pub open spec fn keeps(filter: LogLevel, l: LogLevel) -> bool {
    l.verbosity() <= filter.verbosity()
}

/// Make a record with the time stamp `ts_ns`: captured, or returned as the
/// line to write to standard error. One that the filter drops is neither.
pub fn emit_at(
    log: &mut EventLog,
    ts_ns: u128,
    l: LogLevel,
    event: &str,
    fields: &Vec<Field>,
) -> (line: Option<String>)
    ensures
        ({
            let kept = keeps(old(log).level, l);
            let record = record_text(ts_ns, Some(l), event@, fields@).push('\n');
            &&& match line {
                Some(line) => kept && old(log).sink == Sink::Stderr && line@ == record,
                None => !kept || old(log).sink == Sink::Capture,
            }
            &&& final(log).level == old(log).level
            &&& final(log).sink == old(log).sink
            &&& final(log).captured@ == (if kept && old(log).sink == Sink::Capture {
                old(log).captured@ + record
            } else {
                old(log).captured@
            })
        }),
{
    if l.to_u8() > log.level.to_u8() {
        return None;
    }
    let line = format_line_at(ts_ns, Some(l), event, fields);
    match log.sink {
        Sink::Stderr => Some(line),
        Sink::Capture => {
            log.captured.append(line.as_str());
            None
        },
    }
}

/// Make a record now: [`emit_at`] with some time stamp.
pub fn emit(log: &mut EventLog, l: LogLevel, event: &str, fields: &Vec<Field>) -> (line: Option<
    String,
>)
    ensures
        exists|ts_ns: u128|
            {
                let kept = keeps(old(log).level, l);
                let record = (#[trigger] record_text(ts_ns, Some(l), event@, fields@)).push('\n');
                &&& match line {
                    Some(line) => kept && old(log).sink == Sink::Stderr && line@ == record,
                    None => !kept || old(log).sink == Sink::Capture,
                }
                &&& final(log).level == old(log).level
                &&& final(log).sink == old(log).sink
                &&& final(log).captured@ == (if kept && old(log).sink == Sink::Capture {
                    old(log).captured@ + record
                } else {
                    old(log).captured@
                })
            },
{
    let ts_ns: u128 = now_stamp();
    let line = emit_at(log, ts_ns, l, event, fields);
    assert(record_text(ts_ns, Some(l), event@, fields@).len() >= 0);
    line
}

/// Whether `s` holds no control character, a line end among them.
pub open spec fn printable(s: Seq<char>) -> bool {
    forall|i: int| 0 <= i < s.len() ==> (#[trigger] s[i]) as int >= 0x20
}

pub proof fn lemma_digits_are_printable(n: nat)
    ensures
        printable(text::digits(n)),
    decreases n,
{
    if n >= 10 {
        lemma_digits_are_printable(n / 10);
    }
}

proof fn lemma_hex_is_printable(n: nat, width: nat)
    ensures
        printable(text::hex_digits(n, width)),
        text::hex_digits(n, width).len() == width,
    decreases width,
{
    if width > 0 {
        lemma_hex_is_printable(n / 16, (width - 1) as nat);
    }
}

proof fn lemma_escaped_is_printable(s: Seq<char>)
    ensures
        printable(escaped(s)),
    decreases s.len(),
{
    if s.len() > 0 {
        lemma_escaped_is_printable(s.drop_last());
        lemma_hex_is_printable(s.last() as nat, 4);
        assert(printable(escaped_char(s.last())));
    }
}

proof fn lemma_fields_are_printable(fields: Seq<Field>)
    requires
        forall|i: int| 0 <= i < fields.len() ==> printable((#[trigger] fields[i]).key@),
    ensures
        printable(fields_text(fields)),
    decreases fields.len(),
{
    if fields.len() > 0 {
        lemma_fields_are_printable(fields.drop_last());
        let f = fields.last();
        assert(f == fields[fields.len() - 1]);
        reveal_strlit("\":");
        reveal_strlit("true");
        reveal_strlit("false");
        reveal_strlit("null");
        match f.value {
            FieldValue::U64(n) => {
                lemma_digits_are_printable(n as nat);
            },
            FieldValue::I64(n) => {
                lemma_digits_are_printable(n as nat);
                lemma_digits_are_printable((-n) as nat);
            },
            FieldValue::Str(s) => {
                lemma_escaped_is_printable(s@);
            },
            _ => {},
        }
        assert(printable(value_text(f.value)));
        assert(printable(field_text(f)));
    }
}

/// A record is one line: whatever its event and its values hold, no control
/// character stands in it before its line end.
pub proof fn law_record_is_one_line(
    ts_ns: u128,
    level: Option<LogLevel>,
    event: Seq<char>,
    fields: Seq<Field>,
)
    requires
        forall|i: int| 0 <= i < fields.len() ==> printable((#[trigger] fields[i]).key@),
    ensures
        printable(record_text(ts_ns, level, event, fields)),
{
    reveal_strlit("{\"ts_ns\":");
    reveal_strlit(",\"level\":\"");
    reveal_strlit(",\"event\":\"");
    reveal_strlit("error");
    reveal_strlit("warn");
    reveal_strlit("info");
    lemma_digits_are_printable(ts_ns as nat);
    lemma_escaped_is_printable(event);
    lemma_fields_are_printable(fields);
    assert(printable(level_text(level)));
}

proof fn lemma_escaped_from_front(s: Seq<char>)
    requires
        s.len() > 0,
    ensures
        escaped(s) == escaped_char(s[0]) + escaped(s.skip(1)),
    decreases s.len(),
{
    if s.len() == 1 {
        assert(s.drop_last() =~= Seq::empty());
        assert(s.skip(1) =~= Seq::empty());
        assert(escaped(s) =~= escaped_char(s[0]) + escaped(s.skip(1)));
    } else {
        lemma_escaped_from_front(s.drop_last());
        assert(s.drop_last().skip(1) =~= s.skip(1).drop_last());
        assert(s.skip(1).last() == s.last());
        assert(escaped(s) =~= escaped_char(s[0]) + escaped(s.skip(1)));
    }
}

proof fn lemma_escape_tells_chars_apart(c: char, d: char, after_c: Seq<char>, after_d: Seq<char>)
    requires
        escaped_char(c) + after_c == escaped_char(d) + after_d,
    ensures
        c == d,
{
    let x = escaped_char(c) + after_c;
    let y = escaped_char(d) + after_d;
    lemma_hex_is_printable(c as nat, 4);
    lemma_hex_is_printable(d as nat, 4);
    assert(x[0] == y[0]);
    if x[0] == '\\' {
        assert(x[1] == y[1]);
        if x[1] == 'u' {
            reveal_with_fuel(text::hex_digits, 5);
            assert(x[4] == text::hex_digits(c as nat, 4)[2]);
            assert(x[5] == text::hex_digits(c as nat, 4)[3]);
            assert(y[4] == text::hex_digits(d as nat, 4)[2]);
            assert(y[5] == text::hex_digits(d as nat, 4)[3]);
            assert(text::hex_digits(c as nat, 4)[3] == text::hex_digit((c as nat) % 16));
            assert(text::hex_digits(d as nat, 4)[3] == text::hex_digit((d as nat) % 16));
            assert(text::hex_digits(c as nat, 4)[2] == text::hex_digit((c as nat) / 16 % 16));
            assert(text::hex_digits(d as nat, 4)[2] == text::hex_digit((d as nat) / 16 % 16));
        }
    }
}

/// Escaping loses nothing: two texts that stand alike inside a JSON string
/// are the same text.
pub proof fn law_escaping_is_unambiguous(a: Seq<char>, b: Seq<char>)
    requires
        escaped(a) == escaped(b),
    ensures
        a == b,
    decreases a.len(),
{
    if a.len() == 0 || b.len() == 0 {
        if a.len() > 0 {
            lemma_escaped_from_front(a);
            assert(escaped_char(a[0]).len() > 0);
            assert(escaped(b).len() == 0);
        }
        if b.len() > 0 {
            lemma_escaped_from_front(b);
            assert(escaped_char(b[0]).len() > 0);
            assert(escaped(a).len() == 0);
        }
        assert(a =~= b);
    } else {
        lemma_escaped_from_front(a);
        lemma_escaped_from_front(b);
        lemma_escape_tells_chars_apart(a[0], b[0], escaped(a.skip(1)), escaped(b.skip(1)));
        let n = escaped_char(a[0]).len() as int;
        assert(escaped(a).skip(n) =~= escaped(a.skip(1)));
        assert(escaped(b).skip(n) =~= escaped(b.skip(1)));
        law_escaping_is_unambiguous(a.skip(1), b.skip(1));
        assert(a =~= seq![a[0]] + a.skip(1));
        assert(b =~= seq![b[0]] + b.skip(1));
    }
}

/// Whether `c` is a hexadecimal digit.
pub open spec fn is_hex(c: char) -> bool {
    text::is_digit(c) || 'a' <= c <= 'f' || 'A' <= c <= 'F'
}

/// Whether `s` may stand between the quotes of a JSON string: no bare quote
/// and no control character, and every backslash starts an escape.
pub open spec fn string_body(s: Seq<char>) -> bool
    decreases s.len(),
{
    if s.len() == 0 {
        true
    } else if s[0] != '\\' {
        s[0] != '"' && s[0] as int >= 0x20 && string_body(s.skip(1))
    } else if s.len() >= 2 && s[1] == 'u' {
        &&& s.len() >= 6
        &&& is_hex(s[2]) && is_hex(s[3]) && is_hex(s[4]) && is_hex(s[5])
        &&& string_body(s.skip(6))
    } else {
        &&& s.len() >= 2
        &&& s[1] == '"' || s[1] == '\\' || s[1] == '/' || s[1] == 'b' || s[1] == 'f' || s[1] == 'n'
            || s[1] == 'r' || s[1] == 't'
        &&& string_body(s.skip(2))
    }
}

/// Whether `s` is the digits of a JSON number without a sign: no leading
/// zero.
pub open spec fn number_body(s: Seq<char>) -> bool {
    &&& s.len() > 0
    &&& forall|i: int| 0 <= i < s.len() ==> text::is_digit(#[trigger] s[i])
    &&& s[0] == '0' ==> s.len() == 1
}

/// Whether `s` is a JSON string, a whole number, a truth value or `null`.
pub open spec fn json_scalar(s: Seq<char>) -> bool {
    ||| s == "true"@ || s == "false"@ || s == "null"@
    ||| number_body(s)
    ||| s.len() > 0 && s[0] == '-' && number_body(s.skip(1))
    ||| exists|body: Seq<char>| s == seq!['"'] + body + seq!['"'] && #[trigger] string_body(body)
}

/// A member of a JSON object: its key, and its value as text.
pub struct JsonMember {
    pub key: Seq<char>,
    pub value: Seq<char>,
}

/// A member as text.
pub open spec fn member_text(m: JsonMember) -> Seq<char> {
    seq!['"'] + m.key + "\":"@ + m.value
}

/// Members as text, with commas between them.
pub open spec fn members_text(m: Seq<JsonMember>) -> Seq<char>
    decreases m.len(),
{
    if m.len() == 0 {
        Seq::empty()
    } else if m.len() == 1 {
        member_text(m[0])
    } else {
        members_text(m.drop_last()) + seq![','] + member_text(m.last())
    }
}

/// The members of a record, in their order.
pub open spec fn record_members(
    ts_ns: u128,
    level: Option<LogLevel>,
    event: Seq<char>,
    fields: Seq<Field>,
) -> Seq<JsonMember> {
    let first = JsonMember { key: "ts_ns"@, value: text::digits(ts_ns as nat) };
    let named = JsonMember { key: "event"@, value: seq!['"'] + escaped(event) + seq!['"'] };
    let head = match level {
        Some(l) => seq![
            first,
            JsonMember { key: "level"@, value: seq!['"'] + l.name() + seq!['"'] },
            named,
        ],
        None => seq![first, named],
    };
    head + fields.map_values(|f: Field| JsonMember { key: f.key@, value: value_text(f.value) })
}

proof fn lemma_hex_is_hex(n: nat, width: nat)
    ensures
        text::hex_digits(n, width).len() == width,
        forall|i: int| 0 <= i < width ==> is_hex(#[trigger] text::hex_digits(n, width)[i]),
    decreases width,
{
    if width > 0 {
        lemma_hex_is_hex(n / 16, (width - 1) as nat);
    }
}

proof fn lemma_escaped_is_a_string_body(s: Seq<char>)
    ensures
        string_body(escaped(s)),
    decreases s.len(),
{
    if s.len() > 0 {
        lemma_escaped_from_front(s);
        lemma_escaped_is_a_string_body(s.skip(1));
        lemma_hex_is_hex(s[0] as nat, 4);
        let e = escaped(s);
        let n = escaped_char(s[0]).len() as int;
        assert(e.skip(n) =~= escaped(s.skip(1)));
        if (s[0] as int) < 0x20 {
            assert(n == 6);
            assert(e[2] == text::hex_digits(s[0] as nat, 4)[0]);
            assert(e[3] == text::hex_digits(s[0] as nat, 4)[1]);
            assert(e[4] == text::hex_digits(s[0] as nat, 4)[2]);
            assert(e[5] == text::hex_digits(s[0] as nat, 4)[3]);
        }
    }
}

proof fn lemma_digits_are_a_number(n: nat)
    ensures
        number_body(text::digits(n)),
        n > 0 ==> text::digits(n)[0] != '0',
    decreases n,
{
    if n >= 10 {
        lemma_digits_are_a_number(n / 10);
    }
}

proof fn lemma_values_are_json(v: FieldValue)
    ensures
        json_scalar(value_text(v)),
{
    match v {
        FieldValue::U64(n) => {
            lemma_digits_are_a_number(n as nat);
        },
        FieldValue::I64(n) => {
            if n < 0 {
                lemma_digits_are_a_number((-n) as nat);
                assert(value_text(v).skip(1) =~= text::digits((-n) as nat));
            } else {
                lemma_digits_are_a_number(n as nat);
            }
        },
        FieldValue::Str(s) => {
            lemma_escaped_is_a_string_body(s@);
        },
        _ => {},
    }
}

proof fn lemma_fields_follow(head: Seq<JsonMember>, fields: Seq<Field>)
    requires
        head.len() > 0,
    ensures
        members_text(
            head + fields.map_values(
                |f: Field| JsonMember { key: f.key@, value: value_text(f.value) },
            ),
        ) == members_text(head) + fields_text(fields),
    decreases fields.len(),
{
    let member = |f: Field| JsonMember { key: f.key@, value: value_text(f.value) };
    let all = head + fields.map_values(member);
    if fields.len() == 0 {
        assert(all =~= head);
        assert(members_text(head) + fields_text(fields) =~= members_text(head));
    } else {
        let shorter = fields.drop_last();
        lemma_fields_follow(head, shorter);
        assert(all.drop_last() =~= head + shorter.map_values(member));
        assert(all.last() == member(fields.last()));
        assert(seq![','] + member_text(all.last()) =~= field_text(fields.last()));
        assert(members_text(all) =~= members_text(head) + fields_text(fields));
    }
}

/// Lower case letters and underscores need no escape.
pub proof fn lemma_plain_text_is_a_string_body(s: Seq<char>)
    requires
        forall|i: int| 0 <= i < s.len() ==> 'a' <= #[trigger] s[i] <= 'z' || s[i] == '_',
    ensures
        string_body(s),
    decreases s.len(),
{
    if s.len() > 0 {
        assert(s[0] != '\\' && s[0] != '"');
        assert forall|i: int| 0 <= i < s.skip(1).len() implies 'a' <= #[trigger] s.skip(1)[i]
            <= 'z' || s.skip(1)[i] == '_' by {
            assert(s.skip(1)[i] == s[i + 1]);
        }
        lemma_plain_text_is_a_string_body(s.skip(1));
    }
}

proof fn lemma_few_members(a: JsonMember, b: JsonMember, c: JsonMember)
    ensures
        members_text(seq![a, b]) == member_text(a) + seq![','] + member_text(b),
        members_text(seq![a, b, c]) == member_text(a) + seq![','] + member_text(b) + seq![',']
            + member_text(c),
{
    let two = seq![a, b];
    let three = seq![a, b, c];
    assert(two.drop_last() =~= seq![a]);
    assert(three.drop_last() =~= two);
    assert(members_text(seq![a]) == member_text(a));
    assert(members_text(two) == members_text(two.drop_last()) + seq![','] + member_text(b));
    assert(members_text(three) == members_text(three.drop_last()) + seq![','] + member_text(c));
}

proof fn lemma_head_is_json(ts_ns: u128, level: Option<LogLevel>, event: Seq<char>)
    ensures
        ({
            let m = record_members(ts_ns, level, event, Seq::empty());
            &&& m.len() > 0
            &&& forall|i: int|
                0 <= i < m.len() ==> string_body((#[trigger] m[i]).key) && json_scalar(m[i].value)
        }),
{
    reveal_strlit("ts_ns");
    reveal_strlit("level");
    reveal_strlit("event");
    reveal_strlit("error");
    reveal_strlit("warn");
    reveal_strlit("info");
    lemma_plain_text_is_a_string_body("ts_ns"@);
    lemma_plain_text_is_a_string_body("level"@);
    lemma_plain_text_is_a_string_body("event"@);
    lemma_digits_are_a_number(ts_ns as nat);
    lemma_escaped_is_a_string_body(event);
    match level {
        Some(l) => {
            lemma_plain_text_is_a_string_body(l.name());
        },
        None => {},
    }
}

proof fn lemma_head_text(ts_ns: u128, level: Option<LogLevel>, event: Seq<char>)
    ensures
        seq!['{'] + members_text(record_members(ts_ns, level, event, Seq::empty()))
            == "{\"ts_ns\":"@ + text::digits(ts_ns as nat) + level_text(level) + ",\"event\":\""@
            + escaped(event) + seq!['"'],
{
    let first = JsonMember { key: "ts_ns"@, value: text::digits(ts_ns as nat) };
    let named = JsonMember { key: "event"@, value: seq!['"'] + escaped(event) + seq!['"'] };
    let m = record_members(ts_ns, level, event, Seq::empty());
    reveal_strlit("ts_ns");
    reveal_strlit("level");
    reveal_strlit("event");
    reveal_strlit("\":");
    reveal_strlit("{\"ts_ns\":");
    reveal_strlit(",\"level\":\"");
    reveal_strlit(",\"event\":\"");
    let stamped = "{\"ts_ns\":"@ + text::digits(ts_ns as nat);
    let told = ",\"event\":\""@ + escaped(event) + seq!['"'];
    assert(seq!['{'] + member_text(first) =~= stamped);
    assert(seq![','] + member_text(named) =~= told);
    match level {
        Some(l) => {
            let leveled = JsonMember { key: "level"@, value: seq!['"'] + l.name() + seq!['"'] };
            assert(m =~= seq![first, leveled, named]);
            lemma_few_members(first, leveled, named);
            assert(seq![','] + member_text(leveled) =~= level_text(level));
            assert(seq!['{'] + members_text(m) =~= (seq!['{'] + member_text(first)) + (seq![',']
                + member_text(leveled)) + (seq![','] + member_text(named)));
        },
        None => {
            assert(m =~= seq![first, named]);
            lemma_few_members(first, named, named);
            assert(seq!['{'] + members_text(m) =~= (seq!['{'] + member_text(first)) + (seq![',']
                + member_text(named)));
        },
    }
    assert(stamped + level_text(level) + told =~= "{\"ts_ns\":"@ + text::digits(ts_ns as nat)
        + level_text(level) + ",\"event\":\""@ + escaped(event) + seq!['"']);
}

/// A record is a JSON object, whatever its event and its values hold: its
/// members are the time, the level where it has one, the event, and then the
/// fields in their order. A field's key is a text that needs no escape.
pub proof fn law_record_is_json(
    ts_ns: u128,
    level: Option<LogLevel>,
    event: Seq<char>,
    fields: Seq<Field>,
)
    requires
        forall|i: int| 0 <= i < fields.len() ==> string_body((#[trigger] fields[i]).key@),
    ensures
        ({
            let m = record_members(ts_ns, level, event, fields);
            &&& record_text(ts_ns, level, event, fields) == seq!['{'] + members_text(m) + seq!['}']
            &&& forall|i: int|
                0 <= i < m.len() ==> string_body((#[trigger] m[i]).key) && json_scalar(m[i].value)
        }),
{
    let m = record_members(ts_ns, level, event, fields);
    let head = record_members(ts_ns, level, event, Seq::empty());
    let member = |f: Field| JsonMember { key: f.key@, value: value_text(f.value) };
    lemma_head_is_json(ts_ns, level, event);
    lemma_head_text(ts_ns, level, event);
    lemma_fields_follow(head, fields);
    assert(m =~= head + fields.map_values(member));
    assert(record_text(ts_ns, level, event, fields) =~= (seq!['{'] + members_text(head))
        + fields_text(fields) + seq!['}']);
    assert(seq!['{'] + members_text(m) + seq!['}'] =~= (seq!['{'] + members_text(head))
        + fields_text(fields) + seq!['}']);
    assert forall|i: int| 0 <= i < m.len() implies string_body((#[trigger] m[i]).key)
        && json_scalar(m[i].value) by {
        if i < head.len() {
            assert(m[i] == head[i]);
        } else {
            assert(m[i] == member(fields[i - head.len()]));
            lemma_values_are_json(fields[i - head.len()].value);
        }
    }
}

/// The level of a number; whatever is none is the most verbose.
pub open spec fn level_of(v: u8) -> LogLevel {
    if v == 0 {
        LogLevel::Error
    } else if v == 1 {
        LogLevel::Warn
    } else {
        LogLevel::Info
    }
}

/// Levels are told apart by number and by name, and the number reads back;
/// errors are the least verbose and information the most.
pub proof fn law_levels_are_told_apart(l: LogLevel, other: LogLevel, v: u8)
    ensures
        l != other ==> l.verbosity() != other.verbosity() && l.name() != other.name(),
        LogLevel::Error.verbosity() < LogLevel::Warn.verbosity() < LogLevel::Info.verbosity(),
        0 <= l.verbosity() <= u8::MAX,
        level_of(l.verbosity() as u8) == l,
        v > 2 ==> level_of(v) == LogLevel::Info,
        LogLevel::Error.name() == "error"@,
        LogLevel::Warn.name() == "warn"@,
        LogLevel::Info.name() == "info"@,
{
    reveal_strlit("error");
    reveal_strlit("warn");
    reveal_strlit("info");
    assert("error"@[0] == 'e');
    assert("warn"@[0] == 'w');
    assert("info"@[0] == 'i');
}

/// A filter keeps what is at its own level and what is graver, and drops the
/// rest: errors are always kept, and information only where it is asked for.
pub proof fn law_filter_keeps_what_is_graver(filter: LogLevel, l: LogLevel)
    ensures
        keeps(filter, filter),
        keeps(filter, LogLevel::Error),
        keeps(LogLevel::Info, l),
        keeps(LogLevel::Error, l) <==> l == LogLevel::Error,
        keeps(LogLevel::Warn, l) <==> l != LogLevel::Info,
        keeps(filter, LogLevel::Info) <==> filter == LogLevel::Info,
{
}

/// Quotes and backslashes stand behind a backslash, control characters as
/// their code, and everything else as it is; a text is escaped character by
/// character.
pub proof fn law_only_the_unsafe_is_escaped(s: Seq<char>, c: char)
    ensures
        escaped_char('"') == seq!['\\', '"'],
        escaped_char('\\') == seq!['\\', '\\'],
        (c as int) < 0x20 ==> escaped_char(c).len() == 6 && escaped_char(c)[0] == '\\'
            && escaped_char(c)[1] == 'u' && escaped_char(c).skip(2) == text::hex_digits(
            c as nat,
            4,
        ),
        c as int >= 0x20 && c != '"' && c != '\\' ==> escaped_char(c) == seq![c],
        escaped(s.push(c)) == escaped(s) + escaped_char(c),
        escaped(Seq::empty()).len() == 0,
{
    assert(s.push(c).drop_last() =~= s);
    text::law_hexadecimal_is_written_in_digits(c as nat, 0, 4);
    if (c as int) < 0x20 {
        assert(escaped_char(c).skip(2) =~= text::hex_digits(c as nat, 4));
    }
}

/// Values are written as JSON has them: numbers in digits, truth values in
/// words, texts in quotes, and null for none.
pub proof fn law_values_are_written_as_they_are(n: u64, i: i64, b: bool, s: &str)
    ensures
        value_text(FieldValue::U64(n)) == text::digits(n as nat),
        value_text(FieldValue::I64(i)) == text::signed_digits(i as int),
        value_text(FieldValue::Bool(b)) == (if b {
            "true"@
        } else {
            "false"@
        }),
        value_text(FieldValue::Null) == "null"@,
        value_text(FieldValue::Str(s)) == "\""@ + escaped(s@) + "\""@,
{
    reveal_strlit("\"");
    assert(value_text(FieldValue::Str(s)) =~= "\""@ + escaped(s@) + "\""@);
}

/// A field is its key and its value, and a record has all its fields, in
/// their order.
pub proof fn law_fields_stand_in_order(fields: Seq<Field>, f: Field)
    ensures
        field_text(f) == ",\""@ + f.key@ + "\":"@ + value_text(f.value),
        fields_text(fields.push(f)) == fields_text(fields) + field_text(f),
        fields_text(Seq::empty()).len() == 0,
{
    reveal_strlit(",\"");
    assert(fields.push(f).drop_last() =~= fields);
    assert(field_text(f) =~= ",\""@ + f.key@ + "\":"@ + value_text(f.value));
}

/// A record tells when it was made, at which level, what happened, and its
/// fields.
pub proof fn law_record_tells_what_happened(
    ts_ns: u128,
    l: LogLevel,
    event: Seq<char>,
    fields: Seq<Field>,
)
    ensures
        ({
            let r = record_text(ts_ns, Some(l), event, fields);
            let bare = record_text(ts_ns, None, event, fields);
            let head = "{\"ts_ns\":"@ + text::digits(ts_ns as nat);
            let tail = ",\"event\":\""@ + escaped(event) + "\""@ + fields_text(fields) + "}"@;
            &&& r == head + ",\"level\":\""@ + l.name() + "\""@ + tail
            &&& bare == head + tail
        }),
{
    reveal_strlit("\"");
    reveal_strlit("}");
    let r = record_text(ts_ns, Some(l), event, fields);
    let bare = record_text(ts_ns, None, event, fields);
    let head = "{\"ts_ns\":"@ + text::digits(ts_ns as nat);
    let tail = ",\"event\":\""@ + escaped(event) + "\""@ + fields_text(fields) + "}"@;
    assert(r =~= head + ",\"level\":\""@ + l.name() + "\""@ + tail);
    assert(bare =~= head + tail);
}

} // verus!
