//! JSON formatter — machine-readable structured log output.
//!
//! Produces output like:
//! ```json
//! {"timestamp":"2026-06-05T20:15:00.123Z","level":"INFO","target":"my_app::api","message":"Request processed"}
//! ```
//!
//! Each record becomes one JSON object on one line. String values are
//! quoted by `serde_json`.

use vstd::prelude::*;

use super::clock::{
    clock_reading, date_of, law_timestamp_reads_back, read_clock, read_timestamp, timestamp_char, push_timestamp, render_timestamp, time_parts};
use super::Format;
use crate::record::Record;
use crate::text::{hex_digit, push_char};

verus! {

// ─── JSON strings ─────────────────────────────────────────────────────────

/// How one character appears inside a JSON string: `"` and `\` and the
/// control characters below U+0020 are escaped (`\b \t \n \f \r` by name,
/// the others as `\u00XX`); every other character stands for itself.
pub open spec fn json_escape_char(c: char) -> Seq<char> {
    if c == '"' {
        seq!['\\', '"']
    } else if c == '\\' {
        seq!['\\', '\\']
    } else if c == '\x08' {
        seq!['\\', 'b']
    } else if c == '\t' {
        seq!['\\', 't']
    } else if c == '\n' {
        seq!['\\', 'n']
    } else if c == '\x0c' {
        seq!['\\', 'f']
    } else if c == '\r' {
        seq!['\\', 'r']
    } else if (c as u32) < 0x20 {
        seq!['\\', 'u', '0', '0', hex_digit((c as u32 / 16) as nat), hex_digit((c as u32 % 16) as nat)]
    } else {
        seq![c]
    }
}

/// The escaped contents of a JSON string for `s`.
pub open spec fn json_escape(s: Seq<char>) -> Seq<char>
    decreases s.len(),
{
    if s.len() == 0 {
        Seq::empty()
    } else {
        json_escape(s.drop_last()) + json_escape_char(s.last())
    }
}

/// The JSON string literal for `s`.
pub open spec fn json_quote(s: Seq<char>) -> Seq<char> {
    seq!['"'] + json_escape(s) + seq!['"']
}

#[verifier::external_type_specification]
#[verifier::external_body]
pub struct ExJsonError(serde_json::Error);

/// `serde_json::to_string` on a string slice: the JSON string literal for
/// `s`, escaped as `serde_json` escapes (`"`, `\` and control characters
/// below U+0020; `\b \t \n \f \r` by name, the rest as `\u00XX` in
/// lower-case hex). Its documentation names two causes of failure, a
/// `Serialize` impl that decides to fail and a map with non-string keys;
/// neither applies to a string slice, which is written into a `Vec`, so the
/// call succeeds.
#[verifier::external_body]
pub(crate) fn quote_json(s: &str) -> (r: Result<String, serde_json::Error>)
    ensures
        r is Ok,
        r matches Ok(q) ==> q@ == json_quote(s@),
{
    serde_json::to_string(s)
}

/// The message of a `serde_json` error (its `Display` text). Nothing is
/// stated of its contents.
#[verifier::external_body]
fn json_error_text(e: &serde_json::Error) -> String {
    format!("{}", e)
}

// ─── Records ──────────────────────────────────────────────────────────────

/// `"key":value` for a plain key (one that needs no escaping) and an
/// already encoded value.
pub open spec fn json_member(key: Seq<char>, value: Seq<char>) -> Seq<char> {
    seq!['"'] + key + seq!['"', ':'] + value
}

/// `{` and the members every line has: timestamp, level, target, message.
pub open spec fn json_required(
    timestamp: Seq<char>,
    level: Seq<char>,
    target: Seq<char>,
    message: Seq<char>,
) -> Seq<char> {
    seq!['{'] + json_member(seq!['t', 'i', 'm', 'e', 's', 't', 'a', 'm', 'p'], timestamp) + seq![',']
        + json_member(seq!['l', 'e', 'v', 'e', 'l'], level) + seq![','] + json_member(
        seq!['t', 'a', 'r', 'g', 'e', 't'],
        target,
    ) + seq![','] + json_member(seq!['m', 'e', 's', 's', 'a', 'g', 'e'], message)
}

/// The JSON line for a record, given its rendered timestamp: an object
/// with exactly the members `timestamp`, `level`, `target` and `message`,
/// in that order, and a newline.
pub open spec fn json_line(record: Record, timestamp: Seq<char>) -> Seq<char> {
    json_required(
        json_quote(timestamp),
        json_quote(record.level.name()),
        json_quote(record.target@),
        json_quote(record.message@),
    ) + seq!['}', '\n']
}

/// The start of the line written when a field cannot be encoded.
pub open spec fn json_error_prefix() -> Seq<char> {
    seq![
        '{', '"', 'e', 'r', 'r', 'o', 'r', '"', ':', '"', 'f', 'a', 'i', 'l', 'e', 'd', ' ', 't', 'o',
        ' ', 's', 'e', 'r', 'i', 'a', 'l', 'i', 'z', 'e', ' ', 'l', 'o', 'g', ' ', 'r', 'e', 'c', 'o',
        'r', 'd', '"', ',', '"', 'd', 'e', 't', 'a', 'i', 'l', '"', ':', '"',
    ]
}

/// The line written when a field cannot be encoded, for the error text
/// `detail`.
pub open spec fn json_error_line(detail: Seq<char>) -> Seq<char> {
    json_error_prefix() + detail + seq!['"', '}', '\n']
}

/// `out` is the JSON line of `record` stamped `secs` seconds and `millis`
/// (below 1000) milliseconds after the epoch.
pub open spec fn json_at(record: Record, secs: u64, millis: u32, out: Seq<char>) -> bool {
    &&& millis < 1000
    &&& exists|date: (u64, u64, u64)|
        #[trigger] date_of(secs, date) && out == json_line(
            record,
            render_timestamp(date, time_parts(secs), millis, 'T') + seq!['Z'],
        )
}

/// A formatter that outputs log records as JSON objects (one per line).
///
/// Each line is a valid JSON object, making the output compatible with
/// log aggregation tools like Elasticsearch, Loki, and CloudWatch.
#[derive(Debug, Clone, Copy)]
pub struct JsonFormatter;

/// The record's fields, each already encoded as JSON.
pub struct EncodedFields {
    pub timestamp: String,
    pub level: String,
    pub target: String,
    pub message: String,
}

/// `{` and the four members every line has.
fn push_required(fields: &EncodedFields) -> (s: String)
    ensures
        s@ == json_required(fields.timestamp@, fields.level@, fields.target@, fields.message@),
{
    proof {
        reveal_strlit("timestamp");
        reveal_strlit("level");
        reveal_strlit("target");
        reveal_strlit("message");
        assert("timestamp"@ =~= seq!['t', 'i', 'm', 'e', 's', 't', 'a', 'm', 'p']);
        assert("level"@ =~= seq!['l', 'e', 'v', 'e', 'l']);
        assert("target"@ =~= seq!['t', 'a', 'r', 'g', 'e', 't']);
        assert("message"@ =~= seq!['m', 'e', 's', 's', 'a', 'g', 'e']);
    }
    let mut s = String::new();
    push_char(&mut s, '{');
    push_key(&mut s, "timestamp");
    s.append(fields.timestamp.as_str());
    push_member(&mut s, "level", fields.level.as_str());
    push_member(&mut s, "target", fields.target.as_str());
    push_member(&mut s, "message", fields.message.as_str());
    assert(s@ =~= json_required(fields.timestamp@, fields.level@, fields.target@, fields.message@));
    s
}

/// Appends `,"key":value`.
fn push_member(s: &mut String, key: &str, value: &str)
    ensures
        final(s)@ == old(s)@ + seq![','] + json_member(key@, value@),
{
    let ghost start = s@;
    push_char(s, ',');
    push_key(s, key);
    s.append(value);
    assert(s@ =~= start + seq![','] + json_member(key@, value@));
}

/// Appends `"key":`.
fn push_key(s: &mut String, key: &str)
    ensures
        final(s)@ == old(s)@ + seq!['"'] + key@ + seq!['"', ':'],
{
    let ghost start = s@;
    push_char(s, '"');
    s.append(key);
    push_char(s, '"');
    push_char(s, ':');
    assert(s@ =~= start + seq!['"'] + key@ + seq!['"', ':']);
}

impl JsonFormatter {
    /// Generates an ISO 8601 timestamp string for `secs` seconds and
    /// `millis` milliseconds after the epoch: `YYYY-MM-DDThh:mm:ss.mmmZ`.
    pub fn timestamp_at(secs: u64, millis: u32) -> (r: (String, Ghost<(u64, u64, u64)>))
        ensures
            date_of(secs, r.1@),
            r.0@ == render_timestamp(r.1@, time_parts(secs), millis, 'T') + seq!['Z'],
    {
        let mut s = String::new();
        let date = push_timestamp(&mut s, secs, millis, 'T');
        push_char(&mut s, 'Z');
        (s, Ghost(date))
    }

    /// Assembles the JSON line from the encoded fields.
    pub fn assemble(fields: &EncodedFields) -> (s: String)
        ensures
            s@ == json_required(fields.timestamp@, fields.level@, fields.target@, fields.message@)
                + seq!['}', '\n'],
    {
        let mut s = push_required(fields);
        let ghost d = s@;
        push_char(&mut s, '}');
        push_char(&mut s, '\n');
        assert(s@ =~= d + seq!['}', '\n']);
        s
    }

    /// The line written when a field cannot be encoded.
    pub fn error_line(detail: &str) -> (s: String)
        ensures
            s@ == json_error_line(detail@),
    {
        proof {
            reveal_strlit("{\"error\":\"failed to serialize log record\",\"detail\":\"");
            reveal_strlit("\"}\n");
        }
        let mut s = String::new();
        s.append("{\"error\":\"failed to serialize log record\",\"detail\":\"");
        s.append(detail);
        s.append("\"}\n");
        assert(s@ =~= json_error_line(detail@));
        s
    }

    /// Formats a record stamped `secs` seconds and `millis` milliseconds
    /// after the epoch: the JSON line of the record. (The error line, for a
    /// field that cannot be encoded, is never reached: every field is a
    /// string, and strings always encode.)
    pub fn render_at(&self, record: &Record, secs: u64, millis: u32) -> (r: (String, Ghost<(u64, u64, u64)>))
        ensures
            date_of(secs, r.1@),
            r.0@ == json_line(*record, render_timestamp(r.1@, time_parts(secs), millis, 'T') + seq!['Z']),
    {
        let (timestamp, date) = Self::timestamp_at(secs, millis);
        let encoded = Self::encode_fields(record, timestamp.as_str());
        match encoded {
            Ok(fields) => {
                let s = Self::assemble(&fields);
                proof {
                    reveal_strlit("timestamp");
                    assert(seq!['t', 'i', 'm', 'e', 's', 't', 'a', 'm', 'p'] == "timestamp"@);
                }
                (s, date)
            },
            Err(e) => {
                let text = json_error_text(&e);
                let s = Self::error_line(text.as_str());
                (s, date)
            },
        }
    }

    /// Encodes the string fields of a record with its timestamp.
    fn encode_fields(record: &Record, timestamp: &str) -> (r: Result<EncodedFields, serde_json::Error>)
        ensures
            r matches Ok(f) && {
                &&& f.timestamp@ == json_quote(timestamp@)
                &&& f.level@ == json_quote(record.level.name())
                &&& f.target@ == json_quote(record.target@)
                &&& f.message@ == json_quote(record.message@)
            },
    {
        let ts = quote_json(timestamp)?;
        let level = quote_json(record.level.as_str())?;
        let target = quote_json(record.target.as_str())?;
        let message = quote_json(record.message.as_str())?;
        Ok(EncodedFields { timestamp: ts, level, target, message })
    }
}

impl Format for JsonFormatter {
    /// The JSON line of the record, stamped with a reading of the system
    /// clock.
    open spec fn formats(&self, record: Record, out: Seq<char>) -> bool {
        exists|secs: u64, millis: u32|
            #![trigger json_at(record, secs, millis, out)]
            clock_reading(secs, millis) && json_at(record, secs, millis, out)
    }

    /// The JSON line of the record, stamped with the time the system clock
    /// reads during the call.
    fn format(&self, record: &Record) -> (s: String)
        ensures
            exists|secs: u64, millis: u32|
                #![trigger json_at(*record, secs, millis, s@)]
                clock_reading(secs, millis) && json_at(*record, secs, millis, s@),
    {
        let (secs, millis) = read_clock();
        let (s, date) = self.render_at(record, secs, millis);
        assert(json_at(*record, secs, millis, s@)) by {
            assert(date_of(secs, date@));
        }
        s
    }
}

// ─── Reading JSON strings back ────────────────────────────────────────────

/// The value of a hexadecimal digit (either case), if `c` is one.
pub open spec fn hex_value(c: char) -> Option<nat> {
    if '0' <= c <= '9' {
        Some((c as u32 - 48) as nat)
    } else if 'a' <= c <= 'f' {
        Some((c as u32 - 87) as nat)
    } else if 'A' <= c <= 'F' {
        Some((c as u32 - 55) as nat)
    } else {
        None
    }
}

/// The number written by the four hexadecimal digits `t[0..4]`, if they
/// are digits.
pub open spec fn hex4(t: Seq<char>) -> Option<nat> {
    match (hex_value(t[0]), hex_value(t[1]), hex_value(t[2]), hex_value(t[3])) {
        (Some(a), Some(b), Some(c), Some(d)) => Some(a * 4096 + b * 256 + c * 16 + d),
        _ => None,
    }
}

/// The character that the escape `\c` stands for, for the one-letter
/// escapes of JSON.
pub open spec fn simple_unescape(c: char) -> Option<char> {
    if c == '"' {
        Some('"')
    } else if c == '\\' {
        Some('\\')
    } else if c == '/' {
        Some('/')
    } else if c == 'b' {
        Some('\x08')
    } else if c == 'f' {
        Some('\x0c')
    } else if c == 'n' {
        Some('\n')
    } else if c == 'r' {
        Some('\r')
    } else if c == 't' {
        Some('\t')
    } else {
        None
    }
}

/// What a JSON reader reads from the text between the quotes of a string
/// literal: `None` when the text holds an unescaped `"`, a control
/// character below U+0020 or a malformed escape. A `\uXXXX` escape is read
/// when it names a character outside the surrogate range (surrogate pairs
/// are not read here).
pub open spec fn json_unescape(t: Seq<char>) -> Option<Seq<char>>
    decreases t.len(),
{
    if t.len() == 0 {
        Some(Seq::empty())
    } else if t[0] == '\\' {
        if t.len() >= 2 && simple_unescape(t[1]) is Some {
            match json_unescape(t.skip(2)) {
                Some(r) => Some(seq![simple_unescape(t[1])->0] + r),
                None => None,
            }
        } else if t.len() >= 6 && t[1] == 'u' {
            match hex4(t.subrange(2, 6)) {
                Some(v) => if v < 0xD800 || (0xE000 <= v && v <= 0x10FFFF) {
                    match json_unescape(t.skip(6)) {
                        Some(r) => Some(seq![(v as u32) as char] + r),
                        None => None,
                    }
                } else {
                    None
                },
                None => None,
            }
        } else {
            None
        }
    } else if t[0] == '"' || (t[0] as u32) < 0x20 {
        None
    } else {
        match json_unescape(t.skip(1)) {
            Some(r) => Some(seq![t[0]] + r),
            None => None,
        }
    }
}

/// Escaping distributes over concatenation.
proof fn lemma_escape_append(a: Seq<char>, b: Seq<char>)
    ensures
        json_escape(a + b) == json_escape(a) + json_escape(b),
    decreases b.len(),
{
    if b.len() == 0 {
        assert(a + b =~= a);
        assert(json_escape(a) + json_escape(b) =~= json_escape(a));
    } else {
        lemma_escape_append(a, b.drop_last());
        assert((a + b).drop_last() =~= a + b.drop_last());
        assert((a + b).last() == b.last());
        assert(json_escape(a + b) =~= json_escape(a) + json_escape(b));
    }
}

/// Reading the escape of one character followed by text that reads as `r`
/// gives the character followed by `r`.
proof fn lemma_unescape_char(c: char, t: Seq<char>, r: Seq<char>)
    requires
        json_unescape(t) == Some(r),
    ensures
        json_unescape(json_escape_char(c) + t) == Some(seq![c] + r),
{
    let u = json_escape_char(c) + t;
    if c == '"' || c == '\\' || c == '\x08' || c == '\t' || c == '\n' || c == '\x0c' || c == '\r' {
        assert(u.skip(2) =~= t);
    } else if (c as u32) < 0x20 {
        let hi = (c as u32 / 16) as nat;
        let lo = (c as u32 % 16) as nat;
        assert(hex_value(hex_digit(hi)) == Some(hi));
        assert(hex_value(hex_digit(lo)) == Some(lo));
        assert(u.subrange(2, 6) =~= seq!['0', '0', hex_digit(hi), hex_digit(lo)]);
        assert(hex4(u.subrange(2, 6)) == Some((c as u32) as nat));
        assert(u.skip(6) =~= t);
        assert(((c as u32) as char) == c);
    } else {
        assert(u.skip(1) =~= t);
    }
}

/// Strings survive JSON encoding: reading back the escaped contents of the
/// JSON string literal written for `s` gives `s` again. In particular the
/// contents hold no unescaped `"` and no raw control character, so the
/// literal `json_quote(s)` ends at its closing quote.
pub proof fn law_json_strings_round_trip(s: Seq<char>)
    ensures
        json_unescape(json_escape(s)) == Some(s),
        json_quote(s) == seq!['"'] + json_escape(s) + seq!['"'],
    decreases s.len(),
{
    if s.len() > 0 {
        let rest = s.skip(1);
        law_json_strings_round_trip(rest);
        assert(s =~= seq![s[0]] + rest);
        lemma_escape_append(seq![s[0]], rest);
        assert(seq![s[0]].drop_last() =~= Seq::<char>::empty());
        assert(seq![s[0]].last() == s[0]);
        assert(json_escape(Seq::<char>::empty()) =~= Seq::<char>::empty());
        assert(json_escape(seq![s[0]]) =~= json_escape_char(s[0]));
        lemma_unescape_char(s[0], json_escape(rest), rest);
        assert(seq![s[0]] + rest =~= s);
    }
}

/// Characters that JSON strings hold as themselves leave a string
/// unchanged by escaping.
proof fn lemma_json_escape_plain(s: Seq<char>)
    requires
        forall|i: int|
            0 <= i < s.len() ==> (#[trigger] s[i] as u32) >= 0x20 && s[i] != '"' && s[i] != '\\',
    ensures
        json_escape(s) == s,
    decreases s.len(),
{
    if s.len() > 0 {
        lemma_json_escape_plain(s.drop_last());
        assert(s.last() == s[s.len() - 1]);
        assert(json_escape(s) =~= s.drop_last() + seq![s.last()]);
        assert(s.drop_last() + seq![s.last()] =~= s);
    } else {
        assert(json_escape(s) =~= s);
    }
}

/// Where the timestamp starts in a JSON line: after `{"timestamp":"`.
pub open spec fn json_stamp_start() -> int {
    14
}

/// A JSON line carries the clock reading it was stamped with: its
/// `timestamp` value reads back as those seconds and milliseconds (for
/// readings before the end of year 9999), followed by `Z`. With `format`,
/// whose line is stamped with a reading of the system clock, the line
/// tells the time of the call.
pub proof fn law_json_line_carries_reading(record: Record, secs: u64, millis: u32, out: Seq<char>)
    requires
        json_at(record, secs, millis, out),
        secs < 253402300800,
    ensures
        read_timestamp(out.subrange(json_stamp_start(), json_stamp_start() + 23)) == (secs as int, millis as int),
        out[json_stamp_start() + 23] == 'Z',
{
    let date = choose|date: (u64, u64, u64)|
        #[trigger] date_of(secs, date) && out == json_line(
            record,
            render_timestamp(date, time_parts(secs), millis, 'T') + seq!['Z'],
        );
    law_timestamp_reads_back(secs, millis, date, 'T');
    let t = render_timestamp(date, time_parts(secs), millis, 'T');
    lemma_json_line_starts_with(record, t);
}

/// The timestamp of a JSON line stands at `json_stamp_start`, followed by
/// `Z`.
#[verifier::spinoff_prover]
proof fn lemma_json_line_starts_with(record: Record, t: Seq<char>)
    requires
        t.len() == 23,
        forall|i: int| 0 <= i < 23 ==> timestamp_char(#[trigger] t[i], 'T'),
    ensures
        json_line(record, t + seq!['Z']).subrange(json_stamp_start(), json_stamp_start() + 23) == t,
        json_line(record, t + seq!['Z'])[json_stamp_start() + 23] == 'Z',
{
    let tz = t + seq!['Z'];
    assert forall|i: int| 0 <= i < tz.len() implies (#[trigger] tz[i] as u32) >= 0x20 && tz[i] != '"'
        && tz[i] != '\\' by {
        if i < 23 {
            assert(tz[i] == t[i]);
            assert(timestamp_char(t[i], 'T'));
        }
    }
    lemma_json_escape_plain(tz);
    let head = seq!['{', '"', 't', 'i', 'm', 'e', 's', 't', 'a', 'm', 'p', '"', ':', '"'];
    let rest = seq!['"'] + seq![','] + json_member(seq!['l', 'e', 'v', 'e', 'l'], json_quote(record.level.name()))
        + seq![','] + json_member(seq!['t', 'a', 'r', 'g', 'e', 't'], json_quote(record.target@)) + seq![',']
        + json_member(seq!['m', 'e', 's', 's', 'a', 'g', 'e'], json_quote(record.message@)) + seq!['}', '\n'];
    assert(json_line(record, tz) =~= head + tz + rest);
    assert((head + tz + rest).subrange(14, 37) =~= t);
    assert((head + tz + rest)[37] == 'Z');
}

} // verus!
