//! The fixed 15-field schema of a synthetic log record: field names, field
//! kinds, the exact domain of every field's value, and well-formedness of a
//! whole record. Consuming readers must address fields by name; the order
//! here fixes only the serialization order.
use vstd::prelude::*;

verus! {

/// A field value: the tagged union of strings and integers. Each field kind
/// always carries the same variant.
#[derive(Debug, PartialEq, Eq)]
pub enum Value {
    Str(String),
    Int(u64),
}

/// The kinds of the fixed schema, one per field, in serialization order.
#[derive(Debug, Clone, Copy, PartialEq, Eq, Structural)]
pub enum FieldKind {
    Timestamp,
    Level,
    Message,
    SourceIp,
    UserId,
    RequestId,
    HttpMethod,
    HttpPath,
    HttpStatus,
    UserAgent,
    ResponseTimeMs,
    AppVersion,
    ServiceName,
    Region,
    Payload,
}

/// Number of fields in the schema.
pub const SCHEMA_LEN: usize = 15;

pub open spec fn spec_field_kind(i: int) -> FieldKind {
    if i == 0 { FieldKind::Timestamp }
    else if i == 1 { FieldKind::Level }
    else if i == 2 { FieldKind::Message }
    else if i == 3 { FieldKind::SourceIp }
    else if i == 4 { FieldKind::UserId }
    else if i == 5 { FieldKind::RequestId }
    else if i == 6 { FieldKind::HttpMethod }
    else if i == 7 { FieldKind::HttpPath }
    else if i == 8 { FieldKind::HttpStatus }
    else if i == 9 { FieldKind::UserAgent }
    else if i == 10 { FieldKind::ResponseTimeMs }
    else if i == 11 { FieldKind::AppVersion }
    else if i == 12 { FieldKind::ServiceName }
    else if i == 13 { FieldKind::Region }
    else { FieldKind::Payload }
}

pub open spec fn spec_field_name(i: int) -> Seq<char> {
    if i == 0 { "timestamp"@ }
    else if i == 1 { "level"@ }
    else if i == 2 { "message"@ }
    else if i == 3 { "source_ip"@ }
    else if i == 4 { "user_id"@ }
    else if i == 5 { "request_id"@ }
    else if i == 6 { "http_method"@ }
    else if i == 7 { "http_path"@ }
    else if i == 8 { "http_status"@ }
    else if i == 9 { "user_agent"@ }
    else if i == 10 { "response_time_ms"@ }
    else if i == 11 { "app_version"@ }
    else if i == 12 { "service_name"@ }
    else if i == 13 { "region"@ }
    else { "payload"@ }
}

/// The schema's field kind at position `i`.
pub fn field_kind(i: usize) -> (k: FieldKind)
    requires
        i < SCHEMA_LEN,
    ensures
        k == spec_field_kind(i as int),
{
    match i {
        0 => FieldKind::Timestamp,
        1 => FieldKind::Level,
        2 => FieldKind::Message,
        3 => FieldKind::SourceIp,
        4 => FieldKind::UserId,
        5 => FieldKind::RequestId,
        6 => FieldKind::HttpMethod,
        7 => FieldKind::HttpPath,
        8 => FieldKind::HttpStatus,
        9 => FieldKind::UserAgent,
        10 => FieldKind::ResponseTimeMs,
        11 => FieldKind::AppVersion,
        12 => FieldKind::ServiceName,
        13 => FieldKind::Region,
        _ => FieldKind::Payload,
    }
}

/// The schema's field name at position `i`.
pub fn field_name(i: usize) -> (r: &'static str)
    requires
        i < SCHEMA_LEN,
    ensures
        r@ == spec_field_name(i as int),
{
    match i {
        0 => "timestamp",
        1 => "level",
        2 => "message",
        3 => "source_ip",
        4 => "user_id",
        5 => "request_id",
        6 => "http_method",
        7 => "http_path",
        8 => "http_status",
        9 => "user_agent",
        10 => "response_time_ms",
        11 => "app_version",
        12 => "service_name",
        13 => "region",
        _ => "payload",
    }
}

/// The decimal digit character of `d`.
pub open spec fn digit(d: int) -> char {
    ((48 + d) as u8) as char
}

pub open spec fn is_alnum_byte(b: u8) -> bool {
    (65 <= b <= 90) || (97 <= b <= 122) || (48 <= b <= 57)
}

pub open spec fn is_alnum_char(c: char) -> bool {
    (65 <= c as u32 <= 90) || (97 <= c as u32 <= 122) || (48 <= c as u32 <= 57)
}

pub open spec fn is_alnum_string(s: Seq<char>) -> bool {
    forall|i: int| 0 <= i < s.len() ==> is_alnum_char(#[trigger] s[i])
}

/// Decimal digits of `n`, most significant first, no leading zeros.
pub open spec fn dec_chars(n: int) -> Seq<char>
    recommends
        n >= 0,
    decreases n,
{
    if n < 10 {
        seq![digit(n)]
    } else {
        dec_chars(n / 10).push(digit(n % 10))
    }
}

/// Two decimal digits, zero padded.
pub open spec fn pad2(n: int) -> Seq<char> {
    seq![digit(n / 10), digit(n % 10)]
}

/// Three decimal digits, zero padded.
pub open spec fn pad3(n: int) -> Seq<char> {
    seq![digit(n / 100), digit((n / 10) % 10), digit(n % 10)]
}

/// Four decimal digits, zero padded.
pub open spec fn pad4(n: int) -> Seq<char> {
    seq![digit(n / 1000), digit((n / 100) % 10), digit((n / 10) % 10), digit(n % 10)]
}

/// The timestamp shape: a fixed calendar date, then hour, minute, second and
/// millisecond, zero padded.
pub open spec fn timestamp_chars(h: int, m: int, s: int, ms: int) -> Seq<char> {
    "2025-07-09T"@ + pad2(h) + ":"@ + pad2(m) + ":"@ + pad2(s) + "."@ + pad3(ms) + "Z"@
}

pub open spec fn is_timestamp(s: Seq<char>) -> bool {
    exists|h: int, m: int, sec: int, ms: int|
        0 <= h < 24 && 0 <= m < 60 && 0 <= sec < 60 && 0 <= ms < 1000
            && s == timestamp_chars(h, m, sec, ms)
}

pub open spec fn is_level(s: Seq<char>) -> bool {
    s == "INFO"@ || s == "WARN"@ || s == "ERROR"@ || s == "DEBUG"@
}

/// Four dot-separated decimal octets.
pub open spec fn ip_chars(a: int, b: int, c: int, d: int) -> Seq<char> {
    dec_chars(a) + "."@ + dec_chars(b) + "."@ + dec_chars(c) + "."@ + dec_chars(d)
}

pub open spec fn is_source_ip(s: Seq<char>) -> bool {
    exists|a: int, b: int, c: int, d: int|
        1 <= a < 255 && 1 <= b < 255 && 1 <= c < 255 && 1 <= d < 255
            && s == ip_chars(a, b, c, d)
}

pub open spec fn is_user_id(s: Seq<char>) -> bool {
    exists|n: int| 1000 <= n < 10000 && s == "user-"@ + dec_chars(n)
}

pub open spec fn is_http_method(s: Seq<char>) -> bool {
    s == "GET"@ || s == "POST"@ || s == "PUT"@ || s == "DELETE"@
}

/// `/seg` for every segment, in order: the segments joined by `/` and
/// prefixed with `/`.
pub open spec fn path_chars(segs: Seq<Seq<char>>) -> Seq<char>
    decreases segs.len(),
{
    if segs.len() == 0 {
        Seq::empty()
    } else {
        "/"@ + segs[0] + path_chars(segs.drop_first())
    }
}

pub open spec fn is_http_path(s: Seq<char>) -> bool {
    exists|segs: Seq<Seq<char>>|
        1 <= segs.len() <= 3
            && (forall|i: int| 0 <= i < segs.len()
                ==> 5 <= (#[trigger] segs[i]).len() < 11 && is_alnum_string(segs[i]))
            && s == path_chars(segs)
}

pub open spec fn is_http_status(n: u64) -> bool {
    n == 200 || n == 201 || n == 400 || n == 404 || n == 500
}

pub open spec fn user_agent_chars() -> Seq<char> {
    "Mozilla/5.0 (Macintosh; Intel Mac OS X 10_15_7) AppleWebKit/537.36 (KHTML, like Gecko) Chrome/126.0.0.0 Safari/537.36"@
}

pub open spec fn is_app_version(s: Seq<char>) -> bool {
    exists|major: int, minor: int, patch: int|
        1 <= major < 6 && 0 <= minor < 10 && 0 <= patch < 10
            && s == dec_chars(major) + "."@ + dec_chars(minor) + "."@ + dec_chars(patch)
}

pub open spec fn is_service_name(s: Seq<char>) -> bool {
    s == "auth-service"@ || s == "product-service"@ || s == "order-service"@
}

pub open spec fn is_region(s: Seq<char>) -> bool {
    s == "us-east-1"@ || s == "us-west-2"@ || s == "eu-central-1"@
}

/// The exact domain of each field of the schema: the fixed type table and,
/// for every enumerated field, membership of its declared finite set.
pub open spec fn value_ok(k: FieldKind, v: Value) -> bool {
    match k {
        FieldKind::Timestamp => v matches Value::Str(s) && is_timestamp(s@),
        FieldKind::Level => v matches Value::Str(s) && is_level(s@),
        FieldKind::Message => v matches Value::Str(s)
            && 50 <= s@.len() < 151 && is_alnum_string(s@),
        FieldKind::SourceIp => v matches Value::Str(s) && is_source_ip(s@),
        FieldKind::UserId => v matches Value::Str(s) && is_user_id(s@),
        FieldKind::RequestId => v matches Value::Str(s)
            && s@.len() == 32 && is_alnum_string(s@),
        FieldKind::HttpMethod => v matches Value::Str(s) && is_http_method(s@),
        FieldKind::HttpPath => v matches Value::Str(s) && is_http_path(s@),
        FieldKind::HttpStatus => v matches Value::Int(n) && is_http_status(n),
        FieldKind::UserAgent => v matches Value::Str(s) && s@ == user_agent_chars(),
        FieldKind::ResponseTimeMs => v matches Value::Int(n) && 10 <= n < 501,
        FieldKind::AppVersion => v matches Value::Str(s) && is_app_version(s@),
        FieldKind::ServiceName => v matches Value::Str(s) && is_service_name(s@),
        FieldKind::Region => v matches Value::Str(s) && is_region(s@),
        FieldKind::Payload => v matches Value::Str(s)
            && s@.len() == 2500 && is_alnum_string(s@),
    }
}

/// One synthetic log record: exactly one entry per schema field, in schema
/// order, each value in its field's domain.
pub struct Record {
    pub fields: Vec<(String, Value)>,
}

pub open spec fn record_wf(r: Record) -> bool {
    r.fields@.len() == SCHEMA_LEN
        && forall|i: int| 0 <= i < SCHEMA_LEN
            ==> (#[trigger] r.fields@[i]).0@ == spec_field_name(i)
                && value_ok(spec_field_kind(i), r.fields@[i].1)
}

/// The schema's field names are pairwise distinct, so addressing a field by
/// name is unambiguous.
pub proof fn lemma_field_names_distinct(i: int, j: int)
    requires
        0 <= i < SCHEMA_LEN,
        0 <= j < SCHEMA_LEN,
        spec_field_name(i) == spec_field_name(j),
    ensures
        i == j,
{
    reveal_strlit("timestamp");
    reveal_strlit("level");
    reveal_strlit("message");
    reveal_strlit("source_ip");
    reveal_strlit("user_id");
    reveal_strlit("request_id");
    reveal_strlit("http_method");
    reveal_strlit("http_path");
    reveal_strlit("http_status");
    reveal_strlit("user_agent");
    reveal_strlit("response_time_ms");
    reveal_strlit("app_version");
    reveal_strlit("service_name");
    reveal_strlit("region");
    reveal_strlit("payload");
    assert(spec_field_name(0).len() == 9);
    assert(spec_field_name(1).len() == 5);
    assert(spec_field_name(2).len() == 7);
    assert(spec_field_name(3).len() == 9);
    assert(spec_field_name(4).len() == 7);
    assert(spec_field_name(5).len() == 10);
    assert(spec_field_name(6).len() == 11);
    assert(spec_field_name(7).len() == 9);
    assert(spec_field_name(8).len() == 11);
    assert(spec_field_name(9).len() == 10);
    assert(spec_field_name(10).len() == 16);
    assert(spec_field_name(11).len() == 11);
    assert(spec_field_name(12).len() == 12);
    assert(spec_field_name(13).len() == 6);
    assert(spec_field_name(14).len() == 7);
    assert(spec_field_name(0)[0] == 't');
    assert(spec_field_name(3)[0] == 's');
    assert(spec_field_name(7)[0] == 'h');
    assert(spec_field_name(2)[0] == 'm');
    assert(spec_field_name(4)[0] == 'u');
    assert(spec_field_name(14)[0] == 'p');
    assert(spec_field_name(5)[0] == 'r');
    assert(spec_field_name(9)[0] == 'u');
    assert(spec_field_name(6)[0] == 'h');
    assert(spec_field_name(8)[0] == 'h');
    assert(spec_field_name(11)[0] == 'a');
    assert(spec_field_name(6)[5] == 'm');
    assert(spec_field_name(8)[5] == 's');
}

/// The field-to-type mapping is a stable total function: two values lawful
/// for the same field kind always carry the same variant.
pub proof fn lemma_field_type_stable(k: FieldKind, v1: Value, v2: Value)
    requires
        value_ok(k, v1),
        value_ok(k, v2),
    ensures
        v1 is Str <==> v2 is Str,
        v1 is Int <==> v2 is Int,
{
}

} // verus!
