//! The synthetic record generator: a uniform random source behind trusted
//! wrappers, verified builders for every field's string shape, and the
//! corpus generator that pairs each record with its zero-padded sequential
//! name.
use vstd::prelude::*;
use vstd::string::StringExecFns;

use crate::value::FieldKind;
use crate::value::Record;
use crate::value::SCHEMA_LEN;
use crate::value::Value;
use crate::value::dec_chars;
use crate::value::digit;
use crate::value::field_kind;
use crate::value::field_name;
use crate::value::ip_chars;
use crate::value::is_alnum_byte;
use crate::value::is_alnum_char;
use crate::value::is_alnum_string;
use crate::value::is_http_path;
use crate::value::is_source_ip;
use crate::value::is_timestamp;
use crate::value::pad2;
use crate::value::pad3;
use crate::value::pad4;
use crate::value::path_chars;
use crate::value::record_wf;
use crate::value::spec_field_kind;
use crate::value::spec_field_name;
use crate::value::timestamp_chars;
use crate::value::value_ok;

verus! {

/// Relies on rand::random_range over `u64`: a value drawn uniformly from the
/// half-open range; the function panics only on an empty range.
#[verifier::external_body]
fn random_in(lo: u64, hi: u64) -> (r: u64)
    requires
        lo < hi,
    ensures
        lo <= r < hi,
{
    rand::random_range(lo..hi)
}

/// Relies on rand's `Alphanumeric` distribution: a byte drawn uniformly from
/// `A`-`Z`, `a`-`z`, `0`-`9`.
#[verifier::external_body]
fn random_alnum_byte() -> (r: u8)
    ensures
        is_alnum_byte(r),
{
    rand::RngExt::sample(&mut rand::rng(), rand::distr::Alphanumeric)
}

/// The characters of an ASCII byte sequence, one per byte.
pub open spec fn chars_of(b: Seq<u8>) -> Seq<char> {
    b.map_values(|x: u8| x as char)
}

pub open spec fn all_ascii(b: Seq<u8>) -> bool {
    forall|i: int| 0 <= i < b.len() ==> #[trigger] b[i] < 0x80
}

/// Relies on String::from_utf8: bytes below 0x80 are ASCII, hence valid
/// UTF-8, and decode to exactly one character per byte.
#[verifier::external_body]
fn ascii_to_string(v: Vec<u8>) -> (r: String)
    requires
        all_ascii(v@),
    ensures
        r@ == chars_of(v@),
{
    String::from_utf8(v).unwrap()
}

proof fn lemma_chars_of_push(b: Seq<u8>, x: u8)
    ensures
        chars_of(b.push(x)) == chars_of(b).push(x as char),
{
    assert(chars_of(b.push(x)) =~= chars_of(b).push(x as char));
}

/// Append the decimal digits of `n`, most significant first.
fn push_dec(v: &mut Vec<u8>, n: u64)
    ensures
        chars_of(final(v)@) == chars_of(old(v)@) + dec_chars(n as int),
        all_ascii(old(v)@) ==> all_ascii(final(v)@),
    decreases n,
{
    if n < 10 {
        let d = 48 + n as u8;
        v.push(d);
        proof {
            lemma_chars_of_push(old(v)@, d);
            assert(chars_of(final(v)@) =~= chars_of(old(v)@) + dec_chars(n as int));
        }
    } else {
        push_dec(v, n / 10);
        let d = 48 + (n % 10) as u8;
        let ghost mid = v@;
        v.push(d);
        proof {
            lemma_chars_of_push(mid, d);
            assert(chars_of(final(v)@) =~= chars_of(old(v)@) + dec_chars(n as int));
        }
    }
}

/// The decimal string of `n`, no leading zeros.
pub fn dec_str(n: u64) -> (r: String)
    ensures
        r@ == dec_chars(n as int),
{
    let mut v: Vec<u8> = Vec::new();
    push_dec(&mut v, n);
    proof {
        assert(chars_of(Seq::<u8>::empty()) =~= Seq::<char>::empty());
        assert(chars_of(v@) =~= dec_chars(n as int));
    }
    ascii_to_string(v)
}

/// Two decimal digits of `n`, zero padded.
fn pad2_str(n: u64) -> (r: String)
    requires
        n < 100,
    ensures
        r@ == pad2(n as int),
{
    let mut v: Vec<u8> = Vec::new();
    v.push(48 + (n / 10) as u8);
    v.push(48 + (n % 10) as u8);
    proof {
        assert(chars_of(v@) =~= pad2(n as int));
    }
    ascii_to_string(v)
}

/// Three decimal digits of `n`, zero padded.
fn pad3_str(n: u64) -> (r: String)
    requires
        n < 1000,
    ensures
        r@ == pad3(n as int),
{
    let mut v: Vec<u8> = Vec::new();
    v.push(48 + (n / 100) as u8);
    v.push(48 + ((n / 10) % 10) as u8);
    v.push(48 + (n % 10) as u8);
    proof {
        assert(chars_of(v@) =~= pad3(n as int));
    }
    ascii_to_string(v)
}

/// Four decimal digits of `n`, zero padded.
fn pad4_str(n: u64) -> (r: String)
    requires
        n < 10000,
    ensures
        r@ == pad4(n as int),
{
    let mut v: Vec<u8> = Vec::new();
    v.push(48 + (n / 1000) as u8);
    v.push(48 + ((n / 100) % 10) as u8);
    v.push(48 + ((n / 10) % 10) as u8);
    v.push(48 + (n % 10) as u8);
    proof {
        assert(chars_of(v@) =~= pad4(n as int));
    }
    ascii_to_string(v)
}

/// A random alphanumeric string of exactly `len` characters.
pub fn random_string(len: usize) -> (r: String)
    ensures
        r@.len() == len,
        is_alnum_string(r@),
{
    let mut v: Vec<u8> = Vec::new();
    let mut i: usize = 0;
    while i < len
        invariant
            v@.len() == i <= len,
            forall|j: int| 0 <= j < i ==> is_alnum_byte(#[trigger] v@[j]),
        decreases len - i,
    {
        v.push(random_alnum_byte());
        i = i + 1;
    }
    proof {
        assert(all_ascii(v@));
        assert forall|j: int| 0 <= j < v@.len() implies is_alnum_char(#[trigger] chars_of(v@)[j]) by {
            assert(is_alnum_byte(v@[j]));
        }
    }
    ascii_to_string(v)
}

fn gen_timestamp() -> (r: String)
    ensures
        is_timestamp(r@),
{
    let h = random_in(0, 24);
    let m = random_in(0, 60);
    let s = random_in(0, 60);
    let ms = random_in(0, 1000);
    let mut out = "2025-07-09T".to_owned();
    let p_h = pad2_str(h);
    out.append(p_h.as_str());
    out.append(":");
    let p_m = pad2_str(m);
    out.append(p_m.as_str());
    out.append(":");
    let p_s = pad2_str(s);
    out.append(p_s.as_str());
    out.append(".");
    let p_ms = pad3_str(ms);
    out.append(p_ms.as_str());
    out.append("Z");
    proof {
        assert(out@ =~= timestamp_chars(h as int, m as int, s as int, ms as int));
    }
    out
}

fn gen_level() -> (r: String)
    ensures
        crate::value::is_level(r@),
{
    let i = random_in(0, 4);
    match i {
        0 => "INFO".to_owned(),
        1 => "WARN".to_owned(),
        2 => "ERROR".to_owned(),
        _ => "DEBUG".to_owned(),
    }
}

fn gen_source_ip() -> (r: String)
    ensures
        is_source_ip(r@),
{
    let a = random_in(1, 255);
    let b = random_in(1, 255);
    let c = random_in(1, 255);
    let d = random_in(1, 255);
    let mut out = dec_str(a);
    out.append(".");
    let sb = dec_str(b);
    out.append(sb.as_str());
    out.append(".");
    let sc = dec_str(c);
    out.append(sc.as_str());
    out.append(".");
    let sd = dec_str(d);
    out.append(sd.as_str());
    proof {
        assert(out@ =~= ip_chars(a as int, b as int, c as int, d as int));
    }
    out
}

fn gen_user_id() -> (r: String)
    ensures
        crate::value::is_user_id(r@),
{
    let n = random_in(1000, 10000);
    let mut out = "user-".to_owned();
    let sn = dec_str(n);
    out.append(sn.as_str());
    proof {
        assert(out@ =~= "user-"@ + dec_chars(n as int));
    }
    out
}

fn gen_http_method() -> (r: String)
    ensures
        crate::value::is_http_method(r@),
{
    let i = random_in(0, 4);
    match i {
        0 => "GET".to_owned(),
        1 => "POST".to_owned(),
        2 => "PUT".to_owned(),
        _ => "DELETE".to_owned(),
    }
}

proof fn lemma_path_chars_push(segs: Seq<Seq<char>>, seg: Seq<char>)
    ensures
        path_chars(segs.push(seg)) == path_chars(segs) + "/"@ + seg,
    decreases segs.len(),
{
    if segs.len() == 0 {
        let e = Seq::<Seq<char>>::empty();
        assert(segs.push(seg).drop_first() =~= e);
        assert(segs.push(seg)[0] == seg);
        assert(path_chars(e) == Seq::<char>::empty());
        assert(path_chars(segs.push(seg)) == "/"@ + seg + Seq::<char>::empty());
        assert("/"@ + seg + Seq::<char>::empty() =~= path_chars(segs) + "/"@ + seg);
    } else {
        lemma_path_chars_push(segs.drop_first(), seg);
        assert(segs.push(seg).drop_first() =~= segs.drop_first().push(seg));
        assert(segs.push(seg)[0] == segs[0]);
        assert(path_chars(segs.push(seg))
            == "/"@ + segs[0] + path_chars(segs.drop_first().push(seg)));
        assert(path_chars(segs.push(seg)) =~= path_chars(segs) + "/"@ + seg);
    }
}

fn gen_http_path() -> (r: String)
    ensures
        is_http_path(r@),
{
    let nseg = random_in(1, 4);
    let mut out = String::new();
    let ghost mut segs: Seq<Seq<char>> = Seq::empty();
    let mut j: u64 = 0;
    proof {
        assert(out@ =~= path_chars(segs));
    }
    while j < nseg
        invariant
            j <= nseg < 4,
            segs.len() == j,
            out@ == path_chars(segs),
            forall|k: int| 0 <= k < j
                ==> 5 <= (#[trigger] segs[k]).len() < 11 && is_alnum_string(segs[k]),
        decreases nseg - j,
    {
        let slen = random_in(5, 11);
        let seg = random_string(slen as usize);
        out.append("/");
        out.append(seg.as_str());
        proof {
            lemma_path_chars_push(segs, seg@);
            segs = segs.push(seg@);
            assert(out@ =~= path_chars(segs));
        }
        j = j + 1;
    }
    out
}

fn gen_http_status() -> (r: u64)
    ensures
        crate::value::is_http_status(r),
{
    let i = random_in(0, 5);
    match i {
        0 => 200,
        1 => 201,
        2 => 400,
        3 => 404,
        _ => 500,
    }
}

fn gen_app_version() -> (r: String)
    ensures
        crate::value::is_app_version(r@),
{
    let major = random_in(1, 6);
    let minor = random_in(0, 10);
    let patch = random_in(0, 10);
    let mut out = dec_str(major);
    out.append(".");
    let s1 = dec_str(minor);
    out.append(s1.as_str());
    out.append(".");
    let s2 = dec_str(patch);
    out.append(s2.as_str());
    proof {
        assert(out@ =~= dec_chars(major as int) + "."@ + dec_chars(minor as int)
            + "."@ + dec_chars(patch as int));
    }
    out
}

fn gen_service_name() -> (r: String)
    ensures
        crate::value::is_service_name(r@),
{
    let i = random_in(0, 3);
    match i {
        0 => "auth-service".to_owned(),
        1 => "product-service".to_owned(),
        _ => "order-service".to_owned(),
    }
}

fn gen_region() -> (r: String)
    ensures
        crate::value::is_region(r@),
{
    let i = random_in(0, 3);
    match i {
        0 => "us-east-1".to_owned(),
        1 => "us-west-2".to_owned(),
        _ => "eu-central-1".to_owned(),
    }
}

/// Generate one value for a field kind: every value lands in the exact
/// domain the schema's type table declares for that kind.
pub fn generate_value(k: FieldKind) -> (v: Value)
    ensures
        value_ok(k, v),
{
    match k {
        FieldKind::Timestamp => Value::Str(gen_timestamp()),
        FieldKind::Level => Value::Str(gen_level()),
        FieldKind::Message => {
            let len = random_in(50, 151);
            Value::Str(random_string(len as usize))
        },
        FieldKind::SourceIp => Value::Str(gen_source_ip()),
        FieldKind::UserId => Value::Str(gen_user_id()),
        FieldKind::RequestId => Value::Str(random_string(32)),
        FieldKind::HttpMethod => Value::Str(gen_http_method()),
        FieldKind::HttpPath => Value::Str(gen_http_path()),
        FieldKind::HttpStatus => Value::Int(gen_http_status()),
        FieldKind::UserAgent => Value::Str(
            "Mozilla/5.0 (Macintosh; Intel Mac OS X 10_15_7) AppleWebKit/537.36 (KHTML, like Gecko) Chrome/126.0.0.0 Safari/537.36".to_owned(),
        ),
        FieldKind::ResponseTimeMs => Value::Int(random_in(10, 501)),
        FieldKind::AppVersion => Value::Str(gen_app_version()),
        FieldKind::ServiceName => Value::Str(gen_service_name()),
        FieldKind::Region => Value::Str(gen_region()),
        FieldKind::Payload => Value::Str(random_string(2500)),
    }
}

/// Relies on str's `PartialEq`: string slices are equal exactly when their
/// character contents are equal.
#[verifier::external_body]
fn str_eq(a: &str, b: &str) -> (r: bool)
    ensures
        r <==> a@ == b@,
{
    a == b
}

/// Generate a value for a field addressed by name. An unrecognized name —
/// unreachable under the fixed schema, kept for forward compatibility —
/// falls back to a 10-character alphanumeric string.
pub fn generate_value_named(name: &str) -> (v: Value)
    ensures
        forall|i: int| 0 <= i < SCHEMA_LEN && name@ == spec_field_name(i)
            ==> value_ok(spec_field_kind(i), v),
        (forall|i: int| 0 <= i < SCHEMA_LEN ==> name@ != spec_field_name(i))
            ==> (v matches Value::Str(s) && s@.len() == 10 && is_alnum_string(s@)),
{
    let mut i: usize = 0;
    while i < SCHEMA_LEN
        invariant
            i <= SCHEMA_LEN,
            forall|j: int| 0 <= j < i ==> name@ != spec_field_name(j),
        decreases SCHEMA_LEN - i,
    {
        if str_eq(name, field_name(i)) {
            let v = generate_value(field_kind(i));
            proof {
                assert forall|j: int|
                    0 <= j < SCHEMA_LEN && name@ == spec_field_name(j)
                        implies value_ok(spec_field_kind(j), v) by {
                    assert(spec_field_name(j) == spec_field_name(i as int));
                    crate::value::lemma_field_names_distinct(j, i as int);
                }
            }
            return v;
        }
        i = i + 1;
    }
    Value::Str(random_string(10))
}

/// Assemble one record: every schema field in order, generated by its kind.
pub fn generate_record() -> (r: Record)
    ensures
        record_wf(r),
{
    let mut fields: Vec<(String, Value)> = Vec::new();
    let mut i: usize = 0;
    while i < SCHEMA_LEN
        invariant
            fields@.len() == i <= SCHEMA_LEN,
            forall|j: int| 0 <= j < i
                ==> (#[trigger] fields@[j]).0@ == spec_field_name(j)
                    && value_ok(spec_field_kind(j), fields@[j].1),
        decreases SCHEMA_LEN - i,
    {
        let name = field_name(i);
        let v = generate_value(field_kind(i));
        fields.push((name.to_owned(), v));
        i = i + 1;
    }
    Record { fields }
}

/// The zero-padded sequential logical filename of record `i`.
pub open spec fn blob_name(i: int) -> Seq<char> {
    "log_"@ + pad4(i)
}

/// Build the logical filename of record `i`.
pub fn blob_name_str(i: usize) -> (r: String)
    requires
        i < 10000,
    ensures
        r@ == blob_name(i as int),
{
    let mut out = "log_".to_owned();
    let p = pad4_str(i as u64);
    out.append(p.as_str());
    out
}

proof fn lemma_dec4(n: int)
    requires
        0 <= n < 10000,
    ensures
        n == 1000 * (n / 1000) + 100 * ((n / 100) % 10) + 10 * ((n / 10) % 10) + n % 10,
{
    vstd::arithmetic::div_mod::lemma_fundamental_div_mod(n, 10);
    vstd::arithmetic::div_mod::lemma_fundamental_div_mod(n / 10, 10);
    vstd::arithmetic::div_mod::lemma_fundamental_div_mod(n / 100, 10);
    vstd::arithmetic::div_mod::lemma_div_denominator(n, 10, 10);
    vstd::arithmetic::div_mod::lemma_div_denominator(n, 100, 10);
    assert(n / 10 / 10 == n / 100);
    assert(n / 100 / 10 == n / 1000);
}

/// No two records of a run share a logical filename: the zero-padded
/// sequential names are pairwise distinct.
pub proof fn lemma_blob_names_unique(i: int, j: int)
    requires
        0 <= i < 10000,
        0 <= j < 10000,
        i != j,
    ensures
        blob_name(i) != blob_name(j),
{
    reveal_strlit("log_");
    if blob_name(i) == blob_name(j) {
        assert(blob_name(i)[4] == digit(i / 1000));
        assert(blob_name(i)[5] == digit((i / 100) % 10));
        assert(blob_name(i)[6] == digit((i / 10) % 10));
        assert(blob_name(i)[7] == digit(i % 10));
        assert(digit(i / 1000) == digit(j / 1000));
        assert(digit((i / 100) % 10) == digit((j / 100) % 10));
        assert(digit((i / 10) % 10) == digit((j / 10) % 10));
        assert(digit(i % 10) == digit(j % 10));
        lemma_dec4(i);
        lemma_dec4(j);
        assert(false);
    }
}

/// A record of the corpus together with its logical filename.
pub struct NamedRecord {
    pub name: String,
    pub record: Record,
}

/// Generate a corpus of `n` independent records, each paired with its
/// zero-padded sequential name, in index order.
pub fn generate_corpus(n: usize) -> (r: Vec<NamedRecord>)
    requires
        n <= 10000,
    ensures
        r@.len() == n,
        forall|i: int| 0 <= i < n
            ==> (#[trigger] r@[i]).name@ == blob_name(i) && record_wf(r@[i].record),
{
    let mut out: Vec<NamedRecord> = Vec::new();
    let mut i: usize = 0;
    while i < n
        invariant
            out@.len() == i <= n <= 10000,
            forall|k: int| 0 <= k < i
                ==> (#[trigger] out@[k]).name@ == blob_name(k) && record_wf(out@[k].record),
        decreases n - i,
    {
        let name = blob_name_str(i);
        let record = generate_record();
        out.push(NamedRecord { name, record });
        i = i + 1;
    }
    out
}

} // verus!
