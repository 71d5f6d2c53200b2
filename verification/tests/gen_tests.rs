use std::collections::HashSet;

use logbench::gen::blob_name_str;
use logbench::gen::dec_str;
use logbench::gen::generate_corpus;
use logbench::gen::generate_record;
use logbench::gen::generate_value;
use logbench::gen::generate_value_named;
use logbench::gen::random_string;
use logbench::value::FieldKind;
use logbench::value::Value;
use logbench::value::field_kind;
use logbench::value::field_name;

const FIXED_KEYS: [&str; 15] = [
    "timestamp", "level", "message", "source_ip", "user_id", "request_id",
    "http_method", "http_path", "http_status", "user_agent", "response_time_ms",
    "app_version", "service_name", "region", "payload",
];

fn str_of(v: &Value) -> &str {
    match v {
        Value::Str(s) => s.as_str(),
        Value::Int(_) => panic!("expected a string value"),
    }
}

fn int_of(v: &Value) -> u64 {
    match v {
        Value::Int(n) => *n,
        Value::Str(_) => panic!("expected an integer value"),
    }
}

fn is_alnum(s: &str) -> bool {
    s.bytes().all(|b| b.is_ascii_alphanumeric())
}

#[test]
fn schema_names_in_order() {
    for (i, key) in FIXED_KEYS.iter().enumerate() {
        assert_eq!(field_name(i), *key);
    }
}

#[test]
fn record_has_all_fields_in_order_with_right_types() {
    let r = generate_record();
    assert_eq!(r.fields.len(), 15);
    for (i, key) in FIXED_KEYS.iter().enumerate() {
        let (name, value) = &r.fields[i];
        assert_eq!(name, key);
        match *key {
            "http_status" | "response_time_ms" => assert!(matches!(value, Value::Int(_))),
            _ => assert!(matches!(value, Value::Str(_))),
        }
    }
}

#[test]
fn timestamp_shape() {
    for _ in 0..50 {
        let v = generate_value(FieldKind::Timestamp);
        let s = str_of(&v).to_string();
        assert_eq!(s.len(), 24);
        assert!(s.starts_with("2025-07-09T"));
        assert!(s.ends_with('Z'));
        let hour: u32 = s[11..13].parse().unwrap();
        let minute: u32 = s[14..16].parse().unwrap();
        let second: u32 = s[17..19].parse().unwrap();
        let ms: u32 = s[20..23].parse().unwrap();
        assert_eq!(&s[13..14], ":");
        assert_eq!(&s[16..17], ":");
        assert_eq!(&s[19..20], ".");
        assert!(hour < 24);
        assert!(minute < 60);
        assert!(second < 60);
        assert!(ms < 1000);
    }
}

#[test]
fn enumerated_fields_stay_in_domain_and_cover_it() {
    let levels: HashSet<&str> = ["INFO", "WARN", "ERROR", "DEBUG"].into_iter().collect();
    let methods: HashSet<&str> = ["GET", "POST", "PUT", "DELETE"].into_iter().collect();
    let statuses: HashSet<u64> = [200, 201, 400, 404, 500].into_iter().collect();
    let services: HashSet<&str> =
        ["auth-service", "product-service", "order-service"].into_iter().collect();
    let regions: HashSet<&str> = ["us-east-1", "us-west-2", "eu-central-1"].into_iter().collect();

    let mut seen_levels = HashSet::new();
    let mut seen_methods = HashSet::new();
    let mut seen_statuses = HashSet::new();
    let mut seen_services = HashSet::new();
    let mut seen_regions = HashSet::new();
    for _ in 0..600 {
        let l = str_of(&generate_value(FieldKind::Level)).to_string();
        assert!(levels.contains(l.as_str()));
        seen_levels.insert(l);
        let m = str_of(&generate_value(FieldKind::HttpMethod)).to_string();
        assert!(methods.contains(m.as_str()));
        seen_methods.insert(m);
        let st = int_of(&generate_value(FieldKind::HttpStatus));
        assert!(statuses.contains(&st));
        seen_statuses.insert(st);
        let sv = str_of(&generate_value(FieldKind::ServiceName)).to_string();
        assert!(services.contains(sv.as_str()));
        seen_services.insert(sv);
        let rg = str_of(&generate_value(FieldKind::Region)).to_string();
        assert!(regions.contains(rg.as_str()));
        seen_regions.insert(rg);
    }
    assert_eq!(seen_levels.len(), 4);
    assert_eq!(seen_methods.len(), 4);
    assert_eq!(seen_statuses.len(), 5);
    assert_eq!(seen_services.len(), 3);
    assert_eq!(seen_regions.len(), 3);
}

#[test]
fn message_request_id_payload_shapes() {
    for _ in 0..20 {
        let m = str_of(&generate_value(FieldKind::Message)).to_string();
        assert!(50 <= m.len() && m.len() < 151);
        assert!(is_alnum(&m));
        let rid = str_of(&generate_value(FieldKind::RequestId)).to_string();
        assert_eq!(rid.len(), 32);
        assert!(is_alnum(&rid));
    }
    let p = str_of(&generate_value(FieldKind::Payload)).to_string();
    assert_eq!(p.len(), 2500);
    assert!(is_alnum(&p));
}

#[test]
fn source_ip_shape() {
    for _ in 0..50 {
        let s = str_of(&generate_value(FieldKind::SourceIp)).to_string();
        let octets: Vec<u32> = s.split('.').map(|o| o.parse().unwrap()).collect();
        assert_eq!(octets.len(), 4);
        for o in octets {
            assert!(1 <= o && o < 255);
        }
    }
}

#[test]
fn user_id_shape() {
    for _ in 0..50 {
        let s = str_of(&generate_value(FieldKind::UserId)).to_string();
        let n: u32 = s.strip_prefix("user-").unwrap().parse().unwrap();
        assert!(1000 <= n && n < 10000);
    }
}

#[test]
fn http_path_shape() {
    for _ in 0..50 {
        let s = str_of(&generate_value(FieldKind::HttpPath)).to_string();
        assert!(s.starts_with('/'));
        let segs: Vec<&str> = s[1..].split('/').collect();
        assert!(1 <= segs.len() && segs.len() <= 3);
        for seg in segs {
            assert!(5 <= seg.len() && seg.len() < 11);
            assert!(is_alnum(seg));
        }
    }
}

#[test]
fn response_time_range() {
    for _ in 0..50 {
        let n = int_of(&generate_value(FieldKind::ResponseTimeMs));
        assert!(10 <= n && n < 501);
    }
}

#[test]
fn app_version_shape() {
    for _ in 0..50 {
        let s = str_of(&generate_value(FieldKind::AppVersion)).to_string();
        let parts: Vec<u32> = s.split('.').map(|p| p.parse().unwrap()).collect();
        assert_eq!(parts.len(), 3);
        assert!(1 <= parts[0] && parts[0] < 6);
        assert!(parts[1] < 10);
        assert!(parts[2] < 10);
    }
}

#[test]
fn user_agent_is_fixed() {
    let a = str_of(&generate_value(FieldKind::UserAgent)).to_string();
    let b = str_of(&generate_value(FieldKind::UserAgent)).to_string();
    assert_eq!(a, b);
    assert!(a.starts_with("Mozilla/5.0"));
}

#[test]
fn value_by_name_matches_schema() {
    let l = generate_value_named("level");
    let levels: HashSet<&str> = ["INFO", "WARN", "ERROR", "DEBUG"].into_iter().collect();
    assert!(levels.contains(str_of(&l)));
    let st = generate_value_named("http_status");
    assert!(matches!(st, Value::Int(_)));
}

#[test]
fn value_by_unknown_name_falls_back() {
    let v = generate_value_named("no_such_field");
    let s = str_of(&v);
    assert_eq!(s.len(), 10);
    assert!(is_alnum(s));
}

#[test]
fn field_kind_table_is_total() {
    for i in 0..15usize {
        let k = field_kind(i);
        let v = generate_value(k);
        match field_name(i) {
            "http_status" | "response_time_ms" => assert!(matches!(v, Value::Int(_))),
            _ => assert!(matches!(v, Value::Str(_))),
        }
    }
}

#[test]
fn blob_names_zero_padded() {
    assert_eq!(blob_name_str(0), "log_0000");
    assert_eq!(blob_name_str(42), "log_0042");
    assert_eq!(blob_name_str(9999), "log_9999");
}

#[test]
fn blob_names_never_repeat() {
    let mut seen = HashSet::new();
    for i in 0..10000usize {
        assert!(seen.insert(blob_name_str(i)));
    }
}

#[test]
fn corpus_names_sequential_and_records_complete() {
    let corpus = generate_corpus(5);
    assert_eq!(corpus.len(), 5);
    for (i, nr) in corpus.iter().enumerate() {
        assert_eq!(nr.name, format!("log_{:04}", i));
        assert_eq!(nr.record.fields.len(), 15);
    }
}

#[test]
fn dec_str_exact() {
    assert_eq!(dec_str(0), "0");
    assert_eq!(dec_str(7), "7");
    assert_eq!(dec_str(10), "10");
    assert_eq!(dec_str(65535), "65535");
}

#[test]
fn random_string_exact_length() {
    let s = random_string(0);
    assert!(s.is_empty());
    let s = random_string(17);
    assert_eq!(s.len(), 17);
    assert!(is_alnum(&s));
}
