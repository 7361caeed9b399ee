use redis_tui::{is_hash_type, render_redis_value, RedisHash, RedisValue};

fn pairs(v: &[(&str, &str)]) -> Vec<(String, String)> {
    v.iter().map(|(a, b)| (a.to_string(), b.to_string())).collect()
}

#[test]
fn hash_type_is_recognised() {
    assert!(is_hash_type("hash"));
    assert!(!is_hash_type("string"));
    assert!(!is_hash_type("Hash"));
    assert!(!is_hash_type("hashes"));
    assert!(!is_hash_type(""));
}

#[test]
fn hash_keeps_fields_in_order() {
    let h = RedisHash::from_entries(pairs(&[("name", "ann"), ("age", "42"), ("city", "oslo")]));
    assert_eq!(h.len(), 3);
    assert_eq!(h.into_entries(), pairs(&[("age", "42"), ("city", "oslo"), ("name", "ann")]));
}

#[test]
fn hash_later_value_wins() {
    let h = RedisHash::from_entries(pairs(&[("a", "1"), ("b", "2"), ("a", "3")]));
    assert_eq!(h.into_entries(), pairs(&[("a", "3"), ("b", "2")]));
}

#[test]
fn hash_insert_replaces_or_adds() {
    let mut h = RedisHash::new();
    h.insert("m".to_string(), "1".to_string());
    h.insert("c".to_string(), "2".to_string());
    h.insert("x".to_string(), "3".to_string());
    h.insert("m".to_string(), "4".to_string());
    assert_eq!(h.entries(), &pairs(&[("c", "2"), ("m", "4"), ("x", "3")]));
}

#[test]
fn render_unknown_value() {
    assert_eq!(render_redis_value(RedisValue::Unknown), "Unknown value");
}

#[test]
fn render_hash_value() {
    let h = RedisHash::from_entries(pairs(&[("b", "2"), ("a", "1")]));
    assert_eq!(render_redis_value(RedisValue::Hash(h)), "a: 1\nb: 2");
}

#[test]
fn render_empty_and_single_hash() {
    assert_eq!(render_redis_value(RedisValue::Hash(RedisHash::new())), "");
    let h = RedisHash::from_entries(pairs(&[("k", "v")]));
    assert_eq!(render_redis_value(RedisValue::Hash(h)), "k: v");
}
