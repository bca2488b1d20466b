use rpc_core::key::{key_of, key_of_str, trunc_key};
use rpc_core::registry::{DescriptorKind, Direction, Registry, RegistryError};

#[test]
fn fnv1a_known_vectors() {
    assert_eq!(key_of(&[]), 0xcbf29ce484222325);
    assert_eq!(key_of(&[0x61]), 0xaf63dc4c8601ec8c);
    assert_eq!(key_of_str("a"), 0xaf63dc4c8601ec8c);
    assert_eq!(key_of_str("foobar"), 0x85944171f73967e8);
}

#[test]
fn key_of_str_matches_key_of_bytes() {
    assert_eq!(key_of_str("template/sleep"), key_of(b"template/sleep"));
}

#[test]
fn trunc_key_keeps_low_bytes() {
    let k = 0x1122334455667788u64;
    assert_eq!(trunc_key(k, 1), 0x88);
    assert_eq!(trunc_key(k, 2), 0x7788);
    assert_eq!(trunc_key(k, 4), 0x55667788);
    assert_eq!(trunc_key(k, 8), k);
}

#[test]
fn registration_derives_distinct_keys() {
    let mut r = Registry::new();
    let k1 = r.register("template/led/set", DescriptorKind::Endpoint).unwrap();
    let k2 = r.register("template/led/get", DescriptorKind::Endpoint).unwrap();
    let k3 = r
        .register("bc/ctrl_status ", DescriptorKind::Topic(Direction::ToClient))
        .unwrap();
    assert_ne!(k1, k2);
    assert_ne!(k1, k3);
    assert_ne!(k2, k3);
    assert_eq!(k1, key_of_str("template/led/set"));
}

#[test]
fn registering_a_colliding_path_fails_fast() {
    let mut r = Registry::new();
    r.register("template/sleep", DescriptorKind::Endpoint).unwrap();
    // The same path hashes to the same key: refused at registration,
    // not misrouted at runtime.
    let again = r.register("template/sleep", DescriptorKind::Endpoint);
    assert_eq!(again, Err(RegistryError::KeyCollision));
    assert_eq!(r.entries.len(), 1);
}

#[test]
fn lookup_by_truncated_key() {
    let mut r = Registry::new();
    let k = r.register("template/sleep", DescriptorKind::Endpoint).unwrap();
    let len = r.min_key_len();
    let idx = r.lookup_trunc(trunc_key(k, len), len).unwrap();
    assert_eq!(r.entries[idx].key, k);
    assert!(r.lookup_trunc(trunc_key(k, len).wrapping_add(1), len).is_none());
}

#[test]
fn min_key_len_is_a_supported_width_and_unambiguous() {
    let mut r = Registry::new();
    assert_eq!(r.min_key_len(), 1);
    let paths = [
        "poststation/unique_id/get",
        "template/picoboot/reset",
        "template/sleep",
        "template/led/set",
        "template/led/get",
    ];
    let mut keys = Vec::new();
    for p in paths.iter() {
        keys.push(r.register(p, DescriptorKind::Endpoint).unwrap());
    }
    let len = r.min_key_len();
    assert!(len == 1 || len == 2 || len == 4 || len == 8);
    for i in 0..keys.len() {
        for j in 0..keys.len() {
            if i != j {
                assert_ne!(trunc_key(keys[i], len), trunc_key(keys[j], len));
            }
        }
    }
}
