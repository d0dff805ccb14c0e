use redis_governor::digest::key_digest;
use redis_governor::keys::{hash_key, sentinel_key, start_key};

fn namespace(prefix: &str, digests: &[String]) -> Vec<String> {
    let mut keys = vec![start_key(prefix), hash_key(prefix)];
    for digest in digests {
        keys.push(sentinel_key(prefix, digest));
    }
    keys
}

#[test]
fn start_key_is_prefix_colon_start() {
    assert_eq!(start_key("P"), "P:start");
    assert_eq!(start_key(""), ":start");
    assert_eq!(start_key("basic-rate-limiter-test"), "basic-rate-limiter-test:start");
}

#[test]
fn hash_key_is_prefix_governor_hash() {
    assert_eq!(hash_key("P"), "P:governor:hash");
    assert_eq!(hash_key(""), ":governor:hash");
}

#[test]
fn sentinel_key_is_prefix_governor_value_digest() {
    assert_eq!(sentinel_key("P", "a6a6ffdf9acccd52"), "P:governor:value:a6a6ffdf9acccd52");
    assert_eq!(
        sentinel_key("P", &key_digest(b"test\xff")),
        "P:governor:value:a6a6ffdf9acccd52"
    );
}

#[test]
fn keys_keep_a_prefix_that_is_not_ascii() {
    assert_eq!(start_key("zähler"), "zähler:start");
    assert_eq!(hash_key("限流"), "限流:governor:hash");
}

#[test]
fn keys_of_one_namespace_are_distinct() {
    let digests = vec![key_digest(b"a"), key_digest(b"b"), key_digest(b"test\xff")];
    let keys = namespace("P", &digests);
    for i in 0..keys.len() {
        for j in 0..keys.len() {
            if i != j {
                assert_ne!(keys[i], keys[j]);
            }
        }
    }
}

#[test]
fn namespaces_of_nested_prefixes_share_no_key() {
    let digests = vec![
        key_digest(b"a"),
        key_digest(b"test\xff"),
        String::from("0"),
        String::from("ab"),
        String::from("abad1dea"),
    ];
    let prefixes = [
        "a",
        "a:governor",
        "a:governor:value",
        "a:governor:value:ab",
        "a:start",
        "a:governor:hash",
        "",
        ":governor",
        "b",
    ];
    for prefix in prefixes.iter() {
        for other in prefixes.iter() {
            if prefix != other {
                let ours = namespace(prefix, &digests);
                let theirs = namespace(other, &digests);
                for key in ours.iter() {
                    assert!(!theirs.contains(key), "{} is a key of {} and of {}", key, prefix, other);
                }
            }
        }
    }
}
