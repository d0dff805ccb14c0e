//! The keys that a governor mints in the store, all scoped by its prefix.

use crate::digest::{digest_of, hex_digits, is_hex_char, sip24};
use vstd::prelude::*;

verus! {

/// What a key of a namespace stands for.
pub enum KeyName {
    /// The scalar that holds the fleet epoch.
    Start,
    /// The hash that holds one field per rate-limit entry.
    Hash,
    /// The scalar that is watched on behalf of the entry with this digest.
    Sentinel(Seq<char>),
}

/// A digest is a non-empty run of lowercase hexadecimal digits.
pub open spec fn is_digest(d: Seq<char>) -> bool {
    &&& d.len() > 0
    &&& forall|i: int| 0 <= i < d.len() ==> is_hex_char(#[trigger] d[i])
}

impl KeyName {
    /// A sentinel is named by a digest; the other two names are always valid.
    pub open spec fn valid(self) -> bool {
        match self {
            KeyName::Sentinel(d) => is_digest(d),
            _ => true,
        }
    }
}

/// `{prefix}:start`
pub open spec fn start_key_of(prefix: Seq<char>) -> Seq<char> {
    prefix + ":start"@
}

/// `{prefix}:governor:hash`
pub open spec fn hash_key_of(prefix: Seq<char>) -> Seq<char> {
    prefix + ":governor:hash"@
}

/// `{prefix}:governor:value:{digest}`
pub open spec fn sentinel_key_of(prefix: Seq<char>, digest: Seq<char>) -> Seq<char> {
    prefix + ":governor:value:"@ + digest
}

/// The key that `name` has under `prefix`.
pub open spec fn key_of(prefix: Seq<char>, name: KeyName) -> Seq<char> {
    match name {
        KeyName::Start => start_key_of(prefix),
        KeyName::Hash => hash_key_of(prefix),
        KeyName::Sentinel(d) => sentinel_key_of(prefix, d),
    }
}

/// Whether `key` is one of the keys that a governor with this prefix mints.
pub open spec fn in_namespace(prefix: Seq<char>, key: Seq<char>) -> bool {
    exists|name: KeyName| name.valid() && key == #[trigger] key_of(prefix, name)
}

/// Builds `{prefix}:start`.
pub fn start_key(prefix: &str) -> (key: String)
    ensures
        key@ == start_key_of(prefix@),
{
    String::from_str(prefix).concat(":start")
}

/// Builds `{prefix}:governor:hash`.
pub fn hash_key(prefix: &str) -> (key: String)
    ensures
        key@ == hash_key_of(prefix@),
{
    String::from_str(prefix).concat(":governor:hash")
}

/// Builds `{prefix}:governor:value:{digest}`.
pub fn sentinel_key(prefix: &str, digest: &str) -> (key: String)
    ensures
        key@ == sentinel_key_of(prefix@, digest@),
{
    String::from_str(prefix).concat(":governor:value:").concat(digest)
}

/// The epoch, the hash and every sentinel of a governor are keys of its
/// namespace.
pub proof fn lemma_own_keys_in_namespace(prefix: Seq<char>, d: Seq<char>)
    ensures
        in_namespace(prefix, start_key_of(prefix)),
        in_namespace(prefix, hash_key_of(prefix)),
        is_digest(d) ==> in_namespace(prefix, sentinel_key_of(prefix, d)),
{
    let start = KeyName::Start;
    let hash = KeyName::Hash;
    let sentinel = KeyName::Sentinel(d);
    assert(start.valid() && key_of(prefix, start) == start_key_of(prefix));
    assert(hash.valid() && key_of(prefix, hash) == hash_key_of(prefix));
    if is_digest(d) {
        assert(sentinel.valid() && key_of(prefix, sentinel) == sentinel_key_of(prefix, d));
    }
}

/// No hexadecimal digit is a colon, a `t` or an `h`.
pub proof fn lemma_hex_char_is_no_separator(c: char)
    requires
        is_hex_char(c),
    ensures
        c != ':',
        c != 't',
        c != 'h',
{
}

/// The hexadecimal form of a number is a digest.
pub proof fn lemma_hex_digits_is_digest(n: nat)
    ensures
        is_digest(hex_digits(n)),
    decreases n,
{
    if n >= 16 {
        lemma_hex_digits_is_digest(n / 16);
    }
}

/// The digest of a key is a digest.
pub proof fn lemma_digest_of_is_digest(key: Seq<u8>)
    ensures
        is_digest(digest_of(key)),
{
    lemma_hex_digits_is_digest(sip24(key) as nat);
}

/// Two strings that end in the same suffix and are equal begin equally.
proof fn lemma_common_suffix(a: Seq<char>, b: Seq<char>, s: Seq<char>)
    requires
        a + s == b + s,
    ensures
        a == b,
{
    assert(a.len() == b.len()) by {
        assert((a + s).len() == a.len() + s.len());
        assert((b + s).len() == b.len() + s.len());
    }
    assert forall|i: int| 0 <= i < a.len() implies a[i] == b[i] by {
        assert(a[i] == (a + s)[i]);
        assert(b[i] == (b + s)[i]);
    }
}

/// A key that ends in a digest after a colon splits in one way only.
proof fn lemma_digest_suffix(a: Seq<char>, d: Seq<char>, b: Seq<char>, e: Seq<char>)
    requires
        is_digest(d),
        is_digest(e),
        a.len() > 0,
        b.len() > 0,
        a.last() == ':',
        b.last() == ':',
        a + d == b + e,
    ensures
        a == b,
        d == e,
{
    let k = a + d;
    assert(k.len() == a.len() + d.len() == b.len() + e.len());
    // The colon that ends the shorter head would lie in the other's digest.
    if a.len() < b.len() {
        let i = b.len() - 1;
        assert(k[i] == b.last() && k[i] == d[i - a.len()]);
        lemma_hex_char_is_no_separator(d[i - a.len()]);
    }
    if b.len() < a.len() {
        let i = a.len() - 1;
        assert(k[i] == a.last() && k[i] == e[i - b.len()]);
        lemma_hex_char_is_no_separator(e[i - b.len()]);
    }
    assert forall|i: int| 0 <= i < a.len() implies a[i] == b[i] by {
        assert(a[i] == k[i] && b[i] == k[i]);
    }
    assert forall|i: int| 0 <= i < d.len() implies d[i] == e[i] by {
        assert(d[i] == k[a.len() + i] && e[i] == k[b.len() + i]);
    }
}

/// The last character of a key tells the three kinds of name apart.
proof fn lemma_last_char(prefix: Seq<char>, name: KeyName)
    requires
        name.valid(),
    ensures
        key_of(prefix, name).len() > 0,
        name is Start ==> key_of(prefix, name).last() == 't',
        name is Hash ==> key_of(prefix, name).last() == 'h',
        name is Sentinel ==> is_hex_char(key_of(prefix, name).last()),
{
    reveal_strlit(":start");
    reveal_strlit(":governor:hash");
    reveal_strlit(":governor:value:");
}

/// A key names one thing under one prefix: two governors whose prefixes
/// differ never mint the same key, and within a namespace the epoch, the
/// hash and the sentinels of distinct digests are all distinct keys.
pub proof fn lemma_key_of_injective(prefix: Seq<char>, name: KeyName, other: Seq<char>, other_name: KeyName)
    requires
        name.valid(),
        other_name.valid(),
        key_of(prefix, name) == key_of(other, other_name),
    ensures
        prefix == other,
        name == other_name,
{
    lemma_last_char(prefix, name);
    lemma_last_char(other, other_name);
    let last = key_of(prefix, name).last();
    if is_hex_char(last) {
        lemma_hex_char_is_no_separator(last);
    }
    match (name, other_name) {
        (KeyName::Start, KeyName::Start) => {
            lemma_common_suffix(prefix, other, ":start"@);
        },
        (KeyName::Hash, KeyName::Hash) => {
            lemma_common_suffix(prefix, other, ":governor:hash"@);
        },
        (KeyName::Sentinel(digest), KeyName::Sentinel(other_digest)) => {
            reveal_strlit(":governor:value:");
            lemma_digest_suffix(
                prefix + ":governor:value:"@,
                digest,
                other + ":governor:value:"@,
                other_digest,
            );
            lemma_common_suffix(prefix, other, ":governor:value:"@);
        },
        _ => {},
    }
}

/// Namespaces of distinct prefixes share no key.
pub proof fn lemma_namespaces_disjoint(prefix: Seq<char>, other: Seq<char>, key: Seq<char>)
    requires
        prefix != other,
    ensures
        !(in_namespace(prefix, key) && in_namespace(other, key)),
{
    if in_namespace(prefix, key) && in_namespace(other, key) {
        let name = choose|name: KeyName| name.valid() && key == #[trigger] key_of(prefix, name);
        let other_name = choose|name: KeyName| name.valid() && key == #[trigger] key_of(other, name);
        lemma_key_of_injective(prefix, name, other, other_name);
    }
}

} // verus!
