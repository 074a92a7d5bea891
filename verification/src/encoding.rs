//! The raw storage key of a namespaced map entry.
//!
//! A map named `namespace` keeps the entry with primary key `pk` under the
//! bytes `len2 || namespace || pk`, where `len2` is the namespace's length in
//! two bytes, high byte first.

use crate::error::{ContractError, Fatal};
use crate::msg::IntType;
use cw_storage_plus::IntKey;
use vstd::prelude::*;
use vstd::string::StringSliceAdditionalSpecFns;
use vstd::utf8::encode_utf8;

verus! {

/// Why a raw key could not be built.
#[derive(Clone, Copy, Debug, PartialEq, Eq, Structural)]
pub enum EncodingError {
    /// The primary key holds no bytes.
    PrimaryKeyEmpty,
    /// The namespace holds no bytes.
    NamespaceEmpty,
    /// The namespace holds more bytes than two length bytes can count.
    NamespaceTooLong,
}

/// The largest namespace length, in bytes, that the length prefix can hold.
pub const MAX_NAMESPACE_LEN: usize = 0xFFFF;

/// The two length bytes in front of a namespace of `n` bytes, high byte first.
pub open spec fn length_prefix(n: nat) -> Seq<u8> {
    seq![((n / 256) % 256) as u8, (n % 256) as u8]
}

/// The key under which a map named by `namespace` stores the entry `pk`.
pub open spec fn raw_key(namespace: Seq<u8>, pk: Seq<u8>) -> Seq<u8> {
    length_prefix(namespace.len()) + namespace + pk
}

/// Tells the rejected inputs of key encoding from the accepted ones, and gives
/// the key of the accepted ones.
pub open spec fn encode_key(namespace: Seq<u8>, pk: Seq<u8>) -> Result<Seq<u8>, EncodingError> {
    if pk.len() == 0 {
        Err(EncodingError::PrimaryKeyEmpty)
    } else if namespace.len() == 0 {
        Err(EncodingError::NamespaceEmpty)
    } else if namespace.len() > MAX_NAMESPACE_LEN {
        Err(EncodingError::NamespaceTooLong)
    } else {
        Ok(raw_key(namespace, pk))
    }
}

/// The key of a text primary key in the map `namespace`, or the text of the
/// error that refuses it.
pub open spec fn text_key(namespace: Seq<char>, pk: Seq<char>) -> Result<Seq<u8>, Seq<char>> {
    match encode_key(encode_utf8(namespace), encode_utf8(pk)) {
        Ok(key) => Ok(key),
        Err(e) => Err(e.text()),
    }
}

/// The `width` low bytes of `v`, most significant first.
pub open spec fn be_bytes(v: nat, width: nat) -> Seq<u8>
    decreases width,
{
    if width == 0 {
        Seq::empty()
    } else {
        be_bytes(v / 256, (width - 1) as nat).push((v % 256) as u8)
    }
}

impl EncodingError {
    /// The text that a failed batch gives for this error.
    pub open spec fn text(self) -> Seq<char> {
        match self {
            EncodingError::PrimaryKeyEmpty => "Primary Key length cannot be 0"@,
            EncodingError::NamespaceEmpty => "Namespace length cannot be 0"@,
            EncodingError::NamespaceTooLong => "Namespace length cannot be > 0xFFFF"@,
        }
    }

    /// The text that a failed batch gives for this error.
    pub fn message(&self) -> (r: String)
        ensures
            r@ == self.text(),
    {
        match self {
            EncodingError::PrimaryKeyEmpty => String::from_str("Primary Key length cannot be 0"),
            EncodingError::NamespaceEmpty => String::from_str("Namespace length cannot be 0"),
            EncodingError::NamespaceTooLong => String::from_str(
                "Namespace length cannot be > 0xFFFF",
            ),
        }
    }
}

/// The length of `namespace` as two bytes, high byte first. A namespace that
/// two bytes cannot count is rejected.
pub fn encode_length(namespace: &[u8]) -> (r: Result<[u8; 2], EncodingError>)
    ensures
        namespace@.len() > MAX_NAMESPACE_LEN ==> r == Err::<[u8; 2], _>(
            EncodingError::NamespaceTooLong,
        ),
        namespace@.len() <= MAX_NAMESPACE_LEN ==> r is Ok && r.unwrap()@ == length_prefix(
            namespace@.len(),
        ),
{
    let n: usize = namespace.len();
    if n > MAX_NAMESPACE_LEN {
        return Err(EncodingError::NamespaceTooLong);
    }
    let high: u8 = (n / 256) as u8;
    let low: u8 = (n % 256) as u8;
    let bytes: [u8; 2] = [high, low];
    assert(bytes@ =~= length_prefix(namespace@.len()));
    Ok(bytes)
}

/// Builds the raw key of the entry whose primary key is stored as `pk` in the
/// map `namespace`: the empty primary key is refused first, then the empty
/// namespace, then the namespace that is too long.
pub fn raw_map_key(namespace: &str, pk: &[u8]) -> (r: Result<Vec<u8>, EncodingError>)
    ensures
        match encode_key(namespace.spec_bytes(), pk@) {
            Ok(key) => r is Ok && r.unwrap()@ == key,
            Err(e) => r == Err::<Vec<u8>, _>(e),
        },
{
    if pk.len() == 0 {
        return Err(EncodingError::PrimaryKeyEmpty);
    }
    let namespace_bytes = namespace.as_bytes();
    if namespace_bytes.len() == 0 {
        return Err(EncodingError::NamespaceEmpty);
    }
    let len2 = match encode_length(namespace_bytes) {
        Ok(len2) => len2,
        Err(e) => {
            return Err(e);
        },
    };
    let mut key: Vec<u8> = Vec::new();
    key.push(len2[0]);
    key.push(len2[1]);
    key.extend_from_slice(namespace_bytes);
    key.extend_from_slice(pk);
    assert(key@ =~= raw_key(namespace.spec_bytes(), pk@));
    Ok(key)
}

/// `IntKey::to_cw_bytes` of `u8`, which the crate defines as the integer's
/// big-endian bytes: here the one byte.
#[verifier::external_body]
fn u8_cw_bytes(k: u8) -> (r: Vec<u8>)
    ensures
        r@ == be_bytes(k as nat, 1),
{
    k.to_cw_bytes().to_vec()
}

/// `IntKey::to_cw_bytes` of `u16`: the integer's two big-endian bytes.
#[verifier::external_body]
fn u16_cw_bytes(k: u16) -> (r: Vec<u8>)
    ensures
        r@ == be_bytes(k as nat, 2),
{
    k.to_cw_bytes().to_vec()
}

/// `IntKey::to_cw_bytes` of `u32`: the integer's four big-endian bytes.
#[verifier::external_body]
fn u32_cw_bytes(k: u32) -> (r: Vec<u8>)
    ensures
        r@ == be_bytes(k as nat, 4),
{
    k.to_cw_bytes().to_vec()
}

/// `IntKey::to_cw_bytes` of `u64`: the integer's eight big-endian bytes.
#[verifier::external_body]
fn u64_cw_bytes(k: u64) -> (r: Vec<u8>)
    ensures
        r@ == be_bytes(k as nat, 8),
{
    k.to_cw_bytes().to_vec()
}

/// `IntKey::to_cw_bytes` of `u128`: the integer's sixteen big-endian bytes.
#[verifier::external_body]
fn u128_cw_bytes(k: u128) -> (r: Vec<u8>)
    ensures
        r@ == be_bytes(k as nat, 16),
{
    k.to_cw_bytes().to_vec()
}

/// A primary key that can be turned into the raw key of its map entry.
pub trait ToRawKey: Sized + Clone {
    /// The bytes that stand for this primary key inside a raw key.
    spec fn key_bytes(&self) -> Seq<u8>;

    /// The raw key of this primary key's entry in the map `namespace`.
    fn to_raw_map_key(&self, namespace: &str) -> (r: Result<Vec<u8>, EncodingError>)
        ensures
            match encode_key(namespace.spec_bytes(), self.key_bytes()) {
                Ok(key) => r is Ok && r.unwrap()@ == key,
                Err(e) => r == Err::<Vec<u8>, _>(e),
            },
    ;
}

impl ToRawKey for String {
    open spec fn key_bytes(&self) -> Seq<u8> {
        encode_utf8(self@)
    }

    fn to_raw_map_key(&self, namespace: &str) -> (r: Result<Vec<u8>, EncodingError>) {
        raw_map_key(namespace, self.as_str().as_bytes())
    }
}

impl ToRawKey for u8 {
    open spec fn key_bytes(&self) -> Seq<u8> {
        be_bytes(*self as nat, 1)
    }

    fn to_raw_map_key(&self, namespace: &str) -> (r: Result<Vec<u8>, EncodingError>) {
        let pk = u8_cw_bytes(*self);
        raw_map_key(namespace, pk.as_slice())
    }
}

impl ToRawKey for u16 {
    open spec fn key_bytes(&self) -> Seq<u8> {
        be_bytes(*self as nat, 2)
    }

    fn to_raw_map_key(&self, namespace: &str) -> (r: Result<Vec<u8>, EncodingError>) {
        let pk = u16_cw_bytes(*self);
        raw_map_key(namespace, pk.as_slice())
    }
}

impl ToRawKey for u32 {
    open spec fn key_bytes(&self) -> Seq<u8> {
        be_bytes(*self as nat, 4)
    }

    fn to_raw_map_key(&self, namespace: &str) -> (r: Result<Vec<u8>, EncodingError>) {
        let pk = u32_cw_bytes(*self);
        raw_map_key(namespace, pk.as_slice())
    }
}

impl ToRawKey for u64 {
    open spec fn key_bytes(&self) -> Seq<u8> {
        be_bytes(*self as nat, 8)
    }

    fn to_raw_map_key(&self, namespace: &str) -> (r: Result<Vec<u8>, EncodingError>) {
        let pk = u64_cw_bytes(*self);
        raw_map_key(namespace, pk.as_slice())
    }
}

impl ToRawKey for u128 {
    open spec fn key_bytes(&self) -> Seq<u8> {
        be_bytes(*self as nat, 16)
    }

    fn to_raw_map_key(&self, namespace: &str) -> (r: Result<Vec<u8>, EncodingError>) {
        let pk = u128_cw_bytes(*self);
        raw_map_key(namespace, pk.as_slice())
    }
}

impl IntType {
    /// The number of bytes in which a key of this type is stored.
    pub open spec fn width(self) -> nat {
        match self {
            IntType::U8 => 1,
            IntType::U16 => 2,
            IntType::U32 => 4,
            IntType::U64 => 8,
            IntType::U128 => 16,
        }
    }

    /// The largest key of this type.
    pub open spec fn largest(self) -> nat {
        match self {
            IntType::U8 => 0xFF,
            IntType::U16 => 0xFFFF,
            IntType::U32 => 0xFFFF_FFFF,
            IntType::U64 => 0xFFFF_FFFF_FFFF_FFFF,
            IntType::U128 => 0xFFFF_FFFF_FFFF_FFFF_FFFF_FFFF_FFFF_FFFF,
        }
    }

    /// The text that refuses a key too large for this type.
    pub open spec fn overflow_text(self) -> Seq<char> {
        match self {
            IntType::U8 => "u8 key overflow"@,
            IntType::U16 => "u16 key overflow"@,
            IntType::U32 => "u32 key overflow"@,
            IntType::U64 => "u64 key overflow"@,
            IntType::U128 => "u128 key overflow"@,
        }
    }
}

/// The key of the integer primary key `k`, stored in the width of `keytype`,
/// in the map `namespace`; or the text that refuses it. A `k` that does not
/// fit the width is refused before the namespace is looked at.
pub open spec fn uint_key(namespace: Seq<char>, k: u64, keytype: IntType) -> Result<
    Seq<u8>,
    Seq<char>,
> {
    if k > keytype.largest() {
        Err(keytype.overflow_text())
    } else {
        match encode_key(encode_utf8(namespace), be_bytes(k as nat, keytype.width())) {
            Ok(key) => Ok(key),
            Err(e) => Err(e.text()),
        }
    }
}

/// Builds the raw key of the integer primary key `k` in the map `namespace`,
/// with `k` stored in the width that `keytype` names.
pub fn encode_uint_key(k: u64, keytype: IntType, namespace: &str) -> (r: Result<
    Vec<u8>,
    ContractError,
>)
    ensures
        match uint_key(namespace@, k, keytype) {
            Ok(key) => r is Ok && r->Ok_0@ == key,
            Err(text) => r is Err && r->Err_0@ == Fatal::Message(text),
        },
{
    let encoded = match keytype {
        IntType::U8 => {
            if k > 0xFF {
                return Err(ContractError::GenericError(String::from_str("u8 key overflow")));
            }
            (k as u8).to_raw_map_key(namespace)
        },
        IntType::U16 => {
            if k > 0xFFFF {
                return Err(ContractError::GenericError(String::from_str("u16 key overflow")));
            }
            (k as u16).to_raw_map_key(namespace)
        },
        IntType::U32 => {
            if k > 0xFFFF_FFFF {
                return Err(ContractError::GenericError(String::from_str("u32 key overflow")));
            }
            (k as u32).to_raw_map_key(namespace)
        },
        IntType::U64 => k.to_raw_map_key(namespace),
        IntType::U128 => (k as u128).to_raw_map_key(namespace),
    };
    match encoded {
        Ok(key) => Ok(key),
        Err(e) => Err(ContractError::GenericError(e.message())),
    }
}

/// `be_bytes(v, width)` holds `width` bytes.
pub proof fn lemma_be_bytes_len(v: nat, width: nat)
    ensures
        be_bytes(v, width).len() == width,
    decreases width,
{
    if width > 0 {
        lemma_be_bytes_len(v / 256, (width - 1) as nat);
    }
}

/// The layout of an accepted key: two length bytes that spell the namespace's
/// length high byte first, then the namespace, then the primary key, and
/// nothing else.
pub proof fn lemma_key_layout(namespace: Seq<u8>, pk: Seq<u8>)
    requires
        0 < namespace.len() <= MAX_NAMESPACE_LEN,
        0 < pk.len(),
    ensures
        encode_key(namespace, pk) == Ok::<_, EncodingError>(raw_key(namespace, pk)),
        raw_key(namespace, pk).len() == 2 + namespace.len() + pk.len(),
        raw_key(namespace, pk)[0] as int * 256 + raw_key(namespace, pk)[1] as int
            == namespace.len(),
        raw_key(namespace, pk).subrange(0, 2) == length_prefix(namespace.len()),
        raw_key(namespace, pk).subrange(2, 2 + namespace.len() as int) == namespace,
        raw_key(namespace, pk).skip(2 + namespace.len() as int) == pk,
{
    let key = raw_key(namespace, pk);
    assert(key.subrange(0, 2) =~= length_prefix(namespace.len()));
    assert(key.subrange(2, 2 + namespace.len() as int) =~= namespace);
    assert(key.skip(2 + namespace.len() as int) =~= pk);
}

/// Two accepted inputs that give the same key are the same input: no two
/// entries, of one map or of two, share a raw key.
pub proof fn lemma_key_injective(ns1: Seq<u8>, pk1: Seq<u8>, ns2: Seq<u8>, pk2: Seq<u8>)
    requires
        encode_key(ns1, pk1) is Ok,
        encode_key(ns2, pk2) is Ok,
        encode_key(ns1, pk1) == encode_key(ns2, pk2),
    ensures
        ns1 == ns2,
        pk1 == pk2,
{
    lemma_key_layout(ns1, pk1);
    lemma_key_layout(ns2, pk2);
}

/// Keys are width-sensitive: the same map holds an integer stored in `w1`
/// bytes and an integer stored in `w2` other bytes under different keys,
/// whatever the two integers are.
pub proof fn lemma_width_sensitive(namespace: Seq<u8>, v1: nat, w1: nat, v2: nat, w2: nat)
    requires
        w1 != w2,
    ensures
        raw_key(namespace, be_bytes(v1, w1)) != raw_key(namespace, be_bytes(v2, w2)),
        raw_key(namespace, be_bytes(v1, w1)).len() == 2 + namespace.len() + w1,
{
    lemma_be_bytes_len(v1, w1);
    lemma_be_bytes_len(v2, w2);
    assert(raw_key(namespace, be_bytes(v1, w1)).len() == 2 + namespace.len() + w1);
    assert(raw_key(namespace, be_bytes(v2, w2)).len() == 2 + namespace.len() + w2);
}

/// Key encoding is a function of its input: whatever two calls on the same
/// primary key and namespace return, both fail with the same error or both
/// give the same bytes.
pub proof fn lemma_encoding_is_pure<K: ToRawKey>(
    pk: &K,
    namespace: &str,
    first: Result<Vec<u8>, EncodingError>,
    second: Result<Vec<u8>, EncodingError>,
)
    requires
        call_ensures(K::to_raw_map_key, (pk, namespace), first),
        call_ensures(K::to_raw_map_key, (pk, namespace), second),
    ensures
        first is Ok <==> second is Ok,
        first is Ok ==> first.unwrap()@ == second.unwrap()@,
        first is Err ==> first.unwrap_err() == second.unwrap_err(),
{
}

} // verus!
