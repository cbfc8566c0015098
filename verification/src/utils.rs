//! Readers that take one decoded token and hand back the value it carries,
//! or nothing where the token has another shape.

use vstd::prelude::*;
use crate::abi::DecodedToken;
use crate::error::Error;
use crate::word::U256;

verus! {

/// The items of `s` without their `Some`, where none of them is `None`.
pub open spec fn all_some<T>(s: Seq<Option<T>>) -> Option<Seq<T>> {
    if forall|i: int| 0 <= i < s.len() ==> (#[trigger] s[i]) is Some {
        Some(Seq::new(s.len(), |i: int| s[i].unwrap()))
    } else {
        None
    }
}

/// The 32 bytes of a fixed-size byte string of that length.
pub open spec fn word_of(t: DecodedToken) -> Option<Seq<u8>> {
    match t {
        DecodedToken::FixedBytes(b) => if b@.len() == 32 {
            Some(b@)
        } else {
            None
        },
        _ => None,
    }
}

/// The 20 bytes of an address.
pub open spec fn address_of(t: DecodedToken) -> Option<[u8; 20]> {
    match t {
        DecodedToken::Address(a) => Some(a),
        _ => None,
    }
}

/// The integer of an unsigned integer token.
pub open spec fn uint256_of(t: DecodedToken) -> Option<U256> {
    match t {
        DecodedToken::Uint(u) => Some(u),
        _ => None,
    }
}

/// The integer of an unsigned integer token that fits in 128 bits.
pub open spec fn uint_of(t: DecodedToken) -> Option<u128> {
    match t {
        DecodedToken::Uint(u) => if u.value() <= u128::MAX {
            Some(u.value() as u128)
        } else {
            None
        },
        _ => None,
    }
}

/// The bytes of a byte string of any length.
pub open spec fn bytes_of(t: DecodedToken) -> Option<Seq<u8>> {
    match t {
        DecodedToken::Bytes(b) => Some(b@),
        _ => None,
    }
}

/// The items of a dynamic array.
pub open spec fn items_of(t: DecodedToken) -> Option<Seq<DecodedToken>> {
    match t {
        DecodedToken::Array(items) => Some(items@),
        _ => None,
    }
}

/// The words of a dynamic array of 32-byte strings.
pub open spec fn words_of(t: DecodedToken) -> Option<Seq<Seq<u8>>> {
    match items_of(t) {
        Some(items) => all_some(items.map_values(|item: DecodedToken| word_of(item))),
        None => None,
    }
}

/// The integers of a dynamic array of unsigned integers of 128 bits.
pub open spec fn uints_of(t: DecodedToken) -> Option<Seq<u128>> {
    match items_of(t) {
        Some(items) => all_some(items.map_values(|item: DecodedToken| uint_of(item))),
        None => None,
    }
}

/// The integers of a dynamic array of unsigned integers.
pub open spec fn uint256s_of(t: DecodedToken) -> Option<Seq<U256>> {
    match items_of(t) {
        Some(items) => all_some(items.map_values(|item: DecodedToken| uint256_of(item))),
        None => None,
    }
}

/// The byte strings of a dynamic array of byte strings.
pub open spec fn bytes_list_of(t: DecodedToken) -> Option<Seq<Seq<u8>>> {
    match items_of(t) {
        Some(items) => all_some(items.map_values(|item: DecodedToken| bytes_of(item))),
        None => None,
    }
}

/// The rows of a dynamic array of dynamic arrays of byte strings.
pub open spec fn bytes_table_of(t: DecodedToken) -> Option<Seq<Seq<Seq<u8>>>> {
    match items_of(t) {
        Some(items) => all_some(items.map_values(|item: DecodedToken| bytes_list_of(item))),
        None => None,
    }
}

/// What `tk` holds, read by `read`; nothing where there is no token.
pub open spec fn read_with<T>(tk: Option<DecodedToken>, read: spec_fn(DecodedToken) -> Option<T>)
    -> Option<T> {
    match tk {
        Some(t) => read(t),
        None => None,
    }
}

/// The items of a vector, where there is one.
pub open spec fn listed<T>(r: Option<Vec<T>>) -> Option<Seq<T>> {
    match r {
        Some(v) => Some(v@),
        None => None,
    }
}

/// The bytes of a fixed-size byte string of exactly 32 bytes.
pub fn into_bytes32(tk: Option<DecodedToken>) -> (r: Option<[u8; 32]>)
    ensures
        r.deep_view() == read_with(tk, |t: DecodedToken| word_of(t)),
{
    match tk {
        Some(DecodedToken::FixedBytes(v)) => {
            if v.len() != 32 {
                return None;
            }
            let mut out = [0u8; 32];
            let mut i: usize = 0;
            while i < 32
                invariant
                    i <= 32,
                    v.len() == 32,
                    forall|j: int| 0 <= j < i ==> out[j] == v[j],
                decreases 32 - i,
            {
                out[i] = v[i];
                i += 1;
            }
            assert(out@ =~= v@);
            Some(out)
        },
        _ => None,
    }
}

/// The words of a dynamic array whose items are all byte strings of exactly
/// 32 bytes.
pub fn into_bytes32_array(tk: Option<DecodedToken>) -> (r: Option<Vec<[u8; 32]>>)
    ensures
        r.deep_view() == read_with(tk, |t: DecodedToken| words_of(t)),
{
    let tokens = match tk {
        Some(DecodedToken::Array(items)) => items,
        _ => { return None; },
    };
    let ghost read = tokens@.map_values(|item: DecodedToken| word_of(item));
    let mut res: Vec<[u8; 32]> = Vec::with_capacity(tokens.len());
    for token in it: tokens.into_iter()
        invariant
            it.seq() == tokens@,
            tk == Some(DecodedToken::Array(tokens)),
            read == tokens@.map_values(|item: DecodedToken| word_of(item)),
            res.len() == it.index(),
            forall|j: int| 0 <= j < it.index() ==> (#[trigger] read[j]) == Some(res[j]@),
    {
        match into_bytes32(Some(token)) {
            Some(word) => res.push(word),
            None => {
                assert(read[it.index()] is None);
                assert(all_some(read) is None);
                return None;
            },
        }
    }
    assert(res.deep_view() =~~= all_some(read).unwrap());
    Some(res)
}

/// The 20 bytes of an address token.
pub fn into_address(tk: Option<DecodedToken>) -> (r: Option<[u8; 20]>)
    ensures
        r == read_with(tk, |t: DecodedToken| address_of(t)),
{
    match tk {
        Some(DecodedToken::Address(a)) => Some(a),
        _ => None,
    }
}

/// The integer of an unsigned integer token.
pub fn into_uint256(tk: Option<DecodedToken>) -> (r: Option<U256>)
    ensures
        r == read_with(tk, |t: DecodedToken| uint256_of(t)),
{
    match tk {
        Some(DecodedToken::Uint(u)) => Some(u),
        _ => None,
    }
}

/// The integer of an unsigned integer token, where it fits in 128 bits.
pub fn into_uint(tk: Option<DecodedToken>) -> (r: Option<u128>)
    ensures
        r == read_with(tk, |t: DecodedToken| uint_of(t)),
{
    match into_uint256(tk) {
        Some(u) => u.to_u128(),
        None => None,
    }
}

/// The integers of a dynamic array whose items are all unsigned integers that
/// fit in 128 bits.
pub fn into_uint_array(tk: Option<DecodedToken>) -> (r: Option<Vec<u128>>)
    ensures
        listed(r) == read_with(tk, |t: DecodedToken| uints_of(t)),
{
    let tokens = match tk {
        Some(DecodedToken::Array(items)) => items,
        _ => { return None; },
    };
    let ghost read = tokens@.map_values(|item: DecodedToken| uint_of(item));
    let mut res: Vec<u128> = Vec::with_capacity(tokens.len());
    for token in it: tokens.into_iter()
        invariant
            it.seq() == tokens@,
            tk == Some(DecodedToken::Array(tokens)),
            read == tokens@.map_values(|item: DecodedToken| uint_of(item)),
            res.len() == it.index(),
            forall|j: int| 0 <= j < it.index() ==> (#[trigger] read[j]) == Some(res[j]),
    {
        match into_uint(Some(token)) {
            Some(uint) => res.push(uint),
            None => {
                assert(read[it.index()] is None);
                assert(all_some(read) is None);
                return None;
            },
        }
    }
    assert(res@ =~= all_some(read).unwrap());
    Some(res)
}

/// The integers of a dynamic array whose items are all unsigned integers.
pub fn into_uint256_array(tk: Option<DecodedToken>) -> (r: Option<Vec<U256>>)
    ensures
        listed(r) == read_with(tk, |t: DecodedToken| uint256s_of(t)),
{
    let tokens = match tk {
        Some(DecodedToken::Array(items)) => items,
        _ => { return None; },
    };
    let ghost read = tokens@.map_values(|item: DecodedToken| uint256_of(item));
    let mut res: Vec<U256> = Vec::with_capacity(tokens.len());
    for token in it: tokens.into_iter()
        invariant
            it.seq() == tokens@,
            tk == Some(DecodedToken::Array(tokens)),
            read == tokens@.map_values(|item: DecodedToken| uint256_of(item)),
            res.len() == it.index(),
            forall|j: int| 0 <= j < it.index() ==> (#[trigger] read[j]) == Some(res[j]),
    {
        match into_uint256(Some(token)) {
            Some(uint) => res.push(uint),
            None => {
                assert(read[it.index()] is None);
                assert(all_some(read) is None);
                return None;
            },
        }
    }
    assert(res@ =~= all_some(read).unwrap());
    Some(res)
}

/// The bytes of a byte string token of any length.
pub fn into_bytes(tk: Option<DecodedToken>) -> (r: Option<Vec<u8>>)
    ensures
        listed(r) == read_with(tk, |t: DecodedToken| bytes_of(t)),
{
    match tk {
        Some(DecodedToken::Bytes(b)) => Some(b),
        _ => None,
    }
}

/// The rows of a dynamic array whose items are all dynamic arrays of byte
/// strings.
pub fn into_bytes_2d_array(tk: Option<DecodedToken>) -> (r: Option<Vec<Vec<Vec<u8>>>>)
    ensures
        r.deep_view() == read_with(tk, |t: DecodedToken| bytes_table_of(t)),
{
    let tokens = match tk {
        Some(DecodedToken::Array(items)) => items,
        _ => { return None; },
    };
    let ghost read = tokens@.map_values(|item: DecodedToken| bytes_list_of(item));
    let mut res: Vec<Vec<Vec<u8>>> = Vec::with_capacity(tokens.len());
    for token in it: tokens.into_iter()
        invariant
            it.seq() == tokens@,
            tk == Some(DecodedToken::Array(tokens)),
            read == tokens@.map_values(|item: DecodedToken| bytes_list_of(item)),
            res.len() == it.index(),
            forall|j: int| 0 <= j < it.index() ==> (#[trigger] read[j]) == Some(res[j].deep_view()),
    {
        match into_bytes_array(Some(token)) {
            Some(bytes_array) => res.push(bytes_array),
            None => {
                assert(read[it.index()] is None);
                assert(all_some(read) is None);
                return None;
            },
        }
    }
    assert(res.deep_view() =~~= all_some(read).unwrap());
    Some(res)
}

/// The byte strings of a dynamic array whose items are all byte strings.
pub fn into_bytes_array(tk: Option<DecodedToken>) -> (r: Option<Vec<Vec<u8>>>)
    ensures
        r.deep_view() == read_with(tk, |t: DecodedToken| bytes_list_of(t)),
{
    let tokens = match tk {
        Some(DecodedToken::Array(items)) => items,
        _ => { return None; },
    };
    let ghost read = tokens@.map_values(|item: DecodedToken| bytes_of(item));
    let mut res: Vec<Vec<u8>> = Vec::with_capacity(tokens.len());
    for token in it: tokens.into_iter()
        invariant
            it.seq() == tokens@,
            tk == Some(DecodedToken::Array(tokens)),
            read == tokens@.map_values(|item: DecodedToken| bytes_of(item)),
            res.len() == it.index(),
            forall|j: int| 0 <= j < it.index() ==> (#[trigger] read[j]) == Some(res[j]@),
    {
        match into_bytes(Some(token)) {
            Some(bytes) => res.push(bytes),
            None => {
                assert(read[it.index()] is None);
                assert(all_some(read) is None);
                return None;
            },
        }
    }
    assert(res.deep_view() =~~= all_some(read).unwrap());
    Some(res)
}

/// The words of `words` written one behind the other.
pub open spec fn joined(words: Seq<Seq<u8>>) -> Seq<u8> {
    Seq::new(32 * words.len(), |i: int| words[i / 32][i % 32])
}

/// The run of whole 32-byte words that `bytes` starts with.
pub open spec fn chunks32(bytes: Seq<u8>) -> Seq<Seq<u8>> {
    Seq::new(bytes.len() / 32, |i: int| bytes.subrange(32 * i, 32 * i + 32))
}

/// All the bytes of `byte32s`, in order.
pub fn join_bytes32(byte32s: &[[u8; 32]]) -> (v: Vec<u8>)
    ensures
        v@ == joined(byte32s.deep_view()),
{
    let mut v: Vec<u8> = Vec::new();
    let mut i: usize = 0;
    while i < byte32s.len()
        invariant
            i <= byte32s.len(),
            v.len() == 32 * i,
            forall|k: int| 0 <= k < v.len() ==> v[k] == byte32s[k / 32][k % 32],
        decreases byte32s.len() - i,
    {
        let word = &byte32s[i];
        let mut j: usize = 0;
        while j < 32
            invariant
                j <= 32,
                i < byte32s.len(),
                word == byte32s[i as int],
                v.len() == 32 * i + j,
                forall|k: int| 0 <= k < v.len() ==> v[k] == byte32s[k / 32][k % 32],
            decreases 32 - j,
        {
            v.push(word[j]);
            j += 1;
        }
        i += 1;
    }
    assert(v@ =~= joined(byte32s.deep_view()));
    v
}

/// Splitting what was joined gives the words back.
pub proof fn lemma_split_of_joined(words: Seq<Seq<u8>>)
    requires
        forall|i: int| 0 <= i < words.len() ==> (#[trigger] words[i]).len() == 32,
    ensures
        chunks32(joined(words)) == words,
{
    let bytes = joined(words);
    assert(bytes.len() / 32 == words.len());
    assert forall|i: int| 0 <= i < words.len() implies #[trigger] chunks32(bytes)[i]
        == words[i] by {
        let chunk = bytes.subrange(32 * i, 32 * i + 32);
        assert forall|j: int| 0 <= j < 32 implies chunk[j] == words[i][j] by {
            assert((32 * i + j) / 32 == i);
            assert((32 * i + j) % 32 == j);
        }
        assert(chunk =~= words[i]);
    }
    assert(chunks32(bytes) =~= words);
}

/// Joining what was split gives back the bytes up to the last whole word.
pub proof fn lemma_joined_of_split(bytes: Seq<u8>)
    ensures
        joined(chunks32(bytes)) == bytes.subrange(0, 32 * (bytes.len() as int / 32)),
{
    let whole: int = 32 * (bytes.len() as int / 32);
    assert forall|k: int| 0 <= k < whole implies #[trigger] joined(chunks32(bytes))[k]
        == bytes[k] by {
        assert(0 <= k / 32 < bytes.len() / 32);
        assert(32 * (k / 32) + k % 32 == k);
    }
    assert(joined(chunks32(bytes)) =~= bytes.subrange(0, whole));
}

/// The slice as a reference to an array, where it has exactly 32 bytes:
/// `TryFrom<&[u8]>` of std for `&[u8; 32]`, which succeeds if and only if
/// the lengths agree and then refers to the same bytes.
#[verifier::external_body]
fn as_word(bytes: &[u8]) -> (r: Option<&[u8; 32]>)
    ensures
        r is Some <==> bytes@.len() == 32,
        r matches Some(word) ==> word@ == bytes@,
{
    bytes.try_into().ok()
}

/// The whole 32-byte words of `bytes32`, in order; bytes behind the last whole
/// word are left out.
pub fn split_bytes32(bytes32: &[u8]) -> (r: Result<Vec<&[u8; 32]>, Error>)
    ensures
        r matches Ok(v) && v.deep_view() == chunks32(bytes32@),
{
    let num = bytes32.len() / 32;
    let mut res: Vec<&[u8; 32]> = Vec::with_capacity(num);
    let mut i: usize = 0;
    while i < num
        invariant
            i <= num,
            num == bytes32.len() / 32,
            res.len() == i,
            forall|k: int| 0 <= k < i ==> (#[trigger] res[k])@ == bytes32@.subrange(32 * k, 32 * k + 32),
        decreases num - i,
    {
        let begin = i * 32;
        let end = (i + 1) * 32;
        let b32 = vstd::slice::slice_subrange(bytes32, begin, end);
        match as_word(b32) {
            Some(word) => res.push(word),
            None => { return Err(Error::Deserialize); },
        }
        i += 1;
    }
    assert(res.deep_view() =~~= chunks32(bytes32@));
    Ok(res)
}

} // verus!
