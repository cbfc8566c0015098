//! Typed values of the call-data encoding, and the decoder that reads them.
//!
//! Call data is a tuple in the contract ABI encoding: one 32-byte head slot
//! per argument and, for the arguments of variable length, an offset in that
//! slot to a tail that starts with the length. The decoder is the one of the
//! `ethabi` crate; this module gives its schema and its tokens a shape of
//! plain values that the rest of the library reads.

use vstd::prelude::*;
use crate::error::Error;
use crate::utils::joined;
use crate::word::{be_value, U256};
use ethabi::Token as AbiToken;

verus! {

/// The declared type of one argument. A schema is a sequence of these, fixed
/// for each operation. Each type takes one head slot of 32 bytes; an array,
/// a byte string of any length and a text have their content in the tail.
#[derive(Debug, PartialEq, Eq)]
pub enum DeclaredType {
    /// An address of 20 bytes.
    Address,
    /// A byte string of any length.
    Bytes,
    /// A signed integer of the given width in bits.
    Int(usize),
    /// An unsigned integer of the given width in bits.
    Uint(usize),
    /// A truth value.
    Bool,
    /// A text.
    String,
    /// An array of any length.
    Array(Box<DeclaredType>),
    /// A byte string of the given length, which the encoding keeps at or
    /// below 32.
    FixedBytes(u8),
}

/// One decoded argument.
#[derive(Debug, PartialEq, Eq)]
pub enum DecodedToken {
    /// An address.
    Address([u8; 20]),
    /// A byte string whose length the schema gave.
    FixedBytes(Vec<u8>),
    /// A byte string whose length the call data gave.
    Bytes(Vec<u8>),
    /// A signed integer, as the 256 bits of its slot.
    Int(U256),
    /// An unsigned integer.
    Uint(U256),
    /// A truth value.
    Bool(bool),
    /// A text.
    String(String),
    /// The items of an array whose length a schema gave.
    FixedArray(Vec<DecodedToken>),
    /// The items of an array whose length the call data gave.
    Array(Vec<DecodedToken>),
    /// The items of a tuple.
    Tuple(Vec<DecodedToken>),
}

/// The declared type of `ethabi`, taken as a value of which nothing is
/// known here: it is made from a `DeclaredType` and handed to the decoder.
#[verifier::external_type_specification]
#[verifier::external_body]
pub struct ExParamType(ethabi::ParamType);

/// The token of `ethabi`, taken as a value of which nothing is known here:
/// the decoder makes it and a `DecodedToken` is made from it.
#[verifier::external_type_specification]
#[verifier::external_body]
pub struct ExToken(ethabi::Token);

/// What `ethabi::decode` makes of `data` under the schema `types`: the
/// tokens, or nothing where it refuses the data.
pub uninterp spec fn abi_decoding(types: Seq<DeclaredType>, data: Seq<u8>) -> Option<
    Seq<DecodedToken>,
>;

/// The `ethabi::ParamType` that `p` stands for: the variant of the same name
/// with the same width, length or inner type.
#[verifier::external_body]
fn outside_param(p: &DeclaredType) -> ethabi::ParamType {
    match p {
        DeclaredType::Address => ethabi::ParamType::Address,
        DeclaredType::Bytes => ethabi::ParamType::Bytes,
        DeclaredType::Int(n) => ethabi::ParamType::Int(*n),
        DeclaredType::Uint(n) => ethabi::ParamType::Uint(*n),
        DeclaredType::Bool => ethabi::ParamType::Bool,
        DeclaredType::String => ethabi::ParamType::String,
        DeclaredType::Array(t) => ethabi::ParamType::Array(Box::new(outside_param(t))),
        DeclaredType::FixedBytes(n) => ethabi::ParamType::FixedBytes(usize::from(*n)),
    }
}

/// The token of this library that holds what the `ethabi::Token` `t` holds:
/// the variant of the same name, an address as its 20 bytes and an integer
/// as its 32 big-endian bytes.
#[verifier::external_body]
fn inside_token(t: ethabi::Token) -> DecodedToken {
    match t {
        AbiToken::Address(a) => DecodedToken::Address(a.0),
        AbiToken::FixedBytes(b) => DecodedToken::FixedBytes(b),
        AbiToken::Bytes(b) => DecodedToken::Bytes(b),
        AbiToken::Int(u) => DecodedToken::Int(U256 { bytes: u.into() }),
        AbiToken::Uint(u) => DecodedToken::Uint(U256 { bytes: u.into() }),
        AbiToken::Bool(b) => DecodedToken::Bool(b),
        AbiToken::String(s) => DecodedToken::String(s),
        AbiToken::FixedArray(v) => DecodedToken::FixedArray(inside_tokens(v)),
        AbiToken::Array(v) => DecodedToken::Array(inside_tokens(v)),
        AbiToken::Tuple(v) => DecodedToken::Tuple(inside_tokens(v)),
    }
}

/// `inside_token` on each item, in order.
#[verifier::external_body]
fn inside_tokens(v: Vec<ethabi::Token>) -> Vec<DecodedToken> {
    v.into_iter().map(inside_token).collect()
}

/// `ethabi::decode` on the schema and the data. The result depends on the
/// two alone; on success it holds one token for each declared type. The
/// decoder checks every offset and length against the length of the data
/// before it reads, so it gives up on short data and does not read past it.
/// It adds offsets and lengths that it took from four bytes of the data, or
/// from the schema, to positions in the data: with addresses of 64 bits
/// those sums cannot overflow.
///
/// For two kinds of schema the source shows the whole result in a few
/// lines. For unsigned integers alone, the decoder takes one 32-byte slot
/// after the other from the start of the data, each as a big-endian number,
/// fails only where the data ends before the last slot does, and leaves
/// what follows the last slot unread. For one array of 32-byte words, it
/// reads the offset of the array from the first slot and the count of words
/// from the slot at that offset, both as `slot_number` says, and takes the
/// words from behind the count, failing only where one of the two slots or
/// the last word does not lie within the data.
#[verifier::external_body]
fn decode_tokens(types: &[DeclaredType], data: &[u8]) -> (r: Option<Vec<DecodedToken>>)
    requires
        wide_addresses(),
    ensures
        listed_tokens(r) == abi_decoding(types@, data@),
        r matches Some(tokens) ==> tokens@.len() == types@.len(),
        all_uint(types@) ==> (r is Some <==> data@.len() >= 32 * types@.len()),
        all_uint(types@) ==> (r matches Some(tokens) ==> are_slots_of(tokens@, data@)),
        is_word_array(types@) ==> (r is Some <==> word_array_in(data@) is Some),
        is_word_array(types@) ==> (r matches Some(tokens) ==> holds_words(
            tokens@,
            word_array_in(data@).unwrap(),
        )),
{
    let schema: Vec<ethabi::ParamType> = types.iter().map(outside_param).collect();
    ethabi::decode(&schema, data).ok().map(inside_tokens)
}

/// Whether every declared type is an unsigned integer.
pub open spec fn all_uint(types: Seq<DeclaredType>) -> bool {
    forall|i: int| 0 <= i < types.len() ==> (#[trigger] types[i]) is Uint
}

/// Whether the tokens are unsigned integers whose bytes are the 32-byte
/// slots of `data`, one after the other from its start.
pub open spec fn are_slots_of(tokens: Seq<DecodedToken>, data: Seq<u8>) -> bool {
    forall|i: int|
        0 <= i < tokens.len() ==> ((#[trigger] tokens[i]) matches DecodedToken::Uint(u)
            && u.bytes@ == data.subrange(32 * i, 32 * i + 32))
}

/// The number that the decoder reads as an offset or as a length from the
/// 32-byte slot at position `at`: the big-endian number of the slot's last
/// four bytes, and nothing where the slot does not lie within the data or
/// one of its first 28 bytes is not zero.
pub open spec fn slot_number(data: Seq<u8>, at: int) -> Option<nat> {
    if 0 <= at && at + 32 <= data.len() && forall|j: int|
        0 <= j < 28 ==> #[trigger] data[at + j] == 0 {
        Some(be_value(data.subrange(at + 28, at + 32)))
    } else {
        None
    }
}

/// Whether the schema is one array of 32-byte words.
pub open spec fn is_word_array(types: Seq<DeclaredType>) -> bool {
    types.len() == 1 && types[0] == DeclaredType::Array(Box::new(DeclaredType::FixedBytes(32)))
}

/// The words of the array that `data` holds under the schema of one array
/// of 32-byte words.
pub open spec fn word_array_in(data: Seq<u8>) -> Option<Seq<Seq<u8>>> {
    match slot_number(data, 0) {
        Some(offset) => match slot_number(data, offset as int) {
            Some(count) => if offset + 32 + 32 * count <= data.len() {
                Some(
                    Seq::new(
                        count,
                        |i: int| data.subrange(offset + 32 + 32 * i, offset + 64 + 32 * i),
                    ),
                )
            } else {
                None
            },
            None => None,
        },
        None => None,
    }
}

/// Whether the tokens are one array of fixed-size byte strings that are the
/// `words`.
pub open spec fn holds_words(tokens: Seq<DecodedToken>, words: Seq<Seq<u8>>) -> bool {
    tokens.len() == 1 && (tokens[0] matches DecodedToken::Array(items) && items@.len()
        == words.len() && forall|i: int|
        0 <= i < words.len() ==> ((#[trigger] items@[i]) matches DecodedToken::FixedBytes(b)
            && b@ == words[i]))
}

/// Whether addresses have 64 bits on the target. The decoder is not run
/// where they have fewer.
pub open spec fn wide_addresses() -> bool {
    usize::BITS == 64
}

/// The tokens of a decoder's result.
pub open spec fn listed_tokens(r: Option<Vec<DecodedToken>>) -> Option<Seq<DecodedToken>> {
    match r {
        Some(tokens) => Some(tokens@),
        None => None,
    }
}

/// What decoding `data` under `types` gives: the tokens, or a failure to
/// deserialize where the decoder refuses the data.
pub open spec fn decode_result(types: Seq<DeclaredType>, data: Seq<u8>) -> Result<
    Seq<DecodedToken>,
    Error,
> {
    if wide_addresses() {
        match abi_decoding(types, data) {
            Some(tokens) => Ok(tokens),
            None => Err(Error::Deserialize),
        }
    } else {
        Err(Error::Deserialize)
    }
}

/// The tokens of a decoding that succeeded.
pub open spec fn decoded_tokens(r: Result<Vec<DecodedToken>, Error>) -> Result<
    Seq<DecodedToken>,
    Error,
> {
    match r {
        Ok(tokens) => Ok(tokens@),
        Err(e) => Err(e),
    }
}

/// Decodes `data` as a tuple of the declared `types`: one token for each
/// type, in order, or `Error::Deserialize` where the data is not such a
/// tuple. A tuple of unsigned integers alone is decoded if and only if the
/// data holds a slot of 32 bytes for each of them, and then each integer is
/// the big-endian number of its slot; for one array of 32-byte words,
/// `word_array_in` says what is decoded. On a target whose addresses have
/// fewer than 64 bits every call data is refused.
pub fn decode(types: &[DeclaredType], data: &[u8]) -> (r: Result<Vec<DecodedToken>, Error>)
    ensures
        decoded_tokens(r) == decode_result(types@, data@),
        r matches Ok(tokens) ==> tokens@.len() == types@.len(),
        all_uint(types@) ==> (r is Ok <==> wide_addresses() && data@.len() >= 32 * types@.len()),
        all_uint(types@) ==> (r matches Ok(tokens) ==> are_slots_of(tokens@, data@)),
        is_word_array(types@) ==> (r is Ok <==> wide_addresses() && word_array_in(data@) is Some),
        is_word_array(types@) ==> (r matches Ok(tokens) ==> holds_words(
            tokens@,
            word_array_in(data@).unwrap(),
        )),
{
    if usize::BITS != 64 {
        return Err(Error::Deserialize);
    }
    match decode_tokens(types, data) {
        Some(tokens) => Ok(tokens),
        None => Err(Error::Deserialize),
    }
}

/// The 32-byte slot in which the encoding writes the offset or the length
/// `n`: 28 zero bytes and the four bytes of `n`, the highest first.
pub open spec fn number_slot(n: nat) -> Seq<u8> {
    Seq::new(28, |j: int| 0u8) + seq![
        (n / 0x100_0000) as u8,
        (n / 0x1_0000 % 256) as u8,
        (n / 0x100 % 256) as u8,
        (n % 256) as u8,
    ]
}

/// The encoding of one array of 32-byte words: the offset of the array,
/// which is 32, the count of the words, and the words.
pub open spec fn word_array_layout(words: Seq<Seq<u8>>) -> Seq<u8> {
    number_slot(32) + number_slot(words.len()) + joined(words)
}

/// A number below two to the 32nd is read back from the slot that it was
/// written to, wherever the slot stands in the data.
pub proof fn lemma_number_slot_is_read_back(n: nat, before: Seq<u8>, after: Seq<u8>)
    requires
        n < 0x1_0000_0000,
    ensures
        slot_number(before + number_slot(n) + after, before.len() as int) == Some(n),
{
    let data = before + number_slot(n) + after;
    let at = before.len() as int;
    let digits = data.subrange(at + 28, at + 32);
    let b0 = (n / 0x100_0000) as u8;
    let b1 = (n / 0x1_0000 % 256) as u8;
    let b2 = (n / 0x100 % 256) as u8;
    let b3 = (n % 256) as u8;
    assert(digits =~= seq![b0, b1, b2, b3]);
    assert forall|j: int| 0 <= j < 28 implies #[trigger] data[at + j] == 0 by {
        assert(data[at + j] == number_slot(n)[j]);
    }
    let d3 = digits.drop_last();
    let d2 = d3.drop_last();
    let d1 = d2.drop_last();
    assert(d3 =~= seq![b0, b1, b2]);
    assert(d2 =~= seq![b0, b1]);
    assert(d1 =~= seq![b0]);
    assert(d1.drop_last() =~= Seq::<u8>::empty());
    assert(be_value(d1) == b0) by {
        assert(be_value(d1.drop_last()) == 0);
    }
    assert(be_value(d2) == b0 * 256 + b1);
    assert(be_value(d3) == (b0 * 256 + b1) * 256 + b2);
    assert(be_value(digits) == ((b0 * 256 + b1) * 256 + b2) * 256 + b3);
}

/// One array of 32-byte words, encoded, is decoded to the same words.
pub proof fn lemma_word_array_is_read_back(words: Seq<Seq<u8>>)
    requires
        words.len() < 0x1_0000_0000,
        forall|i: int| 0 <= i < words.len() ==> (#[trigger] words[i]).len() == 32,
    ensures
        word_array_in(word_array_layout(words)) == Some(words),
{
    let data = word_array_layout(words);
    let count = words.len();
    lemma_number_slot_is_read_back(32, Seq::<u8>::empty(), number_slot(count) + joined(words));
    assert(Seq::<u8>::empty() + number_slot(32) + (number_slot(count) + joined(words)) =~= data);
    lemma_number_slot_is_read_back(count, number_slot(32), joined(words));
    assert(data.len() == 64 + 32 * count);
    let read = Seq::new(count, |i: int| data.subrange(32 + 32 + 32 * i, 32 + 64 + 32 * i));
    assert forall|i: int| 0 <= i < count implies #[trigger] read[i] == words[i] by {
        let word = data.subrange(64 + 32 * i, 96 + 32 * i);
        assert forall|j: int| 0 <= j < 32 implies word[j] == words[i][j] by {
            assert(word[j] == joined(words)[32 * i + j]);
            assert((32 * i + j) / 32 == i);
            assert((32 * i + j) % 32 == j);
        }
        assert(word =~= words[i]);
    }
    assert(read =~= words);
}

/// Unsigned integers, encoded as their 32-byte words one after the other,
/// are decoded to the same words, whatever follows them in the data.
pub proof fn lemma_uints_are_read_back(words: Seq<Seq<u8>>, more: Seq<u8>, i: int)
    requires
        forall|k: int| 0 <= k < words.len() ==> (#[trigger] words[k]).len() == 32,
        0 <= i < words.len(),
    ensures
        (joined(words) + more).len() >= 32 * words.len(),
        (joined(words) + more).subrange(32 * i, 32 * i + 32) == words[i],
{
    let data = joined(words) + more;
    let word = data.subrange(32 * i, 32 * i + 32);
    assert forall|j: int| 0 <= j < 32 implies word[j] == words[i][j] by {
        assert(word[j] == joined(words)[32 * i + j]);
        assert((32 * i + j) / 32 == i);
        assert((32 * i + j) % 32 == j);
    }
    assert(word =~= words[i]);
}

} // verus!
