//! The variable-length algebraic hash: call data that holds an array of
//! 32-byte words in, the 32 big-endian bytes of the digest out.

use vstd::prelude::*;
use crate::abi::{
    decode, is_word_array, lemma_word_array_is_read_back, wide_addresses, word_array_in,
    word_array_layout, DeclaredType, DecodedToken,
};
use crate::error::Error;
use crate::field::{base_modulus, FieldElement};
use crate::utils::{all_some, into_bytes32_array, items_of, word_of};
use crate::word::{be_value, lemma_be_value_injective};
use ark_ff_zypher::{BigInteger, PrimeField};
use uzkge::anemoi::{AnemoiJive, AnemoiJive254};

verus! {

/// The cost of hashing one 32-byte word of call data.
pub const ANEMOI_EVAL: u64 = 100;

/// The digest that `AnemoiJive254::eval_variable_length_hash` gives for the
/// field elements `inputs`.
pub uninterp spec fn anemoi_digest(inputs: Seq<nat>) -> nat;

/// The numbers that the elements of `inputs` are.
pub open spec fn values_of(inputs: Seq<FieldElement>) -> Seq<nat> {
    inputs.map_values(|f: FieldElement| f.value())
}

/// The field elements that the words stand for: each word as a big-endian
/// number, reduced by the order of the field.
pub open spec fn reduced(words: Seq<Seq<u8>>) -> Seq<nat> {
    words.map_values(|w: Seq<u8>| be_value(w) % base_modulus())
}

/// `AnemoiJive254::eval_variable_length_hash` of uzkge on the elements of
/// `inputs`, each handed over as the field element of its value: the sponge
/// pads the input itself, takes any number of elements, the empty list too,
/// and its digest depends on the elements and their order alone.
/// `into_bigint` gives the digest as the representative below the order of
/// the field.
#[verifier::external_body]
fn anemoi_jive(inputs: &Vec<FieldElement>) -> (r: FieldElement)
    ensures
        r.value() == anemoi_digest(values_of(inputs@)),
        r.value() < base_modulus(),
{
    let elements: Vec<ark_bn254_zypher::Fr> =
        inputs.iter().map(|f| PrimeField::from_be_bytes_mod_order(&f.bytes)).collect();
    let digest = AnemoiJive254::eval_variable_length_hash(&elements);
    FieldElement { bytes: digest.into_bigint().to_bytes_be().try_into().unwrap() }
}

/// The field elements that the call data `data` asks to hash, or the failure
/// to read them: the data holds one array of 32-byte words, and each word
/// stands for the field element that its big-endian number reduces to.
pub open spec fn hash_inputs(data: Seq<u8>) -> Result<Seq<nat>, Error> {
    if wide_addresses() {
        match word_array_in(data) {
            Some(words) => Ok(reduced(words)),
            None => Err(Error::Deserialize),
        }
    } else {
        Err(Error::Deserialize)
    }
}

/// The numbers of the field elements that were read.
pub open spec fn read_values(r: Result<Vec<FieldElement>, Error>) -> Result<Seq<nat>, Error> {
    match r {
        Ok(inputs) => Ok(values_of(inputs@)),
        Err(e) => Err(e),
    }
}

/// The field element of each word, in order.
pub fn field_elements(words: &Vec<[u8; 32]>) -> (inputs: Vec<FieldElement>)
    ensures
        values_of(inputs@) == reduced(words.deep_view()),
{
    let mut inputs: Vec<FieldElement> = Vec::new();
    let mut i: usize = 0;
    while i < words.len()
        invariant
            i <= words.len(),
            inputs.len() == i,
            forall|j: int|
                0 <= j < i ==> (#[trigger] inputs[j]).value() == be_value(words[j]@)
                    % base_modulus(),
        decreases words.len() - i,
    {
        inputs.push(FieldElement::from_be_bytes_mod_order(words[i].as_slice()));
        i += 1;
    }
    assert forall|j: int| 0 <= j < words.len() implies #[trigger] words.deep_view()[j]
        == words[j]@ by {
        assert(words.deep_view()[j] =~= words[j]@);
    }
    assert(values_of(inputs@) =~= reduced(words.deep_view()));
    inputs
}

/// Reads the field elements to hash from call data: a tuple of one array of
/// 32-byte words, each word reduced to a field element.
pub fn read_hash_inputs(data: &[u8]) -> (r: Result<Vec<FieldElement>, Error>)
    ensures
        read_values(r) == hash_inputs(data@),
{
    let schema = vec![DeclaredType::Array(Box::new(DeclaredType::FixedBytes(32)))];
    assert(is_word_array(schema@));
    let mut tokens = match decode(schema.as_slice(), data) {
        Ok(tokens) => tokens,
        Err(e) => { return Err(e); },
    };
    let ghost words = word_array_in(data@).unwrap();
    let ghost array = tokens@[0];
    proof {
        let items = items_of(array).unwrap();
        let read = items.map_values(|item: DecodedToken| word_of(item));
        assert forall|i: int| 0 <= i < read.len() implies (#[trigger] read[i]) == Some(
            words[i],
        ) by {
            assert(items[i] is FixedBytes);
        }
        assert(all_some(read).unwrap() =~= words);
    }
    match into_bytes32_array(tokens.pop()) {
        Some(list) => {
            assert(list.deep_view() == words);
            Ok(field_elements(&list))
        },
        None => Err(Error::Deserialize),
    }
}

/// The digest of the field elements `inputs`, a field element in its least
/// form.
pub fn hash_field_elements(inputs: &Vec<FieldElement>) -> (digest: FieldElement)
    ensures
        digest.value() == anemoi_digest(values_of(inputs@)),
        digest.value() < base_modulus(),
{
    anemoi_jive(inputs)
}

/// Whether `out` is what hashing the call data `data` writes: the 32
/// big-endian bytes of the digest of the field elements that `data` holds.
pub open spec fn is_hash_of(data: Seq<u8>, out: Seq<u8>) -> bool {
    hash_inputs(data) matches Ok(inputs) && out.len() == 32 && be_value(out) == anemoi_digest(
        inputs,
    )
}

/// Hashes the field elements that `data` holds and writes the digest's 32
/// big-endian bytes to `ret`. Where `data` cannot be read, `ret` is left as
/// it was.
pub fn eval_variable_length_hash(data: &[u8], ret: &mut [u8]) -> (r: Result<(), Error>)
    requires
        old(ret).len() == 32,
    ensures
        match hash_inputs(data@) {
            Ok(_) => r == Ok::<(), Error>(()) && is_hash_of(data@, final(ret)@),
            Err(e) => r == Err::<(), Error>(e) && final(ret)@ == old(ret)@,
        },
{
    let inputs = match read_hash_inputs(data) {
        Ok(inputs) => inputs,
        Err(e) => { return Err(e); },
    };
    let digest = hash_field_elements(&inputs);
    digest.write_be(ret, 0);
    assert(ret@.subrange(0, 32) =~= ret@);
    Ok(())
}

/// The cost of hashing call data of `data_len` bytes.
pub open spec fn anemoi_cost(data_len: nat) -> nat {
    data_len / 32 * 100
}

/// The cost of hashing call data of `data_len` bytes: the cost of one word
/// for each whole 32 bytes. It reads the length alone.
pub fn anemoi_gas(data_len: usize) -> (gas: u64)
    requires
        anemoi_cost(data_len as nat) <= u64::MAX,
    ensures
        gas == anemoi_cost(data_len as nat),
{
    (data_len / 32) as u64 * ANEMOI_EVAL
}

/// The cost grows by the cost of one word with each further 32 bytes, and
/// never falls as the data gets longer.
pub proof fn lemma_anemoi_cost_linear(data_len: nat, more_words: nat, longer: nat)
    requires
        data_len <= longer,
    ensures
        anemoi_cost(data_len + 32 * more_words) == anemoi_cost(data_len) + 100 * more_words,
        anemoi_cost(data_len) <= anemoi_cost(longer),
{
    assert((data_len + 32 * more_words) / 32 == data_len / 32 + more_words) by (nonlinear_arith);
    assert((data_len / 32 + more_words) * 100 == data_len / 32 * 100 + 100 * more_words)
        by (nonlinear_arith);
    assert(data_len / 32 <= longer / 32) by (nonlinear_arith)
        requires
            data_len <= longer,
    ;
    assert(data_len / 32 * 100 <= longer / 32 * 100) by (nonlinear_arith)
        requires
            data_len / 32 <= longer / 32,
    ;
}

/// Call data that cannot be read is answered with `Error::Deserialize` and
/// with no other error.
pub proof fn lemma_unreadable_is_deserialize(data: Seq<u8>)
    ensures
        hash_inputs(data) is Err ==> hash_inputs(data) == Err::<Seq<nat>, Error>(
            Error::Deserialize,
        ),
{
}

/// Call data that encodes an array of 32-byte words asks to hash the field
/// elements that the words stand for, in their order.
pub proof fn lemma_encoded_words_are_hashed(words: Seq<Seq<u8>>)
    requires
        wide_addresses(),
        words.len() < 0x1_0000_0000,
        forall|i: int| 0 <= i < words.len() ==> (#[trigger] words[i]).len() == 32,
    ensures
        hash_inputs(word_array_layout(words)) == Ok::<Seq<nat>, Error>(reduced(words)),
{
    lemma_word_array_is_read_back(words);
}

/// Hashing the same call data twice writes the same 32 bytes.
pub proof fn lemma_hash_deterministic(data: Seq<u8>, first: Seq<u8>, second: Seq<u8>)
    requires
        is_hash_of(data, first),
        is_hash_of(data, second),
    ensures
        first == second,
{
    lemma_be_value_injective(first, second);
}

} // verus!
