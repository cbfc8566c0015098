//! Requests to verify a proof of matchmaking or of a shuffle: the call data
//! is decoded and marshaled here into plain values, the verifier outside
//! this library is run on them by the caller, and what it reports is turned
//! into the result of the call here.

use vstd::prelude::*;
use crate::abi::{decode, decode_result, DeclaredType, DecodedToken};
use crate::ed_on_bn254::CurvePoint;
use crate::error::Error;
use crate::field::{base_modulus, FieldElement};
use crate::utils::{
    all_some, bytes_list_of, bytes_of, bytes_table_of, into_bytes, into_bytes_2d_array,
    into_bytes_array, read_with,
};
use crate::word::be_value;

verus! {

/// The flat cost of verifying one proof.
pub const PLONL_VERIFY_BASE: u64 = 100;

/// A masked card: the two points of an ElGamal ciphertext.
#[derive(Debug, Clone, Copy, PartialEq, Eq)]
pub struct MaskedCard {
    pub e1: CurvePoint,
    pub e2: CurvePoint,
}

/// The four coordinates of a masked card, in the order `x1, y1, x2, y2`.
pub struct CardValue {
    pub x1: nat,
    pub y1: nat,
    pub x2: nat,
    pub y2: nat,
}

impl View for MaskedCard {
    type V = CardValue;

    open spec fn view(&self) -> CardValue {
        CardValue {
            x1: self.e1.x.value(),
            y1: self.e1.y.value(),
            x2: self.e2.x.value(),
            y2: self.e2.y.value(),
        }
    }
}

/// The field element that a byte string of exactly 32 bytes stands for: its
/// big-endian number, reduced by the order of the field. A byte string of
/// another length stands for none.
pub open spec fn field_of(bytes: Seq<u8>) -> Option<nat> {
    if bytes.len() == 32 {
        Some(be_value(bytes) % base_modulus())
    } else {
        None
    }
}

/// The field elements that the byte strings stand for, where each of them
/// stands for one.
pub open spec fn fields_of(list: Seq<Seq<u8>>) -> Option<Seq<nat>> {
    all_some(list.map_values(|bytes: Seq<u8>| field_of(bytes)))
}

/// The masked card that a row of byte strings stands for: exactly four
/// strings of 32 bytes each, the coordinates `x1, y1, x2, y2`.
pub open spec fn card_of(row: Seq<Seq<u8>>) -> Option<CardValue> {
    if row.len() == 4 && field_of(row[0]) is Some && field_of(row[1]) is Some && field_of(
        row[2],
    ) is Some && field_of(row[3]) is Some {
        Some(
            CardValue {
                x1: field_of(row[0]).unwrap(),
                y1: field_of(row[1]).unwrap(),
                x2: field_of(row[2]).unwrap(),
                y2: field_of(row[3]).unwrap(),
            },
        )
    } else {
        None
    }
}

/// The masked cards that the rows stand for, where each of them stands for
/// one.
pub open spec fn cards_of(rows: Seq<Seq<Seq<u8>>>) -> Option<Seq<CardValue>> {
    all_some(rows.map_values(|row: Seq<Seq<u8>>| card_of(row)))
}

/// The value of a field element that was read.
pub open spec fn field_read(r: Result<FieldElement, Error>) -> Result<nat, Error> {
    match r {
        Ok(f) => Ok(f.value()),
        Err(e) => Err(e),
    }
}

/// What is expected of a reader where `found` is what the data stands for:
/// the value, or a failure to deserialize.
pub open spec fn expected<T>(found: Option<T>) -> Result<T, Error> {
    match found {
        Some(value) => Ok(value),
        None => Err(Error::Deserialize),
    }
}

/// The field element that a byte string of exactly 32 bytes stands for.
pub fn bytes_2_field_element(bytes: &Vec<u8>) -> (r: Result<FieldElement, Error>)
    ensures
        field_read(r) == expected(field_of(bytes@)),
{
    if bytes.len() != 32 {
        return Err(Error::Deserialize);
    }
    Ok(FieldElement::from_be_bytes_mod_order(bytes.as_slice()))
}

/// The values of the field elements that were read.
pub open spec fn fields_read(r: Result<Vec<FieldElement>, Error>) -> Result<Seq<nat>, Error> {
    match r {
        Ok(list) => Ok(list@.map_values(|f: FieldElement| f.value())),
        Err(e) => Err(e),
    }
}

/// The field elements that the byte strings stand for, in order.
pub fn bytes_2_field_elements(list: &Vec<Vec<u8>>) -> (r: Result<Vec<FieldElement>, Error>)
    ensures
        fields_read(r) == expected(fields_of(list.deep_view())),
{
    let ghost read = list.deep_view().map_values(|bytes: Seq<u8>| field_of(bytes));
    let mut res: Vec<FieldElement> = Vec::new();
    let mut i: usize = 0;
    while i < list.len()
        invariant
            i <= list.len(),
            res.len() == i,
            read == list.deep_view().map_values(|bytes: Seq<u8>| field_of(bytes)),
            forall|j: int| 0 <= j < i ==> (#[trigger] read[j]) == Some(res[j].value()),
        decreases list.len() - i,
    {
        assert(list.deep_view()[i as int] =~= list[i as int]@);
        match bytes_2_field_element(&list[i]) {
            Ok(f) => res.push(f),
            Err(e) => {
                assert(read[i as int] is None);
                assert(all_some(read) is None);
                return Err(e);
            },
        }
        i += 1;
    }
    assert(res@.map_values(|f: FieldElement| f.value()) =~= all_some(read).unwrap());
    Ok(res)
}

/// The card that was read.
pub open spec fn card_read(r: Result<MaskedCard, Error>) -> Result<CardValue, Error> {
    match r {
        Ok(card) => Ok(card@),
        Err(e) => Err(e),
    }
}

/// The masked card that a row of four 32-byte coordinates `x1, y1, x2, y2`
/// stands for. The points are taken as given: whether they lie on the curve
/// is for the verifier to find.
pub fn bytes_2_masked_card(cards: &[Vec<u8>]) -> (r: Result<MaskedCard, Error>)
    ensures
        card_read(r) == expected(card_of(cards.deep_view())),
{
    if cards.len() != 4 {
        return Err(Error::Deserialize);
    }
    proof {
        assert(cards.deep_view()[0] =~= cards[0]@);
        assert(cards.deep_view()[1] =~= cards[1]@);
        assert(cards.deep_view()[2] =~= cards[2]@);
        assert(cards.deep_view()[3] =~= cards[3]@);
    }
    let x1 = match bytes_2_field_element(&cards[0]) {
        Ok(f) => f,
        Err(e) => { return Err(e); },
    };
    let y1 = match bytes_2_field_element(&cards[1]) {
        Ok(f) => f,
        Err(e) => { return Err(e); },
    };
    let x2 = match bytes_2_field_element(&cards[2]) {
        Ok(f) => f,
        Err(e) => { return Err(e); },
    };
    let y2 = match bytes_2_field_element(&cards[3]) {
        Ok(f) => f,
        Err(e) => { return Err(e); },
    };
    Ok(MaskedCard { e1: CurvePoint { x: x1, y: y1 }, e2: CurvePoint { x: x2, y: y2 } })
}

/// The cards that were read.
pub open spec fn cards_read(r: Result<Vec<MaskedCard>, Error>) -> Result<Seq<CardValue>, Error> {
    match r {
        Ok(deck) => Ok(deck@.map_values(|card: MaskedCard| card@)),
        Err(e) => Err(e),
    }
}

/// The deck of masked cards that the rows stand for, in order.
pub fn bytes_2_masked_cards(rows: &Vec<Vec<Vec<u8>>>) -> (r: Result<Vec<MaskedCard>, Error>)
    ensures
        cards_read(r) == expected(cards_of(rows.deep_view())),
{
    let ghost read = rows.deep_view().map_values(|row: Seq<Seq<u8>>| card_of(row));
    let mut deck: Vec<MaskedCard> = Vec::new();
    let mut i: usize = 0;
    while i < rows.len()
        invariant
            i <= rows.len(),
            deck.len() == i,
            read == rows.deep_view().map_values(|row: Seq<Seq<u8>>| card_of(row)),
            forall|j: int| 0 <= j < i ==> (#[trigger] read[j]) == Some(deck[j]@),
        decreases rows.len() - i,
    {
        assert(rows.deep_view()[i as int] =~~= rows[i as int].deep_view());
        match bytes_2_masked_card(rows[i].as_slice()) {
            Ok(card) => deck.push(card),
            Err(e) => {
                assert(read[i as int] is None);
                assert(all_some(read) is None);
                return Err(e);
            },
        }
        i += 1;
    }
    assert(deck@.map_values(|card: MaskedCard| card@) =~= all_some(read).unwrap());
    Ok(deck)
}

/// A request to verify a proof of matchmaking, as plain values.
#[derive(Debug, Clone, PartialEq, Eq)]
pub struct MatchmakingCall {
    /// The serialized parameters of the verifier.
    pub verifier_params: Vec<u8>,
    /// The public inputs.
    pub inputs: Vec<FieldElement>,
    /// The public outputs.
    pub outputs: Vec<FieldElement>,
    /// The commitment to the seed.
    pub commitment: FieldElement,
    /// The random number.
    pub random_number: FieldElement,
    /// The serialized proof.
    pub proof: Vec<u8>,
}

/// What a request to verify a proof of matchmaking holds.
pub struct MatchmakingValue {
    pub verifier_params: Seq<u8>,
    pub inputs: Seq<nat>,
    pub outputs: Seq<nat>,
    pub commitment: nat,
    pub random_number: nat,
    pub proof: Seq<u8>,
}

impl View for MatchmakingCall {
    type V = MatchmakingValue;

    open spec fn view(&self) -> MatchmakingValue {
        MatchmakingValue {
            verifier_params: self.verifier_params@,
            inputs: self.inputs@.map_values(|f: FieldElement| f.value()),
            outputs: self.outputs@.map_values(|f: FieldElement| f.value()),
            commitment: self.commitment.value(),
            random_number: self.random_number.value(),
            proof: self.proof@,
        }
    }
}

/// A request to verify a proof of a shuffle, as plain values.
#[derive(Debug, Clone, PartialEq, Eq)]
pub struct ShuffleCall {
    /// The serialized parameters of the verifier.
    pub verifier_params: Vec<u8>,
    /// The deck before the shuffle.
    pub input_cards: Vec<MaskedCard>,
    /// The deck after the shuffle.
    pub output_cards: Vec<MaskedCard>,
    /// The serialized proof.
    pub proof: Vec<u8>,
}

/// What a request to verify a proof of a shuffle holds.
pub struct ShuffleValue {
    pub verifier_params: Seq<u8>,
    pub input_cards: Seq<CardValue>,
    pub output_cards: Seq<CardValue>,
    pub proof: Seq<u8>,
}

impl View for ShuffleCall {
    type V = ShuffleValue;

    open spec fn view(&self) -> ShuffleValue {
        ShuffleValue {
            verifier_params: self.verifier_params@,
            input_cards: self.input_cards@.map_values(|card: MaskedCard| card@),
            output_cards: self.output_cards@.map_values(|card: MaskedCard| card@),
            proof: self.proof@,
        }
    }
}

/// The schema of a request to verify a proof of matchmaking: parameters,
/// inputs, outputs, commitment, random number and proof.
pub open spec fn matchmaking_schema() -> Seq<DeclaredType> {
    seq![
        DeclaredType::Bytes,
        DeclaredType::Array(Box::new(DeclaredType::Bytes)),
        DeclaredType::Array(Box::new(DeclaredType::Bytes)),
        DeclaredType::Bytes,
        DeclaredType::Bytes,
        DeclaredType::Bytes,
    ]
}

/// The schema of a request to verify a proof of a shuffle: parameters, the
/// deck before, the deck after and the proof, each deck an array of rows of
/// four coordinates.
pub open spec fn shuffle_schema() -> Seq<DeclaredType> {
    seq![
        DeclaredType::Bytes,
        DeclaredType::Array(Box::new(DeclaredType::Array(Box::new(DeclaredType::Bytes)))),
        DeclaredType::Array(Box::new(DeclaredType::Array(Box::new(DeclaredType::Bytes)))),
        DeclaredType::Bytes,
    ]
}

/// The field elements that an array of byte strings stands for.
pub open spec fn field_list_of(t: DecodedToken) -> Option<Seq<nat>> {
    match bytes_list_of(t) {
        Some(list) => fields_of(list),
        None => None,
    }
}

/// The field element that a byte string token stands for.
pub open spec fn field_token_of(t: DecodedToken) -> Option<nat> {
    match bytes_of(t) {
        Some(bytes) => field_of(bytes),
        None => None,
    }
}

/// The deck that an array of rows of byte strings stands for.
pub open spec fn deck_of(t: DecodedToken) -> Option<Seq<CardValue>> {
    match bytes_table_of(t) {
        Some(rows) => cards_of(rows),
        None => None,
    }
}

/// The request that the six tokens stand for, where each of them has the
/// shape that its place asks for.
pub open spec fn matchmaking_of(tokens: Seq<DecodedToken>) -> Option<MatchmakingValue> {
    if bytes_of(tokens[0]) is Some && field_list_of(tokens[1]) is Some && field_list_of(
        tokens[2],
    ) is Some && field_token_of(tokens[3]) is Some && field_token_of(tokens[4]) is Some
        && bytes_of(tokens[5]) is Some {
        Some(
            MatchmakingValue {
                verifier_params: bytes_of(tokens[0]).unwrap(),
                inputs: field_list_of(tokens[1]).unwrap(),
                outputs: field_list_of(tokens[2]).unwrap(),
                commitment: field_token_of(tokens[3]).unwrap(),
                random_number: field_token_of(tokens[4]).unwrap(),
                proof: bytes_of(tokens[5]).unwrap(),
            },
        )
    } else {
        None
    }
}

/// The request that the four tokens stand for, where each of them has the
/// shape that its place asks for.
pub open spec fn shuffle_of(tokens: Seq<DecodedToken>) -> Option<ShuffleValue> {
    if bytes_of(tokens[0]) is Some && deck_of(tokens[1]) is Some && deck_of(tokens[2]) is Some
        && bytes_of(tokens[3]) is Some {
        Some(
            ShuffleValue {
                verifier_params: bytes_of(tokens[0]).unwrap(),
                input_cards: deck_of(tokens[1]).unwrap(),
                output_cards: deck_of(tokens[2]).unwrap(),
                proof: bytes_of(tokens[3]).unwrap(),
            },
        )
    } else {
        None
    }
}

/// The request to verify a proof of matchmaking that the call data `data`
/// holds, or the failure to read it.
pub open spec fn matchmaking_request(data: Seq<u8>) -> Result<MatchmakingValue, Error> {
    match decode_result(matchmaking_schema(), data) {
        Ok(tokens) => expected(matchmaking_of(tokens)),
        Err(e) => Err(e),
    }
}

/// The request to verify a proof of a shuffle that the call data `data`
/// holds, or the failure to read it.
pub open spec fn shuffle_request(data: Seq<u8>) -> Result<ShuffleValue, Error> {
    match decode_result(shuffle_schema(), data) {
        Ok(tokens) => expected(shuffle_of(tokens)),
        Err(e) => Err(e),
    }
}

/// What a request that was read holds.
pub open spec fn matchmaking_read(r: Result<MatchmakingCall, Error>) -> Result<
    MatchmakingValue,
    Error,
> {
    match r {
        Ok(call) => Ok(call@),
        Err(e) => Err(e),
    }
}

/// What a request that was read holds.
pub open spec fn shuffle_read(r: Result<ShuffleCall, Error>) -> Result<ShuffleValue, Error> {
    match r {
        Ok(call) => Ok(call@),
        Err(e) => Err(e),
    }
}

/// The field elements of an array of byte strings of 32 bytes each.
pub fn into_field_elements(tk: Option<DecodedToken>) -> (r: Result<Vec<FieldElement>, Error>)
    ensures
        fields_read(r) == expected(read_with(tk, |t: DecodedToken| field_list_of(t))),
{
    match into_bytes_array(tk) {
        Some(list) => bytes_2_field_elements(&list),
        None => Err(Error::Deserialize),
    }
}

/// The field element of a byte string of 32 bytes.
pub fn into_field_element(tk: Option<DecodedToken>) -> (r: Result<FieldElement, Error>)
    ensures
        field_read(r) == expected(read_with(tk, |t: DecodedToken| field_token_of(t))),
{
    match into_bytes(tk) {
        Some(bytes) => bytes_2_field_element(&bytes),
        None => Err(Error::Deserialize),
    }
}

/// The deck of an array of rows of four coordinates each.
pub fn into_masked_cards(tk: Option<DecodedToken>) -> (r: Result<Vec<MaskedCard>, Error>)
    ensures
        cards_read(r) == expected(read_with(tk, |t: DecodedToken| deck_of(t))),
{
    match into_bytes_2d_array(tk) {
        Some(rows) => bytes_2_masked_cards(&rows),
        None => Err(Error::Deserialize),
    }
}

/// Reads a request to verify a proof of matchmaking from call data: the
/// data is decoded under `matchmaking_schema`, the inputs, the outputs, the
/// commitment and the random number become field elements, and the
/// parameters and the proof stay the bytes that they are.
pub fn read_matchmaking(data: &[u8]) -> (r: Result<MatchmakingCall, Error>)
    ensures
        matchmaking_read(r) == matchmaking_request(data@),
{
    let schema = vec![
        DeclaredType::Bytes,
        DeclaredType::Array(Box::new(DeclaredType::Bytes)),
        DeclaredType::Array(Box::new(DeclaredType::Bytes)),
        DeclaredType::Bytes,
        DeclaredType::Bytes,
        DeclaredType::Bytes,
    ];
    assert(schema@ =~= matchmaking_schema());
    let mut tokens = match decode(schema.as_slice(), data) {
        Ok(tokens) => tokens,
        Err(e) => { return Err(e); },
    };
    let ghost all = tokens@;
    assert(all.len() == 6);
    let t5 = tokens.pop();
    let t4 = tokens.pop();
    let t3 = tokens.pop();
    let t2 = tokens.pop();
    let t1 = tokens.pop();
    let t0 = tokens.pop();
    let verifier_params = match into_bytes(t0) {
        Some(bytes) => bytes,
        None => { return Err(Error::Deserialize); },
    };
    let inputs = match into_field_elements(t1) {
        Ok(list) => list,
        Err(e) => { return Err(e); },
    };
    let outputs = match into_field_elements(t2) {
        Ok(list) => list,
        Err(e) => { return Err(e); },
    };
    let commitment = match into_field_element(t3) {
        Ok(f) => f,
        Err(e) => { return Err(e); },
    };
    let random_number = match into_field_element(t4) {
        Ok(f) => f,
        Err(e) => { return Err(e); },
    };
    let proof = match into_bytes(t5) {
        Some(bytes) => bytes,
        None => { return Err(Error::Deserialize); },
    };
    let call = MatchmakingCall { verifier_params, inputs, outputs, commitment, random_number, proof };
    assert(call@ == matchmaking_of(all).unwrap());
    Ok(call)
}

/// Reads a request to verify a proof of a shuffle from call data: the data
/// is decoded under `shuffle_schema`, each row of the two decks becomes a
/// masked card, and the parameters and the proof stay the bytes that they
/// are.
pub fn read_shuffle(data: &[u8]) -> (r: Result<ShuffleCall, Error>)
    ensures
        shuffle_read(r) == shuffle_request(data@),
{
    let schema = vec![
        DeclaredType::Bytes,
        DeclaredType::Array(Box::new(DeclaredType::Array(Box::new(DeclaredType::Bytes)))),
        DeclaredType::Array(Box::new(DeclaredType::Array(Box::new(DeclaredType::Bytes)))),
        DeclaredType::Bytes,
    ];
    assert(schema@ =~= shuffle_schema());
    let mut tokens = match decode(schema.as_slice(), data) {
        Ok(tokens) => tokens,
        Err(e) => { return Err(e); },
    };
    let ghost all = tokens@;
    assert(all.len() == 4);
    let t3 = tokens.pop();
    let t2 = tokens.pop();
    let t1 = tokens.pop();
    let t0 = tokens.pop();
    let verifier_params = match into_bytes(t0) {
        Some(bytes) => bytes,
        None => { return Err(Error::Deserialize); },
    };
    let input_cards = match into_masked_cards(t1) {
        Ok(deck) => deck,
        Err(e) => { return Err(e); },
    };
    let output_cards = match into_masked_cards(t2) {
        Ok(deck) => deck,
        Err(e) => { return Err(e); },
    };
    let proof = match into_bytes(t3) {
        Some(bytes) => bytes,
        None => { return Err(Error::Deserialize); },
    };
    let call = ShuffleCall { verifier_params, input_cards, output_cards, proof };
    assert(call@ == shuffle_of(all).unwrap());
    Ok(call)
}

/// What running the verifier on a request came to.
#[derive(Debug, Clone, Copy, PartialEq, Eq, Structural)]
pub enum VerifierReport {
    /// The verifier accepted the proof.
    Accepted,
    /// The verifier rejected the proof.
    Rejected,
    /// The parameters or the proof could not be made from their bytes.
    Unreadable,
    /// The verifier broke off without an answer.
    Aborted,
}

/// The result of a call on which the verifier reported `report`.
pub open spec fn conclusion(report: VerifierReport) -> Result<(), Error> {
    match report {
        VerifierReport::Accepted => Ok(()),
        VerifierReport::Rejected => Err(Error::VerifyFail),
        VerifierReport::Unreadable => Err(Error::Deserialize),
        VerifierReport::Aborted => Err(Error::Unknown),
    }
}

/// The result of a call on which the verifier reported `report`: success
/// where it accepted, and for each way of not accepting the error of its
/// own.
pub fn conclude(report: VerifierReport) -> (r: Result<(), Error>)
    ensures
        r == conclusion(report),
{
    match report {
        VerifierReport::Accepted => Ok(()),
        VerifierReport::Rejected => Err(Error::VerifyFail),
        VerifierReport::Unreadable => Err(Error::Deserialize),
        VerifierReport::Aborted => Err(Error::Unknown),
    }
}

/// The cost of verifying a proof, whatever the call data.
pub fn plonk_verify_gas(data_len: usize) -> (gas: u64)
    ensures
        gas == PLONL_VERIFY_BASE,
{
    PLONL_VERIFY_BASE
}

/// Call data that cannot be read is answered with `Error::Deserialize` and
/// with no other error, whatever is wrong with it: data that the decoder
/// refuses, a token of another shape, a field element that is not 32 bytes
/// wide, a card that has not four coordinates.
pub proof fn lemma_unreadable_is_deserialize(data: Seq<u8>)
    ensures
        matchmaking_request(data) is Err ==> matchmaking_request(data) == Err::<
            MatchmakingValue,
            Error,
        >(Error::Deserialize),
        shuffle_request(data) is Err ==> shuffle_request(data) == Err::<ShuffleValue, Error>(
            Error::Deserialize,
        ),
        forall|bytes: Seq<u8>| bytes.len() != 32 ==> (#[trigger] field_of(bytes)) is None,
        forall|row: Seq<Seq<u8>>| row.len() != 4 ==> (#[trigger] card_of(row)) is None,
{
}

/// A rejected proof is told apart from call data that could not be read,
/// and only an accepted proof is a success.
pub proof fn lemma_rejection_is_distinct(report: VerifierReport)
    ensures
        conclusion(report) is Ok <==> report == VerifierReport::Accepted,
        conclusion(report) == Err::<(), Error>(Error::VerifyFail) <==> report
            == VerifierReport::Rejected,
{
}

} // verus!
