use ark_bn254_zypher::Fr;
use ark_ec_zypher::{AffineRepr, CurveGroup};
use ark_ed_on_bn254_zypher::{EdwardsAffine, EdwardsProjective, Fq};
use ark_ff_zypher::{BigInteger, One, PrimeField, UniformRand};
use ark_std_zypher::rand::SeedableRng;
use ethabi::Token;
use rand_chacha::ChaChaRng;
use uzkge::gen_params::VerifierParams;
use zk_precompiles::error::{status_byte, Error};
use zk_precompiles::field::FieldElement;
use zk_precompiles::plonk::{
    bytes_2_masked_card, conclude, plonk_verify_gas, read_matchmaking, read_shuffle, MaskedCard,
    MatchmakingCall, ShuffleCall, VerifierReport, PLONL_VERIFY_BASE,
};
use zmatchmaking::build_cs::{verify_matchmaking, Proof};
use zshuffle::build_cs::{verify_shuffle, ShuffleProof, TurboCS};
use zshuffle::keygen::{aggregate_keys, Keypair};
use zshuffle::mask::{mask, verify_mask};
use zshuffle::Card;

fn field(f: &FieldElement) -> Fr {
    Fr::from_be_bytes_mod_order(&f.to_bytes_be())
}

fn fields(list: &[FieldElement]) -> Vec<Fr> {
    list.iter().map(field).collect()
}

fn point(x: &FieldElement, y: &FieldElement) -> EdwardsProjective {
    EdwardsAffine::new(field(x), field(y)).into()
}

fn deck(cards: &[MaskedCard]) -> Vec<zshuffle::MaskedCard> {
    cards
        .iter()
        .map(|c| zshuffle::MaskedCard::new(point(&c.e1.x, &c.e1.y), point(&c.e2.x, &c.e2.y)))
        .collect()
}

fn run_matchmaking(call: &MatchmakingCall) -> VerifierReport {
    let params: VerifierParams = match bincode::deserialize(&call.verifier_params) {
        Ok(p) => p,
        Err(_) => return VerifierReport::Unreadable,
    };
    let proof: Proof = match bincode::deserialize(&call.proof) {
        Ok(p) => p,
        Err(_) => return VerifierReport::Unreadable,
    };
    match verify_matchmaking(
        &params,
        &fields(&call.inputs),
        &fields(&call.outputs),
        &field(&call.commitment),
        &field(&call.random_number),
        &proof,
    ) {
        Ok(()) => VerifierReport::Accepted,
        Err(_) => VerifierReport::Rejected,
    }
}

fn run_shuffle(call: &ShuffleCall) -> VerifierReport {
    let params: zshuffle::gen_params::VerifierParams =
        match bincode::deserialize(&call.verifier_params) {
            Ok(p) => p,
            Err(_) => return VerifierReport::Unreadable,
        };
    let proof = match ShuffleProof::from_bytes_be::<TurboCS>(&call.proof) {
        Ok(p) => p,
        Err(_) => return VerifierReport::Unreadable,
    };
    match verify_shuffle(&params, &deck(&call.input_cards), &deck(&call.output_cards), &proof) {
        Ok(()) => VerifierReport::Accepted,
        Err(_) => VerifierReport::Rejected,
    }
}

fn plonk_verify_matchmaking(data: &[u8]) -> Result<(), Error> {
    let call = read_matchmaking(data)?;
    conclude(run_matchmaking(&call))
}

fn plonk_verify_shuffle(data: &[u8]) -> Result<(), Error> {
    let call = read_shuffle(data)?;
    conclude(run_shuffle(&call))
}

fn point_to_uncompress(point: &EdwardsProjective) -> (Vec<u8>, Vec<u8>) {
    let affine = EdwardsAffine::from(*point);
    let (x, y) = affine.xy().unwrap();
    (x.into_bigint().to_bytes_be(), y.into_bigint().to_bytes_be())
}

fn card_row(card: &zshuffle::MaskedCard) -> Token {
    let (x1, y1) = point_to_uncompress(&card.e1);
    let (x2, y2) = point_to_uncompress(&card.e2);
    Token::Array(vec![Token::Bytes(x1), Token::Bytes(y1), Token::Bytes(x2), Token::Bytes(y2)])
}

struct MatchmakingCase {
    verifier_params: Vec<u8>,
    inputs: Vec<Vec<u8>>,
    outputs: Vec<Vec<u8>>,
    commitment: Vec<u8>,
    random_number: Vec<u8>,
    proof: Vec<u8>,
}

impl MatchmakingCase {
    fn encode(&self) -> Vec<u8> {
        ethabi::encode(&[
            Token::Bytes(self.verifier_params.clone()),
            Token::Array(self.inputs.iter().map(|v| Token::Bytes(v.clone())).collect()),
            Token::Array(self.outputs.iter().map(|v| Token::Bytes(v.clone())).collect()),
            Token::Bytes(self.commitment.clone()),
            Token::Bytes(self.random_number.clone()),
            Token::Bytes(self.proof.clone()),
        ])
    }
}

#[test]
fn matchmaking_request_is_read_field_by_field() {
    let case = MatchmakingCase {
        verifier_params: vec![1, 2, 3],
        inputs: vec![vec![0u8; 32], vec![1u8; 32]],
        outputs: vec![vec![2u8; 32]],
        commitment: vec![3u8; 32],
        random_number: vec![4u8; 32],
        proof: vec![9, 8, 7, 6],
    };
    let call = read_matchmaking(&case.encode()).unwrap();
    assert_eq!(call.verifier_params, vec![1, 2, 3]);
    assert_eq!(call.proof, vec![9, 8, 7, 6]);
    assert_eq!(call.inputs.len(), 2);
    assert_eq!(call.inputs[0].to_bytes_be(), [0u8; 32]);
    assert_eq!(call.inputs[1].to_bytes_be(), [1u8; 32]);
    assert_eq!(call.outputs.len(), 1);
    assert_eq!(call.outputs[0].to_bytes_be(), [2u8; 32]);
    assert_eq!(call.commitment.to_bytes_be(), [3u8; 32]);
    assert_eq!(call.random_number.to_bytes_be(), [4u8; 32]);
}

#[test]
fn matchmaking_request_with_a_short_field_is_refused() {
    let mut case = MatchmakingCase {
        verifier_params: vec![],
        inputs: vec![vec![0u8; 32]],
        outputs: vec![vec![2u8; 32]],
        commitment: vec![3u8; 32],
        random_number: vec![4u8; 32],
        proof: vec![],
    };
    assert!(read_matchmaking(&case.encode()).is_ok());
    case.commitment = vec![3u8; 31];
    assert_eq!(read_matchmaking(&case.encode()), Err(Error::Deserialize));
    case.commitment = vec![3u8; 32];
    case.random_number = vec![4u8; 33];
    assert_eq!(read_matchmaking(&case.encode()), Err(Error::Deserialize));
    case.random_number = vec![4u8; 32];
    case.inputs = vec![vec![0u8; 32], vec![]];
    assert_eq!(read_matchmaking(&case.encode()), Err(Error::Deserialize));
    case.inputs = vec![];
    case.outputs = vec![vec![0u8; 16]];
    assert_eq!(read_matchmaking(&case.encode()), Err(Error::Deserialize));
}

#[test]
fn matchmaking_request_of_another_shape_is_refused() {
    let data = ethabi::encode(&[
        Token::Bytes(vec![1]),
        Token::Bytes(vec![2]),
        Token::Bytes(vec![3]),
        Token::Bytes(vec![4]),
    ]);
    assert_eq!(read_matchmaking(&data), Err(Error::Deserialize));
    assert_eq!(read_matchmaking(&[]), Err(Error::Deserialize));
    assert_eq!(read_matchmaking(&[0u8; 31]), Err(Error::Deserialize));
}

#[test]
fn masked_card_takes_exactly_four_coordinates() {
    let row = vec![vec![1u8; 32], vec![2u8; 32], vec![3u8; 32], vec![4u8; 32]];
    let card = bytes_2_masked_card(&row).unwrap();
    assert_eq!(card.e1.x.to_bytes_be(), [1u8; 32]);
    assert_eq!(card.e1.y.to_bytes_be(), [2u8; 32]);
    assert_eq!(card.e2.x.to_bytes_be(), [3u8; 32]);
    assert_eq!(card.e2.y.to_bytes_be(), [4u8; 32]);
    assert_eq!(bytes_2_masked_card(&row[..3]), Err(Error::Deserialize));
    assert_eq!(bytes_2_masked_card(&[]), Err(Error::Deserialize));
    let mut five = row.clone();
    five.push(vec![5u8; 32]);
    assert_eq!(bytes_2_masked_card(&five), Err(Error::Deserialize));
    let mut short = row.clone();
    short[2] = vec![3u8; 31];
    assert_eq!(bytes_2_masked_card(&short), Err(Error::Deserialize));
}

#[test]
fn masked_card_reduces_its_coordinates() {
    let mut above = [0u8; 32];
    above.copy_from_slice(&Fq::MODULUS.to_bytes_be());
    above[31] += 1;
    let row = vec![above.to_vec(), vec![0u8; 32], vec![0u8; 32], vec![0u8; 32]];
    let card = bytes_2_masked_card(&row).unwrap();
    let mut one = [0u8; 32];
    one[31] = 1;
    assert_eq!(card.e1.x.to_bytes_be(), one);
}

#[test]
fn verifier_reports_map_to_their_errors() {
    assert_eq!(conclude(VerifierReport::Accepted), Ok(()));
    assert_eq!(conclude(VerifierReport::Rejected), Err(Error::VerifyFail));
    assert_eq!(conclude(VerifierReport::Unreadable), Err(Error::Deserialize));
    assert_eq!(conclude(VerifierReport::Aborted), Err(Error::Unknown));
    assert_eq!(status_byte(&conclude(VerifierReport::Accepted)), 0);
    assert_eq!(status_byte(&conclude(VerifierReport::Rejected)), 3);
    assert_eq!(status_byte(&conclude(VerifierReport::Unreadable)), 2);
    assert_eq!(status_byte(&conclude(VerifierReport::Aborted)), 4);
}

#[test]
fn proof_verification_has_a_flat_cost() {
    assert_eq!(PLONL_VERIFY_BASE, 100);
    for len in [0usize, 7, 4096, 1 << 20] {
        assert_eq!(plonk_verify_gas(len), 100);
    }
}

#[test]
fn unreadable_blobs_are_a_failure_to_deserialize() {
    let case = MatchmakingCase {
        verifier_params: vec![1, 2, 3],
        inputs: vec![],
        outputs: vec![],
        commitment: vec![3u8; 32],
        random_number: vec![4u8; 32],
        proof: vec![9, 8, 7, 6],
    };
    assert_eq!(plonk_verify_matchmaking(&case.encode()), Err(Error::Deserialize));
}

#[test]
fn shuffle_request_carries_the_decks_card_by_card() {
    let mut rng = ChaChaRng::from_seed([0u8; 32]);
    let alice = Keypair::generate(&mut rng);
    let joint_pk = aggregate_keys(&[alice.public]).unwrap();

    let mut masked = Vec::new();
    for _ in 0..6 {
        let card = Card::rand(&mut rng);
        let (masked_card, masked_proof) =
            mask(&mut rng, &joint_pk, &card, &ark_ed_on_bn254_zypher::Fr::one()).unwrap();
        verify_mask(&joint_pk, &card, &masked_card, &masked_proof).unwrap();
        masked.push(masked_card);
    }
    let before = masked[..3].to_vec();
    let after = masked[3..].to_vec();

    let data = ethabi::encode(&[
        Token::Bytes(vec![0xaa, 0xbb]),
        Token::Array(before.iter().map(card_row).collect()),
        Token::Array(after.iter().map(card_row).collect()),
        Token::Bytes(vec![0xcc]),
    ]);
    let call = read_shuffle(&data).unwrap();
    assert_eq!(call.verifier_params, vec![0xaa, 0xbb]);
    assert_eq!(call.proof, vec![0xcc]);
    assert_eq!(deck(&call.input_cards), before);
    assert_eq!(deck(&call.output_cards), after);
    for (read, given) in call.input_cards.iter().zip(before.iter()) {
        assert!(read.e1.is_admissible());
        assert!(read.e2.is_admissible());
        let (x, y) = point_to_uncompress(&given.e1);
        assert_eq!(read.e1.x.to_bytes_be().to_vec(), x);
        assert_eq!(read.e1.y.to_bytes_be().to_vec(), y);
    }

    // Parameters and a proof that are not what they should be are found
    // when the verifier's side reads them.
    assert_eq!(plonk_verify_shuffle(&data), Err(Error::Deserialize));
}

#[test]
fn shuffle_request_with_a_broken_row_is_refused() {
    let row = |n: usize, len: usize| {
        Token::Array((0..n).map(|i| Token::Bytes(vec![i as u8; len])).collect())
    };
    let encode = |rows: Vec<Token>| {
        ethabi::encode(&[
            Token::Bytes(vec![]),
            Token::Array(rows),
            Token::Array(vec![]),
            Token::Bytes(vec![]),
        ])
    };
    assert!(read_shuffle(&encode(vec![row(4, 32), row(4, 32)])).is_ok());
    assert!(read_shuffle(&encode(vec![])).is_ok());
    assert_eq!(read_shuffle(&encode(vec![row(4, 32), row(3, 32)])), Err(Error::Deserialize));
    assert_eq!(read_shuffle(&encode(vec![row(5, 32)])), Err(Error::Deserialize));
    assert_eq!(read_shuffle(&encode(vec![row(4, 31)])), Err(Error::Deserialize));
    assert_eq!(read_shuffle(&encode(vec![Token::Bytes(vec![1u8; 32])])), Err(Error::Deserialize));
    let whole = encode(vec![row(4, 32)]);
    for cut in [0usize, 31, 64, 128, whole.len() - 1] {
        assert_eq!(read_shuffle(&whole[..cut]), Err(Error::Deserialize));
    }
}
