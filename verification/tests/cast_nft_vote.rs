use gpl_nft_voter::voted_bits::get_bit;
use gpl_nft_voter::{
    cast_nft_vote, cast_nft_vote_in_bounds, create_vote_state_for_proposal, record_nft_vote,
    update_voter_weight_record, CastNftVote, CastNftVoteError, GovernanceError, NftVote,
    NftVoterError, Pubkey, TokenOwnerRecord, VotedNfts, VoterWeightAction, VoterWeightRecord,
};

fn key(b: u8) -> Pubkey {
    Pubkey::new_from_array([b; 32])
}

const REALM: u8 = 1;
const MINT: u8 = 2;
const PROPOSAL: u8 = 3;
const COLLECTION: u8 = 4;
const OWNER: u8 = 9;
const DELEGATE: u8 = 10;

fn accounts(collection_size: u32) -> CastNftVote {
    let mut voted_nfts = VotedNfts::default();
    create_vote_state_for_proposal(&mut voted_nfts, key(PROPOSAL), key(COLLECTION), collection_size).unwrap();
    CastNftVote {
        registrar_realm: key(REALM),
        registrar_governing_token_mint: key(MINT),
        voter_weight_record: VoterWeightRecord {
            realm: key(REALM),
            governing_token_mint: key(MINT),
            governing_token_owner: key(OWNER),
            voter_weight: 0,
            voter_weight_expiry: None,
            weight_action: None,
            weight_action_target: None,
        },
        voter_token_owner_record: TokenOwnerRecord {
            governing_token_owner: key(OWNER),
            governance_delegate: None,
        },
        voter_authority: key(OWNER),
        voted_nfts,
    }
}

fn nft_err(e: NftVoterError) -> Result<(), CastNftVoteError> {
    Err(CastNftVoteError::NftVoter(e))
}

fn nft(weight: u64, nft_index: u64) -> Result<NftVote, NftVoterError> {
    Ok(NftVote { weight, nft_index })
}

fn cast(accounts: &mut CastNftVote, nfts: Vec<Result<NftVote, NftVoterError>>, slot: u64) -> Result<(), CastNftVoteError> {
    assert!(cast_nft_vote_in_bounds(accounts, &key(PROPOSAL), &nfts));
    cast_nft_vote(accounts, key(PROPOSAL), key(COLLECTION), &nfts, slot)
}

fn assert_record_for_proposal(accounts: &CastNftVote, weight: u64, slot: u64) {
    let record = &accounts.voter_weight_record;
    assert_eq!(record.voter_weight, weight);
    assert_eq!(record.voter_weight_expiry, Some(slot));
    assert_eq!(record.weight_action, Some(VoterWeightAction::CastVote));
    assert_eq!(record.weight_action_target.map(|k| k.bytes), Some([PROPOSAL; 32]));
}

#[test]
fn cast_vote_with_one_nft() {
    let mut acc = accounts(20);
    assert_eq!(cast(&mut acc, vec![nft(10, 11)], 5), Ok(()));
    assert!(get_bit(&acc.voted_nfts.voted, 10));
    assert_eq!(acc.voted_nfts.voted, vec![0u8, 4, 0]);
    assert_record_for_proposal(&acc, 10, 5);
}

#[test]
fn cast_vote_with_two_nfts() {
    let mut acc = accounts(20);
    assert_eq!(cast(&mut acc, vec![nft(10, 11), nft(10, 4)], 6), Ok(()));
    assert!(get_bit(&acc.voted_nfts.voted, 10));
    assert!(get_bit(&acc.voted_nfts.voted, 3));
    assert_eq!(acc.voted_nfts.voted, vec![8u8, 4, 0]);
    assert_record_for_proposal(&acc, 20, 6);
}

#[test]
fn cast_vote_with_five_nfts() {
    let mut acc = accounts(20);
    let nfts = (1..6).map(|i| nft(10, i)).collect::<Vec<_>>();
    assert_eq!(cast(&mut acc, nfts, 7), Ok(()));
    for i in 0..5 {
        assert!(get_bit(&acc.voted_nfts.voted, i));
    }
    assert_eq!(acc.voted_nfts.voted, vec![0b11111u8, 0, 0]);
    assert_record_for_proposal(&acc, 50, 7);
}

#[test]
fn cast_vote_again_with_same_nft_is_refused() {
    let mut acc = accounts(20);
    assert_eq!(cast(&mut acc, vec![nft(10, 1)], 1), Ok(()));
    assert_eq!(cast(&mut acc, vec![nft(10, 1)], 2), nft_err(NftVoterError::NftAlreadyVoted));
    assert_eq!(acc.voted_nfts.voted, vec![1u8, 0, 0]);
    assert_record_for_proposal(&acc, 10, 1);
}

#[test]
fn cast_vote_in_two_instructions_adds_up() {
    let mut acc = accounts(20);
    assert_eq!(cast(&mut acc, vec![nft(10, 11)], 3), Ok(()));
    assert_eq!(cast(&mut acc, vec![nft(10, 12)], 3), Ok(()));
    assert_record_for_proposal(&acc, 20, 3);
    assert_eq!(acc.voted_nfts.voted, vec![0u8, 0b1100, 0]);
}

#[test]
fn same_nft_twice_in_one_batch_is_refused() {
    let mut acc = accounts(20);
    assert_eq!(cast(&mut acc, vec![nft(10, 2), nft(10, 2)], 3), nft_err(NftVoterError::NftAlreadyVoted));
    assert_eq!(acc.voted_nfts.voted, vec![0u8, 0, 0]);
    assert_eq!(acc.voter_weight_record.voter_weight, 0);
    assert_eq!(acc.voter_weight_record.weight_action, None);
}

#[test]
fn nft_index_zero_is_refused() {
    let mut acc = accounts(20);
    assert_eq!(cast(&mut acc, vec![nft(10, 3), nft(10, 0)], 3), nft_err(NftVoterError::ArithMeticError));
    assert_eq!(acc.voted_nfts.voted, vec![0u8, 0, 0]);
}

#[test]
fn first_refusal_wins() {
    let mut acc = accounts(20);
    let nfts = vec![nft(10, 3), Err(NftVoterError::DuplicatedNftDetected), nft(10, 0)];
    assert_eq!(cast(&mut acc, nfts, 3), nft_err(NftVoterError::DuplicatedNftDetected));
    let nfts = vec![nft(10, 3), nft(10, 3), Err(NftVoterError::InvalidNftAmount)];
    assert_eq!(cast(&mut acc, nfts, 3), nft_err(NftVoterError::NftAlreadyVoted));
    assert_eq!(acc.voted_nfts.voted, vec![0u8, 0, 0]);
}

#[test]
fn no_nft_sets_weight_zero() {
    let mut acc = accounts(20);
    acc.voter_weight_record.voter_weight = 77;
    assert_eq!(cast(&mut acc, vec![], 9), Ok(()));
    assert_record_for_proposal(&acc, 0, 9);
}

#[test]
fn vote_on_other_proposal_starts_afresh() {
    let mut acc = accounts(20);
    acc.voter_weight_record.voter_weight = 30;
    acc.voter_weight_record.weight_action = Some(VoterWeightAction::CastVote);
    acc.voter_weight_record.weight_action_target = Some(key(8));
    assert_eq!(cast(&mut acc, vec![nft(10, 1)], 4), Ok(()));
    assert_record_for_proposal(&acc, 10, 4);

    let mut acc = accounts(20);
    acc.voter_weight_record.voter_weight = 30;
    acc.voter_weight_record.weight_action = Some(VoterWeightAction::CreateProposal);
    acc.voter_weight_record.weight_action_target = Some(key(PROPOSAL));
    assert_eq!(cast(&mut acc, vec![nft(10, 1)], 4), Ok(()));
    assert_record_for_proposal(&acc, 10, 4);
}

#[test]
fn out_of_range_index_or_overflow_aborts() {
    let acc = accounts(20);
    // the vote bytes hold 24 bits
    assert!(cast_nft_vote_in_bounds(&acc, &key(PROPOSAL), &vec![nft(1, 24)]));
    assert!(!cast_nft_vote_in_bounds(&acc, &key(PROPOSAL), &vec![nft(1, 25)]));
    assert!(!cast_nft_vote_in_bounds(&acc, &key(PROPOSAL), &vec![nft(u64::MAX, 1), nft(1, 2)]));
    // nothing after a refusal is reached
    assert!(cast_nft_vote_in_bounds(&acc, &key(PROPOSAL), &vec![nft(1, 0), nft(1, 99)]));
    let mut acc = accounts(20);
    acc.voter_weight_record.voter_weight = u64::MAX;
    acc.voter_weight_record.weight_action = Some(VoterWeightAction::CastVote);
    acc.voter_weight_record.weight_action_target = Some(key(PROPOSAL));
    assert!(!cast_nft_vote_in_bounds(&acc, &key(PROPOSAL), &vec![nft(1, 1)]));
    assert!(cast_nft_vote_in_bounds(&acc, &key(PROPOSAL), &vec![nft(0, 1)]));
}

#[test]
fn account_checks() {
    let mut acc = accounts(20);
    assert_eq!(acc.check_voter_weight_record(), Ok(()));
    assert_eq!(acc.check_voted_nfts(&key(PROPOSAL), &key(COLLECTION)), Ok(()));
    assert_eq!(acc.check_voted_nfts(&key(8), &key(COLLECTION)), Err(NftVoterError::InvalidVotedNftsProposal));
    assert_eq!(acc.check_voted_nfts(&key(PROPOSAL), &key(8)), Err(NftVoterError::InvalidVotedNftsCollection));
    acc.voter_weight_record.governing_token_mint = key(8);
    assert_eq!(acc.check_voter_weight_record(), Err(NftVoterError::InvalidVoterWeightRecordMint));
    acc.voter_weight_record.realm = key(8);
    assert_eq!(acc.check_voter_weight_record(), Err(NftVoterError::InvalidVoterWeightRecordRealm));
}

#[test]
fn record_one_nft_vote() {
    let mut state = VotedNfts::default();
    create_vote_state_for_proposal(&mut state, key(PROPOSAL), key(COLLECTION), 16).unwrap();
    assert_eq!(record_nft_vote(&mut state, 5, &NftVote { weight: 10, nft_index: 16 }), Ok(15));
    assert_eq!(state.voted, vec![0u8, 128]);
    assert_eq!(record_nft_vote(&mut state, 15, &NftVote { weight: 10, nft_index: 16 }), Err(NftVoterError::NftAlreadyVoted));
    assert_eq!(record_nft_vote(&mut state, 15, &NftVote { weight: 10, nft_index: 0 }), Err(NftVoterError::ArithMeticError));
    assert_eq!(state.voted, vec![0u8, 128]);
}

#[test]
fn update_record_keeps_owner_fields() {
    let acc = accounts(20);
    let mut record = acc.voter_weight_record;
    update_voter_weight_record(&mut record, key(PROPOSAL), 10, 100);
    update_voter_weight_record(&mut record, key(PROPOSAL), 15, 101);
    assert_eq!(record.voter_weight, 25);
    assert_eq!(record.voter_weight_expiry, Some(101));
    assert_eq!(record.realm.bytes, [REALM; 32]);
    assert_eq!(record.governing_token_mint.bytes, [MINT; 32]);
    assert_eq!(record.governing_token_owner.bytes, [9u8; 32]);
    update_voter_weight_record(&mut record, key(8), 4, 102);
    assert_eq!(record.voter_weight, 4);
}

fn assert_refused_unchanged(mut acc: CastNftVote, proposal: Pubkey, collection: Pubkey, expected: CastNftVoteError) {
    let nfts = vec![nft(10, 1)];
    let voted_before = acc.voted_nfts.voted.clone();
    let weight_before = acc.voter_weight_record.voter_weight;
    assert_eq!(cast_nft_vote(&mut acc, proposal, collection, &nfts, 5), Err(expected));
    assert_eq!(acc.voted_nfts.voted, voted_before);
    assert_eq!(acc.voter_weight_record.voter_weight, weight_before);
    assert_eq!(acc.voter_weight_record.voter_weight_expiry, None);
    assert_eq!(acc.voter_weight_record.weight_action, None);
}

#[test]
fn cast_vote_refused_by_account_checks() {
    // vote state of another proposal
    assert_refused_unchanged(accounts(20), key(8), key(COLLECTION), CastNftVoteError::NftVoter(NftVoterError::InvalidVotedNftsProposal));
    // vote state of another collection
    assert_refused_unchanged(accounts(20), key(PROPOSAL), key(8), CastNftVoteError::NftVoter(NftVoterError::InvalidVotedNftsCollection));
    // voter weight record of another realm
    let mut acc = accounts(20);
    acc.voter_weight_record.realm = key(8);
    assert_refused_unchanged(acc, key(PROPOSAL), key(COLLECTION), CastNftVoteError::NftVoter(NftVoterError::InvalidVoterWeightRecordRealm));
    // voter weight record of another mint
    let mut acc = accounts(20);
    acc.voter_weight_record.governing_token_mint = key(8);
    assert_refused_unchanged(acc, key(PROPOSAL), key(COLLECTION), CastNftVoteError::NftVoter(NftVoterError::InvalidVoterWeightRecordMint));
    // authority neither owner nor delegate
    let mut acc = accounts(20);
    acc.voter_authority = key(8);
    assert_refused_unchanged(acc, key(PROPOSAL), key(COLLECTION), CastNftVoteError::Governance(GovernanceError::GoverningTokenOwnerOrDelegateMustSign));
    // voter weight record of another owner
    let mut acc = accounts(20);
    acc.voter_weight_record.governing_token_owner = key(8);
    assert_refused_unchanged(acc, key(PROPOSAL), key(COLLECTION), CastNftVoteError::NftVoter(NftVoterError::InvalidTokenOwnerForVoterWeightRecord));
    // the record's realm is checked before the vote state
    let mut acc = accounts(20);
    acc.voter_weight_record.realm = key(8);
    assert_refused_unchanged(acc, key(8), key(8), CastNftVoteError::NftVoter(NftVoterError::InvalidVoterWeightRecordRealm));
}

#[test]
fn cast_vote_using_delegate() {
    let mut acc = accounts(20);
    acc.voter_token_owner_record.governance_delegate = Some(key(DELEGATE));
    acc.voter_authority = key(DELEGATE);
    assert_eq!(acc.resolve_governing_token_owner().map(|k| k.bytes), Ok([OWNER; 32]));
    assert_eq!(cast(&mut acc, vec![nft(10, 11)], 5), Ok(()));
    assert!(get_bit(&acc.voted_nfts.voted, 10));
    assert_record_for_proposal(&acc, 10, 5);
    // a delegate named by nobody may not sign
    let mut acc = accounts(20);
    acc.voter_authority = key(DELEGATE);
    assert_eq!(
        acc.resolve_governing_token_owner().map(|k| k.bytes),
        Err(CastNftVoteError::Governance(GovernanceError::GoverningTokenOwnerOrDelegateMustSign))
    );
}

#[test]
fn set_bits_count_the_votes_cast() {
    let mut acc = accounts(20);
    let count = |v: &Vec<u8>| v.iter().map(|b| b.count_ones()).sum::<u32>();
    assert_eq!(cast(&mut acc, vec![nft(1, 1), nft(1, 7), nft(1, 20)], 1), Ok(()));
    assert_eq!(count(&acc.voted_nfts.voted), 3);
    assert_eq!(cast(&mut acc, vec![nft(1, 2)], 2), Ok(()));
    assert_eq!(count(&acc.voted_nfts.voted), 4);
    assert_eq!(cast(&mut acc, vec![nft(1, 3), nft(1, 7)], 3), nft_err(NftVoterError::NftAlreadyVoted));
    assert_eq!(count(&acc.voted_nfts.voted), 4);
    assert_eq!(acc.voter_weight_record.voter_weight, 4);
}
