use gpl_nft_voter::voted_bits::{get_bit, set_bit};
use gpl_nft_voter::{
    create_vote_state_for_proposal, get_voted_nfts_seed, try_get_voted_nfts_address,
    voted_nfts_space, NftVoterError, Pubkey, VotedNfts,
};

fn key(b: u8) -> Pubkey {
    Pubkey::new_from_array([b; 32])
}

#[test]
fn create_vote_state_for_collection_of_twenty() {
    let mut state = VotedNfts::default();
    assert_eq!(create_vote_state_for_proposal(&mut state, key(1), key(2), 20), Ok(()));
    assert_eq!(state.voted, vec![0u8, 0, 0]);
    assert_eq!(state.proposal.bytes, [1u8; 32]);
    assert_eq!(state.collection.bytes, [2u8; 32]);
    for i in 0..24 {
        assert!(!get_bit(&state.voted, i));
    }
}

#[test]
fn create_vote_state_twice_is_refused() {
    let mut state = VotedNfts::default();
    assert_eq!(create_vote_state_for_proposal(&mut state, key(1), key(2), 20), Ok(()));
    set_bit(&mut state.voted, 3, true);
    assert_eq!(
        create_vote_state_for_proposal(&mut state, key(5), key(6), 40),
        Err(NftVoterError::VoteStateAlreadyInitialized)
    );
    assert_eq!(state.voted, vec![8u8, 0, 0]);
    assert_eq!(state.proposal.bytes, [1u8; 32]);
    assert_eq!(state.collection.bytes, [2u8; 32]);
}

#[test]
fn create_vote_state_sizes() {
    let mut state = VotedNfts::default();
    assert_eq!(create_vote_state_for_proposal(&mut state, key(1), key(2), 0), Ok(()));
    assert!(state.voted.is_empty());
    // an empty state can be set up again
    assert_eq!(create_vote_state_for_proposal(&mut state, key(3), key(4), 1), Ok(()));
    assert_eq!(state.voted, vec![0u8]);
    let mut other = VotedNfts::default();
    assert_eq!(create_vote_state_for_proposal(&mut other, key(1), key(2), 8), Ok(()));
    assert_eq!(other.voted.len(), 1);
    let mut other = VotedNfts::default();
    assert_eq!(create_vote_state_for_proposal(&mut other, key(1), key(2), 9), Ok(()));
    assert_eq!(other.voted.len(), 2);
}

#[test]
fn account_space() {
    assert_eq!(voted_nfts_space(20), 79);
    assert_eq!(voted_nfts_space(0), 76);
    assert_eq!(voted_nfts_space(8), 77);
    assert_eq!(voted_nfts_space(u32::MAX), 76 + 536_870_912);
}

#[test]
fn seeds_of_vote_state() {
    let proposal = key(7);
    let collection = key(9);
    let seeds = get_voted_nfts_seed(&proposal, &collection);
    assert_eq!(seeds[0], b"voted-nfts");
    assert_eq!(seeds[1], &[7u8; 32][..]);
    assert_eq!(seeds[2], &[9u8; 32][..]);
}

#[test]
fn vote_state_address_matches_program_derivation() {
    let proposal = key(7);
    let collection = key(9);
    let program = key(3);
    let expected = anchor_lang::prelude::Pubkey::find_program_address(
        &[b"voted-nfts", &[7u8; 32], &[9u8; 32]],
        &anchor_lang::prelude::Pubkey::new_from_array([3u8; 32]),
    )
    .0;
    let address = try_get_voted_nfts_address(&proposal, &collection, &program).unwrap();
    assert_eq!(address.bytes, expected.to_bytes());
    assert_ne!(address.bytes, [7u8; 32]);
    let again = gpl_nft_voter::get_voted_nfts_address(&proposal, &collection, &program);
    assert_eq!(again.bytes, address.bytes);
    let other = try_get_voted_nfts_address(&collection, &proposal, &program).unwrap();
    assert_ne!(other.bytes, address.bytes);
}

#[test]
fn bit_slice_is_least_significant_bit_first() {
    let mut voted = vec![0u8; 3];
    set_bit(&mut voted, 10, true);
    assert_eq!(voted, vec![0u8, 4, 0]);
    assert!(get_bit(&voted, 10));
    assert!(!get_bit(&voted, 9));
    set_bit(&mut voted, 0, true);
    set_bit(&mut voted, 23, true);
    assert_eq!(voted, vec![1u8, 4, 128]);
    set_bit(&mut voted, 10, false);
    assert_eq!(voted, vec![1u8, 0, 128]);
}

#[test]
fn pubkey_comparison() {
    assert!(key(1).same_as(&key(1)));
    assert!(!key(1).same_as(&key(2)));
    let mut bytes = [1u8; 32];
    bytes[31] = 0;
    assert!(!key(1).same_as(&Pubkey::new_from_array(bytes)));
}
