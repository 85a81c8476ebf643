//! Vote tracking for the NFT voter plugin: every NFT of a collection owns one
//! bit of a per-proposal bit slice, found from the number in the NFT's name,
//! and the NFTs' weights add up into the voter's weight record.

pub mod error;
pub mod pubkey;
pub mod voted_bits;
pub mod nft_name;
pub mod voted_nfts;
pub mod cast_nft_vote;

pub use error::{CastNftVoteError, GovernanceError, NftVoterError};
pub use pubkey::Pubkey;
pub use nft_name::{index_from_name, index_from_nft_literal_name, index_from_nft_name, NftMetadata};
pub use voted_nfts::{
    create_vote_state_for_proposal, get_voted_nfts_address, get_voted_nfts_seed,
    try_get_voted_nfts_address, voted_nfts_space, VotedNfts,
};
pub use cast_nft_vote::{
    cast_nft_vote, cast_nft_vote_in_bounds, record_nft_vote, update_voter_weight_record,
    CastNftVote, NftVote, TokenOwnerRecord, VoterWeightAction, VoterWeightRecord,
};
