use vstd::prelude::*;

verus! {

/// Errors raised by the NFT voter plugin.
#[derive(Debug, Clone, Copy, PartialEq, Eq, Structural)]
pub enum NftVoterError {
    InvalidVoterWeightRecordRealm,
    InvalidVoterWeightRecordMint,
    InvalidTokenOwnerForVoterWeightRecord,
    CollectionMustBeVerified,
    VoterDoesNotOwnNft,
    CollectionNotFound,
    TokenMetadataDoesNotMatch,
    DuplicatedNftDetected,
    InvalidNftAmount,
    NftAlreadyVoted,
    VoteRecordMustBeWithdrawn,
    VoterWeightRecordMustBeExpired,
    InvalidMetadataName,
    VoteStateAlreadyInitialized,
    ArithMeticError,
    InvalidVotedNftsProposal,
    InvalidVotedNftsCollection,
}

/// The governance program's error that the vote casting raises itself.
#[derive(Debug, Clone, Copy, PartialEq, Eq, Structural)]
pub enum GovernanceError {
    GoverningTokenOwnerOrDelegateMustSign,
}

/// Why a vote cast is refused: an error of this plugin or of the governance
/// program.
#[derive(Debug, Clone, Copy, PartialEq, Eq, Structural)]
pub enum CastNftVoteError {
    NftVoter(NftVoterError),
    Governance(GovernanceError),
}

} // verus!
