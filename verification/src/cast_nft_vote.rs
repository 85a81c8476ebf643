use vstd::prelude::*;
use crate::error::{CastNftVoteError, GovernanceError, NftVoterError};
use crate::pubkey::Pubkey;
use crate::voted_bits::{
    bit_at, bit_len, with_bit, viewable, get_bit, set_bit, lemma_with_bit, count_set_bits,
    lemma_count_after_set,
};
use crate::voted_nfts::VotedNfts;

verus! {

/// The action that a voter weight is valid for.
#[derive(Debug, Clone, Copy, PartialEq, Eq, Structural)]
pub enum VoterWeightAction {
    CastVote,
    CommentProposal,
    CreateGovernance,
    CreateProposal,
    SignOffProposal,
}

/// The voter weight record that the governance program reads.
#[derive(Debug)]
pub struct VoterWeightRecord {
    pub realm: Pubkey,
    pub governing_token_mint: Pubkey,
    pub governing_token_owner: Pubkey,
    pub voter_weight: u64,
    pub voter_weight_expiry: Option<u64>,
    pub weight_action: Option<VoterWeightAction>,
    pub weight_action_target: Option<Pubkey>,
}

/// One NFT that votes, as its accounts were resolved: the weight of its
/// collection and the index read from its name.
#[derive(Debug, Clone, Copy)]
pub struct NftVote {
    pub weight: u64,
    pub nft_index: u64,
}

/// What the vote casting reads of the voter's token owner record: the owner of
/// the governing tokens and the delegate it may have named.
#[derive(Debug, Clone, Copy)]
pub struct TokenOwnerRecord {
    pub governing_token_owner: Pubkey,
    pub governance_delegate: Option<Pubkey>,
}

/// What the vote casting reads and writes: the registrar's realm and governing
/// token mint, the voter weight record, the voter's token owner record, the
/// signing voter authority and the vote state.
#[derive(Debug)]
pub struct CastNftVote {
    pub registrar_realm: Pubkey,
    pub registrar_governing_token_mint: Pubkey,
    pub voter_weight_record: VoterWeightRecord,
    pub voter_token_owner_record: TokenOwnerRecord,
    pub voter_authority: Pubkey,
    pub voted_nfts: VotedNfts,
}

/// The voter weight record must belong to the registrar's realm and governing
/// token mint.
pub open spec fn voter_weight_record_check(accounts: CastNftVote) -> Result<(), NftVoterError> {
    if accounts.voter_weight_record.realm@ != accounts.registrar_realm@ {
        Err(NftVoterError::InvalidVoterWeightRecordRealm)
    } else if accounts.voter_weight_record.governing_token_mint@
        != accounts.registrar_governing_token_mint@ {
        Err(NftVoterError::InvalidVoterWeightRecordMint)
    } else {
        Ok(())
    }
}

/// The vote state must be the one of `proposal` and `collection`.
pub open spec fn voted_nfts_check(accounts: CastNftVote, proposal: Pubkey, collection: Pubkey) -> Result<(), NftVoterError> {
    if accounts.voted_nfts.proposal@ != proposal@ {
        Err(NftVoterError::InvalidVotedNftsProposal)
    } else if accounts.voted_nfts.collection@ != collection@ {
        Err(NftVoterError::InvalidVotedNftsCollection)
    } else {
        Ok(())
    }
}

/// The authority is the owner of the governing tokens or the delegate it named.
pub open spec fn may_sign_for(record: TokenOwnerRecord, authority: Pubkey) -> bool {
    ||| authority@ == record.governing_token_owner@
    ||| (record.governance_delegate matches Some(delegate) && delegate@ == authority@)
}

/// The governing token owner whose NFTs vote: the voter authority must be the
/// owner of the token owner record or its delegate, and the voter weight record
/// must be the owner's.
pub open spec fn governing_token_owner_of(accounts: CastNftVote) -> Result<Pubkey, CastNftVoteError> {
    let record = accounts.voter_token_owner_record;
    if !may_sign_for(record, accounts.voter_authority) {
        Err(CastNftVoteError::Governance(GovernanceError::GoverningTokenOwnerOrDelegateMustSign))
    } else if record.governing_token_owner@
        != accounts.voter_weight_record.governing_token_owner@ {
        Err(CastNftVoteError::NftVoter(NftVoterError::InvalidTokenOwnerForVoterWeightRecord))
    } else {
        Ok(record.governing_token_owner)
    }
}

/// The checks made before any vote is counted, in order: the voter weight
/// record, the vote state, then the governing token owner.
pub open spec fn cast_accounts_check(accounts: CastNftVote, proposal: Pubkey, collection: Pubkey) -> Result<(), CastNftVoteError> {
    match voter_weight_record_check(accounts) {
        Err(e) => Err(CastNftVoteError::NftVoter(e)),
        Ok(_) => match voted_nfts_check(accounts, proposal, collection) {
            Err(e) => Err(CastNftVoteError::NftVoter(e)),
            Ok(_) => match governing_token_owner_of(accounts) {
                Err(e) => Err(e),
                Ok(_) => Ok(()),
            },
        },
    }
}

/// One NFT's vote on the vote bits: refused for index 0 and for an NFT that
/// has voted already, else its bit (index minus one) is set.
pub open spec fn vote_step(voted: Seq<u8>, nft: NftVote) -> Result<Seq<u8>, NftVoterError> {
    if nft.nft_index == 0 {
        Err(NftVoterError::ArithMeticError)
    } else if bit_at(voted, nft.nft_index - 1) {
        Err(NftVoterError::NftAlreadyVoted)
    } else {
        Ok(with_bit(voted, nft.nft_index - 1, true))
    }
}

/// The NFTs' votes taken in order, stopping at the first refusal (of the NFT's
/// resolution or of its vote): the vote bits afterwards and the total weight.
pub open spec fn tally(voted: Seq<u8>, nfts: Seq<Result<NftVote, NftVoterError>>) -> Result<
    (Seq<u8>, int),
    NftVoterError,
>
    decreases nfts.len(),
{
    if nfts.len() == 0 {
        Ok((voted, 0))
    } else {
        match tally(voted, nfts.drop_last()) {
            Err(e) => Err(e),
            Ok((bits, weight)) => match nfts.last() {
                Err(e) => Err(e),
                Ok(nft) => match vote_step(bits, nft) {
                    Err(e) => Err(e),
                    Ok(next) => Ok((next, weight + nft.weight)),
                },
            },
        }
    }
}

/// Along the tally, each vote that is reached keeps the running weight within
/// `u64` and points inside the vote bits (the inputs on which the vote does not
/// abort).
pub open spec fn tally_in_bounds(voted: Seq<u8>, nfts: Seq<Result<NftVote, NftVoterError>>) -> bool
    decreases nfts.len(),
{
    nfts.len() == 0 || (tally_in_bounds(voted, nfts.drop_last()) && match tally(
        voted,
        nfts.drop_last(),
    ) {
        Ok((bits, weight)) => match nfts.last() {
            Ok(nft) => weight + nft.weight <= u64::MAX && (nft.nft_index >= 1 ==> nft.nft_index
                - 1 < bit_len(bits)),
            Err(_) => true,
        },
        Err(_) => true,
    })
}

/// Whether the record already holds a weight for casting a vote on `proposal`,
/// to which a new weight adds up.
pub open spec fn accumulates(record: VoterWeightRecord, proposal: Pubkey) -> bool {
    &&& record.weight_action_target matches Some(target) && target@ == proposal@
    &&& record.weight_action == Some(VoterWeightAction::CastVote)
}

/// The record after a vote with `weight` on `proposal` at `slot`: the weight adds
/// to the one already held for that proposal, or replaces it; it is valid for
/// this slot, for casting a vote, on this proposal.
pub open spec fn record_updated(
    old_record: VoterWeightRecord,
    new_record: VoterWeightRecord,
    proposal: Pubkey,
    weight: int,
    slot: u64,
) -> bool {
    &&& new_record.voter_weight == (if accumulates(old_record, proposal) {
        old_record.voter_weight + weight
    } else {
        weight
    })
    &&& new_record.voter_weight_expiry == Some(slot)
    &&& new_record.weight_action == Some(VoterWeightAction::CastVote)
    &&& new_record.weight_action_target matches Some(target) && target@ == proposal@
    &&& new_record.realm == old_record.realm
    &&& new_record.governing_token_mint == old_record.governing_token_mint
    &&& new_record.governing_token_owner == old_record.governing_token_owner
}

/// Records one NFT's vote in the vote state and returns the running weight with
/// the NFT's weight added. A refused vote leaves the vote state as it was.
pub fn record_nft_vote(voted_nfts: &mut VotedNfts, voter_weight: u64, nft: &NftVote) -> (res: Result<u64, NftVoterError>)
    requires
        viewable(old(voted_nfts).voted@),
        voter_weight + nft.weight <= u64::MAX,
        nft.nft_index >= 1 ==> nft.nft_index - 1 < bit_len(old(voted_nfts).voted@),
    ensures
        final(voted_nfts).proposal == old(voted_nfts).proposal,
        final(voted_nfts).collection == old(voted_nfts).collection,
        match vote_step(old(voted_nfts).voted@, *nft) {
            Ok(bits) => res == Ok::<u64, NftVoterError>((voter_weight + nft.weight) as u64)
                && final(voted_nfts).voted@ == bits,
            Err(e) => res == Err::<u64, NftVoterError>(e) && final(voted_nfts).voted@ == old(
                voted_nfts,
            ).voted@,
        },
{
    let weight = voter_weight + nft.weight;
    if nft.nft_index == 0 {
        return Err(NftVoterError::ArithMeticError);
    }
    let voter_index = (nft.nft_index - 1) as usize;
    if get_bit(&voted_nfts.voted, voter_index) {
        return Err(NftVoterError::NftAlreadyVoted);
    }
    set_bit(&mut voted_nfts.voted, voter_index, true);
    Ok(weight)
}

/// Whether the record holds a weight for casting a vote on `proposal`.
fn accumulates_on(record: &VoterWeightRecord, proposal: &Pubkey) -> (acc: bool)
    ensures
        acc == accumulates(*record, *proposal),
{
    let same_target = match &record.weight_action_target {
        Some(target) => target.same_as(proposal),
        None => false,
    };
    let casting = match record.weight_action {
        Some(VoterWeightAction::CastVote) => true,
        _ => false,
    };
    same_target && casting
}

/// Stores the weight of a vote on `proposal` cast at `slot`: it adds to the
/// weight already held for casting a vote on that proposal, and replaces any
/// other; the record then holds it for casting a vote on `proposal`, valid for
/// `slot` only.
pub fn update_voter_weight_record(record: &mut VoterWeightRecord, proposal: Pubkey, voter_weight: u64, slot: u64)
    requires
        accumulates(*old(record), proposal) ==> old(record).voter_weight + voter_weight <= u64::MAX,
    ensures
        record_updated(*old(record), *final(record), proposal, voter_weight as int, slot),
{
    if accumulates_on(record, &proposal) {
        record.voter_weight = record.voter_weight + voter_weight;
    } else {
        record.voter_weight = voter_weight;
    }
    record.voter_weight_expiry = Some(slot);
    record.weight_action = Some(VoterWeightAction::CastVote);
    record.weight_action_target = Some(proposal);
}

/// The tally keeps the number of vote bytes.
proof fn lemma_tally_len(voted: Seq<u8>, nfts: Seq<Result<NftVote, NftVoterError>>)
    requires
        tally_in_bounds(voted, nfts),
    ensures
        tally(voted, nfts) matches Ok((bits, weight)) ==> bits.len() == voted.len() && weight >= 0,
    decreases nfts.len(),
{
    if nfts.len() > 0 {
        lemma_tally_len(voted, nfts.drop_last());
        if let Ok((bits, weight)) = tally(voted, nfts.drop_last()) {
            if let Ok(nft) = nfts.last() {
                if nft.nft_index != 0 {
                    lemma_with_bit(bits, nft.nft_index - 1, true);
                }
            }
        }
    }
}

impl CastNftVote {
    /// The voter weight record must belong to the registrar's realm and
    /// governing token mint.
    pub fn check_voter_weight_record(&self) -> (res: Result<(), NftVoterError>)
        ensures
            res == voter_weight_record_check(*self),
    {
        if !self.voter_weight_record.realm.same_as(&self.registrar_realm) {
            return Err(NftVoterError::InvalidVoterWeightRecordRealm);
        }
        if !self.voter_weight_record.governing_token_mint.same_as(
            &self.registrar_governing_token_mint,
        ) {
            return Err(NftVoterError::InvalidVoterWeightRecordMint);
        }
        Ok(())
    }

    /// The vote state must be the one of `proposal` and `collection`.
    pub fn check_voted_nfts(&self, proposal: &Pubkey, collection: &Pubkey) -> (res: Result<(), NftVoterError>)
        ensures
            res == voted_nfts_check(*self, *proposal, *collection),
    {
        if !self.voted_nfts.proposal.same_as(proposal) {
            return Err(NftVoterError::InvalidVotedNftsProposal);
        }
        if !self.voted_nfts.collection.same_as(collection) {
            return Err(NftVoterError::InvalidVotedNftsCollection);
        }
        Ok(())
    }

    /// The governing token owner whose NFTs vote, where the voter authority is
    /// the owner or its delegate and the voter weight record is the owner's.
    pub fn resolve_governing_token_owner(&self) -> (res: Result<Pubkey, CastNftVoteError>)
        ensures
            res == governing_token_owner_of(*self),
    {
        let record = &self.voter_token_owner_record;
        let is_owner = self.voter_authority.same_as(&record.governing_token_owner);
        let is_delegate = match &record.governance_delegate {
            Some(delegate) => delegate.same_as(&self.voter_authority),
            None => false,
        };
        if !(is_owner || is_delegate) {
            return Err(
                CastNftVoteError::Governance(GovernanceError::GoverningTokenOwnerOrDelegateMustSign),
            );
        }
        if !record.governing_token_owner.same_as(&self.voter_weight_record.governing_token_owner) {
            return Err(CastNftVoteError::NftVoter(NftVoterError::InvalidTokenOwnerForVoterWeightRecord));
        }
        Ok(record.governing_token_owner)
    }

    /// Runs the checks made before any vote is counted (see
    /// `cast_accounts_check`).
    pub fn check_accounts(&self, proposal: &Pubkey, collection: &Pubkey) -> (res: Result<(), CastNftVoteError>)
        ensures
            res == cast_accounts_check(*self, *proposal, *collection),
    {
        match self.check_voter_weight_record() {
            Err(e) => {
                return Err(CastNftVoteError::NftVoter(e));
            },
            Ok(_) => {},
        }
        match self.check_voted_nfts(proposal, collection) {
            Err(e) => {
                return Err(CastNftVoteError::NftVoter(e));
            },
            Ok(_) => {},
        }
        match self.resolve_governing_token_owner() {
            Err(e) => Err(e),
            Ok(_) => Ok(()),
        }
    }
}

/// Whether `cast_nft_vote` can run on these inputs without aborting: the vote
/// bytes are within what the bit view takes, the running weight stays within
/// `u64` and every NFT that is reached points inside the vote bits, and the
/// record's total weight stays within `u64`.
pub open spec fn cast_in_bounds(accounts: CastNftVote, proposal: Pubkey, nfts: Seq<Result<NftVote, NftVoterError>>) -> bool {
    &&& viewable(accounts.voted_nfts.voted@)
    &&& tally_in_bounds(accounts.voted_nfts.voted@, nfts)
    &&& (tally(accounts.voted_nfts.voted@, nfts) matches Ok((_, weight)) ==> (accumulates(
        accounts.voter_weight_record,
        proposal,
    ) ==> accounts.voter_weight_record.voter_weight + weight <= u64::MAX))
}

/// Tells whether casting the votes of `nfts` on `proposal` runs without
/// aborting (see `cast_in_bounds`); where it does not, the vote aborts.
pub fn cast_nft_vote_in_bounds(accounts: &CastNftVote, proposal: &Pubkey, nfts: &Vec<Result<NftVote, NftVoterError>>) -> (ok: bool)
    ensures
        ok == cast_in_bounds(*accounts, *proposal, nfts@),
{
    let ghost original = accounts.voted_nfts.voted@;
    if accounts.voted_nfts.voted.len() > usize::MAX / 64 {
        return false;
    }
    let capacity = accounts.voted_nfts.voted.len() * 8;
    let mut votes = VotedNfts {
        proposal: accounts.voted_nfts.proposal,
        collection: accounts.voted_nfts.collection,
        voted: accounts.voted_nfts.voted.clone(),
    };
    assert(votes.voted@ =~= original);
    let mut voter_weight: u64 = 0;
    let mut i: usize = 0;
    while i < nfts.len()
        invariant
            0 <= i <= nfts@.len(),
            original == accounts.voted_nfts.voted@,
            viewable(original),
            capacity == bit_len(original),
            tally_in_bounds(original, nfts@.take(i as int)),
            tally(original, nfts@.take(i as int)) == Ok::<(Seq<u8>, int), NftVoterError>(
                (votes.voted@, voter_weight as int),
            ),
        decreases nfts@.len() - i,
    {
        let ghost prefix = nfts@.take(i as int);
        let ghost next = nfts@.take(i + 1);
        assert(next.drop_last() =~= prefix);
        assert(next.last() == nfts@[i as int]);
        proof {
            lemma_tally_len(original, prefix);
        }
        match &nfts[i] {
            Err(_) => {
                proof {
                    lemma_in_bounds_after_err(original, nfts@, i + 1);
                    lemma_tally_err_extends(original, nfts@, i + 1);
                }
                return true;
            },
            Ok(nft) => {
                let within = match voter_weight.checked_add(nft.weight) {
                    Some(_) => nft.nft_index == 0 || nft.nft_index - 1 < capacity as u64,
                    None => false,
                };
                if !within {
                    proof {
                        if tally_in_bounds(original, nfts@) {
                            lemma_tally_in_bounds_prefix(original, nfts@, i + 1);
                        }
                    }
                    return false;
                }
                match record_nft_vote(&mut votes, voter_weight, nft) {
                    Err(_) => {
                        proof {
                            lemma_in_bounds_after_err(original, nfts@, i + 1);
                            lemma_tally_err_extends(original, nfts@, i + 1);
                        }
                        return true;
                    },
                    Ok(weight) => {
                        voter_weight = weight;
                    },
                }
            },
        }
        i = i + 1;
    }
    assert(nfts@.take(i as int) =~= nfts@);
    if accumulates_on(&accounts.voter_weight_record, proposal) {
        accounts.voter_weight_record.voter_weight.checked_add(voter_weight).is_some()
    } else {
        true
    }
}

/// Counts the votes of the resolved NFTs on `proposal` at `slot` (see `tally`
/// and `record_updated`); on the first refusal nothing changes.
fn count_votes(
    accounts: &mut CastNftVote,
    proposal: Pubkey,
    nfts: &Vec<Result<NftVote, NftVoterError>>,
    slot: u64,
) -> (res: Result<(), NftVoterError>)
    requires
        cast_in_bounds(*old(accounts), proposal, nfts@),
    ensures
        match tally(old(accounts).voted_nfts.voted@, nfts@) {
            Ok((bits, weight)) => {
                &&& res is Ok
                &&& votes_counted(*old(accounts), *final(accounts), proposal, bits, weight, slot)
            },
            Err(e) => {
                &&& res == Err::<(), NftVoterError>(e)
                &&& *final(accounts) == *old(accounts)
            },
        },
{
    let ghost original = accounts.voted_nfts.voted@;
    let mut votes = VotedNfts {
        proposal: accounts.voted_nfts.proposal,
        collection: accounts.voted_nfts.collection,
        voted: accounts.voted_nfts.voted.clone(),
    };
    assert(votes.voted@ =~= original);
    let mut voter_weight: u64 = 0;
    let mut i: usize = 0;
    while i < nfts.len()
        invariant
            0 <= i <= nfts@.len(),
            *accounts == *old(accounts),
            original == old(accounts).voted_nfts.voted@,
            viewable(original),
            tally_in_bounds(original, nfts@),
            tally_in_bounds(original, nfts@.take(i as int)),
            tally(original, nfts@.take(i as int)) == Ok::<(Seq<u8>, int), NftVoterError>(
                (votes.voted@, voter_weight as int),
            ),
        decreases nfts@.len() - i,
    {
        let ghost prefix = nfts@.take(i as int);
        let ghost next = nfts@.take(i + 1);
        assert(next.drop_last() =~= prefix);
        assert(next.last() == nfts@[i as int]);
        proof {
            lemma_tally_in_bounds_prefix(original, nfts@, i + 1);
            lemma_tally_len(original, prefix);
        }
        match &nfts[i] {
            Err(e) => {
                proof {
                    lemma_tally_err_extends(original, nfts@, i + 1);
                }
                return Err(*e);
            },
            Ok(nft) => {
                match record_nft_vote(&mut votes, voter_weight, nft) {
                    Err(e) => {
                        proof {
                            lemma_tally_err_extends(original, nfts@, i + 1);
                        }
                        return Err(e);
                    },
                    Ok(weight) => {
                        voter_weight = weight;
                    },
                }
            },
        }
        i = i + 1;
    }
    assert(nfts@.take(i as int) =~= nfts@);
    update_voter_weight_record(&mut accounts.voter_weight_record, proposal, voter_weight, slot);
    accounts.voted_nfts.voted = votes.voted;
    Ok(())
}

/// The accounts after the votes were counted: the vote bits are `bits`, the
/// record holds `weight` for `proposal` at `slot`, and nothing else changed.
pub open spec fn votes_counted(
    before: CastNftVote,
    after: CastNftVote,
    proposal: Pubkey,
    bits: Seq<u8>,
    weight: int,
    slot: u64,
) -> bool {
    &&& after.voted_nfts.voted@ == bits
    &&& after.voted_nfts.proposal == before.voted_nfts.proposal
    &&& after.voted_nfts.collection == before.voted_nfts.collection
    &&& record_updated(before.voter_weight_record, after.voter_weight_record, proposal, weight, slot)
    &&& after.registrar_realm == before.registrar_realm
    &&& after.registrar_governing_token_mint == before.registrar_governing_token_mint
    &&& after.voter_token_owner_record == before.voter_token_owner_record
    &&& after.voter_authority == before.voter_authority
}

/// Casts the votes of the resolved NFTs on `proposal` for the vote state of
/// `collection`, at `slot`. The checks of `cast_accounts_check` come first;
/// then each NFT's bit is set in the vote state and the NFTs' weights add up
/// into the voter weight record (see `tally` and `record_updated`). The first
/// refusal, of a check, of an NFT's resolution or of its vote, is returned,
/// and then nothing changes.
pub fn cast_nft_vote(
    accounts: &mut CastNftVote,
    proposal: Pubkey,
    collection: Pubkey,
    nfts: &Vec<Result<NftVote, NftVoterError>>,
    slot: u64,
) -> (res: Result<(), CastNftVoteError>)
    requires
        cast_accounts_check(*old(accounts), proposal, collection) is Ok ==> cast_in_bounds(
            *old(accounts),
            proposal,
            nfts@,
        ),
    ensures
        match cast_accounts_check(*old(accounts), proposal, collection) {
            Err(e) => res == Err::<(), CastNftVoteError>(e) && *final(accounts) == *old(accounts),
            Ok(_) => match tally(old(accounts).voted_nfts.voted@, nfts@) {
                Ok((bits, weight)) => {
                    &&& res is Ok
                    &&& votes_counted(*old(accounts), *final(accounts), proposal, bits, weight, slot)
                },
                Err(e) => {
                    &&& res == Err::<(), CastNftVoteError>(CastNftVoteError::NftVoter(e))
                    &&& *final(accounts) == *old(accounts)
                },
            },
        },
{
    match accounts.check_accounts(&proposal, &collection) {
        Err(e) => {
            return Err(e);
        },
        Ok(_) => {},
    }
    match count_votes(accounts, proposal, nfts, slot) {
        Err(e) => Err(CastNftVoteError::NftVoter(e)),
        Ok(_) => Ok(()),
    }
}

/// Once a prefix of the NFTs is refused, the whole tally is refused with the
/// same error.
proof fn lemma_tally_err_extends(voted: Seq<u8>, nfts: Seq<Result<NftVote, NftVoterError>>, n: int)
    requires
        0 <= n <= nfts.len(),
        tally(voted, nfts.take(n)) is Err,
    ensures
        tally(voted, nfts) == tally(voted, nfts.take(n)),
    decreases nfts.len() - n,
{
    if n < nfts.len() {
        assert(nfts.drop_last().take(n) =~= nfts.take(n));
        lemma_tally_err_extends(voted, nfts.drop_last(), n);
    } else {
        assert(nfts.take(n) =~= nfts);
    }
}

/// The bit that an NFT's resolution points at (index minus one), or -1 for a
/// refused resolution.
pub open spec fn bit_of(nft: Result<NftVote, NftVoterError>) -> int {
    match nft {
        Ok(vote) => vote.nft_index - 1,
        Err(_) => -1,
    }
}

/// The sum of the weights of the resolved NFTs.
pub open spec fn weight_sum(nfts: Seq<Result<NftVote, NftVoterError>>) -> int
    decreases nfts.len(),
{
    if nfts.len() == 0 {
        0
    } else {
        weight_sum(nfts.drop_last()) + match nfts.last() {
            Ok(vote) => vote.weight as int,
            Err(_) => 0,
        }
    }
}

/// What a successful tally did: every NFT of the batch was resolved and had its
/// own bit (so an index of at least one), clear before and set after; no two
/// NFTs of the batch share a bit; all other bits stay; the weights add up.
pub proof fn lemma_tally_ok(voted: Seq<u8>, nfts: Seq<Result<NftVote, NftVoterError>>)
    requires
        tally_in_bounds(voted, nfts),
    ensures
        tally(voted, nfts) matches Ok((bits, weight)) ==> {
            &&& bits.len() == voted.len()
            &&& weight == weight_sum(nfts)
            &&& forall|k: int|
                0 <= k < nfts.len() ==> {
                    &&& 0 <= #[trigger] bit_of(nfts[k]) < bit_len(voted)
                    &&& !bit_at(voted, bit_of(nfts[k]))
                    &&& bit_at(bits, bit_of(nfts[k]))
                }
            &&& forall|j: int, k: int|
                0 <= j < k < nfts.len() ==> #[trigger] bit_of(nfts[j]) != #[trigger] bit_of(
                    nfts[k],
                )
            &&& forall|i: int|
                0 <= i < bit_len(voted) && (forall|k: int|
                    0 <= k < nfts.len() ==> #[trigger] bit_of(nfts[k]) != i) ==> bit_at(bits, i)
                    == bit_at(voted, i)
        },
    decreases nfts.len(),
{
    if nfts.len() > 0 {
        let pre = nfts.drop_last();
        lemma_tally_ok(voted, pre);
        lemma_tally_len(voted, pre);
        if let Ok((b0, w0)) = tally(voted, pre) {
            if let Ok(nft) = nfts.last() {
                if let Ok(b1) = vote_step(b0, nft) {
                    let n = nfts.len() - 1;
                    let idx = nft.nft_index - 1;
                    lemma_with_bit(b0, idx, true);
                    assert(nfts[n] == nfts.last());
                    assert(b0.len() == voted.len());
                    assert(0 <= idx < bit_len(voted));
                    assert(tally(voted, nfts) == Ok::<(Seq<u8>, int), NftVoterError>((b1, w0 + nft.weight)));
                    assert forall|k: int| 0 <= k < n implies #[trigger] bit_of(nfts[k]) != idx by {
                        assert(pre[k] == nfts[k]);
                        assert(bit_at(b0, bit_of(pre[k])));
                    }
                    assert(bit_at(b0, idx) == bit_at(voted, idx)) by {
                        assert forall|k: int| 0 <= k < pre.len() implies #[trigger] bit_of(pre[k])
                            != idx by {
                            assert(pre[k] == nfts[k]);
                            assert(bit_of(nfts[k]) != idx);
                        }
                    }
                    assert forall|k: int| 0 <= k < nfts.len() implies {
                        &&& 0 <= #[trigger] bit_of(nfts[k]) < bit_len(voted)
                        &&& !bit_at(voted, bit_of(nfts[k]))
                        &&& bit_at(b1, bit_of(nfts[k]))
                    } by {
                        if k < n {
                            assert(pre[k] == nfts[k]);
                            assert(bit_at(b0, bit_of(pre[k])));
                            assert(bit_of(nfts[k]) != idx);
                        } else {
                            assert(bit_of(nfts[k]) == idx);
                        }
                    }
                    assert forall|j: int, k: int| 0 <= j < k < nfts.len() implies #[trigger] bit_of(
                        nfts[j],
                    ) != #[trigger] bit_of(nfts[k]) by {
                        assert(pre[j] == nfts[j]);
                        if k < n {
                            assert(pre[k] == nfts[k]);
                        }
                    }
                    assert forall|i: int|
                        0 <= i < bit_len(voted) && (forall|k: int|
                            0 <= k < nfts.len() ==> #[trigger] bit_of(nfts[k]) != i) implies bit_at(
                        b1,
                        i,
                    ) == bit_at(voted, i) by {
                        assert(bit_of(nfts[n]) != i);
                        assert forall|k: int| 0 <= k < pre.len() implies #[trigger] bit_of(pre[k])
                            != i by {
                            assert(pre[k] == nfts[k]);
                            assert(bit_of(nfts[k]) != i);
                        }
                    }
                    assert(b1.len() == voted.len());
                    assert(w0 + nft.weight == weight_sum(nfts));
                }
            }
        }
    } else {
        assert(tally(voted, nfts) == Ok::<(Seq<u8>, int), NftVoterError>((voted, 0)));
        assert(weight_sum(nfts) == 0);
    }
}

/// A successful tally sets exactly one more bit per NFT of the batch.
pub proof fn lemma_tally_counts_votes(voted: Seq<u8>, nfts: Seq<Result<NftVote, NftVoterError>>)
    requires
        tally_in_bounds(voted, nfts),
    ensures
        tally(voted, nfts) matches Ok((bits, _)) ==> count_set_bits(bits) == count_set_bits(voted)
            + nfts.len(),
    decreases nfts.len(),
{
    if nfts.len() > 0 {
        let pre = nfts.drop_last();
        lemma_tally_counts_votes(voted, pre);
        lemma_tally_len(voted, pre);
        if let Ok((b0, w0)) = tally(voted, pre) {
            if let Ok(nft) = nfts.last() {
                if let Ok(b1) = vote_step(b0, nft) {
                    lemma_count_after_set(b0, nft.nft_index - 1);
                }
            }
        }
    }
}

/// The vote bits after a sequence of vote casts on one vote state, each taking
/// the bits that the one before left; refused at the first refused cast.
pub open spec fn tally_batches(voted: Seq<u8>, batches: Seq<Seq<Result<NftVote, NftVoterError>>>) -> Result<Seq<u8>, NftVoterError>
    decreases batches.len(),
{
    if batches.len() == 0 {
        Ok(voted)
    } else {
        match tally_batches(voted, batches.drop_last()) {
            Err(e) => Err(e),
            Ok(bits) => match tally(bits, batches.last()) {
                Err(e) => Err(e),
                Ok((next, _)) => Ok(next),
            },
        }
    }
}

/// Each cast of the sequence that is reached runs without aborting.
pub open spec fn batches_in_bounds(voted: Seq<u8>, batches: Seq<Seq<Result<NftVote, NftVoterError>>>) -> bool
    decreases batches.len(),
{
    batches.len() == 0 || (batches_in_bounds(voted, batches.drop_last()) && (tally_batches(
        voted,
        batches.drop_last(),
    ) matches Ok(bits) ==> tally_in_bounds(bits, batches.last())))
}

/// The number of NFTs in a sequence of batches.
pub open spec fn nfts_in(batches: Seq<Seq<Result<NftVote, NftVoterError>>>) -> nat
    decreases batches.len(),
{
    if batches.len() == 0 {
        0
    } else {
        nfts_in(batches.drop_last()) + batches.last().len()
    }
}

/// Over a sequence of successful vote casts on one vote state, the set bits
/// grow by the number of NFTs counted in each cast: the set bits are the votes
/// counted so far.
pub proof fn lemma_votes_counted_over_casts(voted: Seq<u8>, batches: Seq<Seq<Result<NftVote, NftVoterError>>>)
    requires
        batches_in_bounds(voted, batches),
    ensures
        tally_batches(voted, batches) matches Ok(bits) ==> count_set_bits(bits) == count_set_bits(
            voted,
        ) + nfts_in(batches),
    decreases batches.len(),
{
    if batches.len() > 0 {
        lemma_votes_counted_over_casts(voted, batches.drop_last());
        if let Ok(bits) = tally_batches(voted, batches.drop_last()) {
            lemma_tally_counts_votes(bits, batches.last());
        }
    }
}

/// An NFT's vote depends on its own bit only: for an index that points inside
/// the vote bits, it is accepted exactly when the index is at least one and the
/// NFT's bit (index minus one) is clear, whatever the other bits hold; an
/// accepted vote sets that bit and changes no other, and a refusal for a set
/// bit is `NftAlreadyVoted`, for index zero `ArithMeticError`.
pub proof fn lemma_vote_reads_own_bit_only(voted: Seq<u8>, nft: NftVote)
    requires
        nft.nft_index >= 1 ==> nft.nft_index - 1 < bit_len(voted),
    ensures
        (vote_step(voted, nft) is Ok) == (nft.nft_index >= 1 && !bit_at(voted, nft.nft_index - 1)),
        nft.nft_index == 0 ==> vote_step(voted, nft) == Err::<Seq<u8>, NftVoterError>(
            NftVoterError::ArithMeticError,
        ),
        nft.nft_index >= 1 && bit_at(voted, nft.nft_index - 1) ==> vote_step(voted, nft) == Err::<
            Seq<u8>,
            NftVoterError,
        >(NftVoterError::NftAlreadyVoted),
        vote_step(voted, nft) matches Ok(after) ==> {
            &&& after.len() == voted.len()
            &&& forall|j: int|
                0 <= j < bit_len(voted) ==> #[trigger] bit_at(after, j) == (j == nft.nft_index - 1
                    || bit_at(voted, j))
        },
{
    if nft.nft_index >= 1 {
        lemma_with_bit(voted, nft.nft_index - 1, true);
    }
}

/// Two vote states that agree on an NFT's bit give its vote the same outcome:
/// the bits of other NFTs never decide it.
pub proof fn lemma_vote_outcome_independent_of_other_bits(v1: Seq<u8>, v2: Seq<u8>, nft: NftVote)
    requires
        nft.nft_index >= 1 ==> nft.nft_index - 1 < bit_len(v1) && nft.nft_index - 1 < bit_len(v2),
        nft.nft_index >= 1 ==> bit_at(v1, nft.nft_index - 1) == bit_at(v2, nft.nft_index - 1),
    ensures
        (vote_step(v1, nft) is Ok) == (vote_step(v2, nft) is Ok),
        vote_step(v1, nft) is Err ==> vote_step(v1, nft) == vote_step(v2, nft),
{
    lemma_vote_reads_own_bit_only(v1, nft);
    lemma_vote_reads_own_bit_only(v2, nft);
}

/// Whatever the record held, an update for a vote on `proposal` at `slot`
/// leaves it valid at `slot` only, for casting a vote, on `proposal`; the weight
/// adds to the old one exactly when the record already held a weight for
/// casting a vote on that same proposal, and replaces it otherwise; the realm,
/// mint and owner stay.
pub proof fn lemma_record_update(old_record: VoterWeightRecord, new_record: VoterWeightRecord, proposal: Pubkey, weight: int, slot: u64)
    requires
        record_updated(old_record, new_record, proposal, weight, slot),
    ensures
        new_record.voter_weight_expiry == Some(slot),
        new_record.weight_action == Some(VoterWeightAction::CastVote),
        new_record.weight_action_target is Some,
        new_record.weight_action_target.unwrap()@ == proposal@,
        (old_record.weight_action == Some(VoterWeightAction::CastVote)
            && old_record.weight_action_target is Some
            && old_record.weight_action_target.unwrap()@ == proposal@)
            ==> new_record.voter_weight == old_record.voter_weight + weight,
        !(old_record.weight_action == Some(VoterWeightAction::CastVote)
            && old_record.weight_action_target is Some
            && old_record.weight_action_target.unwrap()@ == proposal@)
            ==> new_record.voter_weight == weight,
        new_record.realm == old_record.realm,
        new_record.governing_token_mint == old_record.governing_token_mint,
        new_record.governing_token_owner == old_record.governing_token_owner,
{
}

/// The account checks pass exactly when the voter weight record is of the
/// registrar's realm and mint, the vote state is of the proposal and the
/// collection, the voter authority is the governing token owner or the delegate
/// it named, and the voter weight record is the owner's; each check is refused
/// with its own error, and the first check that fails, in that order (record,
/// vote state, owner), gives the error.
pub proof fn lemma_account_checks(accounts: CastNftVote, proposal: Pubkey, collection: Pubkey)
    ensures
        (cast_accounts_check(accounts, proposal, collection) is Ok) == ({
            &&& accounts.voter_weight_record.realm@ == accounts.registrar_realm@
            &&& accounts.voter_weight_record.governing_token_mint@
                == accounts.registrar_governing_token_mint@
            &&& accounts.voted_nfts.proposal@ == proposal@
            &&& accounts.voted_nfts.collection@ == collection@
            &&& (accounts.voter_authority@
                == accounts.voter_token_owner_record.governing_token_owner@ || (
            accounts.voter_token_owner_record.governance_delegate is Some
                && accounts.voter_token_owner_record.governance_delegate.unwrap()@
                == accounts.voter_authority@))
            &&& accounts.voter_weight_record.governing_token_owner@
                == accounts.voter_token_owner_record.governing_token_owner@
        }),
        (voter_weight_record_check(accounts) is Ok) == (accounts.voter_weight_record.realm@
            == accounts.registrar_realm@ && accounts.voter_weight_record.governing_token_mint@
            == accounts.registrar_governing_token_mint@),
        accounts.voter_weight_record.realm@ != accounts.registrar_realm@
            ==> voter_weight_record_check(accounts) == Err::<(), NftVoterError>(
            NftVoterError::InvalidVoterWeightRecordRealm,
        ),
        accounts.voter_weight_record.realm@ == accounts.registrar_realm@
            && accounts.voter_weight_record.governing_token_mint@
            != accounts.registrar_governing_token_mint@ ==> voter_weight_record_check(accounts)
            == Err::<(), NftVoterError>(NftVoterError::InvalidVoterWeightRecordMint),
        (voted_nfts_check(accounts, proposal, collection) is Ok) == (accounts.voted_nfts.proposal@
            == proposal@ && accounts.voted_nfts.collection@ == collection@),
        accounts.voted_nfts.proposal@ != proposal@ ==> voted_nfts_check(
            accounts,
            proposal,
            collection,
        ) == Err::<(), NftVoterError>(NftVoterError::InvalidVotedNftsProposal),
        accounts.voted_nfts.proposal@ == proposal@ && accounts.voted_nfts.collection@
            != collection@ ==> voted_nfts_check(accounts, proposal, collection) == Err::<
            (),
            NftVoterError,
        >(NftVoterError::InvalidVotedNftsCollection),
        voter_weight_record_check(accounts) matches Err(e) ==> cast_accounts_check(
            accounts,
            proposal,
            collection,
        ) == Err::<(), CastNftVoteError>(CastNftVoteError::NftVoter(e)),
        voter_weight_record_check(accounts) is Ok ==> (voted_nfts_check(
            accounts,
            proposal,
            collection,
        ) matches Err(e) ==> cast_accounts_check(accounts, proposal, collection) == Err::<
            (),
            CastNftVoteError,
        >(CastNftVoteError::NftVoter(e))),
        voter_weight_record_check(accounts) is Ok && voted_nfts_check(
            accounts,
            proposal,
            collection,
        ) is Ok ==> (governing_token_owner_of(accounts) matches Err(e) ==> cast_accounts_check(
            accounts,
            proposal,
            collection,
        ) == Err::<(), CastNftVoteError>(e)),
{
}

/// The governing token owner may always sign for himself, whether or not he
/// named a delegate, and a named delegate may sign in his place; in both cases
/// the owner (never the signer) is the one whose NFTs vote, provided the voter
/// weight record is his. Anyone else is refused.
pub proof fn lemma_owner_or_delegate_signs(accounts: CastNftVote)
    ensures
        accounts.voter_authority@ == accounts.voter_token_owner_record.governing_token_owner@
            && accounts.voter_weight_record.governing_token_owner@
            == accounts.voter_token_owner_record.governing_token_owner@
            ==> governing_token_owner_of(accounts) == Ok::<Pubkey, CastNftVoteError>(
            accounts.voter_token_owner_record.governing_token_owner,
        ),
        accounts.voter_token_owner_record.governance_delegate is Some
            && accounts.voter_token_owner_record.governance_delegate.unwrap()@
            == accounts.voter_authority@ && accounts.voter_weight_record.governing_token_owner@
            == accounts.voter_token_owner_record.governing_token_owner@
            ==> governing_token_owner_of(accounts) == Ok::<Pubkey, CastNftVoteError>(
            accounts.voter_token_owner_record.governing_token_owner,
        ),
        accounts.voter_authority@ != accounts.voter_token_owner_record.governing_token_owner@
            && !(accounts.voter_token_owner_record.governance_delegate is Some
            && accounts.voter_token_owner_record.governance_delegate.unwrap()@
            == accounts.voter_authority@) ==> governing_token_owner_of(accounts) == Err::<
            Pubkey,
            CastNftVoteError,
        >(CastNftVoteError::Governance(GovernanceError::GoverningTokenOwnerOrDelegateMustSign)),
        (accounts.voter_authority@ == accounts.voter_token_owner_record.governing_token_owner@
            || (accounts.voter_token_owner_record.governance_delegate is Some
            && accounts.voter_token_owner_record.governance_delegate.unwrap()@
            == accounts.voter_authority@))
            && accounts.voter_weight_record.governing_token_owner@
            != accounts.voter_token_owner_record.governing_token_owner@
            ==> governing_token_owner_of(accounts) == Err::<Pubkey, CastNftVoteError>(
            CastNftVoteError::NftVoter(NftVoterError::InvalidTokenOwnerForVoterWeightRecord),
        ),
{
}

/// An NFT that has voted cannot vote again: its second vote is refused.
pub proof fn lemma_no_double_vote(voted: Seq<u8>, first: NftVote, again: NftVote)
    requires
        again.nft_index == first.nft_index,
        first.nft_index >= 1 ==> first.nft_index - 1 < bit_len(voted),
        vote_step(voted, first) is Ok,
    ensures
        vote_step(vote_step(voted, first)->Ok_0, again) == Err::<Seq<u8>, NftVoterError>(
            NftVoterError::NftAlreadyVoted,
        ),
{
    lemma_with_bit(voted, first.nft_index - 1, true);
}

/// An NFT that voted in one instruction cannot vote in a later one on the same
/// vote state: the later batch is refused.
pub proof fn lemma_no_double_vote_across_batches(
    voted: Seq<u8>,
    first: Seq<Result<NftVote, NftVoterError>>,
    second: Seq<Result<NftVote, NftVoterError>>,
    j: int,
    k: int,
)
    requires
        tally_in_bounds(voted, first),
        tally(voted, first) is Ok,
        tally_in_bounds(tally(voted, first)->Ok_0.0, second),
        0 <= j < first.len(),
        0 <= k < second.len(),
        bit_of(second[k]) == bit_of(first[j]),
    ensures
        tally(tally(voted, first)->Ok_0.0, second) is Err,
{
    let bits = tally(voted, first)->Ok_0.0;
    lemma_tally_ok(voted, first);
    assert(bit_at(bits, bit_of(first[j])));
    lemma_tally_ok(bits, second);
    if tally(bits, second) is Ok {
        assert(!bit_at(bits, bit_of(second[k])));
    }
}

/// A vote never takes back an earlier one: every bit set before stays set, and
/// the NFT's own bit is set.
pub proof fn lemma_vote_keeps_votes(voted: Seq<u8>, nft: NftVote)
    requires
        nft.nft_index >= 1 ==> nft.nft_index - 1 < bit_len(voted),
        vote_step(voted, nft) is Ok,
    ensures
        vote_step(voted, nft)->Ok_0.len() == voted.len(),
        bit_at(vote_step(voted, nft)->Ok_0, nft.nft_index - 1),
        forall|i: int|
            0 <= i < bit_len(voted) && bit_at(voted, i) ==> bit_at(
                #[trigger] vote_step(voted, nft)->Ok_0,
                i,
            ),
{
    lemma_with_bit(voted, nft.nft_index - 1, true);
}

/// Votes cast on one proposal in several instructions add up: after a second
/// update for the same proposal the record holds the sum of both weights.
pub proof fn lemma_weights_accumulate(
    r0: VoterWeightRecord,
    r1: VoterWeightRecord,
    r2: VoterWeightRecord,
    proposal: Pubkey,
    first: int,
    second: int,
    slot1: u64,
    slot2: u64,
)
    requires
        record_updated(r0, r1, proposal, first, slot1),
        record_updated(r1, r2, proposal, second, slot2),
    ensures
        r2.voter_weight == r1.voter_weight + second,
        !accumulates(r0, proposal) ==> r2.voter_weight == first + second,
        r2.voter_weight_expiry == Some(slot2),
{
}

/// A vote on another proposal starts the weight afresh.
pub proof fn lemma_other_proposal_resets(
    r0: VoterWeightRecord,
    r1: VoterWeightRecord,
    proposal: Pubkey,
    weight: int,
    slot: u64,
)
    requires
        record_updated(r0, r1, proposal, weight, slot),
        !(r0.weight_action_target matches Some(target) && target@ == proposal@),
    ensures
        r1.voter_weight == weight,
{
}

/// Once a prefix of the NFTs is refused within bounds, the whole batch is within
/// bounds: nothing after the refusal is reached.
proof fn lemma_in_bounds_after_err(voted: Seq<u8>, nfts: Seq<Result<NftVote, NftVoterError>>, n: int)
    requires
        0 <= n <= nfts.len(),
        tally(voted, nfts.take(n)) is Err,
        tally_in_bounds(voted, nfts.take(n)),
    ensures
        tally_in_bounds(voted, nfts),
    decreases nfts.len() - n,
{
    if n < nfts.len() {
        assert(nfts.drop_last().take(n) =~= nfts.take(n));
        lemma_in_bounds_after_err(voted, nfts.drop_last(), n);
        lemma_tally_err_extends(voted, nfts.drop_last(), n);
    } else {
        assert(nfts.take(n) =~= nfts);
    }
}

/// The bound on a tally holds of each of its prefixes.
proof fn lemma_tally_in_bounds_prefix(voted: Seq<u8>, nfts: Seq<Result<NftVote, NftVoterError>>, n: int)
    requires
        0 <= n <= nfts.len(),
        tally_in_bounds(voted, nfts),
    ensures
        tally_in_bounds(voted, nfts.take(n)),
    decreases nfts.len() - n,
{
    if n < nfts.len() {
        assert(nfts.drop_last().len() == nfts.len() - 1);
        lemma_tally_in_bounds_prefix(voted, nfts.drop_last(), n);
        assert(nfts.drop_last().take(n) =~= nfts.take(n));
    } else {
        assert(nfts.take(n) =~= nfts);
    }
}

} // verus!
