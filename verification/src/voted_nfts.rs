use vstd::prelude::*;
use crate::error::NftVoterError;
use crate::pubkey::Pubkey;
use crate::voted_bits::{bit_at, bit_len};

verus! {

/// The votes cast with the NFTs of one collection on one proposal. `voted` is
/// read as a bit slice, least significant bit of each byte first: once the NFT
/// with index `n` (counted from 1) has voted, bit `n - 1` is set.
#[derive(Debug)]
pub struct VotedNfts {
    pub proposal: Pubkey,
    pub collection: Pubkey,
    pub voted: Vec<u8>,
}

/// The seed that starts every vote-state address.
pub open spec fn voted_nfts_seed_prefix() -> Seq<u8> {
    seq![118u8, 111u8, 116u8, 101u8, 100u8, 45u8, 110u8, 102u8, 116u8, 115u8]
}

/// The seeds of the vote-state address of a proposal and a collection.
pub open spec fn voted_nfts_seeds(proposal: Seq<u8>, collection: Seq<u8>) -> Seq<Seq<u8>> {
    seq![voted_nfts_seed_prefix(), proposal, collection]
}

/// The number of bytes that hold one bit for each NFT of a collection.
pub open spec fn vote_bytes_for(collection_size: u32) -> nat {
    ((collection_size as nat + 7) / 8) as nat
}

impl Default for VotedNfts {
    /// An empty vote state: zero addresses and no vote bytes.
    fn default() -> (d: VotedNfts)
        ensures
            d.proposal@ == Seq::new(32, |i: int| 0u8),
            d.collection@ == Seq::new(32, |i: int| 0u8),
            d.voted@.len() == 0,
    {
        let d = VotedNfts {
            proposal: Pubkey::new_from_array([0u8; 32]),
            collection: Pubkey::new_from_array([0u8; 32]),
            voted: Vec::new(),
        };
        assert(d.proposal@ =~= Seq::new(32, |i: int| 0u8));
        assert(d.collection@ =~= Seq::new(32, |i: int| 0u8));
        d
    }
}

/// The bytes of the seed prefix, as a slice that lives for the whole program.
const VOTED_NFTS_SEED_PREFIX: [u8; 10] = [118u8, 111u8, 116u8, 101u8, 100u8, 45u8, 110u8, 102u8, 116u8, 115u8];

/// The seeds of the vote-state address: `"voted-nfts"`, the proposal and the
/// collection.
pub fn get_voted_nfts_seed<'a>(proposal: &'a Pubkey, collection: &'a Pubkey) -> (seeds: [&'a [u8]; 3])
    ensures
        seeds@.len() == 3,
        seeds@[0]@ == voted_nfts_seed_prefix(),
        seeds@[1]@ == proposal@,
        seeds@[2]@ == collection@,
        seeds@.map_values(|s: &[u8]| s@) == voted_nfts_seeds(proposal@, collection@),
{
    let seeds: [&'a [u8]; 3] = [VOTED_NFTS_SEED_PREFIX.as_slice(), proposal.bytes.as_slice(), collection.bytes.as_slice()];
    assert(seeds@[0]@ =~= voted_nfts_seed_prefix());
    assert(seeds@.map_values(|s: &[u8]| s@) =~= voted_nfts_seeds(proposal@, collection@));
    seeds
}

/// The vote-state seeds are, in this order, the ASCII bytes of `voted-nfts`,
/// the proposal's bytes as they stand and the collection's bytes as they
/// stand; so two vote states share their seeds exactly when they are of the
/// same proposal and the same collection.
pub proof fn lemma_voted_nfts_seeds(proposal: Seq<u8>, collection: Seq<u8>, p2: Seq<u8>, c2: Seq<u8>)
    ensures
        voted_nfts_seeds(proposal, collection).len() == 3,
        voted_nfts_seeds(proposal, collection)[0].len() == 10,
        forall|i: int|
            0 <= i < 10 ==> #[trigger] voted_nfts_seeds(proposal, collection)[0][i] as char
                == "voted-nfts"@[i],
        forall|i: int|
            0 <= i < proposal.len() ==> #[trigger] voted_nfts_seeds(proposal, collection)[1][i]
                == proposal[i],
        voted_nfts_seeds(proposal, collection)[1].len() == proposal.len(),
        forall|i: int|
            0 <= i < collection.len() ==> #[trigger] voted_nfts_seeds(proposal, collection)[2][i]
                == collection[i],
        voted_nfts_seeds(proposal, collection)[2].len() == collection.len(),
        (voted_nfts_seeds(proposal, collection) == voted_nfts_seeds(p2, c2)) == (proposal == p2
            && collection == c2),
{
    reveal_strlit("voted-nfts");
    if voted_nfts_seeds(proposal, collection) == voted_nfts_seeds(p2, c2) {
        assert(voted_nfts_seeds(proposal, collection)[1] == voted_nfts_seeds(p2, c2)[1]);
        assert(voted_nfts_seeds(proposal, collection)[2] == voted_nfts_seeds(p2, c2)[2]);
    }
}

/// The vote-state address is the program address of exactly the seeds that
/// `get_voted_nfts_seed` hands out: the prefix, the proposal's bytes in order,
/// the collection's bytes in order.
pub proof fn lemma_address_of_seeds(proposal: Pubkey, collection: Pubkey, program_id: Pubkey)
    ensures
        program_address(voted_nfts_seeds(proposal@, collection@), program_id@) == program_address(
            seq![voted_nfts_seed_prefix(), proposal.bytes@, collection.bytes@],
            program_id@,
        ),
{
    assert(voted_nfts_seeds(proposal@, collection@) =~= seq![voted_nfts_seed_prefix(), proposal.bytes@, collection.bytes@]);
}

/// What `Address::try_find_program_address` of `solana-address` (anchor's
/// `Pubkey`) returns for the given seeds and program id: the program-derived
/// address and its bump seed, or nothing where no bump seed gives an address off
/// the curve or the seeds break its limits.
pub uninterp spec fn program_address(seeds: Seq<Seq<u8>>, program_id: Seq<u8>) -> Option<(Seq<u8>, u8)>;

/// Calls `Pubkey::try_find_program_address` (anchor's `Pubkey`, which is
/// `solana_address::Address`). The contract claims only that the result is the
/// one named `program_address` for these seeds and this program id, byte for
/// byte; it says nothing of how that address is computed.
#[verifier::external_body]
fn try_find_program_address(seeds: &[&[u8]], program_id: &Pubkey) -> (found: Option<(Pubkey, u8)>)
    ensures
        match found {
            Some((address, bump)) => program_address(
                seeds@.map_values(|s: &[u8]| s@),
                program_id@,
            ) == Some((address@, bump)),
            None => program_address(seeds@.map_values(|s: &[u8]| s@), program_id@) is None,
        },
{
    let id = anchor_lang::prelude::Pubkey::new_from_array(program_id.bytes);
    match anchor_lang::prelude::Pubkey::try_find_program_address(seeds, &id) {
        Some((address, bump)) => Some((Pubkey { bytes: address.to_bytes() }, bump)),
        None => None,
    }
}

/// The vote-state address of a proposal and a collection under the program
/// `program_id`, where the address search succeeds.
pub fn get_voted_nfts_address(proposal: &Pubkey, collection: &Pubkey, program_id: &Pubkey) -> (address: Pubkey)
    requires
        program_address(voted_nfts_seeds(proposal@, collection@), program_id@) is Some,
    ensures
        address@ == program_address(voted_nfts_seeds(proposal@, collection@), program_id@).unwrap().0,
{
    let seeds = get_voted_nfts_seed(proposal, collection);
    assert(seeds@.map_values(|s: &[u8]| s@) =~= voted_nfts_seeds(proposal@, collection@));
    match try_find_program_address(seeds.as_slice(), program_id) {
        Some((address, _bump)) => address,
        None => {
            assert(false);
            Pubkey::new_from_array([0u8; 32])
        },
    }
}

/// The vote-state address of a proposal and a collection under the program
/// `program_id`, or `None` where the address search finds no bump seed.
pub fn try_get_voted_nfts_address(proposal: &Pubkey, collection: &Pubkey, program_id: &Pubkey) -> (address: Option<Pubkey>)
    ensures
        match program_address(voted_nfts_seeds(proposal@, collection@), program_id@) {
            Some((found, _bump)) => address matches Some(a) && a@ == found,
            None => address is None,
        },
{
    let seeds = get_voted_nfts_seed(proposal, collection);
    assert(seeds@.map_values(|s: &[u8]| s@) =~= voted_nfts_seeds(proposal@, collection@));
    match try_find_program_address(seeds.as_slice(), program_id) {
        Some(_) => Some(get_voted_nfts_address(proposal, collection, program_id)),
        None => None,
    }
}

/// The account space of a vote state for a collection of `collection_size`
/// NFTs: discriminator, two addresses, the vector's length and one bit per NFT.
pub fn voted_nfts_space(collection_size: u32) -> (space: usize)
    ensures
        space == 8 + 32 + 32 + 4 + vote_bytes_for(collection_size),
{
    let bytes = ((collection_size as u64 + 7) / 8) as usize;
    8 + 32 + 32 + 4 + bytes
}

/// A fresh vote state holds one clear bit for each NFT of the collection (and
/// fewer than eight bits more); for a collection of at least one NFT it holds
/// vote bytes, so that setting it up again is refused.
pub proof fn lemma_fresh_vote_state(collection_size: u32)
    ensures
        ({
            let fresh = Seq::new(vote_bytes_for(collection_size), |i: int| 0u8);
            &&& collection_size <= bit_len(fresh) < collection_size + 8
            &&& forall|i: int| 0 <= i < bit_len(fresh) ==> !#[trigger] bit_at(fresh, i)
            &&& collection_size >= 1 ==> fresh.len() != 0
        }),
{
    let fresh = Seq::new(vote_bytes_for(collection_size), |i: int| 0u8);
    assert forall|i: int| 0 <= i < bit_len(fresh) implies !#[trigger] bit_at(fresh, i) by {
        let p = (i % 8) as u8;
        assert((0u8 >> p) & 1u8 == 0u8) by (bit_vector);
    }
}

/// Sets up the vote state of a proposal and a collection: one cleared bit for
/// each NFT of the collection. A vote state that already holds vote bytes is
/// refused, and stays as it was.
pub fn create_vote_state_for_proposal(
    voted_nfts: &mut VotedNfts,
    proposal: Pubkey,
    collection: Pubkey,
    collection_size: u32,
) -> (res: Result<(), NftVoterError>)
    ensures
        old(voted_nfts).voted@.len() != 0 ==> res == Err::<(), NftVoterError>(
            NftVoterError::VoteStateAlreadyInitialized,
        ) && final(voted_nfts).voted@ == old(voted_nfts).voted@ && final(voted_nfts).proposal@
            == old(voted_nfts).proposal@ && final(voted_nfts).collection@ == old(
            voted_nfts,
        ).collection@,
        old(voted_nfts).voted@.len() == 0 ==> res is Ok && final(voted_nfts).voted@ == Seq::new(
            vote_bytes_for(collection_size),
            |i: int| 0u8,
        ) && final(voted_nfts).proposal@ == proposal@ && final(voted_nfts).collection@
            == collection@,
{
    if voted_nfts.voted.len() != 0 {
        return Err(NftVoterError::VoteStateAlreadyInitialized);
    }
    let bytes = ((collection_size as u64 + 7) / 8) as usize;
    let voted = vec![0u8; bytes];
    assert(voted@ =~= Seq::new(vote_bytes_for(collection_size), |i: int| 0u8));
    voted_nfts.voted = voted;
    voted_nfts.collection = collection;
    voted_nfts.proposal = proposal;
    Ok(())
}

} // verus!
