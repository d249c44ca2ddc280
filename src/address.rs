use vstd::prelude::*;
use crate::error::RegistryError;

verus! {

/// The seed that places every record of this registry in its own part of the
/// address space.
pub const NAMESPACE: [u8; 4] = [109u8, 101u8, 109u8, 101u8];

/// The namespace seed as a sequence (the bytes of "meme").
pub open spec fn namespace_seed() -> Seq<u8> {
    seq![109u8, 101u8, 109u8, 101u8]
}

/// What the ledger's program-address rule gives for the seeds
/// `[namespace, fingerprint, [bump]]` under `program_id`: the address, or
/// `None` where the hash of the seeds is a signature-key (curve) point.
pub uninterp spec fn program_address(
    namespace: Seq<u8>,
    fingerprint: Seq<u8>,
    bump: u8,
    program_id: Seq<u8>,
) -> Option<Seq<u8>>;

/// Relies on `Pubkey::create_program_address` (solana-program, re-exported by
/// anchor-lang): with at most 16 seeds of at most 32 bytes each, it returns
/// the hash of the seeds, the program id and a fixed marker when that hash is
/// not a curve point, and an error otherwise; the outcome depends on the
/// arguments alone.
#[verifier::external_body]
fn create_program_address(
    namespace: &[u8; 4],
    fingerprint: &[u8; 32],
    bump: u8,
    program_id: &[u8; 32],
) -> (r: Option<[u8; 32]>)
    ensures
        match r {
            Some(a) => program_address(namespace@, fingerprint@, bump, program_id@) == Some(a@),
            None => program_address(namespace@, fingerprint@, bump, program_id@) is None,
        },
{
    let program = anchor_lang::prelude::Pubkey::new_from_array(*program_id);
    let seeds: [&[u8]; 3] = [namespace, fingerprint, &[bump]];
    anchor_lang::prelude::Pubkey::create_program_address(&seeds, &program).ok().map(|k| k.to_bytes())
}

/// The first bump, counting down from `bump` to zero, whose program address
/// is valid, together with that address.
pub open spec fn search_from(fingerprint: Seq<u8>, program_id: Seq<u8>, bump: int) -> Option<(Seq<u8>, u8)>
    decreases bump + 1,
{
    if bump < 0 || bump > 255 {
        None
    } else {
        match program_address(namespace_seed(), fingerprint, bump as u8, program_id) {
            Some(a) => Some((a, bump as u8)),
            None => search_from(fingerprint, program_id, bump - 1),
        }
    }
}

/// The canonical (address, bump) of a fingerprint: the highest bump that
/// gives a valid program address.
pub open spec fn derivation(fingerprint: Seq<u8>, program_id: Seq<u8>) -> Option<(Seq<u8>, u8)> {
    search_from(fingerprint, program_id, 255)
}

} // verus!

verus! {

/// What `derive_address` returns for a fingerprint under a program id.
pub open spec fn derive_outcome(fingerprint: Seq<u8>, program_id: Seq<u8>, r: Result<([u8; 32], u8), RegistryError>) -> bool {
    match derivation(fingerprint, program_id) {
        Some((a, b)) => r matches Ok((ra, rb)) && ra@ == a && rb == b,
        None => r == Err::<([u8; 32], u8), RegistryError>(RegistryError::AddressDerivationExhausted),
    }
}

/// Derives the record address of `fingerprint` under `program_id`: tries the
/// bumps from 255 down to 0 and returns the first valid address with its bump.
pub fn derive_address(program_id: &[u8; 32], fingerprint: &[u8; 32]) -> (r: Result<([u8; 32], u8), RegistryError>)
    ensures
        derive_outcome(fingerprint@, program_id@, r),
{
    assert(NAMESPACE@ =~= namespace_seed());
    let mut next: u16 = 256;
    while next > 0
        invariant
            next <= 256,
            NAMESPACE@ == namespace_seed(),
            derivation(fingerprint@, program_id@) == search_from(fingerprint@, program_id@, next - 1),
        decreases next,
    {
        let bump: u8 = (next - 1) as u8;
        match create_program_address(&NAMESPACE, fingerprint, bump, program_id) {
            Some(a) => {
                return Ok((a, bump));
            },
            None => {},
        }
        next = next - 1;
    }
    Err(RegistryError::AddressDerivationExhausted)
}

/// The search from `bump` downward finds the highest valid bump at or below
/// `bump`, and the address that bump gives.
proof fn lemma_search_from(fingerprint: Seq<u8>, program_id: Seq<u8>, bump: int)
    requires
        -1 <= bump <= 255,
    ensures
        match search_from(fingerprint, program_id, bump) {
            Some((a, b)) => {
                &&& b <= bump
                &&& program_address(namespace_seed(), fingerprint, b, program_id) == Some(a)
                &&& forall|c: u8| b < c <= bump ==> (#[trigger] program_address(namespace_seed(), fingerprint, c, program_id)) is None
            },
            None => forall|c: u8| c <= bump ==> (#[trigger] program_address(namespace_seed(), fingerprint, c, program_id)) is None,
        },
    decreases bump + 1,
{
    if bump >= 0 {
        lemma_search_from(fingerprint, program_id, bump - 1);
    }
}

/// Derivation is a pure function of the fingerprint and the program id: two
/// derivations of one fingerprint under one program give the same address
/// and the same bump.
pub proof fn lemma_derive_deterministic(
    fingerprint: [u8; 32],
    program_id: [u8; 32],
    r1: Result<([u8; 32], u8), RegistryError>,
    r2: Result<([u8; 32], u8), RegistryError>,
)
    requires
        derive_outcome(fingerprint@, program_id@, r1),
        derive_outcome(fingerprint@, program_id@, r2),
    ensures
        r1 == r2,
{
    if let Ok((a1, b1)) = r1 {
        if let Ok((a2, b2)) = r2 {
            assert(a1@ =~= a2@);
            assert(a1 == a2);
        }
    }
}

/// A derived address can be checked from its bump alone: the stored bump
/// gives the address, and no higher bump gives a valid one. Where no bump
/// gives a valid address, derivation reports that.
pub proof fn lemma_derivation_reproducible(fingerprint: Seq<u8>, program_id: Seq<u8>)
    ensures
        match derivation(fingerprint, program_id) {
            Some((a, b)) => {
                &&& program_address(namespace_seed(), fingerprint, b, program_id) == Some(a)
                &&& forall|c: u8| b < c ==> (#[trigger] program_address(namespace_seed(), fingerprint, c, program_id)) is None
            },
            None => forall|c: u8| (#[trigger] program_address(namespace_seed(), fingerprint, c, program_id)) is None,
        },
{
    lemma_search_from(fingerprint, program_id, 255);
}

/// Two different fingerprints share a derived address only through the
/// address rule itself: the seed lists that gave it, which differ in the
/// fingerprint, hash to one and the same address.
pub proof fn lemma_shared_address_is_hash_collision(f1: Seq<u8>, f2: Seq<u8>, program_id: Seq<u8>)
    requires
        f1 != f2,
        derivation(f1, program_id) is Some,
        derivation(f2, program_id) is Some,
        derivation(f1, program_id).unwrap().0 == derivation(f2, program_id).unwrap().0,
    ensures
        program_address(namespace_seed(), f1, derivation(f1, program_id).unwrap().1, program_id)
            == program_address(namespace_seed(), f2, derivation(f2, program_id).unwrap().1, program_id),
        program_address(namespace_seed(), f1, derivation(f1, program_id).unwrap().1, program_id) is Some,
{
    lemma_derivation_reproducible(f1, program_id);
    lemma_derivation_reproducible(f2, program_id);
}

} // verus!
