use vstd::prelude::*;

verus! {

/// The fixed salt under which every poll address is derived: the bytes
/// of the text `vote_account`.
pub open spec fn spec_poll_seed() -> Seq<u8> {
    seq![118u8, 111u8, 116u8, 101u8, 95u8, 97u8, 99u8, 99u8, 111u8, 117u8, 110u8, 116u8]
}

/// Builds the fixed salt.
pub fn poll_seed() -> (v: Vec<u8>)
    ensures
        v@ == spec_poll_seed(),
{
    let mut v: Vec<u8> = Vec::new();
    v.push(118);
    v.push(111);
    v.push(116);
    v.push(101);
    v.push(95);
    v.push(97);
    v.push(99);
    v.push(99);
    v.push(111);
    v.push(117);
    v.push(110);
    v.push(116);
    proof {
        assert(v@ =~= spec_poll_seed());
    }
    v
}

/// What the host's address derivation returns for a program identity, a
/// salt and a caller identity: the derived address and its disambiguation
/// byte, or nothing in the practically unreachable case that no
/// disambiguation byte yields an address off the signing-key curve.
pub uninterp spec fn derive_of(program: Seq<u8>, salt: Seq<u8>, caller: Seq<u8>) -> Option<
    (Seq<u8>, u8),
>;

/// Relies on `Pubkey::try_find_program_address`: its result is computed
/// from the seeds and the program identity alone, by hashing and searching
/// downward from disambiguation byte 255; it returns `None` only when no
/// byte yields an off-curve address, and it never panics.
#[verifier::external_body]
fn find_address(program: &[u8; 32], salt: &Vec<u8>, caller: &[u8; 32]) -> (r: Option<
    ([u8; 32], u8),
>)
    ensures
        match r {
            Some(p) => derive_of(program@, salt@, caller@) == Some((p.0@, p.1)),
            None => derive_of(program@, salt@, caller@) is None,
        },
{
    let program_id = solana_program::pubkey::Pubkey::new_from_array(*program);
    let caller_id = solana_program::pubkey::Pubkey::new_from_array(*caller);
    match solana_program::pubkey::Pubkey::try_find_program_address(
        &[salt.as_slice(), caller_id.as_ref()],
        &program_id,
    ) {
        Some((address, bump)) => Some((address.to_bytes(), bump)),
        None => None,
    }
}

/// The derived poll address of a caller under a program: the host
/// derivation applied to the fixed salt and the caller identity.
pub open spec fn spec_derived(program: Seq<u8>, caller: Seq<u8>) -> Option<(Seq<u8>, u8)> {
    derive_of(program, spec_poll_seed(), caller)
}

/// Derives the poll-storage address for `caller` under `program`, with
/// the disambiguation byte that proves the program may write there.
pub fn derive_poll_address(program: &[u8; 32], caller: &[u8; 32]) -> (r: Option<([u8; 32], u8)>)
    ensures
        match r {
            Some(p) => spec_derived(program@, caller@) == Some((p.0@, p.1)),
            None => spec_derived(program@, caller@) is None,
        },
{
    let salt = poll_seed();
    find_address(program, &salt, caller)
}

/// Address derivation is deterministic: two results that both agree with
/// the derivation for the same program and caller identities are equal.
pub proof fn lemma_derive_deterministic(
    program: Seq<u8>,
    caller: Seq<u8>,
    r1: Option<(Seq<u8>, u8)>,
    r2: Option<(Seq<u8>, u8)>,
)
    ensures
        (r1 == spec_derived(program, caller) && r2 == spec_derived(program, caller)) ==> r1 == r2,
{
}

} // verus!
