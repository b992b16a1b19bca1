use vstd::prelude::*;

use crate::error::EscrowError;

verus! {

/// An identity on the ledger: the 32 bytes of an address.
pub type Identity = [u8; 32];

/// The address that the ledger derives from a list of seeds under a program id, or `None` where
/// the hash of the seeds lies on the ed25519 curve (an address with a private key) or the seeds
/// break the ledger's size limits.
pub uninterp spec fn program_address_of(seeds: Seq<Seq<u8>>, program_id: Seq<u8>) -> Option<Seq<u8>>;

/// Relies on `Pubkey::create_program_address` of solana-pubkey (anchor-lang's `Pubkey`): it
/// hashes the seeds with the program id and refuses the hash when it is a curve point or the
/// seeds are too many or too long. The result depends on the arguments alone.
#[verifier::external_body]
fn create_program_address(seeds: &Vec<Vec<u8>>, program_id: &Identity) -> (r: Option<Identity>)
    ensures
        match r {
            Some(a) => program_address_of(seeds_view(seeds), program_id@) == Some(a@),
            None => program_address_of(seeds_view(seeds), program_id@) is None,
        },
{
    let refs: Vec<&[u8]> = seeds.iter().map(|s| s.as_slice()).collect();
    let program = anchor_lang::prelude::Pubkey::new_from_array(*program_id);
    anchor_lang::prelude::Pubkey::create_program_address(&refs, &program).ok().map(|p| p.to_bytes())
}

/// The byte strings of a list of seeds.
pub open spec fn seeds_view(seeds: &Vec<Vec<u8>>) -> Seq<Seq<u8>> {
    seeds@.map_values(|s: Vec<u8>| s@)
}

/// The first proof byte, counting down from `bump` to 0, whose seed appended to `labels` gives an
/// address, together with that address.
pub open spec fn search_from(labels: Seq<Seq<u8>>, program_id: Seq<u8>, bump: int) -> Option<(Seq<u8>, u8)>
    decreases bump + 1,
{
    if bump < 0 {
        None
    } else {
        match program_address_of(labels.push(seq![bump as u8]), program_id) {
            Some(a) => Some((a, bump as u8)),
            None => search_from(labels, program_id, bump - 1),
        }
    }
}

/// The derived authority of `labels` under `program_id`: the address and proof byte of the first
/// byte from 255 down to 0 that gives an address off the curve.
pub open spec fn derived_address(labels: Seq<Seq<u8>>, program_id: Seq<u8>) -> Option<(Seq<u8>, u8)> {
    search_from(labels, program_id, 255)
}

/// What `derive_address` returns for `labels` under `program_id`.
pub open spec fn derivation_outcome(labels: Seq<Seq<u8>>, program_id: Seq<u8>) -> Result<(Seq<u8>, u8), EscrowError> {
    match derived_address(labels, program_id) {
        Some(d) => Ok(d),
        None => Err(EscrowError::DerivationExhausted),
    }
}

/// The view of a result of `derive_address`.
pub open spec fn derivation_view(r: Result<(Identity, u8), EscrowError>) -> Result<(Seq<u8>, u8), EscrowError> {
    match r {
        Ok((a, b)) => Ok((a@, b)),
        Err(e) => Err(e),
    }
}

fn copy_bytes(v: &Vec<u8>) -> (r: Vec<u8>)
    ensures
        r@ == v@,
{
    let mut r: Vec<u8> = Vec::new();
    let mut i: usize = 0;
    while i < v.len()
        invariant
            i <= v.len(),
            r@ == v@.subrange(0, i as int),
        decreases v.len() - i,
    {
        r.push(v[i]);
        i = i + 1;
    }
    r
}

fn single_byte(b: u8) -> (r: Vec<u8>)
    ensures
        r@ == seq![b],
{
    let mut r: Vec<u8> = Vec::new();
    r.push(b);
    assert(r@ =~= seq![b]);
    r
}

/// The bytes of an identity as a vector.
pub fn identity_bytes(id: &Identity) -> (r: Vec<u8>)
    ensures
        r@ == id@,
{
    let mut r: Vec<u8> = Vec::new();
    let mut i: usize = 0;
    while i < 32
        invariant
            i <= 32,
            r@ == id@.subrange(0, i as int),
        decreases 32 - i,
    {
        r.push(id[i]);
        i = i + 1;
    }
    r
}

/// Whether two identities are the same.
pub fn same_identity(a: &Identity, b: &Identity) -> (r: bool)
    ensures
        r == (a@ == b@),
{
    let mut i: usize = 0;
    while i < 32
        invariant
            i <= 32,
            forall|j: int| 0 <= j < i ==> a@[j] == b@[j],
        decreases 32 - i,
    {
        if a[i] != b[i] {
            assert(a@[i as int] != b@[i as int]);
            return false;
        }
        i = i + 1;
    }
    assert(a@ =~= b@);
    true
}

/// Derives the authority of `labels` under `program_id`: the first proof byte from 255 down to 0
/// for which the labels and that byte give an address off the curve, and that address.
pub fn derive_address(labels: &Vec<Vec<u8>>, program_id: &Identity) -> (r: Result<(Identity, u8), EscrowError>)
    ensures
        derivation_view(r) == derivation_outcome(seeds_view(labels), program_id@),
{
    let ghost ls = seeds_view(labels);
    let mut seeds: Vec<Vec<u8>> = Vec::new();
    let mut i: usize = 0;
    while i < labels.len()
        invariant
            i <= labels.len(),
            ls == seeds_view(labels),
            seeds.len() == i,
            ls.len() == labels.len(),
            seeds_view(&seeds) == ls.subrange(0, i as int),
        decreases labels.len() - i,
    {
        let label = copy_bytes(&labels[i]);
        let ghost before = seeds@;
        seeds.push(label);
        proof {
            assert forall|j: int| 0 <= j < i + 1 implies seeds_view(&seeds)[j] == ls[j] by {
                assert(seeds_view(&seeds)[j] == seeds@[j]@);
                assert(ls[j] == labels@[j]@);
                if j < i {
                    assert(seeds@[j] == before[j]);
                    assert(ls.subrange(0, i as int)[j] == ls[j]);
                    assert(seeds_view(&seeds)[j] == before.map_values(|s: Vec<u8>| s@)[j]);
                }
            }
            assert(seeds_view(&seeds) =~= ls.subrange(0, i + 1));
        }
        i = i + 1;
    }
    assert(ls.subrange(0, ls.len() as int) =~= ls);
    let mut bump: u8 = 255;
    let first = single_byte(bump);
    let ghost before = seeds@;
    seeds.push(first);
    proof {
        assert forall|j: int| 0 <= j < ls.len() + 1 implies seeds_view(&seeds)[j] == ls.push(seq![bump])[j] by {
            assert(seeds_view(&seeds)[j] == seeds@[j]@);
            if j < ls.len() {
                assert(seeds@[j] == before[j]);
                assert(seeds_view(&seeds)[j] == before.map_values(|s: Vec<u8>| s@)[j]);
            }
        }
        assert(seeds_view(&seeds) =~= ls.push(seq![bump]));
    }
    loop
        invariant
            ls == seeds_view(labels),
            seeds.len() == ls.len() + 1,
            seeds_view(&seeds) == ls.push(seq![bump]),
            search_from(ls, program_id@, 255) == search_from(ls, program_id@, bump as int),
        decreases bump,
    {
        match create_program_address(&seeds, program_id) {
            Some(a) => {
                return Ok((a, bump));
            },
            None => {},
        }
        if bump == 0 {
            assert(search_from(ls, program_id@, -1) is None);
            return Err(EscrowError::DerivationExhausted);
        }
        bump = bump - 1;
        let last = seeds.len() - 1;
        let ghost before = seeds@;
        seeds.set(last, single_byte(bump));
        proof {
            assert forall|j: int| 0 <= j < ls.len() + 1 implies seeds_view(&seeds)[j] == ls.push(seq![bump])[j] by {
                assert(seeds_view(&seeds)[j] == seeds@[j]@);
                if j < ls.len() {
                    assert(seeds@[j] == before[j]);
                    assert(seeds_view(&seeds)[j] == before.map_values(|s: Vec<u8>| s@)[j]);
                }
            }
            assert(seeds_view(&seeds) =~= ls.push(seq![bump]));
        }
    }
}

/// Derivation depends on its inputs alone: two derivations from the same labels and program id
/// give the same identity and proof byte, or both fail.
pub proof fn lemma_derivation_deterministic(
    labels: Seq<Seq<u8>>,
    program_id: Seq<u8>,
    first: Result<(Seq<u8>, u8), EscrowError>,
    second: Result<(Seq<u8>, u8), EscrowError>,
)
    requires
        first == derivation_outcome(labels, program_id),
        second == derivation_outcome(labels, program_id),
    ensures
        first == second,
{
}

} // verus!
