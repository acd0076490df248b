//! Derivation of the program authority that controls a custody vault.
//!
//! The authority is not a keypair: it is deterministically recomputed from a
//! seed, a bump byte and the program id, and a supplied key is accepted only
//! if it matches the re-derivation exactly. The hash itself is done by the
//! host SDK; this module names its result and verifies the matching.

use vstd::prelude::*;

verus! {

/// The program-derived authority for a seed, a bump and a program id: a pure
/// function of its three arguments, the same in every process.
pub uninterp spec fn derived_authority(seed: Seq<u8>, bump: u8, program_id: Seq<u8>) -> Seq<u8>;

/// Relies on `Pubkey::try_derive_address` (the host SDK's program-address
/// derivation): the result is a 32-byte hash determined by the seed, the bump
/// and the program id alone, and derivation is refused exactly when the seed
/// is longer than the 32-byte seed limit.
#[verifier::external_body]
fn derive_authority_bytes(seed: &Vec<u8>, bump: u8, program_id: &Vec<u8>) -> (r: Option<Vec<u8>>)
    requires
        program_id@.len() == 32,
    ensures
        (r is Some) == (seed@.len() <= 32),
        match r {
            Some(v) => v@ == derived_authority(seed@, bump, program_id@) && v@.len() == 32,
            None => true,
        },
{
    let mut arr = [0u8; 32];
    arr.copy_from_slice(program_id.as_slice());
    let pid = anchor_lang::prelude::Pubkey::new_from_array(arr);
    match anchor_lang::prelude::Pubkey::try_derive_address(&[seed.as_slice()], Some(bump), &pid) {
        Ok(p) => Some(p.to_bytes().to_vec()),
        Err(_) => None,
    }
}

/// Accept a supplied vault-authority key only if it is exactly the program
/// authority re-derived from `seed`, `bump` and `program_id`.
pub fn vault_authority_matches(
    expected: &Vec<u8>,
    seed: &Vec<u8>,
    bump: u8,
    program_id: &Vec<u8>,
) -> (r: bool)
    requires
        program_id@.len() == 32,
    ensures
        r == (seed@.len() <= 32 && expected@ == derived_authority(seed@, bump, program_id@)),
{
    let d = match derive_authority_bytes(seed, bump, program_id) {
        Some(d) => d,
        None => {
            return false;
        },
    };
    if d.len() != expected.len() {
        return false;
    }
    let n = d.len();
    let mut i: usize = 0;
    while i < n
        invariant
            i <= n,
            n == d@.len(),
            n == expected@.len(),
            seed@.len() <= 32,
            d@ == derived_authority(seed@, bump, program_id@),
            forall|t: int| 0 <= t < i ==> d@[t] == expected@[t],
        decreases n - i,
    {
        if d[i] != expected[i] {
            proof {
                assert(expected@ != d@) by {
                    if expected@ == d@ {
                        assert(expected@[i as int] == d@[i as int]);
                    }
                }
            }
            return false;
        }
        i = i + 1;
    }
    proof {
        assert(d@ =~= expected@);
    }
    true
}

pub open spec fn escrow_seed_seq() -> Seq<u8> {
    seq![115u8, 111u8, 108u8, 95u8, 101u8, 115u8, 99u8, 114u8, 111u8, 119u8]
}

/// The fixed seed every vault authority of this program is derived under
/// (the bytes of `"sol_escrow"`).
pub fn escrow_seed() -> (r: Vec<u8>)
    ensures
        r@ == escrow_seed_seq(),
{
    let v: Vec<u8> = vec![115u8, 111u8, 108u8, 95u8, 101u8, 115u8, 99u8, 114u8, 111u8, 119u8];
    proof {
        assert(v@ =~= escrow_seed_seq());
    }
    v
}

pub open spec fn program_id_seq() -> Seq<u8> {
    seq![
        92u8, 63u8, 177u8, 143u8, 112u8, 95u8, 8u8, 108u8, 76u8, 108u8, 201u8, 146u8, 198u8,
        103u8, 57u8, 127u8, 95u8, 190u8, 240u8, 176u8, 173u8, 169u8, 208u8, 167u8, 27u8, 118u8,
        62u8, 118u8, 221u8, 207u8, 180u8, 151u8,
    ]
}

/// The program's own declared address, as raw bytes.
pub fn program_id() -> (r: Vec<u8>)
    ensures
        r@ == program_id_seq(),
        r@.len() == 32,
{
    let v: Vec<u8> = vec![
        92u8, 63u8, 177u8, 143u8, 112u8, 95u8, 8u8, 108u8, 76u8, 108u8, 201u8, 146u8, 198u8,
        103u8, 57u8, 127u8, 95u8, 190u8, 240u8, 176u8, 173u8, 169u8, 208u8, 167u8, 27u8, 118u8,
        62u8, 118u8, 221u8, 207u8, 180u8, 151u8,
    ];
    proof {
        assert(v@ =~= program_id_seq());
    }
    v
}

} // verus!
