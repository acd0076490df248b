use anchor_lang::prelude::Pubkey;
use sol_escrow::authority::escrow_seed;
use sol_escrow::authority::program_id;
use sol_escrow::authority::vault_authority_matches;

fn host_derived(seed: &[u8], bump: u8) -> Vec<u8> {
    let mut arr = [0u8; 32];
    arr.copy_from_slice(&program_id());
    let pid = Pubkey::new_from_array(arr);
    Pubkey::try_derive_address(&[seed], Some(bump), &pid)
        .expect("seed fits the limit")
        .to_bytes()
        .to_vec()
}

#[test]
fn derived_authority_matches_host_derivation() {
    let seed = escrow_seed();
    let expected = host_derived(&seed, 251);
    assert_eq!(expected.len(), 32);
    // the derivation is a real hash, not the seed handed back
    assert_ne!(expected, seed);
    assert!(vault_authority_matches(&expected, &seed, 251, &program_id()));
}

#[test]
fn wrong_key_or_bump_does_not_match() {
    let seed = escrow_seed();
    let expected = host_derived(&seed, 251);
    let mut wrong = expected.clone();
    wrong[0] = wrong[0].wrapping_add(1);
    assert!(!vault_authority_matches(&wrong, &seed, 251, &program_id()));
    // a different bump derives a different authority
    assert!(!vault_authority_matches(&expected, &seed, 250, &program_id()));
}

#[test]
fn overlong_seed_never_matches() {
    let seed = escrow_seed();
    let expected = host_derived(&seed, 251);
    let long_seed = vec![0u8; 33];
    assert!(!vault_authority_matches(&expected, &long_seed, 251, &program_id()));
}

#[test]
fn escrow_seed_is_the_program_tag() {
    assert_eq!(escrow_seed(), b"sol_escrow".to_vec());
}
