//! The address deriver: a deterministic storage key computed from the
//! device's storage key and the scanner's signing key, so that each
//! (device, scanner) pair owns one location slot that can be found without
//! a separate index.

use vstd::prelude::*;

use crate::records::key_wf;

verus! {

/// The storage address that the host's program-derived-address scheme
/// assigns to the pair (device key, scanner key) under this program's
/// location tag. The derivation is a pure function of the two keys, so
/// this name stands for its result; nothing more is assumed of it.
pub uninterp spec fn derived_address_of(device_key: Seq<u8>, scanner_key: Seq<u8>) -> Seq<u8>;

/// Relies on `Pubkey::find_program_address` (anchor_lang's re-export of
/// the Solana program-derived-address search): a SHA-256-based derivation
/// that is a pure function of the seed slices and the program id. The seed
/// tag and the program id are fixed here, so the address depends on the
/// two keys alone, and it is always 32 bytes. The search panics only if
/// every one of the 255 bump seeds lands on the curve, which the crate's
/// own documentation calls statistically improbable; seeds longer than 32
/// bytes would also make it panic, so they are excluded here.
#[verifier::external_body]
fn find_location_address(device_key: &Vec<u8>, scanner_key: &Vec<u8>) -> (r: Vec<u8>)
    requires
        device_key@.len() <= 32,
        scanner_key@.len() <= 32,
    ensures
        r@ == derived_address_of(device_key@, scanner_key@),
        r@.len() == 32,
{
    let program_id = anchor_lang::solana_program::pubkey::Pubkey::from_str_const(
        "Fg6PaFpoGXkYsidMpWTK6W2BeZ7FEfcYkg476zPFsLnS",
    );
    let seeds: [&[u8]; 3] = [b"location", device_key.as_slice(), scanner_key.as_slice()];
    let (address, _bump) = anchor_lang::solana_program::pubkey::Pubkey::find_program_address(
        &seeds,
        &program_id,
    );
    address.to_bytes().to_vec()
}

/// Computes the storage address of the location slot that the given
/// (device, scanner) pair owns.
pub fn derive_location_address(device_key: &Vec<u8>, scanner_key: &Vec<u8>) -> (r: Vec<u8>)
    requires
        key_wf(device_key@),
        key_wf(scanner_key@),
    ensures
        r@ == derived_address_of(device_key@, scanner_key@),
        r@.len() == 32,
{
    find_location_address(device_key, scanner_key)
}

/// Address derivation is deterministic: identical (device, scanner)
/// inputs always yield the identical address.
pub proof fn lemma_derivation_deterministic(
    device_a: Seq<u8>,
    scanner_a: Seq<u8>,
    device_b: Seq<u8>,
    scanner_b: Seq<u8>,
)
    requires
        device_a == device_b,
        scanner_a == scanner_b,
    ensures
        derived_address_of(device_a, scanner_a) == derived_address_of(device_b, scanner_b),
{
}

} // verus!
