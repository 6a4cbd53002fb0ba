//! The addresses of land asset accounts.
//!
//! The account of a plot is not chosen by whoever asks for the plot: its
//! address is derived, for the land program, from the tag of the land assets,
//! the address of the plane and the plot's two coordinates. The derivation
//! itself is the ledger's.

use crate::account::Pubkey;
use crate::state::LAND_ASSET_ACC_PREFIX;
use vstd::bytes::{spec_u64_to_le_bytes, u64_to_le_bytes};
use vstd::prelude::*;
use vstd::slice::slice_to_vec;
use vstd::string::StringSliceAdditionalSpecFns;

verus! {

/// The address that the ledger derives for a program from a list of seeds,
/// together with the bump seed under which it was found, or `None` where the
/// ledger derives none from them.
pub uninterp spec fn program_address(seeds: Seq<Seq<u8>>, program_id: Seq<u8>) -> Option<
    (Seq<u8>, u8),
>;

/// Calls `solana_program::pubkey::Pubkey::try_find_program_address`.
///
/// Nothing is proved of it. The contract gives the outcome of the search a
/// name, `program_address`, and so claims that it depends on the seeds and
/// the program's address alone.
#[verifier::external_body]
fn try_find_program_address(seeds: &Vec<Vec<u8>>, program_id: &Pubkey) -> (found: Option<
    (Pubkey, u8),
>)
    ensures
        match found {
            Some((address, bump_seed)) => program_address(seeds.deep_view(), program_id@) == Some(
                (address@, bump_seed),
            ),
            None => program_address(seeds.deep_view(), program_id@) is None,
        },
{
    let seeds: Vec<&[u8]> = seeds.iter().map(|seed| seed.as_slice()).collect();
    let program_id = solana_program::pubkey::Pubkey::new_from_array(*program_id);
    solana_program::pubkey::Pubkey::try_find_program_address(&seeds, &program_id).map(
        |(address, bump_seed)| (address.to_bytes(), bump_seed),
    )
}

/// The seeds of the account of a plot: the tag of the land assets, the
/// address of the plane, and the two coordinates, each as eight bytes with
/// the least significant first.
pub open spec fn land_asset_seeds(land_plane_acc_pubkey: Seq<u8>, x: u64, z: u64) -> Seq<Seq<u8>> {
    seq![
        LAND_ASSET_ACC_PREFIX.spec_bytes(),
        land_plane_acc_pubkey,
        spec_u64_to_le_bytes(x),
        spec_u64_to_le_bytes(z),
    ]
}

/// The address of the account of a plot, where the ledger derives one.
pub open spec fn land_asset_address(
    program_id: Seq<u8>,
    land_plane_acc_pubkey: Seq<u8>,
    x: u64,
    z: u64,
) -> Option<Seq<u8>> {
    match program_address(land_asset_seeds(land_plane_acc_pubkey, x, z), program_id) {
        Some((address, _)) => Some(address),
        None => None,
    }
}

/// Derives the address of the account of the plot with coordinates `x` and
/// `z` of a plane.
pub fn find_land_asset_address(
    program_id: &Pubkey,
    land_plane_acc_pubkey: &Pubkey,
    x: u64,
    z: u64,
) -> (found: Option<Pubkey>)
    ensures
        match found {
            Some(address) => land_asset_address(program_id@, land_plane_acc_pubkey@, x, z) == Some(
                address@,
            ),
            None => land_asset_address(program_id@, land_plane_acc_pubkey@, x, z) is None,
        },
{
    let mut seeds: Vec<Vec<u8>> = Vec::new();
    seeds.push(slice_to_vec(LAND_ASSET_ACC_PREFIX.as_bytes()));
    seeds.push(slice_to_vec(land_plane_acc_pubkey.as_slice()));
    seeds.push(u64_to_le_bytes(x));
    seeds.push(u64_to_le_bytes(z));
    assert(seeds.deep_view() =~= land_asset_seeds(land_plane_acc_pubkey@, x, z)) by {
        assert(seeds.deep_view().len() == 4);
        assert(seeds@[0].deep_view() =~= seeds@[0]@);
        assert(seeds@[1].deep_view() =~= seeds@[1]@);
        assert(seeds@[2].deep_view() =~= seeds@[2]@);
        assert(seeds@[3].deep_view() =~= seeds@[3]@);
    }
    match try_find_program_address(&seeds, program_id) {
        Some((address, _)) => Some(address),
        None => None,
    }
}

} // verus!
