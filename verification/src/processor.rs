//! How the land program answers a request.
//!
//! Every operation makes its checks in a fixed order and stops at the first
//! that fails. Nothing is written before all of them have passed, so a
//! request that is refused leaves every account as it was.

use crate::account::{pubkey_eq, AccountInfo, AccountView, Pubkey};
use crate::address::{find_land_asset_address, land_asset_address};
use crate::error::{LandError, ProgramError, ProgramResult};
use crate::instruction::LandInstruction;
use crate::state::{
    lemma_decode_encoding, LandAsset, LandAssetVersion, LandPlane, LandPlaneVersion,
};
use vstd::prelude::*;

verus! {

/// What the caller of a request is told: that it went through, or the error
/// with which it was refused.
pub open spec fn result_of(outcome: Result<Seq<AccountView>, ProgramError>) -> ProgramResult {
    match outcome {
        Ok(_) => Ok(()),
        Err(e) => Err(e),
    }
}

/// The accounts as a request leaves them: as the request decided where it
/// went through, and untouched where it was refused.
pub open spec fn accounts_after(
    before: Seq<AccountView>,
    outcome: Result<Seq<AccountView>, ProgramError>,
) -> Seq<AccountView> {
    match outcome {
        Ok(after) => after,
        Err(_) => before,
    }
}

/// What a request to initialise a land plane comes to: the accounts as the
/// request leaves them, or the error with which it is refused.
///
/// The plane is the first account and the rent account the second.
/// `rent_minimum` is the least balance that, by the rent account, exempts a
/// land plane record from rent, or `None` where the second account cannot be
/// read as the rent account.
pub open spec fn initialise_land_plane_outcome(
    accounts: Seq<AccountView>,
    rent_minimum: Option<u64>,
) -> Result<Seq<AccountView>, ProgramError> {
    if accounts.len() < 2 {
        Err(ProgramError::NotEnoughAccountKeys)
    } else {
        match LandPlane::decode(accounts[0].data) {
            Err(e) => Err(e),
            Ok(plane) => if plane.version != LandPlaneVersion::Uninitialised {
                Err(LandError::AlreadyInUse.reported())
            } else {
                match rent_minimum {
                    None => Err(ProgramError::InvalidArgument),
                    Some(minimum) => if accounts[0].lamports < minimum {
                        Err(LandError::NotRentExempt.reported())
                    } else {
                        Ok(
                            accounts.update(
                                0,
                                AccountView {
                                    data: LandPlane::initial().encoding(),
                                    ..accounts[0]
                                },
                            ),
                        )
                    },
                }
            },
        }
    }
}

/// Initialises a land plane: writes the record of a fresh plane, whose next
/// plot is the origin, into the first account.
///
/// `rent_minimum` is the least balance that, by the rent account (the second
/// account), exempts a land plane record from rent, or `None` where that
/// account cannot be read as the rent account.
pub fn process_initialise_land_plane(
    accounts: &mut [AccountInfo],
    rent_minimum: Option<u64>,
) -> (result: ProgramResult)
    ensures
        result == result_of(initialise_land_plane_outcome(old(accounts).deep_view(), rent_minimum)),
        final(accounts).deep_view() == accounts_after(
            old(accounts).deep_view(),
            initialise_land_plane_outcome(old(accounts).deep_view(), rent_minimum),
        ),
        final(accounts)@.len() == old(accounts)@.len(),
{
    if accounts.len() < 2 {
        return Err(ProgramError::NotEnoughAccountKeys);
    }
    let mut land_plane_acc_state = match LandPlane::from_account_info(&accounts[0]) {
        Ok(plane) => plane,
        Err(e) => {
            return Err(e);
        },
    };
    if land_plane_acc_state.version != LandPlaneVersion::Uninitialised {
        return Err(ProgramError::from(LandError::AlreadyInUse));
    }
    let minimum = match rent_minimum {
        Some(minimum) => minimum,
        None => {
            return Err(ProgramError::InvalidArgument);
        },
    };
    if accounts[0].lamports < minimum {
        return Err(ProgramError::from(LandError::NotRentExempt));
    }
    land_plane_acc_state.version = LandPlaneVersion::V1;
    land_plane_acc_state.next_x = 0;
    land_plane_acc_state.next_z = 0;
    land_plane_acc_state.depth = 0;
    accounts[0].data = land_plane_acc_state.to_vec();
    assert(accounts.deep_view() =~= old(accounts).deep_view().update(
        0,
        AccountView { data: LandPlane::initial().encoding(), ..old(accounts).deep_view()[0] },
    ));
    Ok(())
}

/// Initialises a land asset. Nothing is asked of the accounts and nothing is
/// done to them.
pub fn process_initialise_land_asset(accounts: &[AccountInfo]) -> (result: ProgramResult)
    ensures
        result == Ok::<(), ProgramError>(()),
{
    Ok(())
}

/// What the check of a land asset account against the address derived for
/// the next plot comes to. The address is compared first; only the account at
/// the derived address is then read, and must hold an initialised record.
pub open spec fn land_asset_outcome(
    land_asset_acc: AccountView,
    derived: Option<Seq<u8>>,
) -> ProgramResult {
    if derived != Some(land_asset_acc.key) {
        Err(LandError::InvalidLandAssetAccKey.reported())
    } else {
        match LandAsset::decode(land_asset_acc.data) {
            Err(e) => Err(e),
            Ok(asset) => if asset.version == LandAssetVersion::Uninitialised {
                Err(LandError::LandAssetAccUninitialised.reported())
            } else {
                Ok(())
            },
        }
    }
}

/// Checks the land asset account of a request against the address derived
/// for the next plot of the plane, `None` standing for a plot for which the
/// ledger derives no address.
pub fn check_land_asset_acc(land_asset_acc: &AccountInfo, derived: Option<Pubkey>) -> (result:
    ProgramResult)
    ensures
        result == land_asset_outcome(
            land_asset_acc@,
            match derived {
                Some(address) => Some(address@),
                None => None,
            },
        ),
{
    let same = match derived {
        Some(address) => pubkey_eq(&land_asset_acc.key, &address),
        None => false,
    };
    if !same {
        return Err(ProgramError::from(LandError::InvalidLandAssetAccKey));
    }
    let land_asset_acc_state = match LandAsset::from_account_info(land_asset_acc) {
        Ok(asset) => asset,
        Err(e) => {
            return Err(e);
        },
    };
    if land_asset_acc_state.version == LandAssetVersion::Uninitialised {
        return Err(ProgramError::from(LandError::LandAssetAccUninitialised));
    }
    Ok(())
}

/// What a request to mint the next plot comes to.
///
/// The accounts are, in order: the owner of the token account, the land
/// asset account of the plot, the land plane account, the token account and
/// the token's mint.
pub open spec fn mint_next_outcome(
    program_id: Seq<u8>,
    accounts: Seq<AccountView>,
) -> ProgramResult {
    if accounts.len() < 5 {
        Err(ProgramError::NotEnoughAccountKeys)
    } else if !accounts[0].is_signer {
        Err(LandError::SignatureError.reported())
    } else {
        match LandPlane::decode(accounts[2].data) {
            Err(e) => Err(e),
            Ok(plane) => if plane.version == LandPlaneVersion::Uninitialised {
                Err(LandError::LandPlaneAccUninitialised.reported())
            } else {
                land_asset_outcome(
                    accounts[1],
                    land_asset_address(program_id, accounts[2].key, plane.next_x, plane.next_z),
                )
            },
        }
    }
}

/// Confirms that the next plot of a plane may be minted: that the owner of
/// the token account has signed, that the plane is initialised, that the land
/// asset account is the one derived for the plane's next plot, and that it is
/// initialised.
pub fn process_mint_next(program_id: &Pubkey, accounts: &[AccountInfo]) -> (result: ProgramResult)
    ensures
        result == mint_next_outcome(program_id@, accounts.deep_view()),
{
    if accounts.len() < 5 {
        return Err(ProgramError::NotEnoughAccountKeys);
    }
    let nft_assoc_token_acc_owner_acc_info = &accounts[0];
    let land_asset_acc_info = &accounts[1];
    let land_plane_acc_info = &accounts[2];
    if !nft_assoc_token_acc_owner_acc_info.is_signer {
        return Err(ProgramError::from(LandError::SignatureError));
    }
    let land_plane_acc_state = match LandPlane::from_account_info(land_plane_acc_info) {
        Ok(plane) => plane,
        Err(e) => {
            return Err(e);
        },
    };
    if land_plane_acc_state.version == LandPlaneVersion::Uninitialised {
        return Err(ProgramError::from(LandError::LandPlaneAccUninitialised));
    }
    let next_land_asset_acc_key = find_land_asset_address(
        program_id,
        &land_plane_acc_info.key,
        land_plane_acc_state.next_x,
        land_plane_acc_state.next_z,
    );
    check_land_asset_acc(land_asset_acc_info, next_land_asset_acc_key)
}

/// What a request comes to: the accounts as it leaves them, or the error
/// with which it is refused.
pub open spec fn instruction_outcome(
    program_id: Seq<u8>,
    accounts: Seq<AccountView>,
    input: Seq<u8>,
    rent_minimum: Option<u64>,
) -> Result<Seq<AccountView>, ProgramError> {
    match LandInstruction::decode(input) {
        Err(e) => Err(e),
        Ok(LandInstruction::InitialiseLandPlane) => initialise_land_plane_outcome(
            accounts,
            rent_minimum,
        ),
        Ok(LandInstruction::InitialiseLandAsset) => Ok(accounts),
        Ok(LandInstruction::MintNext) => match mint_next_outcome(program_id, accounts) {
            Ok(_) => Ok(accounts),
            Err(e) => Err(e),
        },
    }
}

/// Answers a request to the land program at `program_id`: reads from `input`
/// which operation is asked for and carries it out on `accounts`.
///
/// `rent_minimum` is the least balance that, by the second account, exempts a
/// land plane record from rent, or `None` where that account cannot be read
/// as the rent account. Only a request to initialise a land plane looks at
/// it.
pub fn process_instruction(
    program_id: &Pubkey,
    accounts: &mut [AccountInfo],
    input: &[u8],
    rent_minimum: Option<u64>,
) -> (result: ProgramResult)
    ensures
        result == result_of(
            instruction_outcome(program_id@, old(accounts).deep_view(), input@, rent_minimum),
        ),
        final(accounts).deep_view() == accounts_after(
            old(accounts).deep_view(),
            instruction_outcome(program_id@, old(accounts).deep_view(), input@, rent_minimum),
        ),
        final(accounts)@.len() == old(accounts)@.len(),
{
    let instruction = match LandInstruction::try_from_slice(input) {
        Ok(instruction) => instruction,
        Err(e) => {
            return Err(e);
        },
    };
    match instruction {
        LandInstruction::InitialiseLandPlane => process_initialise_land_plane(
            accounts,
            rent_minimum,
        ),
        LandInstruction::InitialiseLandAsset => process_initialise_land_asset(accounts),
        LandInstruction::MintNext => process_mint_next(program_id, accounts),
    }
}

/// A land plane is initialised once: after a request to initialise it has
/// gone through, the record holds the fresh plane; every further request to
/// initialise it is refused as `AlreadyInUse`, whatever the balance and the
/// rent, and leaves the accounts, the record among them, as the first request
/// left them.
pub proof fn lemma_initialise_once(
    accounts: Seq<AccountView>,
    rent_minimum: Option<u64>,
    later_rent_minimum: Option<u64>,
)
    requires
        initialise_land_plane_outcome(accounts, rent_minimum) is Ok,
    ensures
        ({
            let after = accounts_after(
                accounts,
                initialise_land_plane_outcome(accounts, rent_minimum),
            );
            let again = initialise_land_plane_outcome(after, later_rent_minimum);
            &&& LandPlane::decode(after[0].data) == Ok::<LandPlane, ProgramError>(
                LandPlane::initial(),
            )
            &&& result_of(again) == Err::<(), ProgramError>(LandError::AlreadyInUse.reported())
            &&& accounts_after(after, again) == after
        }),
{
    lemma_decode_encoding(LandPlane::initial());
}

/// A request that is refused changes nothing, and a request changes no
/// account but the land plane that it initialises: every other account, and
/// the address, the balance and the signature of the plane's own, stay as
/// they were.
pub proof fn lemma_request_is_all_or_nothing(
    program_id: Seq<u8>,
    accounts: Seq<AccountView>,
    input: Seq<u8>,
    rent_minimum: Option<u64>,
)
    ensures
        ({
            let outcome = instruction_outcome(program_id, accounts, input, rent_minimum);
            let after = accounts_after(accounts, outcome);
            &&& outcome is Err ==> after == accounts
            &&& after.len() == accounts.len()
            &&& forall|i: int| 0 < i < accounts.len() ==> after[i] == accounts[i]
            &&& accounts.len() > 0 ==> {
                &&& after[0].key == accounts[0].key
                &&& after[0].lamports == accounts[0].lamports
                &&& after[0].is_signer == accounts[0].is_signer
                &&& after[0].data.len() == accounts[0].data.len()
            }
        }),
{
    lemma_decode_encoding(LandPlane::initial());
}

/// A request to mint goes through for one land asset account only: the one
/// at the address that is derived for the plane's next plot.
pub proof fn lemma_accepted_address_is_derived(program_id: Seq<u8>, accounts: Seq<AccountView>)
    requires
        mint_next_outcome(program_id, accounts) is Ok,
    ensures
        accounts.len() >= 5,
        LandPlane::decode(accounts[2].data) is Ok,
        ({
            let plane = LandPlane::decode(accounts[2].data)->Ok_0;
            land_asset_address(program_id, accounts[2].key, plane.next_x, plane.next_z) == Some(
                accounts[1].key,
            )
        }),
{
}

/// Once the owner has signed and the plane is found initialised, a request
/// to mint that names a land asset account at any other address than the one
/// derived for the plane's next plot is refused as `InvalidLandAssetAccKey`,
/// whatever that account holds.
pub proof fn lemma_other_address_is_refused(program_id: Seq<u8>, accounts: Seq<AccountView>)
    requires
        accounts.len() >= 5,
        accounts[0].is_signer,
        LandPlane::decode(accounts[2].data) is Ok,
        LandPlane::decode(accounts[2].data)->Ok_0.version == LandPlaneVersion::V1,
        ({
            let plane = LandPlane::decode(accounts[2].data)->Ok_0;
            land_asset_address(program_id, accounts[2].key, plane.next_x, plane.next_z) != Some(
                accounts[1].key,
            )
        }),
    ensures
        mint_next_outcome(program_id, accounts) == Err::<(), ProgramError>(
            LandError::InvalidLandAssetAccKey.reported(),
        ),
{
}

} // verus!
