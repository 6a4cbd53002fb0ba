use land::account::{AccountInfo, Pubkey};
use land::address::find_land_asset_address;
use land::error::{LandError, ProgramError, ProgramResult};
use land::instruction::{initialize_land_plane, mint_next, Instruction};
use land::processor::{
    check_land_asset_acc, process_initialise_land_asset, process_initialise_land_plane,
    process_instruction, process_mint_next,
};
use land::state::{
    LandAsset, LandAssetVersion, LandPlane, LandPlaneVersion, LAND_ASSET_ACC_DATA_LEN,
    LAND_ASSET_ACC_PREFIX, LAND_PLANE_ACC_DATA_LEN,
};
use solana_program::rent::Rent;

//
// testing utils
//

const PROGRAM_ID: Pubkey = [42u8; 32];

fn key(seed: u8) -> Pubkey {
    let mut key = [0u8; 32];
    key[0] = seed;
    key[31] = seed;
    key
}

fn system_program_id() -> Pubkey {
    [0u8; 32]
}

fn new_account(lamports: u64, space: usize) -> AccountInfo {
    AccountInfo {
        key: [0u8; 32],
        is_signer: false,
        lamports,
        data: vec![0u8; space],
    }
}

fn rent_sysvar() -> AccountInfo {
    AccountInfo {
        key: solana_program::sysvar::rent::id().to_bytes(),
        is_signer: false,
        lamports: 1,
        data: Vec::new(),
    }
}

fn land_plane_minimum_balance() -> u64 {
    Rent::default().minimum_balance(LAND_PLANE_ACC_DATA_LEN)
}

fn rent_minimum(account_infos: &[AccountInfo]) -> Option<u64> {
    match account_infos.get(1) {
        Some(account) if account.key == solana_program::sysvar::rent::id().to_bytes() => {
            Some(land_plane_minimum_balance())
        }
        _ => None,
    }
}

fn do_process_instruction(
    instruction: Instruction,
    accounts: Vec<&mut AccountInfo>,
) -> ProgramResult {
    let mut account_infos: Vec<AccountInfo> = instruction
        .accounts
        .iter()
        .zip(accounts.iter())
        .map(|(account_meta, account)| AccountInfo {
            key: account_meta.pubkey,
            is_signer: account_meta.is_signer,
            lamports: account.lamports,
            data: account.data.clone(),
        })
        .collect();
    let rent_minimum = rent_minimum(&account_infos);
    let result = process_instruction(
        &instruction.program_id,
        &mut account_infos,
        &instruction.data,
        rent_minimum,
    );
    for (account, account_info) in accounts.into_iter().zip(account_infos) {
        account.lamports = account_info.lamports;
        account.data = account_info.data;
    }
    result
}

fn mint_next_accounts(plane: &LandPlane, land_asset_acc_key: Pubkey) -> Vec<AccountInfo> {
    vec![
        AccountInfo {
            key: key(1),
            is_signer: true,
            lamports: 1,
            data: Vec::new(),
        },
        AccountInfo {
            key: land_asset_acc_key,
            is_signer: false,
            lamports: 1,
            data: vec![0u8; LAND_ASSET_ACC_DATA_LEN],
        },
        AccountInfo {
            key: key(3),
            is_signer: false,
            lamports: 42,
            data: plane.to_vec(),
        },
        AccountInfo {
            key: key(4),
            is_signer: false,
            lamports: 1,
            data: Vec::new(),
        },
        AccountInfo {
            key: key(5),
            is_signer: false,
            lamports: 1,
            data: Vec::new(),
        },
    ]
}

fn derived_by_the_ledger(plane_key: &Pubkey, x: u64, z: u64) -> Pubkey {
    let (address, _) = solana_program::pubkey::Pubkey::find_program_address(
        &[
            LAND_ASSET_ACC_PREFIX.as_bytes(),
            plane_key.as_ref(),
            &x.to_le_bytes(),
            &z.to_le_bytes(),
        ],
        &solana_program::pubkey::Pubkey::new_from_array(PROGRAM_ID),
    );
    address.to_bytes()
}

//
// tests
//

#[test]
fn test_initialise_land_plane_account() {
    let program_id = PROGRAM_ID;
    let land_plane_acc_key = key(7);
    let mut land_plane_acc = new_account(42, LAND_PLANE_ACC_DATA_LEN);
    let mut rent_sysvar = rent_sysvar();

    //
    // given account to be initialised is not rent exempt
    //
    assert_eq!(
        Err(LandError::NotRentExempt.into()),
        do_process_instruction(
            initialize_land_plane(&program_id, &land_plane_acc_key),
            vec![&mut land_plane_acc, &mut rent_sysvar]
        )
    );
    // correct rent
    land_plane_acc.lamports = land_plane_minimum_balance();

    // instruction completes successfully
    do_process_instruction(
        initialize_land_plane(&program_id, &land_plane_acc_key),
        vec![&mut land_plane_acc, &mut rent_sysvar],
    )
    .unwrap();

    //
    // trying to call initialise again fails
    //
    assert_eq!(
        Err(LandError::AlreadyInUse.into()),
        do_process_instruction(
            initialize_land_plane(&program_id, &land_plane_acc_key),
            vec![&mut land_plane_acc, &mut rent_sysvar]
        )
    );
}

#[test]
fn test_mint_next() {
    let program_id = PROGRAM_ID;

    let nft_assoc_token_acc_owner_acc_pubkey = key(1);
    let mut nft_assoc_token_acc_owner_acc = new_account(1, 0);

    let land_asset_acc_wrong_pubkey = key(2);
    let mut land_asset_acc = new_account(1, LAND_ASSET_ACC_DATA_LEN);

    let land_plane_acc_pubkey = key(3);
    let mut land_plane_acc = new_account(42, LAND_PLANE_ACC_DATA_LEN);

    let nft_assoc_token_acc_pubkey = key(4);
    let mut nft_assoc_token_acc = new_account(1, 0);

    let nft_mint_acc_pubkey = key(5);
    let mut nft_mint_acc = new_account(1, 0);

    //
    // land plane account not initialised
    //
    assert_eq!(
        Err(LandError::LandPlaneAccUninitialised.into()),
        do_process_instruction(
            mint_next(
                &program_id,
                &nft_assoc_token_acc_owner_acc_pubkey,
                &land_asset_acc_wrong_pubkey,
                &land_plane_acc_pubkey,
                &nft_assoc_token_acc_pubkey,
                &nft_mint_acc_pubkey,
            ),
            vec![
                &mut nft_assoc_token_acc_owner_acc,
                &mut land_asset_acc,
                &mut land_plane_acc,
                &mut nft_assoc_token_acc,
                &mut nft_mint_acc,
            ]
        )
    );

    // initialise land plane account
    let land_plane = LandPlane {
        version: LandPlaneVersion::V1,
        next_x: 100,
        next_z: 21,
        depth: 100,
    };
    land_plane_acc.data = land_plane.to_vec();

    //
    // invalid land asset acc key
    //
    assert_eq!(
        Err(LandError::InvalidLandAssetAccKey.into()),
        do_process_instruction(
            mint_next(
                &program_id,
                &nft_assoc_token_acc_owner_acc_pubkey,
                &land_asset_acc_wrong_pubkey,
                &land_plane_acc_pubkey,
                &nft_assoc_token_acc_pubkey,
                &nft_mint_acc_pubkey,
            ),
            vec![
                &mut nft_assoc_token_acc_owner_acc,
                &mut land_asset_acc,
                &mut land_plane_acc,
                &mut nft_assoc_token_acc,
                &mut nft_mint_acc,
            ]
        )
    );

    // generate correct land asset account for next piece of land
    let (land_asset_acc_pubkey, _) = solana_program::pubkey::Pubkey::find_program_address(
        &[
            LAND_ASSET_ACC_PREFIX.as_bytes(),
            land_plane_acc_pubkey.as_ref(),
            &land_plane.next_x.to_le_bytes(),
            &land_plane.next_z.to_le_bytes(),
        ],
        &solana_program::pubkey::Pubkey::new_from_array(program_id),
    );
    let land_asset_acc_pubkey = land_asset_acc_pubkey.to_bytes();

    //
    // land asset account not initialised
    //
    assert_eq!(
        Err(LandError::LandAssetAccUninitialised.into()),
        do_process_instruction(
            mint_next(
                &program_id,
                &nft_assoc_token_acc_owner_acc_pubkey,
                &land_asset_acc_pubkey,
                &land_plane_acc_pubkey,
                &nft_assoc_token_acc_pubkey,
                &nft_mint_acc_pubkey,
            ),
            vec![
                &mut nft_assoc_token_acc_owner_acc,
                &mut land_asset_acc,
                &mut land_plane_acc,
                &mut nft_assoc_token_acc,
                &mut nft_mint_acc,
            ]
        )
    );
}

#[test]
fn initialised_plane_is_the_fresh_plane() {
    let mut accounts = vec![
        new_account(land_plane_minimum_balance(), LAND_PLANE_ACC_DATA_LEN),
        rent_sysvar(),
    ];
    accounts[0].key = key(7);
    let before = accounts.clone();
    assert_eq!(
        Ok(()),
        process_initialise_land_plane(&mut accounts, Some(land_plane_minimum_balance()))
    );
    assert_eq!(
        LandPlane::from_account_info(&accounts[0]),
        Ok(LandPlane {
            version: LandPlaneVersion::V1,
            next_x: 0,
            next_z: 0,
            depth: 0,
        })
    );
    assert_eq!(
        accounts[0].data,
        vec![1, 0, 0, 0, 0, 0, 0, 0, 0, 0, 0, 0, 0, 0, 0, 0, 0, 0, 0, 0, 0, 0, 0, 0, 0]
    );
    assert_eq!(accounts[0].key, before[0].key);
    assert_eq!(accounts[0].lamports, before[0].lamports);
    assert_eq!(accounts[0].is_signer, before[0].is_signer);
    assert_eq!(accounts[1], before[1]);
}

#[test]
fn rent_threshold_is_the_ledgers() {
    // 128 bytes of overhead and 25 of record, 3480 lamports a byte and year, two years
    assert_eq!(land_plane_minimum_balance(), (128 + 25) * 3480 * 2);
    let threshold = land_plane_minimum_balance();

    let mut accounts = vec![
        new_account(threshold - 1, LAND_PLANE_ACC_DATA_LEN),
        rent_sysvar(),
    ];
    let before = accounts.clone();
    assert_eq!(
        Err(ProgramError::from(LandError::NotRentExempt)),
        process_initialise_land_plane(&mut accounts, Some(threshold))
    );
    assert_eq!(accounts, before);

    accounts[0].lamports = threshold;
    assert_eq!(
        Ok(()),
        process_initialise_land_plane(&mut accounts, Some(threshold))
    );

    let mut accounts = vec![
        new_account(threshold + 1, LAND_PLANE_ACC_DATA_LEN),
        rent_sysvar(),
    ];
    assert_eq!(
        Ok(()),
        process_initialise_land_plane(&mut accounts, Some(threshold))
    );
}

#[test]
fn second_initialisation_is_refused_and_changes_nothing() {
    let mut accounts = vec![new_account(100, LAND_PLANE_ACC_DATA_LEN), rent_sysvar()];
    assert_eq!(Ok(()), process_initialise_land_plane(&mut accounts, Some(100)));
    let after_first = accounts.clone();
    for later_minimum in vec![Some(0), Some(100), Some(u64::MAX), None] {
        assert_eq!(
            Err(ProgramError::from(LandError::AlreadyInUse)),
            process_initialise_land_plane(&mut accounts, later_minimum)
        );
        assert_eq!(accounts, after_first);
    }
}

#[test]
fn advanced_plane_cannot_be_initialised_again() {
    let mut plane = LandPlane {
        version: LandPlaneVersion::V1,
        next_x: 0,
        next_z: 0,
        depth: 0,
    };
    for _ in 0..5 {
        plane.increment_mint().unwrap();
    }
    let mut accounts = vec![new_account(100, LAND_PLANE_ACC_DATA_LEN), rent_sysvar()];
    accounts[0].data = plane.to_vec();
    let before = accounts.clone();
    assert_eq!(
        Err(ProgramError::from(LandError::AlreadyInUse)),
        process_initialise_land_plane(&mut accounts, Some(1))
    );
    assert_eq!(accounts, before);
}

#[test]
fn initialise_checks_come_in_order() {
    // too few accounts, whatever else is wrong
    let mut accounts = vec![new_account(0, 3)];
    assert_eq!(
        Err(ProgramError::NotEnoughAccountKeys),
        process_initialise_land_plane(&mut accounts, None)
    );
    let mut accounts: Vec<AccountInfo> = Vec::new();
    assert_eq!(
        Err(ProgramError::NotEnoughAccountKeys),
        process_initialise_land_plane(&mut accounts, Some(0))
    );

    // wrong size, before the rent is looked at
    for space in vec![0usize, 24, 26, 33] {
        let mut accounts = vec![new_account(0, space), rent_sysvar()];
        let before = accounts.clone();
        assert_eq!(
            Err(ProgramError::from(LandError::IncorrectDataSize)),
            process_initialise_land_plane(&mut accounts, None)
        );
        assert_eq!(accounts, before);
    }

    // a version byte that stands for nothing
    let mut accounts = vec![new_account(0, LAND_PLANE_ACC_DATA_LEN), rent_sysvar()];
    accounts[0].data[0] = 9;
    assert_eq!(
        Err(ProgramError::BorshIoError),
        process_initialise_land_plane(&mut accounts, Some(0))
    );

    // in use, before the rent is looked at
    let mut accounts = vec![new_account(0, LAND_PLANE_ACC_DATA_LEN), rent_sysvar()];
    accounts[0].data[0] = 1;
    assert_eq!(
        Err(ProgramError::from(LandError::AlreadyInUse)),
        process_initialise_land_plane(&mut accounts, None)
    );

    // no rent account to go by
    let mut accounts = vec![
        new_account(u64::MAX, LAND_PLANE_ACC_DATA_LEN),
        new_account(1, 0),
    ];
    let before = accounts.clone();
    assert_eq!(
        Err(ProgramError::InvalidArgument),
        process_initialise_land_plane(&mut accounts, None)
    );
    assert_eq!(accounts, before);
}

#[test]
fn initialise_through_a_request_without_rent_account() {
    let mut land_plane_acc = new_account(u64::MAX, LAND_PLANE_ACC_DATA_LEN);
    let mut not_rent = new_account(1, 0);
    let mut instruction = initialize_land_plane(&PROGRAM_ID, &key(7));
    instruction.accounts[1].pubkey = key(8);
    assert_eq!(
        Err(ProgramError::InvalidArgument),
        do_process_instruction(instruction, vec![&mut land_plane_acc, &mut not_rent])
    );
    assert_eq!(land_plane_acc.data, vec![0u8; LAND_PLANE_ACC_DATA_LEN]);
}

#[test]
fn initialise_land_asset_asks_nothing() {
    assert_eq!(Ok(()), process_initialise_land_asset(&[]));
    let mut accounts = vec![new_account(1, 5)];
    let before = accounts.clone();
    assert_eq!(Ok(()), process_initialise_land_asset(&accounts));
    assert_eq!(
        Ok(()),
        process_instruction(&PROGRAM_ID, &mut accounts, &[1], None)
    );
    assert_eq!(accounts, before);
}

#[test]
fn request_bytes_that_name_no_operation() {
    for input in vec![vec![], vec![3u8], vec![255u8], vec![0u8, 0u8], vec![2u8, 1u8]] {
        let mut accounts = vec![
            new_account(u64::MAX, LAND_PLANE_ACC_DATA_LEN),
            rent_sysvar(),
        ];
        let before = accounts.clone();
        assert_eq!(
            Err(ProgramError::BorshIoError),
            process_instruction(&PROGRAM_ID, &mut accounts, &input, Some(0))
        );
        assert_eq!(accounts, before);
    }
}

#[test]
fn mint_next_needs_five_accounts() {
    let plane = LandPlane {
        version: LandPlaneVersion::V1,
        next_x: 2,
        next_z: 1,
        depth: 2,
    };
    let mut accounts = mint_next_accounts(&plane, derived_by_the_ledger(&key(3), 2, 1));
    accounts.pop();
    assert_eq!(
        Err(ProgramError::NotEnoughAccountKeys),
        process_mint_next(&PROGRAM_ID, &accounts)
    );
    assert_eq!(
        Err(ProgramError::NotEnoughAccountKeys),
        process_mint_next(&PROGRAM_ID, &[])
    );
}

#[test]
fn mint_next_needs_the_owners_signature() {
    let plane = LandPlane {
        version: LandPlaneVersion::V1,
        next_x: 2,
        next_z: 1,
        depth: 2,
    };
    let mut accounts = mint_next_accounts(&plane, derived_by_the_ledger(&key(3), 2, 1));
    accounts[0].is_signer = false;
    // the signature is asked for first, before any record is read
    accounts[2].data = vec![7u8; 3];
    assert_eq!(
        Err(ProgramError::from(LandError::SignatureError)),
        process_mint_next(&PROGRAM_ID, &accounts)
    );
}

#[test]
fn mint_next_reads_the_plane_before_the_asset() {
    let plane = LandPlane {
        version: LandPlaneVersion::V1,
        next_x: 2,
        next_z: 1,
        depth: 2,
    };
    let mut accounts = mint_next_accounts(&plane, key(2));
    accounts[2].data = vec![1u8; 24];
    assert_eq!(
        Err(ProgramError::from(LandError::IncorrectDataSize)),
        process_mint_next(&PROGRAM_ID, &accounts)
    );
    accounts[2].data = vec![4u8; 25];
    assert_eq!(
        Err(ProgramError::BorshIoError),
        process_mint_next(&PROGRAM_ID, &accounts)
    );
    accounts[2].data = vec![0u8; 25];
    assert_eq!(
        Err(ProgramError::from(LandError::LandPlaneAccUninitialised)),
        process_mint_next(&PROGRAM_ID, &accounts)
    );
}

#[test]
fn mint_next_accepts_only_the_derived_address() {
    let plane = LandPlane {
        version: LandPlaneVersion::V1,
        next_x: 100,
        next_z: 21,
        depth: 100,
    };
    let derived = derived_by_the_ledger(&key(3), 100, 21);
    let initialised = LandAsset {
        version: LandAssetVersion::V1,
        mint_pubkey: key(5),
    };

    let mut accounts = mint_next_accounts(&plane, derived);
    initialised.pack_into_slice(&mut accounts[1].data);
    let before = accounts.clone();
    assert_eq!(Ok(()), process_mint_next(&PROGRAM_ID, &accounts));
    assert_eq!(
        Ok(()),
        process_instruction(&PROGRAM_ID, &mut accounts, &[2], None)
    );
    assert_eq!(accounts, before);

    // the addresses of other plots, of the same plot under another plane or
    // program, and an address that differs in one byte
    let mut near = derived;
    near[31] ^= 1;
    let others = vec![
        derived_by_the_ledger(&key(3), 21, 100),
        derived_by_the_ledger(&key(3), 100, 22),
        derived_by_the_ledger(&key(3), 99, 21),
        derived_by_the_ledger(&key(4), 100, 21),
        find_land_asset_address(&key(9), &key(3), 100, 21).unwrap(),
        key(3),
        near,
    ];
    for other in others {
        assert_ne!(other, derived);
        let mut accounts = mint_next_accounts(&plane, other);
        initialised.pack_into_slice(&mut accounts[1].data);
        assert_eq!(
            Err(ProgramError::from(LandError::InvalidLandAssetAccKey)),
            process_mint_next(&PROGRAM_ID, &accounts)
        );
    }
}

#[test]
fn mint_next_follows_the_cursor() {
    let mut plane = LandPlane {
        version: LandPlaneVersion::V1,
        next_x: 0,
        next_z: 0,
        depth: 0,
    };
    let initialised = LandAsset {
        version: LandAssetVersion::V1,
        mint_pubkey: key(5),
    };
    let mut previous: Option<Pubkey> = None;
    for _ in 0..4 {
        let derived = derived_by_the_ledger(&key(3), plane.next_x, plane.next_z);
        let mut accounts = mint_next_accounts(&plane, derived);
        initialised.pack_into_slice(&mut accounts[1].data);
        assert_eq!(Ok(()), process_mint_next(&PROGRAM_ID, &accounts));
        if let Some(previous) = previous {
            accounts[1].key = previous;
            assert_eq!(
                Err(ProgramError::from(LandError::InvalidLandAssetAccKey)),
                process_mint_next(&PROGRAM_ID, &accounts)
            );
        }
        previous = Some(derived);
        plane.increment_mint().unwrap();
    }
}

#[test]
fn land_asset_account_is_read_only_at_the_derived_address() {
    let derived = key(6);
    let mut land_asset_acc = new_account(1, LAND_ASSET_ACC_DATA_LEN);
    land_asset_acc.key = derived;

    assert_eq!(
        Err(ProgramError::from(LandError::LandAssetAccUninitialised)),
        check_land_asset_acc(&land_asset_acc, Some(derived))
    );
    assert_eq!(
        Err(ProgramError::from(LandError::InvalidLandAssetAccKey)),
        check_land_asset_acc(&land_asset_acc, Some(key(7)))
    );
    assert_eq!(
        Err(ProgramError::from(LandError::InvalidLandAssetAccKey)),
        check_land_asset_acc(&land_asset_acc, None)
    );

    land_asset_acc.data = vec![1u8; 32];
    assert_eq!(
        Err(ProgramError::from(LandError::IncorrectDataSize)),
        check_land_asset_acc(&land_asset_acc, Some(derived))
    );
    assert_eq!(
        Err(ProgramError::from(LandError::InvalidLandAssetAccKey)),
        check_land_asset_acc(&land_asset_acc, Some(key(7)))
    );

    land_asset_acc.data = vec![3u8; 33];
    assert_eq!(
        Err(ProgramError::BorshIoError),
        check_land_asset_acc(&land_asset_acc, Some(derived))
    );

    land_asset_acc.data = vec![1u8; 33];
    assert_eq!(Ok(()), check_land_asset_acc(&land_asset_acc, Some(derived)));
}

#[test]
fn system_program_address_is_not_a_plot() {
    let plane = LandPlane {
        version: LandPlaneVersion::V1,
        next_x: 0,
        next_z: 0,
        depth: 0,
    };
    let accounts = mint_next_accounts(&plane, system_program_id());
    assert_eq!(
        Err(ProgramError::from(LandError::InvalidLandAssetAccKey)),
        process_mint_next(&PROGRAM_ID, &accounts)
    );
}
