use land::utils::{create_or_allocate_account_raw, AccountSetupStep};

#[test]
fn underfunded_account_is_topped_up_first() {
    assert_eq!(
        create_or_allocate_account_raw(1_064_880, 42, 25),
        vec![
            AccountSetupStep::Transfer { lamports: 1_064_838 },
            AccountSetupStep::Allocate { space: 25 },
            AccountSetupStep::Assign,
        ]
    );
}

#[test]
fn funded_account_gets_no_transfer() {
    let steps = vec![
        AccountSetupStep::Allocate { space: 33 },
        AccountSetupStep::Assign,
    ];
    assert_eq!(create_or_allocate_account_raw(100, 100, 33), steps);
    assert_eq!(create_or_allocate_account_raw(100, 101, 33), steps);
    assert_eq!(create_or_allocate_account_raw(0, 1, 33), steps);
    assert_eq!(create_or_allocate_account_raw(u64::MAX, u64::MAX, 33), steps);
}

#[test]
fn an_account_holds_one_lamport_at_least() {
    assert_eq!(
        create_or_allocate_account_raw(0, 0, 0),
        vec![
            AccountSetupStep::Transfer { lamports: 1 },
            AccountSetupStep::Allocate { space: 0 },
            AccountSetupStep::Assign,
        ]
    );
    assert_eq!(
        create_or_allocate_account_raw(u64::MAX, 0, usize::MAX),
        vec![
            AccountSetupStep::Transfer { lamports: u64::MAX },
            AccountSetupStep::Allocate { space: usize::MAX as u64 },
            AccountSetupStep::Assign,
        ]
    );
}
