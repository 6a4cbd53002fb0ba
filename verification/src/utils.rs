//! What it takes to set up an account for a record of the land program.

use vstd::prelude::*;

verus! {

/// One request to the system program in the course of setting up an account.
#[derive(Clone, Copy, Debug, PartialEq, Eq, Structural)]
pub enum AccountSetupStep {
    /// The payer transfers this many lamports to the new account.
    Transfer { lamports: u64 },
    /// The new account is given room for this many bytes.
    Allocate { space: u64 },
    /// The new account is assigned to the program that is to own it.
    Assign,
}

/// The lamports that a new account lacks: what it needs to be exempt from
/// rent, and one lamport at the least, less what it already holds.
pub open spec fn required_lamports(rent_minimum: u64, lamports: u64) -> int {
    let needed: int = if rent_minimum >= 1 {
        rent_minimum as int
    } else {
        1
    };
    if needed >= lamports {
        needed - lamports
    } else {
        0
    }
}

/// The requests that set up an account, in the order in which they are to be
/// made: a transfer if the account lacks lamports, then the allocation of
/// its space, then its assignment to the owning program.
pub open spec fn account_setup_steps(rent_minimum: u64, lamports: u64, size: usize) -> Seq<
    AccountSetupStep,
> {
    let funding = if required_lamports(rent_minimum, lamports) > 0 {
        seq![
            AccountSetupStep::Transfer {
                lamports: required_lamports(rent_minimum, lamports) as u64,
            },
        ]
    } else {
        seq![]
    };
    funding + seq![AccountSetupStep::Allocate { space: size as u64 }, AccountSetupStep::Assign]
}

/// Plans the setting up of an account that is to hold `size` bytes.
///
/// `rent_minimum` is the least balance that exempts an account of that size
/// from rent and `lamports` the balance that the account holds already. The
/// steps are to be carried out in order, and none after one that failed.
pub fn create_or_allocate_account_raw(rent_minimum: u64, lamports: u64, size: usize) -> (steps:
    Vec<AccountSetupStep>)
    ensures
        steps@ == account_setup_steps(rent_minimum, lamports, size),
{
    let needed: u64 = if rent_minimum >= 1 {
        rent_minimum
    } else {
        1
    };
    let required: u64 = if needed >= lamports {
        needed - lamports
    } else {
        0
    };
    let mut steps: Vec<AccountSetupStep> = Vec::new();
    if required > 0 {
        steps.push(AccountSetupStep::Transfer { lamports: required });
    }
    steps.push(AccountSetupStep::Allocate { space: size as u64 });
    steps.push(AccountSetupStep::Assign);
    assert(steps@ =~= account_setup_steps(rent_minimum, lamports, size));
    steps
}

} // verus!
