//! Addresses and accounts as the land program sees them.

use vstd::prelude::*;

verus! {

/// The address of an account on the ledger.
pub type Pubkey = [u8; 32];

/// An account handed to the program with a request: its address, whether its
/// holder signed the request, the balance it holds and the bytes it stores.
#[derive(Clone, Debug, PartialEq, Eq)]
pub struct AccountInfo {
    pub key: Pubkey,
    pub is_signer: bool,
    pub lamports: u64,
    pub data: Vec<u8>,
}

/// An account as a mathematical value.
pub struct AccountView {
    pub key: Seq<u8>,
    pub is_signer: bool,
    pub lamports: u64,
    pub data: Seq<u8>,
}

impl View for AccountInfo {
    type V = AccountView;

    open spec fn view(&self) -> AccountView {
        AccountView {
            key: self.key@,
            is_signer: self.is_signer,
            lamports: self.lamports,
            data: self.data@,
        }
    }
}

impl DeepView for AccountInfo {
    type V = AccountView;

    open spec fn deep_view(&self) -> AccountView {
        self.view()
    }
}

/// Whether two addresses are the same, byte for byte.
pub fn pubkey_eq(a: &Pubkey, b: &Pubkey) -> (same: bool)
    ensures
        same == (a@ == b@),
{
    let mut i: usize = 0;
    while i < 32
        invariant
            i <= 32,
            forall|j: int| 0 <= j < i ==> a@[j] == b@[j],
        decreases 32 - i,
    {
        if a[i] != b[i] {
            return false;
        }
        i += 1;
    }
    assert(a@ =~= b@);
    true
}

} // verus!
