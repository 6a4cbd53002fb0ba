//! The requests that the land program takes, and how a client puts them
//! together.

use crate::account::Pubkey;
use crate::error::ProgramError;
use vstd::prelude::*;

verus! {

/// The operations of the land program.
#[derive(Clone, Copy, Debug, PartialEq, Eq, Structural)]
pub enum LandInstruction {
    /// Initialise a land plane account.
    ///
    /// No signature is required, so the request belongs in the transaction
    /// that creates the account: otherwise anyone may initialise it.
    ///
    /// Accounts, in order: the land plane account to initialise (writable);
    /// the rent account.
    InitialiseLandPlane,
    /// Initialise a land asset account, before it is used to mint a plot.
    ///
    /// Accounts, in order: the payer of the rent (signer); the land asset
    /// account, at the address derived for its plot (writable); the system
    /// program; the rent account.
    InitialiseLandAsset,
    /// Mint the next plot of a plane to the holder of a token.
    ///
    /// Accounts, in order: the owner of the account that holds the token
    /// (signer); the land asset account of the next plot (writable); the land
    /// plane account (writable); the account that holds the token; the mint
    /// of the token.
    MintNext,
}

impl LandInstruction {
    /// The byte that stands for this operation in a request.
    pub open spec fn tag(self) -> u8 {
        match self {
            LandInstruction::InitialiseLandPlane => 0,
            LandInstruction::InitialiseLandAsset => 1,
            LandInstruction::MintNext => 2,
        }
    }

    /// The bytes of a request for this operation.
    pub open spec fn encoding(self) -> Seq<u8> {
        seq![self.tag()]
    }

    /// The operation that the bytes of a request ask for: they are the one
    /// byte of an operation, with nothing before or behind it.
    pub open spec fn decode(input: Seq<u8>) -> Result<LandInstruction, ProgramError> {
        if input.len() != 1 {
            Err(ProgramError::BorshIoError)
        } else if input[0] == 0 {
            Ok(LandInstruction::InitialiseLandPlane)
        } else if input[0] == 1 {
            Ok(LandInstruction::InitialiseLandAsset)
        } else if input[0] == 2 {
            Ok(LandInstruction::MintNext)
        } else {
            Err(ProgramError::BorshIoError)
        }
    }

    /// Reads the operation that the bytes of a request ask for.
    pub fn try_from_slice(input: &[u8]) -> (result: Result<LandInstruction, ProgramError>)
        ensures
            result == LandInstruction::decode(input@),
    {
        if input.len() != 1 {
            return Err(ProgramError::BorshIoError);
        }
        let tag = input[0];
        if tag == 0 {
            Ok(LandInstruction::InitialiseLandPlane)
        } else if tag == 1 {
            Ok(LandInstruction::InitialiseLandAsset)
        } else if tag == 2 {
            Ok(LandInstruction::MintNext)
        } else {
            Err(ProgramError::BorshIoError)
        }
    }

    /// The bytes of a request for this operation.
    pub fn to_vec(&self) -> (bytes: Vec<u8>)
        ensures
            bytes@ == self.encoding(),
    {
        let tag: u8 = match self {
            LandInstruction::InitialiseLandPlane => 0,
            LandInstruction::InitialiseLandAsset => 1,
            LandInstruction::MintNext => 2,
        };
        let mut bytes: Vec<u8> = Vec::new();
        bytes.push(tag);
        bytes
    }
}

/// An operation is read back from the bytes of its request, and only those
/// bytes ask for it.
pub proof fn lemma_instruction_round_trip(instruction: LandInstruction, input: Seq<u8>)
    ensures
        LandInstruction::decode(instruction.encoding()) == Ok::<LandInstruction, ProgramError>(
            instruction,
        ),
        LandInstruction::decode(input) == Ok::<LandInstruction, ProgramError>(instruction)
            <==> input == instruction.encoding(),
{
    if LandInstruction::decode(input) == Ok::<LandInstruction, ProgramError>(instruction) {
        assert(input =~= instruction.encoding());
    }
}

/// An account that a request names, and what the request asks of it.
#[derive(Clone, Copy, Debug, PartialEq, Eq)]
pub struct AccountMeta {
    pub pubkey: Pubkey,
    pub is_signer: bool,
    pub is_writable: bool,
}

/// An account of a request as a mathematical value.
pub struct AccountMetaView {
    pub pubkey: Seq<u8>,
    pub is_signer: bool,
    pub is_writable: bool,
}

impl View for AccountMeta {
    type V = AccountMetaView;

    open spec fn view(&self) -> AccountMetaView {
        AccountMetaView {
            pubkey: self.pubkey@,
            is_signer: self.is_signer,
            is_writable: self.is_writable,
        }
    }
}

impl DeepView for AccountMeta {
    type V = AccountMetaView;

    open spec fn deep_view(&self) -> AccountMetaView {
        self.view()
    }
}

impl AccountMeta {
    /// An account that the request may write to.
    pub fn new(pubkey: Pubkey, is_signer: bool) -> (meta: AccountMeta)
        ensures
            meta@ == (AccountMetaView { pubkey: pubkey@, is_signer, is_writable: true }),
    {
        AccountMeta { pubkey, is_signer, is_writable: true }
    }

    /// An account that the request only reads.
    pub fn new_readonly(pubkey: Pubkey, is_signer: bool) -> (meta: AccountMeta)
        ensures
            meta@ == (AccountMetaView { pubkey: pubkey@, is_signer, is_writable: false }),
    {
        AccountMeta { pubkey, is_signer, is_writable: false }
    }
}

/// A request to a program: the program's address, the accounts it is to
/// work on, and the bytes that say what to do.
#[derive(Clone, Debug, PartialEq, Eq)]
pub struct Instruction {
    pub program_id: Pubkey,
    pub accounts: Vec<AccountMeta>,
    pub data: Vec<u8>,
}

/// A request as a mathematical value.
pub struct InstructionView {
    pub program_id: Seq<u8>,
    pub accounts: Seq<AccountMetaView>,
    pub data: Seq<u8>,
}

impl View for Instruction {
    type V = InstructionView;

    open spec fn view(&self) -> InstructionView {
        InstructionView {
            program_id: self.program_id@,
            accounts: self.accounts.deep_view(),
            data: self.data@,
        }
    }
}

/// The address of the ledger's rent account.
pub open spec fn rent_sysvar_id() -> Seq<u8> {
    seq![
        6, 167, 213, 23, 25, 44, 92, 81, 33, 140, 201, 76, 61, 74, 241, 127,
        88, 218, 238, 8, 155, 161, 253, 68, 227, 219, 217, 138, 0, 0, 0, 0,
    ]
}

/// Calls `solana_program::sysvar::rent::id`.
///
/// Nothing is proved of it. The contract claims that the address it returns
/// is the 32 bytes for which the crate's declaration
/// `SysvarRent111111111111111111111111111111111` is the base-58 notation.
#[verifier::external_body]
fn rent_id() -> (id: Pubkey)
    ensures
        id@ == rent_sysvar_id(),
{
    solana_program::sysvar::rent::id().to_bytes()
}

/// The request that initialises a land plane, as a mathematical value.
pub open spec fn initialize_land_plane_request(
    land_program_acc_pubkey: Seq<u8>,
    land_plane_acc_pubkey: Seq<u8>,
) -> InstructionView {
    InstructionView {
        program_id: land_program_acc_pubkey,
        accounts: seq![
            AccountMetaView { pubkey: land_plane_acc_pubkey, is_signer: false, is_writable: true },
            AccountMetaView { pubkey: rent_sysvar_id(), is_signer: false, is_writable: false },
        ],
        data: LandInstruction::InitialiseLandPlane.encoding(),
    }
}

/// Creates an `InitialiseLandPlane` request to the land program at
/// `land_program_acc_pubkey`, for the plane at `land_plane_acc_pubkey`.
pub fn initialize_land_plane(
    land_program_acc_pubkey: &Pubkey,
    land_plane_acc_pubkey: &Pubkey,
) -> (instruction: Instruction)
    ensures
        instruction@ == initialize_land_plane_request(
            land_program_acc_pubkey@,
            land_plane_acc_pubkey@,
        ),
{
    let data = LandInstruction::InitialiseLandPlane.to_vec();
    let mut accounts: Vec<AccountMeta> = Vec::new();
    accounts.push(AccountMeta::new(*land_plane_acc_pubkey, false));
    accounts.push(AccountMeta::new_readonly(rent_id(), false));
    let instruction = Instruction { program_id: *land_program_acc_pubkey, accounts, data };
    assert(instruction@.accounts =~= initialize_land_plane_request(
        land_program_acc_pubkey@,
        land_plane_acc_pubkey@,
    ).accounts);
    instruction
}

/// The request that mints the next plot of a plane, as a mathematical value.
pub open spec fn mint_next_request(
    land_program_acc_pubkey: Seq<u8>,
    nft_assoc_token_acc_owner_pubkey: Seq<u8>,
    land_asset_acc_pubkey: Seq<u8>,
    land_plane_acc_pubkey: Seq<u8>,
    nft_assoc_token_acc_pubkey: Seq<u8>,
    nft_mint_acc_pubkey: Seq<u8>,
) -> InstructionView {
    InstructionView {
        program_id: land_program_acc_pubkey,
        accounts: seq![
            AccountMetaView {
                pubkey: nft_assoc_token_acc_owner_pubkey,
                is_signer: true,
                is_writable: false,
            },
            AccountMetaView { pubkey: land_asset_acc_pubkey, is_signer: false, is_writable: true },
            AccountMetaView { pubkey: land_plane_acc_pubkey, is_signer: false, is_writable: true },
            AccountMetaView {
                pubkey: nft_assoc_token_acc_pubkey,
                is_signer: false,
                is_writable: false,
            },
            AccountMetaView { pubkey: nft_mint_acc_pubkey, is_signer: false, is_writable: false },
        ],
        data: LandInstruction::MintNext.encoding(),
    }
}

/// Creates a `MintNext` request to the land program at
/// `land_program_acc_pubkey`.
///
/// * `nft_assoc_token_acc_owner_pubkey`: the owner of the account that holds
///   the token; signs the request, to confirm that the plot is to go with
///   the token.
/// * `land_asset_acc_pubkey`: the account of the next plot, at the address
///   derived for it (writable).
/// * `land_plane_acc_pubkey`: the plane from which the plot is minted
///   (writable).
/// * `nft_assoc_token_acc_pubkey`: the account that holds the token.
/// * `nft_mint_acc_pubkey`: the mint of the token.
pub fn mint_next(
    land_program_acc_pubkey: &Pubkey,
    nft_assoc_token_acc_owner_pubkey: &Pubkey,
    land_asset_acc_pubkey: &Pubkey,
    land_plane_acc_pubkey: &Pubkey,
    nft_assoc_token_acc_pubkey: &Pubkey,
    nft_mint_acc_pubkey: &Pubkey,
) -> (instruction: Instruction)
    ensures
        instruction@ == mint_next_request(
            land_program_acc_pubkey@,
            nft_assoc_token_acc_owner_pubkey@,
            land_asset_acc_pubkey@,
            land_plane_acc_pubkey@,
            nft_assoc_token_acc_pubkey@,
            nft_mint_acc_pubkey@,
        ),
{
    let data = LandInstruction::MintNext.to_vec();
    let mut accounts: Vec<AccountMeta> = Vec::new();
    accounts.push(AccountMeta::new_readonly(*nft_assoc_token_acc_owner_pubkey, true));
    accounts.push(AccountMeta::new(*land_asset_acc_pubkey, false));
    accounts.push(AccountMeta::new(*land_plane_acc_pubkey, false));
    accounts.push(AccountMeta::new_readonly(*nft_assoc_token_acc_pubkey, false));
    accounts.push(AccountMeta::new_readonly(*nft_mint_acc_pubkey, false));
    let instruction = Instruction { program_id: *land_program_acc_pubkey, accounts, data };
    assert(instruction@.accounts =~= mint_next_request(
        land_program_acc_pubkey@,
        nft_assoc_token_acc_owner_pubkey@,
        land_asset_acc_pubkey@,
        land_plane_acc_pubkey@,
        nft_assoc_token_acc_pubkey@,
        nft_mint_acc_pubkey@,
    ).accounts);
    instruction
}

} // verus!
