//! The two records of the land program and their byte layouts.
//!
//! A land plane record holds the cursor of the allocation: the coordinates of
//! the plot that is handed out next and the radius of the ring that is being
//! filled. A land asset record binds one plot to the mint of the token that
//! owns it. Both are stored with a leading version byte and little-endian
//! integers, in a fixed number of bytes.

use crate::account::{AccountInfo, Pubkey};
use crate::error::{LandError, ProgramError, ProgramResult};
use vstd::bytes::{
    lemma_auto_spec_u64_to_from_le_bytes, spec_u64_from_le_bytes, spec_u64_to_le_bytes,
    u64_from_le_bytes, u64_to_le_bytes,
};
use vstd::prelude::*;
use vstd::slice::slice_subrange;

verus! {

/// The number of bytes of a land plane record: the version byte and three
/// integers of eight bytes.
pub const LAND_PLANE_ACC_DATA_LEN: usize = 1 + 8 + 8 + 8;

/// The tag from which the addresses of land asset accounts are derived.
pub const LAND_ASSET_ACC_PREFIX: &'static str = "solsspace-land";

/// The number of bytes of a land asset record: the version byte and the
/// address of a mint.
pub const LAND_ASSET_ACC_DATA_LEN: usize = 1 + 32;

/// Whether a land plane record has been initialised, and in which layout.
#[derive(Clone, Copy, Debug, PartialEq, Eq, Structural)]
pub enum LandPlaneVersion {
    Uninitialised,
    V1,
}

impl LandPlaneVersion {
    /// The byte that stands for this version in a record.
    pub open spec fn tag(self) -> u8 {
        match self {
            LandPlaneVersion::Uninitialised => 0,
            LandPlaneVersion::V1 => 1,
        }
    }

    /// The version that a byte stands for, if any.
    pub open spec fn from_tag(tag: u8) -> Option<LandPlaneVersion> {
        if tag == 0 {
            Some(LandPlaneVersion::Uninitialised)
        } else if tag == 1 {
            Some(LandPlaneVersion::V1)
        } else {
            None
        }
    }
}

/// The cursor of a plane: the plot that is handed out next, and the radius
/// of the ring that is being filled.
#[derive(Clone, Copy, Debug, PartialEq, Eq, Structural)]
pub struct LandPlane {
    pub version: LandPlaneVersion,
    pub next_x: u64,
    pub next_z: u64,
    pub depth: u64,
}

impl LandPlane {
    /// The plane as initialisation leaves it: the plot at the origin is next.
    pub open spec fn initial() -> LandPlane {
        LandPlane { version: LandPlaneVersion::V1, next_x: 0, next_z: 0, depth: 0 }
    }

    /// The cursor lies on the ring of its depth: neither coordinate exceeds
    /// the depth and at least one of them equals it.
    pub open spec fn on_ring(self) -> bool {
        &&& self.next_x <= self.depth
        &&& self.next_z <= self.depth
        &&& (self.next_x == self.depth || self.next_z == self.depth)
    }

    /// What holds of every plane that was initialised and then only ever
    /// advanced: the cursor of an initialised plane lies on its ring.
    pub open spec fn wf(self) -> bool {
        self.version == LandPlaneVersion::V1 ==> self.on_ring()
    }

    /// The cursor stands on the last plot of its ring.
    pub open spec fn ring_complete(self) -> bool {
        self.next_z >= self.depth && self.next_x == 0
    }

    /// The cursor stands on the last plot of the last ring: no plot is left
    /// to hand out after it.
    pub open spec fn exhausted(self) -> bool {
        self.ring_complete() && self.depth == u64::MAX
    }

    /// The plane after the next plot has been handed out. A ring is walked up
    /// its edge of greatest `x` and then back along its edge of greatest `z`;
    /// after its last plot the next ring begins. An exhausted plane stays as
    /// it is.
    pub open spec fn successor(self) -> LandPlane {
        if self.next_z < self.depth {
            LandPlane { next_z: (self.next_z + 1) as u64, ..self }
        } else if self.next_x > 0 {
            LandPlane { next_x: (self.next_x - 1) as u64, ..self }
        } else if self.depth < u64::MAX {
            LandPlane {
                depth: (self.depth + 1) as u64,
                next_x: (self.depth + 1) as u64,
                next_z: 0,
                ..self
            }
        } else {
            self
        }
    }

    /// How many plots come before the cursor in the order of allocation: the
    /// whole square inside the ring, and the part of the ring already walked.
    pub open spec fn ordinal(self) -> int {
        self.depth * self.depth + self.next_z + (self.depth - self.next_x)
    }

    /// Moves the cursor to the plot that is handed out after the current one.
    ///
    /// Fails with `LandComplete`, and leaves the plane as it is, exactly when
    /// no plot is left. Is to be called on an initialised plane only.
    pub fn increment_mint(&mut self) -> (result: ProgramResult)
        requires
            old(self).version == LandPlaneVersion::V1,
        ensures
            *final(self) == old(self).successor(),
            result == if old(self).exhausted() {
                Err::<(), ProgramError>(LandError::LandComplete.reported())
            } else {
                Ok::<(), ProgramError>(())
            },
            old(self).wf() ==> final(self).wf(),
            old(self).wf() && result is Ok ==> final(self).ordinal() == old(self).ordinal() + 1,
            final(self).depth >= old(self).depth,
            final(self).depth == old(self).depth + 1 <==> old(self).ring_complete()
                && result is Ok,
            final(self).depth != old(self).depth ==> final(self).depth == old(self).depth + 1,
    {
        if self.next_z < self.depth {
            self.next_z = self.next_z + 1;
            return Ok(());
        }
        if self.next_x > 0 {
            self.next_x = self.next_x - 1;
            return Ok(());
        }
        if self.depth == u64::MAX {
            return Err(ProgramError::from(LandError::LandComplete));
        }
        proof {
            lemma_ring_start(old(self).depth as int);
        }
        self.depth = self.depth + 1;
        self.next_x = self.depth;
        self.next_z = 0;
        Ok(())
    }

    /// The bytes of the record that holds this plane.
    pub open spec fn encoding(self) -> Seq<u8> {
        seq![self.version.tag()] + spec_u64_to_le_bytes(self.next_x) + spec_u64_to_le_bytes(
            self.next_z,
        ) + spec_u64_to_le_bytes(self.depth)
    }

    /// The plane that a record's bytes hold. Bytes of any other length than
    /// the record's are refused as a whole; a version byte that stands for no
    /// version does not decode.
    pub open spec fn decode(bytes: Seq<u8>) -> Result<LandPlane, ProgramError> {
        if bytes.len() != LAND_PLANE_ACC_DATA_LEN {
            Err(LandError::IncorrectDataSize.reported())
        } else {
            match LandPlaneVersion::from_tag(bytes[0]) {
                None => Err(ProgramError::BorshIoError),
                Some(version) => Ok(
                    LandPlane {
                        version,
                        next_x: spec_u64_from_le_bytes(bytes.subrange(1, 9)),
                        next_z: spec_u64_from_le_bytes(bytes.subrange(9, 17)),
                        depth: spec_u64_from_le_bytes(bytes.subrange(17, 25)),
                    },
                ),
            }
        }
    }

    /// Reads a plane from the bytes of its record.
    pub fn unpack_from_slice(data: &[u8]) -> (result: Result<LandPlane, ProgramError>)
        ensures
            result == LandPlane::decode(data@),
    {
        if data.len() != LAND_PLANE_ACC_DATA_LEN {
            return Err(ProgramError::from(LandError::IncorrectDataSize));
        }
        let version = if data[0] == 0 {
            LandPlaneVersion::Uninitialised
        } else if data[0] == 1 {
            LandPlaneVersion::V1
        } else {
            return Err(ProgramError::BorshIoError);
        };
        let next_x = u64_from_le_bytes(slice_subrange(data, 1, 9));
        let next_z = u64_from_le_bytes(slice_subrange(data, 9, 17));
        let depth = u64_from_le_bytes(slice_subrange(data, 17, 25));
        Ok(LandPlane { version, next_x, next_z, depth })
    }

    /// Reads a plane from the account that stores it.
    pub fn from_account_info(a: &AccountInfo) -> (result: Result<LandPlane, ProgramError>)
        ensures
            result == LandPlane::decode(a@.data),
    {
        LandPlane::unpack_from_slice(a.data.as_slice())
    }

    /// The bytes of the record that holds this plane.
    pub fn to_vec(&self) -> (bytes: Vec<u8>)
        ensures
            bytes@ == self.encoding(),
            bytes@.len() == LAND_PLANE_ACC_DATA_LEN,
    {
        let mut bytes: Vec<u8> = Vec::new();
        bytes.push(
            match self.version {
                LandPlaneVersion::Uninitialised => 0,
                LandPlaneVersion::V1 => 1,
            },
        );
        let mut next_x = u64_to_le_bytes(self.next_x);
        let mut next_z = u64_to_le_bytes(self.next_z);
        let mut depth = u64_to_le_bytes(self.depth);
        bytes.append(&mut next_x);
        bytes.append(&mut next_z);
        bytes.append(&mut depth);
        proof {
            lemma_auto_spec_u64_to_from_le_bytes();
            assert(bytes@ =~= self.encoding());
        }
        bytes
    }
}

/// Whether a land asset record has been initialised, and in which layout.
#[derive(Clone, Copy, Debug, PartialEq, Eq, Structural)]
pub enum LandAssetVersion {
    Uninitialised,
    V1,
}

impl LandAssetVersion {
    /// The byte that stands for this version in a record.
    pub open spec fn tag(self) -> u8 {
        match self {
            LandAssetVersion::Uninitialised => 0,
            LandAssetVersion::V1 => 1,
        }
    }

    /// The version that a byte stands for, if any.
    pub open spec fn from_tag(tag: u8) -> Option<LandAssetVersion> {
        if tag == 0 {
            Some(LandAssetVersion::Uninitialised)
        } else if tag == 1 {
            Some(LandAssetVersion::V1)
        } else {
            None
        }
    }
}

/// One plot of a plane: the mint of the token that owns it, once the record
/// is initialised.
#[derive(Clone, Copy, Debug, PartialEq, Eq)]
pub struct LandAsset {
    pub version: LandAssetVersion,
    pub mint_pubkey: Pubkey,
}

/// A land asset as a mathematical value.
pub struct LandAssetView {
    pub version: LandAssetVersion,
    pub mint_pubkey: Seq<u8>,
}

impl View for LandAsset {
    type V = LandAssetView;

    open spec fn view(&self) -> LandAssetView {
        LandAssetView { version: self.version, mint_pubkey: self.mint_pubkey@ }
    }
}

impl LandAssetView {
    /// The bytes of the record that holds this asset.
    pub open spec fn encoding(self) -> Seq<u8> {
        seq![self.version.tag()] + self.mint_pubkey
    }
}

impl LandAsset {
    /// The asset that a record's bytes hold. Bytes of any other length than
    /// the record's are refused as a whole; a version byte that stands for no
    /// version does not decode.
    pub open spec fn decode(bytes: Seq<u8>) -> Result<LandAssetView, ProgramError> {
        if bytes.len() != LAND_ASSET_ACC_DATA_LEN {
            Err(LandError::IncorrectDataSize.reported())
        } else {
            match LandAssetVersion::from_tag(bytes[0]) {
                None => Err(ProgramError::BorshIoError),
                Some(version) => Ok(
                    LandAssetView { version, mint_pubkey: bytes.subrange(1, 33) },
                ),
            }
        }
    }

    /// Reads an asset from the bytes of its record.
    pub fn unpack_from_slice(data: &[u8]) -> (result: Result<LandAsset, ProgramError>)
        ensures
            match result {
                Ok(asset) => LandAsset::decode(data@) == Ok::<LandAssetView, ProgramError>(asset@),
                Err(e) => LandAsset::decode(data@) == Err::<LandAssetView, ProgramError>(e),
            },
    {
        if data.len() != LAND_ASSET_ACC_DATA_LEN {
            return Err(ProgramError::from(LandError::IncorrectDataSize));
        }
        let version = if data[0] == 0 {
            LandAssetVersion::Uninitialised
        } else if data[0] == 1 {
            LandAssetVersion::V1
        } else {
            return Err(ProgramError::BorshIoError);
        };
        let mut mint_pubkey: Pubkey = [0u8; 32];
        let mut i: usize = 0;
        while i < 32
            invariant
                i <= 32,
                data@.len() == 33,
                forall|j: int| 0 <= j < i ==> mint_pubkey@[j] == data@[1 + j],
            decreases 32 - i,
        {
            mint_pubkey[i] = data[1 + i];
            i += 1;
        }
        assert(mint_pubkey@ =~= data@.subrange(1, 33));
        Ok(LandAsset { version, mint_pubkey })
    }

    /// Reads an asset from the account that stores it.
    pub fn from_account_info(a: &AccountInfo) -> (result: Result<LandAsset, ProgramError>)
        ensures
            match result {
                Ok(asset) => LandAsset::decode(a@.data) == Ok::<LandAssetView, ProgramError>(
                    asset@,
                ),
                Err(e) => LandAsset::decode(a@.data) == Err::<LandAssetView, ProgramError>(e),
            },
    {
        LandAsset::unpack_from_slice(a.data.as_slice())
    }

    /// Writes the record that holds this asset over the first bytes of `dst`,
    /// which has room for it, and leaves the bytes behind the record alone.
    pub fn pack_into_slice(&self, dst: &mut [u8])
        requires
            old(dst)@.len() >= LAND_ASSET_ACC_DATA_LEN,
        ensures
            final(dst)@ == self@.encoding() + old(dst)@.subrange(
                LAND_ASSET_ACC_DATA_LEN as int,
                old(dst)@.len() as int,
            ),
    {
        dst[0] = match self.version {
            LandAssetVersion::Uninitialised => 0,
            LandAssetVersion::V1 => 1,
        };
        let mut i: usize = 0;
        while i < 32
            invariant
                i <= 32,
                dst@.len() == old(dst)@.len(),
                dst@.len() >= 33,
                dst@[0] == self@.version.tag(),
                forall|j: int| 0 <= j < i ==> dst@[1 + j] == self.mint_pubkey@[j],
                forall|j: int| 33 <= j < dst@.len() ==> dst@[j] == old(dst)@[j],
            decreases 32 - i,
        {
            dst[1 + i] = self.mint_pubkey[i];
            i += 1;
        }
        assert(dst@ =~= self@.encoding() + old(dst)@.subrange(33, old(dst)@.len() as int));
    }
}

/// The first plot of a ring comes right after the last plot of the ring
/// inside it: the square of side `depth + 1` holds `2 * depth + 1` plots more
/// than the square of side `depth`.
pub proof fn lemma_ring_start(depth: int)
    ensures
        (depth + 1) * (depth + 1) == depth * depth + 2 * depth + 1,
{
    assert((depth + 1) * (depth + 1) == depth * depth + 2 * depth + 1) by (nonlinear_arith);
}

/// A plane is read back from its record as it was written.
pub proof fn lemma_decode_encoding(plane: LandPlane)
    ensures
        plane.encoding().len() == LAND_PLANE_ACC_DATA_LEN,
        LandPlane::decode(plane.encoding()) == Ok::<LandPlane, ProgramError>(plane),
{
    lemma_auto_spec_u64_to_from_le_bytes();
    let bytes = plane.encoding();
    assert(bytes.subrange(1, 9) =~= spec_u64_to_le_bytes(plane.next_x));
    assert(bytes.subrange(9, 17) =~= spec_u64_to_le_bytes(plane.next_z));
    assert(bytes.subrange(17, 25) =~= spec_u64_to_le_bytes(plane.depth));
}

/// A record that decodes holds nothing but the plane: writing the plane back
/// gives the same bytes.
pub proof fn lemma_encoding_decode(bytes: Seq<u8>)
    requires
        LandPlane::decode(bytes) is Ok,
    ensures
        LandPlane::decode(bytes)->Ok_0.encoding() == bytes,
{
    lemma_auto_spec_u64_to_from_le_bytes();
    let plane = LandPlane::decode(bytes)->Ok_0;
    assert(bytes.subrange(1, 9).len() == 8);
    assert(bytes.subrange(9, 17).len() == 8);
    assert(bytes.subrange(17, 25).len() == 8);
    assert(plane.encoding() =~= bytes);
}

/// An asset is read back from its record as it was written.
pub proof fn lemma_asset_decode_encoding(asset: LandAssetView)
    requires
        asset.mint_pubkey.len() == 32,
    ensures
        asset.encoding().len() == LAND_ASSET_ACC_DATA_LEN,
        LandAsset::decode(asset.encoding()) == Ok::<LandAssetView, ProgramError>(asset),
{
    assert(asset.encoding().subrange(1, 33) =~= asset.mint_pubkey);
}

/// A record that decodes holds nothing but the asset: writing the asset back
/// gives the same bytes.
pub proof fn lemma_asset_encoding_decode(bytes: Seq<u8>)
    requires
        LandAsset::decode(bytes) is Ok,
    ensures
        LandAsset::decode(bytes)->Ok_0.encoding() == bytes,
{
    assert(LandAsset::decode(bytes)->Ok_0.encoding() =~= bytes);
}

} // verus!
