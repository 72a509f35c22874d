//! The two discriminants of a jump-table record: the kind of block it
//! describes, and the format tag whose meaning depends on that kind.

use vstd::prelude::*;
use crate::bytes::{parse_u32, read_u32, u32_be, write_u32};
use crate::error::TdfError;

verus! {

/// The kind of block that a jump-table record describes.
#[derive(Debug, Clone, Copy, PartialEq, Eq)]
pub enum TdfBlockType {
    UnusedSlot,
    NotDefined,
    CalibrationData,
    CalibrationData2d,
    Data2d,
    Data3d,
    OpticalSystemConfiguration,
    ForcePlatformsCalibrationData,
    ForcePlatformsCalibrationData2d,
    ForcePlatformsData,
    AnthropometricData,
    ElectromyographicData,
    ForceAndTorqueData,
    VolumetricData,
    AnalogData,
    GeneralCalibrationData,
    TemporalEventsData,
}

/// The number of block types; their discriminants are the numbers below it.
pub const BLOCK_TYPES: u32 = 17;

impl TdfBlockType {
    /// The discriminant that stands for the block type on the wire.
    pub open spec fn spec_id(self) -> u32 {
        match self {
            TdfBlockType::UnusedSlot => 0,
            TdfBlockType::NotDefined => 1,
            TdfBlockType::CalibrationData => 2,
            TdfBlockType::CalibrationData2d => 3,
            TdfBlockType::Data2d => 4,
            TdfBlockType::Data3d => 5,
            TdfBlockType::OpticalSystemConfiguration => 6,
            TdfBlockType::ForcePlatformsCalibrationData => 7,
            TdfBlockType::ForcePlatformsCalibrationData2d => 8,
            TdfBlockType::ForcePlatformsData => 9,
            TdfBlockType::AnthropometricData => 10,
            TdfBlockType::ElectromyographicData => 11,
            TdfBlockType::ForceAndTorqueData => 12,
            TdfBlockType::VolumetricData => 13,
            TdfBlockType::AnalogData => 14,
            TdfBlockType::GeneralCalibrationData => 15,
            TdfBlockType::TemporalEventsData => 16,
        }
    }

    /// The block type whose discriminant is `value`, for a value below
    /// [`BLOCK_TYPES`].
    pub open spec fn of_id(value: u32) -> TdfBlockType
        recommends
            value < BLOCK_TYPES,
    {
        if value == 0 {
            TdfBlockType::UnusedSlot
        } else if value == 1 {
            TdfBlockType::NotDefined
        } else if value == 2 {
            TdfBlockType::CalibrationData
        } else if value == 3 {
            TdfBlockType::CalibrationData2d
        } else if value == 4 {
            TdfBlockType::Data2d
        } else if value == 5 {
            TdfBlockType::Data3d
        } else if value == 6 {
            TdfBlockType::OpticalSystemConfiguration
        } else if value == 7 {
            TdfBlockType::ForcePlatformsCalibrationData
        } else if value == 8 {
            TdfBlockType::ForcePlatformsCalibrationData2d
        } else if value == 9 {
            TdfBlockType::ForcePlatformsData
        } else if value == 10 {
            TdfBlockType::AnthropometricData
        } else if value == 11 {
            TdfBlockType::ElectromyographicData
        } else if value == 12 {
            TdfBlockType::ForceAndTorqueData
        } else if value == 13 {
            TdfBlockType::VolumetricData
        } else if value == 14 {
            TdfBlockType::AnalogData
        } else if value == 15 {
            TdfBlockType::GeneralCalibrationData
        } else {
            TdfBlockType::TemporalEventsData
        }
    }

    /// The block type that a discriminant stands for, or the error for one
    /// that stands for none.
    pub open spec fn decode(value: u32) -> Result<TdfBlockType, TdfError> {
        if value >= BLOCK_TYPES {
            Err(TdfError::InvalidDiscriminant { entry: 0, value })
        } else {
            Ok(TdfBlockType::of_id(value))
        }
    }

    /// What decoding a block type at `at` gives.
    pub open spec fn parse(b: Seq<u8>, at: int) -> Result<TdfBlockType, TdfError> {
        match parse_u32(b, at) {
            Ok(value) => TdfBlockType::decode(value),
            Err(e) => Err(e),
        }
    }

    /// The four bytes of the block type.
    pub open spec fn encode(self) -> Seq<u8> {
        u32_be(self.spec_id())
    }

    /// The discriminant that stands for the block type on the wire.
    #[verifier::when_used_as_spec(spec_id)]
    pub fn id(self) -> (r: u32)
        ensures
            r == self.spec_id(),
            r < BLOCK_TYPES,
    {
        match self {
            TdfBlockType::UnusedSlot => 0,
            TdfBlockType::NotDefined => 1,
            TdfBlockType::CalibrationData => 2,
            TdfBlockType::CalibrationData2d => 3,
            TdfBlockType::Data2d => 4,
            TdfBlockType::Data3d => 5,
            TdfBlockType::OpticalSystemConfiguration => 6,
            TdfBlockType::ForcePlatformsCalibrationData => 7,
            TdfBlockType::ForcePlatformsCalibrationData2d => 8,
            TdfBlockType::ForcePlatformsData => 9,
            TdfBlockType::AnthropometricData => 10,
            TdfBlockType::ElectromyographicData => 11,
            TdfBlockType::ForceAndTorqueData => 12,
            TdfBlockType::VolumetricData => 13,
            TdfBlockType::AnalogData => 14,
            TdfBlockType::GeneralCalibrationData => 15,
            TdfBlockType::TemporalEventsData => 16,
        }
    }

    /// The block type that `value` stands for. Every number below
    /// [`BLOCK_TYPES`] stands for one, and no other number does.
    pub fn from_u32(value: u32) -> (r: Result<TdfBlockType, TdfError>)
        ensures
            r == TdfBlockType::decode(value),
            r is Ok <==> value < BLOCK_TYPES,
            r matches Ok(t) ==> t.spec_id() == value,
            r matches Err(e) ==> e == (TdfError::InvalidDiscriminant { entry: 0, value }),
    {
        let t = match value {
            0 => TdfBlockType::UnusedSlot,
            1 => TdfBlockType::NotDefined,
            2 => TdfBlockType::CalibrationData,
            3 => TdfBlockType::CalibrationData2d,
            4 => TdfBlockType::Data2d,
            5 => TdfBlockType::Data3d,
            6 => TdfBlockType::OpticalSystemConfiguration,
            7 => TdfBlockType::ForcePlatformsCalibrationData,
            8 => TdfBlockType::ForcePlatformsCalibrationData2d,
            9 => TdfBlockType::ForcePlatformsData,
            10 => TdfBlockType::AnthropometricData,
            11 => TdfBlockType::ElectromyographicData,
            12 => TdfBlockType::ForceAndTorqueData,
            13 => TdfBlockType::VolumetricData,
            14 => TdfBlockType::AnalogData,
            15 => TdfBlockType::GeneralCalibrationData,
            16 => TdfBlockType::TemporalEventsData,
            _ => {
                return Err(TdfError::InvalidDiscriminant { entry: 0, value });
            },
        };
        Ok(t)
    }

    /// Decodes the block type whose discriminant starts at `at`.
    pub fn read(input: &[u8], at: usize) -> (r: Result<TdfBlockType, TdfError>)
        ensures
            r == TdfBlockType::parse(input@, at as int),
            r is Ok ==> at + 4 <= input.len(),
    {
        let value: u32 = read_u32(input, at)?;
        TdfBlockType::from_u32(value)
    }

    /// Appends the four bytes of the discriminant.
    pub fn write(&self, output: &mut Vec<u8>)
        ensures
            final(output)@ == old(output)@ + self.encode(),
    {
        write_u32(output, self.id());
    }

    /// The discriminant of a block type is below [`BLOCK_TYPES`] and decodes
    /// to that block type, so that no two block types share one.
    pub proof fn lemma_id_decodes(t: TdfBlockType)
        ensures
            t.spec_id() < BLOCK_TYPES,
            TdfBlockType::decode(t.spec_id()) == Ok::<TdfBlockType, TdfError>(t),
    {
    }

    /// Every number below [`BLOCK_TYPES`] is the discriminant of the block
    /// type it decodes to, and every other number is refused.
    pub proof fn lemma_decode_closed(value: u32)
        ensures
            TdfBlockType::decode(value) is Ok <==> value < BLOCK_TYPES,
            TdfBlockType::decode(value) matches Ok(t) ==> t.spec_id() == value,
            TdfBlockType::decode(value) matches Err(e) ==> e == (TdfError::InvalidDiscriminant {
                entry: 0,
                value,
            }),
    {
    }
}

/// The format tag of a jump-table record. The variant says which kind of block
/// the tag belongs to; the number is the tag as it stands on the wire.
#[derive(Debug, Clone, Copy, PartialEq, Eq)]
pub enum TdfFormat {
    /// Of a [`TdfBlockType::CalibrationData`] block.
    TdfCalibFormat(u32),
    /// Of a [`TdfBlockType::Data2d`] block.
    TdfData2DFormat(u32),
    /// Of a [`TdfBlockType::Data3d`] block.
    TdfData3DFormat(u32),
    /// Of a [`TdfBlockType::ForcePlatformsCalibrationData`] block.
    TdfForcePlatformsCalibFormat(u32),
    /// Of a [`TdfBlockType::OpticalSystemConfiguration`] block.
    TdfOptiSetupFormat(u32),
    /// Of a [`TdfBlockType::UnusedSlot`] record.
    UnusedSlotFormat(u32),
    /// Of a [`TdfBlockType::ForcePlatformsData`] block.
    TdfDataPlatFormat(u32),
    /// Of a [`TdfBlockType::ForceAndTorqueData`] block.
    TdfForce3DFormat(u32),
    /// Of a [`TdfBlockType::TemporalEventsData`] block.
    TdfEventsFormat(u32),
    /// Of a block of any other kind: the four bytes, with no meaning given
    /// to them.
    Unclassified(u32),
}

impl TdfFormat {
    /// The tag as it stands on the wire.
    pub open spec fn spec_raw(self) -> u32 {
        match self {
            TdfFormat::TdfCalibFormat(raw) => raw,
            TdfFormat::TdfData2DFormat(raw) => raw,
            TdfFormat::TdfData3DFormat(raw) => raw,
            TdfFormat::TdfForcePlatformsCalibFormat(raw) => raw,
            TdfFormat::TdfOptiSetupFormat(raw) => raw,
            TdfFormat::UnusedSlotFormat(raw) => raw,
            TdfFormat::TdfDataPlatFormat(raw) => raw,
            TdfFormat::TdfForce3DFormat(raw) => raw,
            TdfFormat::TdfEventsFormat(raw) => raw,
            TdfFormat::Unclassified(raw) => raw,
        }
    }

    /// The format tag that the number `raw` is in a record of a
    /// `block_type` block.
    pub open spec fn tag(block_type: TdfBlockType, raw: u32) -> TdfFormat {
        match block_type {
            TdfBlockType::UnusedSlot => TdfFormat::UnusedSlotFormat(raw),
            TdfBlockType::NotDefined => TdfFormat::Unclassified(raw),
            TdfBlockType::CalibrationData => TdfFormat::TdfCalibFormat(raw),
            TdfBlockType::CalibrationData2d => TdfFormat::Unclassified(raw),
            TdfBlockType::Data2d => TdfFormat::TdfData2DFormat(raw),
            TdfBlockType::Data3d => TdfFormat::TdfData3DFormat(raw),
            TdfBlockType::OpticalSystemConfiguration => TdfFormat::TdfOptiSetupFormat(raw),
            TdfBlockType::ForcePlatformsCalibrationData => TdfFormat::TdfForcePlatformsCalibFormat(
                raw,
            ),
            TdfBlockType::ForcePlatformsCalibrationData2d => TdfFormat::Unclassified(raw),
            TdfBlockType::ForcePlatformsData => TdfFormat::TdfDataPlatFormat(raw),
            TdfBlockType::AnthropometricData => TdfFormat::Unclassified(raw),
            TdfBlockType::ElectromyographicData => TdfFormat::Unclassified(raw),
            TdfBlockType::ForceAndTorqueData => TdfFormat::TdfForce3DFormat(raw),
            TdfBlockType::VolumetricData => TdfFormat::Unclassified(raw),
            TdfBlockType::AnalogData => TdfFormat::Unclassified(raw),
            TdfBlockType::GeneralCalibrationData => TdfFormat::Unclassified(raw),
            TdfBlockType::TemporalEventsData => TdfFormat::TdfEventsFormat(raw),
        }
    }

    /// Whether the tag is one that a record of a `block_type` block carries.
    pub open spec fn belongs_to(self, block_type: TdfBlockType) -> bool {
        self == TdfFormat::tag(block_type, self.spec_raw())
    }

    /// What decoding the format tag of a `block_type` record at `at` gives.
    pub open spec fn parse(b: Seq<u8>, at: int, block_type: TdfBlockType) -> Result<
        TdfFormat,
        TdfError,
    > {
        match parse_u32(b, at) {
            Ok(raw) => Ok(TdfFormat::tag(block_type, raw)),
            Err(e) => Err(e),
        }
    }

    /// The four bytes of the tag. The variant is not written: the block type
    /// before it in the record tells it.
    pub open spec fn encode(self) -> Seq<u8> {
        u32_be(self.spec_raw())
    }

    /// The format tag that the number `raw` is in a record of a
    /// `block_type` block.
    pub fn from_raw(block_type: TdfBlockType, raw: u32) -> (r: TdfFormat)
        ensures
            r == TdfFormat::tag(block_type, raw),
            r.spec_raw() == raw,
            r.belongs_to(block_type),
    {
        match block_type {
            TdfBlockType::UnusedSlot => TdfFormat::UnusedSlotFormat(raw),
            TdfBlockType::NotDefined => TdfFormat::Unclassified(raw),
            TdfBlockType::CalibrationData => TdfFormat::TdfCalibFormat(raw),
            TdfBlockType::CalibrationData2d => TdfFormat::Unclassified(raw),
            TdfBlockType::Data2d => TdfFormat::TdfData2DFormat(raw),
            TdfBlockType::Data3d => TdfFormat::TdfData3DFormat(raw),
            TdfBlockType::OpticalSystemConfiguration => TdfFormat::TdfOptiSetupFormat(raw),
            TdfBlockType::ForcePlatformsCalibrationData => TdfFormat::TdfForcePlatformsCalibFormat(
                raw,
            ),
            TdfBlockType::ForcePlatformsCalibrationData2d => TdfFormat::Unclassified(raw),
            TdfBlockType::ForcePlatformsData => TdfFormat::TdfDataPlatFormat(raw),
            TdfBlockType::AnthropometricData => TdfFormat::Unclassified(raw),
            TdfBlockType::ElectromyographicData => TdfFormat::Unclassified(raw),
            TdfBlockType::ForceAndTorqueData => TdfFormat::TdfForce3DFormat(raw),
            TdfBlockType::VolumetricData => TdfFormat::Unclassified(raw),
            TdfBlockType::AnalogData => TdfFormat::Unclassified(raw),
            TdfBlockType::GeneralCalibrationData => TdfFormat::Unclassified(raw),
            TdfBlockType::TemporalEventsData => TdfFormat::TdfEventsFormat(raw),
        }
    }

    /// The tag as it stands on the wire.
    #[verifier::when_used_as_spec(spec_raw)]
    pub fn raw(self) -> (r: u32)
        ensures
            r == self.spec_raw(),
    {
        match self {
            TdfFormat::TdfCalibFormat(raw) => raw,
            TdfFormat::TdfData2DFormat(raw) => raw,
            TdfFormat::TdfData3DFormat(raw) => raw,
            TdfFormat::TdfForcePlatformsCalibFormat(raw) => raw,
            TdfFormat::TdfOptiSetupFormat(raw) => raw,
            TdfFormat::UnusedSlotFormat(raw) => raw,
            TdfFormat::TdfDataPlatFormat(raw) => raw,
            TdfFormat::TdfForce3DFormat(raw) => raw,
            TdfFormat::TdfEventsFormat(raw) => raw,
            TdfFormat::Unclassified(raw) => raw,
        }
    }

    /// Decodes the format tag that starts at `at` in a record of a
    /// `block_type` block.
    pub fn read(input: &[u8], at: usize, block_type: TdfBlockType) -> (r: Result<
        TdfFormat,
        TdfError,
    >)
        ensures
            r == TdfFormat::parse(input@, at as int, block_type),
            r is Ok ==> at + 4 <= input.len(),
    {
        let raw: u32 = read_u32(input, at)?;
        Ok(TdfFormat::from_raw(block_type, raw))
    }

    /// Appends the four bytes of the tag.
    pub fn write(&self, output: &mut Vec<u8>)
        ensures
            final(output)@ == old(output)@ + self.encode(),
    {
        write_u32(output, self.raw());
    }
}

} // verus!
