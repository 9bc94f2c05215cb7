//! Data dictionaries: what is known of an attribute by its tag.

use crate::tag::Tag;
use crate::vr::VR;
use vstd::prelude::*;

verus! {

/// A data dictionary: it tells the value representation of the attributes
/// that it knows.
pub trait DataDictionary {
    /// The value representation that the dictionary holds for `tag`, if any.
    spec fn vr_of(&self, tag: Tag) -> Option<VR>;

    /// Looks an attribute up by its tag.
    fn by_tag(&self, tag: Tag) -> (r: Option<VR>)
        ensures
            r == self.vr_of(tag),
    ;
}

/// A dictionary that knows no attribute.
#[derive(Clone, Copy, Debug, Default, PartialEq, Eq, Structural)]
pub struct StubDataDictionary;

impl DataDictionary for StubDataDictionary {
    open spec fn vr_of(&self, tag: Tag) -> Option<VR> {
        None
    }

    fn by_tag(&self, tag: Tag) -> (r: Option<VR>) {
        None
    }
}

/// The dictionary of the attributes that this library reads itself: those
/// of the file meta group, of the image pixel module, and a few that name
/// the patient and the study.
#[derive(Clone, Copy, Debug, Default, PartialEq, Eq, Structural)]
pub struct StandardDataDictionary;

/// The value representation of a well-known attribute.
pub open spec fn standard_vr(tag: Tag) -> Option<VR> {
    if tag == Tag(0x0002, 0x0000) {
        // FileMetaInformationGroupLength
        Some(VR::UL)
    } else if tag == Tag(0x0002, 0x0001) {
        // FileMetaInformationVersion
        Some(VR::OB)
    } else if tag == Tag(0x0002, 0x0002) {
        // MediaStorageSOPClassUID
        Some(VR::UI)
    } else if tag == Tag(0x0002, 0x0003) {
        // MediaStorageSOPInstanceUID
        Some(VR::UI)
    } else if tag == Tag(0x0002, 0x0010) {
        // TransferSyntaxUID
        Some(VR::UI)
    } else if tag == Tag(0x0002, 0x0012) {
        // ImplementationClassUID
        Some(VR::UI)
    } else if tag == Tag(0x0002, 0x0013) {
        // ImplementationVersionName
        Some(VR::SH)
    } else if tag == Tag(0x0008, 0x0005) {
        // SpecificCharacterSet
        Some(VR::CS)
    } else if tag == Tag(0x0008, 0x0008) {
        // ImageType
        Some(VR::CS)
    } else if tag == Tag(0x0008, 0x0016) {
        // SOPClassUID
        Some(VR::UI)
    } else if tag == Tag(0x0008, 0x0018) {
        // SOPInstanceUID
        Some(VR::UI)
    } else if tag == Tag(0x0008, 0x0020) {
        // StudyDate
        Some(VR::DA)
    } else if tag == Tag(0x0008, 0x0030) {
        // StudyTime
        Some(VR::TM)
    } else if tag == Tag(0x0008, 0x0050) {
        // AccessionNumber
        Some(VR::SH)
    } else if tag == Tag(0x0008, 0x0060) {
        // Modality
        Some(VR::CS)
    } else if tag == Tag(0x0008, 0x0061) {
        // ModalitiesInStudy
        Some(VR::CS)
    } else if tag == Tag(0x0008, 0x0090) {
        // ReferringPhysicianName
        Some(VR::PN)
    } else if tag == Tag(0x0010, 0x0010) {
        // PatientName
        Some(VR::PN)
    } else if tag == Tag(0x0010, 0x0020) {
        // PatientID
        Some(VR::LO)
    } else if tag == Tag(0x0010, 0x0030) {
        // PatientBirthDate
        Some(VR::DA)
    } else if tag == Tag(0x0010, 0x0040) {
        // PatientSex
        Some(VR::CS)
    } else if tag == Tag(0x0010, 0x1010) {
        // PatientAge
        Some(VR::AS)
    } else if tag == Tag(0x0020, 0x000D) {
        // StudyInstanceUID
        Some(VR::UI)
    } else if tag == Tag(0x0020, 0x000E) {
        // SeriesInstanceUID
        Some(VR::UI)
    } else if tag == Tag(0x0020, 0x0013) {
        // InstanceNumber
        Some(VR::IS)
    } else if tag == Tag(0x0028, 0x0002) {
        // SamplesPerPixel
        Some(VR::US)
    } else if tag == Tag(0x0028, 0x0004) {
        // PhotometricInterpretation
        Some(VR::CS)
    } else if tag == Tag(0x0028, 0x0006) {
        // PlanarConfiguration
        Some(VR::US)
    } else if tag == Tag(0x0028, 0x0008) {
        // NumberOfFrames
        Some(VR::IS)
    } else if tag == Tag(0x0028, 0x0010) {
        // Rows
        Some(VR::US)
    } else if tag == Tag(0x0028, 0x0011) {
        // Columns
        Some(VR::US)
    } else if tag == Tag(0x0028, 0x0100) {
        // BitsAllocated
        Some(VR::US)
    } else if tag == Tag(0x0028, 0x0101) {
        // BitsStored
        Some(VR::US)
    } else if tag == Tag(0x0028, 0x0102) {
        // HighBit
        Some(VR::US)
    } else if tag == Tag(0x0028, 0x0103) {
        // PixelRepresentation
        Some(VR::US)
    } else if tag == Tag(0x0028, 0x1050) {
        // WindowCenter
        Some(VR::DS)
    } else if tag == Tag(0x0028, 0x1051) {
        // WindowWidth
        Some(VR::DS)
    } else if tag == Tag(0x0028, 0x1052) {
        // RescaleIntercept
        Some(VR::DS)
    } else if tag == Tag(0x0028, 0x1053) {
        // RescaleSlope
        Some(VR::DS)
    } else if tag == Tag(0x0028, 0x1056) {
        // VOILUTFunction
        Some(VR::CS)
    } else if tag == Tag(0x7FE0, 0x0010) {
        // PixelData
        Some(VR::OW)
    } else {
        None
    }
}

impl DataDictionary for StandardDataDictionary {
    open spec fn vr_of(&self, tag: Tag) -> Option<VR> {
        standard_vr(tag)
    }

    fn by_tag(&self, tag: Tag) -> (r: Option<VR>) {
        match (tag.0, tag.1) {
            (0x0002, 0x0000) => Some(VR::UL),
            (0x0002, 0x0001) => Some(VR::OB),
            (0x0002, 0x0002) => Some(VR::UI),
            (0x0002, 0x0003) => Some(VR::UI),
            (0x0002, 0x0010) => Some(VR::UI),
            (0x0002, 0x0012) => Some(VR::UI),
            (0x0002, 0x0013) => Some(VR::SH),
            (0x0008, 0x0005) => Some(VR::CS),
            (0x0008, 0x0008) => Some(VR::CS),
            (0x0008, 0x0016) => Some(VR::UI),
            (0x0008, 0x0018) => Some(VR::UI),
            (0x0008, 0x0020) => Some(VR::DA),
            (0x0008, 0x0030) => Some(VR::TM),
            (0x0008, 0x0050) => Some(VR::SH),
            (0x0008, 0x0060) => Some(VR::CS),
            (0x0008, 0x0061) => Some(VR::CS),
            (0x0008, 0x0090) => Some(VR::PN),
            (0x0010, 0x0010) => Some(VR::PN),
            (0x0010, 0x0020) => Some(VR::LO),
            (0x0010, 0x0030) => Some(VR::DA),
            (0x0010, 0x0040) => Some(VR::CS),
            (0x0010, 0x1010) => Some(VR::AS),
            (0x0020, 0x000D) => Some(VR::UI),
            (0x0020, 0x000E) => Some(VR::UI),
            (0x0020, 0x0013) => Some(VR::IS),
            (0x0028, 0x0002) => Some(VR::US),
            (0x0028, 0x0004) => Some(VR::CS),
            (0x0028, 0x0006) => Some(VR::US),
            (0x0028, 0x0008) => Some(VR::IS),
            (0x0028, 0x0010) => Some(VR::US),
            (0x0028, 0x0011) => Some(VR::US),
            (0x0028, 0x0100) => Some(VR::US),
            (0x0028, 0x0101) => Some(VR::US),
            (0x0028, 0x0102) => Some(VR::US),
            (0x0028, 0x0103) => Some(VR::US),
            (0x0028, 0x1050) => Some(VR::DS),
            (0x0028, 0x1051) => Some(VR::DS),
            (0x0028, 0x1052) => Some(VR::DS),
            (0x0028, 0x1053) => Some(VR::DS),
            (0x0028, 0x1056) => Some(VR::CS),
            (0x7FE0, 0x0010) => Some(VR::OW),
            _ => None,
        }
    }
}

} // verus!
