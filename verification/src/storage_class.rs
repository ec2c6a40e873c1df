//! Storage tiers and the names the backend knows them by.

use crate::error::ValidationError;
use vstd::prelude::*;

verus! {

/// The uppercase form of a text, as the Unicode character database gives it,
/// character by character and without regard to any locale.
pub uninterp spec fn uppercased(s: Seq<char>) -> Seq<char>;

/// Trusted: `str::to_uppercase` of the standard library. The contract only
/// gives the result its name, `uppercased`; the mapping itself is the standard
/// library's table and is not restated here.
#[verifier::external_body]
fn to_uppercase(s: &str) -> (upper: String)
    ensures
        upper@ == uppercased(s@),
{
    s.to_uppercase()
}

/// A storage tier an object can be moved to, warmest first.
#[derive(Clone, Copy, Debug, PartialEq, Eq, Structural)]
pub enum StorageClass {
    StandardIa,
    GlacierIr,
    Glacier,
    DeepArchive,
}

impl StorageClass {
    /// Position of the tier in the coldness order: a larger number is a colder,
    /// cheaper and slower tier.
    pub open spec fn coldness(self) -> nat {
        match self {
            StorageClass::StandardIa => 0,
            StorageClass::GlacierIr => 1,
            StorageClass::Glacier => 2,
            StorageClass::DeepArchive => 3,
        }
    }

    /// The name of the tier on the wire.
    pub open spec fn wire_name(self) -> Seq<char> {
        match self {
            StorageClass::StandardIa => "STANDARD_IA"@,
            StorageClass::GlacierIr => "GLACIER_IR"@,
            StorageClass::Glacier => "GLACIER"@,
            StorageClass::DeepArchive => "DEEP_ARCHIVE"@,
        }
    }

    pub fn rank(self) -> (r: u8)
        ensures
            r == self.coldness(),
    {
        match self {
            StorageClass::StandardIa => 0,
            StorageClass::GlacierIr => 1,
            StorageClass::Glacier => 2,
            StorageClass::DeepArchive => 3,
        }
    }

    pub fn as_str(self) -> (name: &'static str)
        ensures
            name@ == self.wire_name(),
    {
        match self {
            StorageClass::StandardIa => "STANDARD_IA",
            StorageClass::GlacierIr => "GLACIER_IR",
            StorageClass::Glacier => "GLACIER",
            StorageClass::DeepArchive => "DEEP_ARCHIVE",
        }
    }
}

/// The tier that objects are archived to under the name `upper`, which is
/// taken letter for letter. The three cold tiers can be archived to; the warm
/// tier cannot, and neither can anything else.
pub open spec fn archive_class_named(upper: Seq<char>) -> Option<StorageClass> {
    if upper == "GLACIER"@ {
        Some(StorageClass::Glacier)
    } else if upper == "DEEP_ARCHIVE"@ {
        Some(StorageClass::DeepArchive)
    } else if upper == "GLACIER_IR"@ {
        Some(StorageClass::GlacierIr)
    } else {
        None
    }
}

/// Looks up the archive tier named `upper`, letter for letter.
pub fn archive_class_from_upper(upper: &str) -> (class: Option<StorageClass>)
    ensures
        class == archive_class_named(upper@),
{
    let name = upper.to_owned();
    if name == "GLACIER".to_owned() {
        Some(StorageClass::Glacier)
    } else if name == "DEEP_ARCHIVE".to_owned() {
        Some(StorageClass::DeepArchive)
    } else if name == "GLACIER_IR".to_owned() {
        Some(StorageClass::GlacierIr)
    } else {
        None
    }
}

/// Reads the tier that a bulk archival is to move objects to. Case is not
/// told apart: the name is taken in its uppercase form.
pub fn parse_archive_class(name: &str) -> (class: Result<StorageClass, ValidationError>)
    ensures
        class == match archive_class_named(uppercased(name@)) {
            Some(c) => Ok::<StorageClass, ValidationError>(c),
            None => Err(ValidationError::InvalidTargetClass),
        },
{
    let upper = to_uppercase(name);
    match archive_class_from_upper(upper.as_str()) {
        Some(c) => Ok(c),
        None => Err(ValidationError::InvalidTargetClass),
    }
}

} // verus!
