//! The failures this layer reports. Every failure is a value handed back to
//! the caller; none aborts the process.
use vstd::prelude::*;

verus! {

/// What can go wrong while decoding items or draining a batch read.
#[derive(Debug, PartialEq, Eq)]
pub enum RaidenError {
    /// A required field was absent from a returned item.
    AttributeValueNotFound { attr_name: String },
    /// A field was present but its attribute value does not fit the target
    /// type.
    AttributeConvertError { attr_name: String },
    /// The batch-read response was absent or named no entry for the
    /// requested table.
    ResourceNotFound { detail: String },
}

} // verus!
