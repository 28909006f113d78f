//! Errors of the data store.

use vstd::prelude::*;
use vstd::string::StringExecFns;

verus! {

/// Why a lookup in the data store gave nothing.
#[derive(Clone, Debug, PartialEq, Eq)]
pub enum DataStoreError {
    /// The entry for the key that is held here has been redacted.
    Redaction(String),
    /// Anything else.
    Unknown,
}

/// What a [`DataStoreError`] holds.
pub ghost enum DataStoreErrorView {
    Redaction(Seq<char>),
    Unknown,
}

impl View for DataStoreError {
    type V = DataStoreErrorView;

    open spec fn view(&self) -> DataStoreErrorView {
        match self {
            DataStoreError::Redaction(key) => DataStoreErrorView::Redaction(key@),
            DataStoreError::Unknown => DataStoreErrorView::Unknown,
        }
    }
}

/// The text that describes an error to a reader.
pub open spec fn message_spec(error: DataStoreErrorView) -> Seq<char> {
    match error {
        DataStoreErrorView::Redaction(key) => "the data for key `"@ + key
            + "` is not available"@,
        DataStoreErrorView::Unknown => "unknown data store error"@,
    }
}

impl DataStoreError {
    /// The text that describes this error to a reader.
    pub fn message(&self) -> (text: String)
        ensures
            text@ == message_spec(self@),
    {
        match self {
            DataStoreError::Redaction(key) => {
                let mut text = String::from_str("the data for key `");
                text.append(key.as_str());
                text.append("` is not available");
                text
            },
            DataStoreError::Unknown => String::from_str("unknown data store error"),
        }
    }
}

} // verus!
