//! The one error type of the library.

use crate::replicate::Replicate;
use vstd::prelude::*;
use vstd::string::*;

verus! {

/// What can go wrong in a call of the library.
#[derive(Debug)]
pub enum XError {
    /// No cloud source, or no provider strategy, goes by the name asked for.
    CloudNotFound,
    /// No bucket of that name.
    BucketNotFound(String),
    /// An upload ended without success.
    UploadFailed(String),
    /// No connectivity, or no fallback domain that can be reached.
    NetworkError(String),
    /// The configuration is missing or names something that it does not hold.
    InvalidConfig,
    /// A document could not be read or written.
    SerdeError(String),
    /// A lock could not be taken.
    LockError(String),
}

/// An error as a mathematical value.
pub enum XErrorView {
    CloudNotFound,
    BucketNotFound(Seq<char>),
    UploadFailed(Seq<char>),
    NetworkError(Seq<char>),
    InvalidConfig,
    SerdeError(Seq<char>),
    LockError(Seq<char>),
}

pub type XResult<T> = Result<T, XError>;

impl XErrorView {
    /// The line that describes the error to a reader.
    pub open spec fn text(self) -> Seq<char> {
        match self {
            XErrorView::CloudNotFound => "Cloud not found"@,
            XErrorView::BucketNotFound(name) => "Bucket "@ + name + " not found"@,
            XErrorView::UploadFailed(why) => "Upload failed: "@ + why,
            XErrorView::NetworkError(why) => "Network error: "@ + why,
            XErrorView::InvalidConfig => "Invalid config"@,
            XErrorView::SerdeError(why) => "Serde error: "@ + why,
            XErrorView::LockError(why) => "Lock error: "@ + why,
        }
    }
}

impl DeepView for XError {
    type V = XErrorView;

    open spec fn deep_view(&self) -> XErrorView {
        match self {
            XError::CloudNotFound => XErrorView::CloudNotFound,
            XError::BucketNotFound(name) => XErrorView::BucketNotFound(name@),
            XError::UploadFailed(why) => XErrorView::UploadFailed(why@),
            XError::NetworkError(why) => XErrorView::NetworkError(why@),
            XError::InvalidConfig => XErrorView::InvalidConfig,
            XError::SerdeError(why) => XErrorView::SerdeError(why@),
            XError::LockError(why) => XErrorView::LockError(why@),
        }
    }
}

impl View for XError {
    type V = XErrorView;

    open spec fn view(&self) -> XErrorView {
        self.deep_view()
    }
}

/// A result as a mathematical value.
pub open spec fn result_view<T: DeepView>(r: Result<T, XError>) -> Result<T::V, XErrorView> {
    match r {
        Ok(t) => Ok(t.deep_view()),
        Err(e) => Err(e@),
    }
}

impl Clone for XError {
    fn clone(&self) -> (r: Self)
        ensures
            r@ == self@,
    {
        match self {
            XError::CloudNotFound => XError::CloudNotFound,
            XError::BucketNotFound(name) => XError::BucketNotFound(name.clone()),
            XError::UploadFailed(why) => XError::UploadFailed(why.clone()),
            XError::NetworkError(why) => XError::NetworkError(why.clone()),
            XError::InvalidConfig => XError::InvalidConfig,
            XError::SerdeError(why) => XError::SerdeError(why.clone()),
            XError::LockError(why) => XError::LockError(why.clone()),
        }
    }
}

impl Replicate for XError {
    fn replicate(&self) -> (r: Self) {
        self.clone()
    }
}

impl XError {
    /// The line that describes the error to a reader.
    pub fn message(&self) -> (r: String)
        ensures
            r@ == self@.text(),
    {
        match self {
            XError::CloudNotFound => String::from_str("Cloud not found"),
            XError::BucketNotFound(name) => {
                String::from_str("Bucket ").concat(name.as_str()).concat(" not found")
            },
            XError::UploadFailed(why) => String::from_str("Upload failed: ").concat(why.as_str()),
            XError::NetworkError(why) => String::from_str("Network error: ").concat(why.as_str()),
            XError::InvalidConfig => String::from_str("Invalid config"),
            XError::SerdeError(why) => String::from_str("Serde error: ").concat(why.as_str()),
            XError::LockError(why) => String::from_str("Lock error: ").concat(why.as_str()),
        }
    }
}

} // verus!
