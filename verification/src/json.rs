//! Lookups in JSON documents that reach the client as they are.

use crate::cloud_client::CloudClient;
use crate::error::{XError, XErrorView, XResult};
use serde_json::Value;
use vstd::prelude::*;
use vstd::string::*;

verus! {

#[verifier::external_type_specification]
#[verifier::external_body]
pub struct ExValue(serde_json::Value);

/// The member `key` of a JSON value: what `serde_json::Value::get` returns for a text index.
pub uninterp spec fn json_member(value: Value, key: Seq<char>) -> Option<Value>;

/// The bucket `bucket` in the bucket map of a cloud source's document.
pub open spec fn bucket_in_source(source: Value, bucket: Seq<char>) -> Option<Value> {
    match json_member(source, "bucketMap"@) {
        Some(map) => json_member(map, bucket),
        None => None,
    }
}

/// The member `key` of a JSON value.
///
/// Calls `serde_json::Value::get` with a text index. The contract only gives the result its
/// name: the function reads nothing but the value and the index.
#[verifier::external_body]
fn member<'a>(value: &'a Value, key: &str) -> (r: Option<&'a Value>)
    ensures
        match r {
            Some(found) => json_member(*value, key@) == Some(*found),
            None => json_member(*value, key@) is None,
        },
{
    value.get(key)
}

/// A copy of a JSON value.
///
/// Calls `clone` on a `serde_json::Value`, whose `Clone` is derived: the copy equals the
/// value.
#[verifier::external_body]
fn copy_of(value: &Value) -> (r: Value)
    ensures
        r == *value,
{
    value.clone()
}

/// The bucket that was found, or the error that names the bucket that was not.
pub fn bucket_or_missing(found: Option<&Value>, bucket: &str) -> (r: XResult<Value>)
    ensures
        match found {
            Some(value) => r matches Ok(b) && b == *value,
            None => r matches Err(e) && e@ == XErrorView::BucketNotFound(bucket@),
        },
{
    match found {
        Some(value) => Ok(copy_of(value)),
        None => Err(XError::BucketNotFound(String::from_str(bucket))),
    }
}

impl CloudClient {
    /// The bucket `bucket` in the member `bucketMap` of a cloud source's document.
    pub fn get_bucket_from_source(&self, source: &Value, bucket: &str) -> (r: XResult<Value>)
        ensures
            match bucket_in_source(*source, bucket@) {
                Some(value) => r matches Ok(b) && b == value,
                None => r matches Err(e) && e@ == XErrorView::BucketNotFound(bucket@),
            },
    {
        let found = match member(source, "bucketMap") {
            Some(map) => member(map, bucket),
            None => None,
        };
        bucket_or_missing(found, bucket)
    }
}

} // verus!
