//! The upload record: one entry per successfully processed upload, keyed by
//! its storage URI.

use vstd::prelude::*;

verus! {

/// One processed upload: locator, decoded object name, declared MIME type,
/// and byte size at fetch time.
#[derive(Debug)]
pub struct S3ObjectInfo {
    pub s3_uri: String,
    pub object_name: String,
    pub object_type: String,
    pub object_size: i64,
}

/// The mathematical image of an upload record.
pub ghost struct S3ObjectInfoV {
    pub s3_uri: Seq<char>,
    pub object_name: Seq<char>,
    pub object_type: Seq<char>,
    pub object_size: int,
}

impl View for S3ObjectInfo {
    type V = S3ObjectInfoV;

    open spec fn view(&self) -> S3ObjectInfoV {
        S3ObjectInfoV {
            s3_uri: self.s3_uri@,
            object_name: self.object_name@,
            object_type: self.object_type@,
            object_size: self.object_size as int,
        }
    }
}

impl DeepView for S3ObjectInfo {
    type V = S3ObjectInfoV;

    open spec fn deep_view(&self) -> S3ObjectInfoV {
        self.view()
    }
}

impl Clone for S3ObjectInfo {
    fn clone(&self) -> (r: Self)
        ensures
            r@ == self@,
    {
        S3ObjectInfo {
            s3_uri: self.s3_uri.clone(),
            object_name: self.object_name.clone(),
            object_type: self.object_type.clone(),
            object_size: self.object_size,
        }
    }
}

impl PartialEq for S3ObjectInfo {
    fn eq(&self, other: &Self) -> (r: bool) {
        self.s3_uri == other.s3_uri && self.object_name == other.object_name
            && self.object_type == other.object_type && self.object_size == other.object_size
    }
}

impl vstd::std_specs::cmp::PartialEqSpecImpl for S3ObjectInfo {
    open spec fn obeys_eq_spec() -> bool {
        true
    }

    open spec fn eq_spec(&self, other: &Self) -> bool {
        self@ == other@
    }
}

} // verus!
