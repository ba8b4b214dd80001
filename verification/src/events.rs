//! Per-record logic of the upload event processor: event filtering, key
//! normalization, the storage URI, the thumbnail recursion guard and format
//! allow-list, and the batch-halting model.

use vstd::prelude::*;
use vstd::string::StrSliceExecFns;
use vstd::string::StringExecFns;

use crate::records::S3ObjectInfo;
use crate::records::S3ObjectInfoV;
use crate::text::normalize_object_name;
use crate::text::spec_normalize;
use crate::text::spec_starts_with;
use crate::text::str_eq;
use crate::text::str_starts_with;

verus! {

/// One entry of a storage notification batch, reduced to the fields the
/// processor reads.
pub struct NotificationRecord {
    pub event_name: Option<String>,
    pub bucket_name: Option<String>,
    pub object_key: Option<String>,
}

pub ghost struct NotificationRecordV {
    pub event_name: Option<Seq<char>>,
    pub bucket_name: Option<Seq<char>>,
    pub object_key: Option<Seq<char>>,
}

impl View for NotificationRecord {
    type V = NotificationRecordV;

    open spec fn view(&self) -> NotificationRecordV {
        NotificationRecordV {
            event_name: self.event_name.deep_view(),
            bucket_name: self.bucket_name.deep_view(),
            object_key: self.object_key.deep_view(),
        }
    }
}

/// Why a notification record is skipped.
#[derive(Clone, Copy, Debug, PartialEq, Eq, Structural)]
pub enum SkipReason {
    WrongEvent,
    NoBucketName,
    NoObjectKey,
}

impl SkipReason {
    /// The log line for a skipped record.
    pub fn message(&self) -> (r: &'static str)
        ensures
            *self is WrongEvent ==> r@ == "Wrong event"@,
            *self is NoBucketName ==> r@ == "No bucket name"@,
            *self is NoObjectKey ==> r@ == "No object key"@,
    {
        match self {
            SkipReason::WrongEvent => "Wrong event",
            SkipReason::NoBucketName => "No bucket name",
            SkipReason::NoObjectKey => "No object key",
        }
    }
}

/// A record is accepted only when its event name says an object was
/// created and both the bucket name and the object key are present and
/// non-empty; otherwise the exact skip reason, first failure first.
pub open spec fn spec_file_props(r: NotificationRecordV) -> Result<(Seq<char>, Seq<char>), SkipReason> {
    if !match r.event_name {
        Some(e) => spec_starts_with(e, "ObjectCreated"@),
        None => false,
    } {
        Err(SkipReason::WrongEvent)
    } else if !match r.bucket_name {
        Some(b) => b.len() > 0,
        None => false,
    } {
        Err(SkipReason::NoBucketName)
    } else if !match r.object_key {
        Some(k) => k.len() > 0,
        None => false,
    } {
        Err(SkipReason::NoObjectKey)
    } else {
        Ok(
            (
                match r.bucket_name {
                    Some(b) => b,
                    None => Seq::empty(),
                },
                match r.object_key {
                    Some(k) => k,
                    None => Seq::empty(),
                },
            ),
        )
    }
}

/// Accepts a record only for a created object with bucket and key.
pub fn get_file_props(record: NotificationRecord) -> (r: Result<(String, String), SkipReason>)
    ensures
        match r {
            Ok(p) => spec_file_props(record@) == Ok::<_, SkipReason>((p.0@, p.1@)),
            Err(e) => spec_file_props(record@) == Err::<(Seq<char>, Seq<char>), _>(e),
        },
{
    let ev_ok = match &record.event_name {
        Some(e) => str_starts_with(e.as_str(), "ObjectCreated"),
        None => false,
    };
    if !ev_ok {
        return Err(SkipReason::WrongEvent);
    }
    let bucket = match record.bucket_name {
        Some(b) => b,
        None => {
            return Err(SkipReason::NoBucketName);
        },
    };
    if bucket.as_str().unicode_len() == 0 {
        return Err(SkipReason::NoBucketName);
    }
    let key = match record.object_key {
        Some(k) => k,
        None => {
            return Err(SkipReason::NoObjectKey);
        },
    };
    if key.as_str().unicode_len() == 0 {
        return Err(SkipReason::NoObjectKey);
    }
    Ok((bucket, key))
}

/// The fully qualified storage locator of an object.
pub open spec fn spec_s3_uri(bucket: Seq<char>, object_name: Seq<char>) -> Seq<char> {
    "s3://"@ + bucket + "/"@ + object_name
}

pub fn s3_uri_for(bucket: &str, object_name: &str) -> (r: String)
    ensures
        r@ == spec_s3_uri(bucket@, object_name@),
{
    let mut out = String::new();
    out.append("s3://");
    out.append(bucket);
    out.append("/");
    out.append(object_name);
    proof {
        assert(out@ =~= spec_s3_uri(bucket@, object_name@));
    }
    out
}

/// The sentinel prefix under which generated thumbnails are stored; it is
/// also the recursion guard.
pub open spec fn spec_thumbnail_prefix() -> Seq<char> {
    "thumbnail-"@
}

/// The recursion guard: exactly the names that begin with the thumbnail
/// prefix trigger it.
pub fn is_thumbnail_name(object_name: &str) -> (r: bool)
    ensures
        r == spec_starts_with(object_name@, spec_thumbnail_prefix()),
{
    str_starts_with(object_name, "thumbnail-")
}

/// The derived key under which an object's thumbnail is stored.
pub fn thumbnail_key_for(object_name: &str) -> (r: String)
    ensures
        r@ == spec_thumbnail_prefix() + object_name@,
{
    let mut out = String::new();
    out.append("thumbnail-");
    out.append(object_name);
    proof {
        assert(out@ =~= spec_thumbnail_prefix() + object_name@);
    }
    out
}

/// The allow-list of image types the thumbnail generator is trusted to
/// decode.
pub open spec fn spec_supported_image(t: Seq<char>) -> bool {
    t == "image/png"@ || t == "image/jpeg"@ || t == "image/jpg"@
}

pub fn is_supported_image_format(object_type: &str) -> (r: bool)
    ensures
        r == spec_supported_image(object_type@),
{
    str_eq(object_type, "image/png") || str_eq(object_type, "image/jpeg") || str_eq(
        object_type,
        "image/jpg",
    )
}

/// What the processor does about a thumbnail once a record is persisted.
pub enum ThumbnailDecision {
    /// The object is itself a generated thumbnail: stop the whole batch.
    HaltBatch,
    /// Not an image: no thumbnail, record is done.
    NotAnImage,
    /// An image outside the allow-list: skipped, record is done.
    UnsupportedFormat,
    /// Generate a thumbnail and store it under the carried key.
    Generate(String),
}

/// Decides the thumbnail step from the decoded object name and the fetched
/// content type alone.
pub fn thumbnail_decision(object_name: &str, object_type: &str) -> (r: ThumbnailDecision)
    ensures
        r is HaltBatch <==> spec_starts_with(object_name@, spec_thumbnail_prefix()),
        r is NotAnImage <==> (!spec_starts_with(object_name@, spec_thumbnail_prefix())
            && !spec_starts_with(object_type@, "image/"@)),
        r is UnsupportedFormat <==> (!spec_starts_with(object_name@, spec_thumbnail_prefix())
            && spec_starts_with(object_type@, "image/"@) && !spec_supported_image(object_type@)),
        r is Generate <==> (!spec_starts_with(object_name@, spec_thumbnail_prefix())
            && spec_starts_with(object_type@, "image/"@) && spec_supported_image(object_type@)),
        r matches ThumbnailDecision::Generate(k) ==> k@ == spec_thumbnail_prefix()
            + object_name@,
{
    if is_thumbnail_name(object_name) {
        ThumbnailDecision::HaltBatch
    } else if !str_starts_with(object_type, "image/") {
        ThumbnailDecision::NotAnImage
    } else if !is_supported_image_format(object_type) {
        ThumbnailDecision::UnsupportedFormat
    } else {
        ThumbnailDecision::Generate(thumbnail_key_for(object_name))
    }
}

/// The per-record work that precedes any storage call: filter, normalize
/// the key, and derive the storage URI.
pub struct UploadPlan {
    pub bucket: String,
    pub object_name: String,
    pub s3_uri: String,
}

pub fn plan_record(record: NotificationRecord) -> (r: Result<UploadPlan, SkipReason>)
    ensures
        match r {
            Ok(p) => {
                &&& spec_file_props(record@) matches Ok(bk)
                &&& p.bucket@ == bk.0
                &&& p.object_name@ == spec_normalize(bk.1)
                &&& p.s3_uri@ == spec_s3_uri(bk.0, spec_normalize(bk.1))
            },
            Err(e) => spec_file_props(record@) == Err::<(Seq<char>, Seq<char>), _>(e),
        },
{
    match get_file_props(record) {
        Ok((bucket, key)) => {
            let object_name = normalize_object_name(key.as_str());
            let s3_uri = s3_uri_for(bucket.as_str(), object_name.as_str());
            Ok(UploadPlan { bucket, object_name, s3_uri })
        },
        Err(e) => Err(e),
    }
}

/// The record persisted after a successful metadata fetch.
pub fn make_upload_record(plan: &UploadPlan, object_type: String, object_size: i64) -> (r:
    S3ObjectInfo)
    ensures
        r@.s3_uri == plan.s3_uri@,
        r@.object_name == plan.object_name@,
        r@.object_type == object_type@,
        r@.object_size == object_size as int,
{
    S3ObjectInfo {
        s3_uri: plan.s3_uri.clone(),
        object_name: plan.object_name.clone(),
        object_type,
        object_size,
    }
}

/// The two recognized invocation payload shapes, told apart structurally.
pub enum EventKind {
    StorageNotification,
    TimerSignal,
    Unrecognized,
}

/// A payload with a `Records` field is a storage notification; otherwise
/// one with a `time` field is a timer signal; anything else is accepted as
/// a no-op.
pub fn classify_event(has_records: bool, has_time: bool) -> (r: EventKind)
    ensures
        r is StorageNotification <==> has_records,
        r is TimerSignal <==> (!has_records && has_time),
        r is Unrecognized <==> (!has_records && !has_time),
{
    if has_records {
        EventKind::StorageNotification
    } else if has_time {
        EventKind::TimerSignal
    } else {
        EventKind::Unrecognized
    }
}

/// Whether a record, with the given metadata-fetch outcome, halts the rest
/// of its batch: only an accepted, fetched record whose decoded name is a
/// generated thumbnail does.
pub open spec fn spec_record_halts(r: NotificationRecordV, fetched: bool) -> bool {
    &&& spec_file_props(r) is Ok
    &&& fetched
    &&& match spec_file_props(r) {
        Ok(bk) => spec_starts_with(spec_normalize(bk.1), spec_thumbnail_prefix()),
        Err(_) => false,
    }
}

/// How many records of a batch are evaluated: all of them, unless one
/// triggers the recursion guard, which ends the batch right after itself.
pub open spec fn spec_processed_count(rs: Seq<NotificationRecordV>, fetched: Seq<bool>) -> int
    decreases rs.len(),
{
    if rs.len() == 0 {
        0
    } else if spec_record_halts(rs[0], fetched[0]) {
        1
    } else {
        1 + spec_processed_count(rs.drop_first(), fetched.drop_first())
    }
}

/// Records are evaluated independently: when no record triggers the
/// recursion guard, every record of the batch is evaluated, whatever
/// skips or per-record failures occurred.
pub proof fn lemma_no_skip_halts_batch(rs: Seq<NotificationRecordV>, fetched: Seq<bool>)
    requires
        fetched.len() == rs.len(),
        forall|i: int|
            0 <= i < rs.len() ==> !spec_record_halts(#[trigger] rs[i], fetched[i]),
    ensures
        spec_processed_count(rs, fetched) == rs.len(),
    decreases rs.len(),
{
    if rs.len() > 0 {
        assert(!spec_record_halts(rs[0], fetched[0]));
        let rs2 = rs.drop_first();
        let f2 = fetched.drop_first();
        assert(forall|i: int|
            0 <= i < rs2.len() ==> !spec_record_halts(#[trigger] rs2[i], f2[i])) by {
            assert(forall|i: int| 0 <= i < rs2.len() ==> rs2[i] == rs[i + 1] && f2[i] == fetched[
                i + 1
            ]);
        }
        lemma_no_skip_halts_batch(rs2, f2);
    }
}

/// The recursion guard, and only it, halts a batch early: with the first
/// guard-triggering record at position `j`, exactly the records up to and
/// including `j` are evaluated.
pub proof fn lemma_guard_halts_batch(rs: Seq<NotificationRecordV>, fetched: Seq<bool>, j: int)
    requires
        fetched.len() == rs.len(),
        0 <= j < rs.len(),
        spec_record_halts(rs[j], fetched[j]),
        forall|i: int| 0 <= i < j ==> !spec_record_halts(#[trigger] rs[i], fetched[i]),
    ensures
        spec_processed_count(rs, fetched) == j + 1,
    decreases rs.len(),
{
    if j == 0 {
    } else {
        let rs2 = rs.drop_first();
        let f2 = fetched.drop_first();
        assert(forall|i: int| 0 <= i < rs2.len() ==> rs2[i] == rs[i + 1] && f2[i] == fetched[
            i + 1
        ]);
        lemma_guard_halts_batch(rs2, f2, j - 1);
    }
}

} // verus!
