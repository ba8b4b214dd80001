use upload_report::events::classify_event;
use upload_report::events::get_file_props;
use upload_report::events::is_supported_image_format;
use upload_report::events::is_thumbnail_name;
use upload_report::events::plan_record;
use upload_report::events::thumbnail_decision;
use upload_report::events::EventKind;
use upload_report::events::NotificationRecord;
use upload_report::events::SkipReason;
use upload_report::events::ThumbnailDecision;
use upload_report::numeric::i64_to_string;
use upload_report::numeric::parse_i64;
use upload_report::records::S3ObjectInfo;
use upload_report::report::count_failures;
use upload_report::report::plan_report_cycle;
use upload_report::report::render_report_html;
use upload_report::store::build_put_item;
use upload_report::store::convert_attribute_map_into_s3_info;
use upload_report::store::convert_s3_info_into_attribute_map;
use upload_report::store::Attr;
use upload_report::store::AttrValue;
use upload_report::text::normalize_object_name;

fn record(event: Option<&str>, bucket: Option<&str>, key: Option<&str>) -> NotificationRecord {
    NotificationRecord {
        event_name: event.map(|s| s.to_string()),
        bucket_name: bucket.map(|s| s.to_string()),
        object_key: key.map(|s| s.to_string()),
    }
}

fn sample_info() -> S3ObjectInfo {
    S3ObjectInfo {
        s3_uri: "s3://b/cat.png".to_string(),
        object_name: "cat.png".to_string(),
        object_type: "image/png".to_string(),
        object_size: 2048,
    }
}

#[test]
fn decimal_rendering_exact_values() {
    assert_eq!(i64_to_string(0), "0");
    assert_eq!(i64_to_string(7), "7");
    assert_eq!(i64_to_string(2048), "2048");
    assert_eq!(i64_to_string(-1), "-1");
    assert_eq!(i64_to_string(i64::MAX), "9223372036854775807");
    assert_eq!(i64_to_string(i64::MIN), "-9223372036854775808");
}

#[test]
fn decimal_parsing_round_trip() {
    for v in [0i64, 1, -1, 42, -2048, i64::MAX, i64::MIN] {
        assert_eq!(parse_i64(&i64_to_string(v)), Some(v));
    }
}

#[test]
fn decimal_parsing_rejects_non_canonical() {
    assert_eq!(parse_i64(""), None);
    assert_eq!(parse_i64("-"), None);
    assert_eq!(parse_i64("12a"), None);
    assert_eq!(parse_i64("007"), None);
    assert_eq!(parse_i64("-0"), None);
    assert_eq!(parse_i64("9223372036854775808"), None);
    assert_eq!(parse_i64("-9223372036854775809"), None);
    assert_eq!(parse_i64("99999999999999999999999"), None);
    assert_eq!(parse_i64("-9223372036854775808"), Some(i64::MIN));
    assert_eq!(parse_i64("9223372036854775807"), Some(i64::MAX));
}

#[test]
fn normalization_decodes_plus_as_space() {
    assert_eq!(normalize_object_name("my+holiday+photo.png"), "my holiday photo.png");
    assert_eq!(normalize_object_name("plain.png"), "plain.png");
    assert_eq!(normalize_object_name(""), "");
}

#[test]
fn normalization_is_idempotent() {
    let once = normalize_object_name("a+b+c d.png");
    let twice = normalize_object_name(&once);
    assert_eq!(once, twice);
}

#[test]
fn recursion_guard_exact_prefix_only() {
    assert!(is_thumbnail_name("thumbnail-cat.png"));
    assert!(is_thumbnail_name("thumbnail-"));
    assert!(!is_thumbnail_name("thumbnail"));
    assert!(!is_thumbnail_name("Thumbnail-cat.png"));
    assert!(!is_thumbnail_name("a-thumbnail-cat.png"));
    assert!(!is_thumbnail_name("cat.png"));
}

#[test]
fn removed_event_is_skipped() {
    let r = record(Some("ObjectRemoved:Delete"), Some("b"), Some("k"));
    assert_eq!(get_file_props(r), Err(SkipReason::WrongEvent));
    let r = record(Some("ObjectRemoved:Delete"), Some("b"), Some("k"));
    assert!(plan_record(r).is_err());
}

#[test]
fn created_event_is_accepted() {
    let r = record(Some("ObjectCreated:Put"), Some("bucket"), Some("my+cat.png"));
    let plan = plan_record(r).unwrap();
    assert_eq!(plan.bucket, "bucket");
    assert_eq!(plan.object_name, "my cat.png");
    assert_eq!(plan.s3_uri, "s3://bucket/my cat.png");
}

#[test]
fn missing_fields_give_exact_reasons() {
    let r = record(None, Some("b"), Some("k"));
    assert_eq!(get_file_props(r), Err(SkipReason::WrongEvent));
    let r = record(Some("ObjectCreated:Put"), None, Some("k"));
    assert_eq!(get_file_props(r), Err(SkipReason::NoBucketName));
    let r = record(Some("ObjectCreated:Put"), Some(""), Some("k"));
    assert_eq!(get_file_props(r), Err(SkipReason::NoBucketName));
    let r = record(Some("ObjectCreated:Put"), Some("b"), None);
    assert_eq!(get_file_props(r), Err(SkipReason::NoObjectKey));
    let r = record(Some("ObjectCreated:Put"), Some("b"), Some(""));
    assert_eq!(get_file_props(r), Err(SkipReason::NoObjectKey));
    assert_eq!(SkipReason::WrongEvent.message(), "Wrong event");
    assert_eq!(SkipReason::NoBucketName.message(), "No bucket name");
    assert_eq!(SkipReason::NoObjectKey.message(), "No object key");
}

#[test]
fn records_are_evaluated_independently() {
    // A failing record leaves the next one's outcome untouched.
    let bad = record(Some("ObjectRemoved:Delete"), Some("b"), Some("one.png"));
    assert!(plan_record(bad).is_err());
    let good = record(Some("ObjectCreated:Put"), Some("b"), Some("two.png"));
    let plan = plan_record(good).unwrap();
    assert_eq!(plan.s3_uri, "s3://b/two.png");
}

#[test]
fn svg_and_unlisted_types_get_no_thumbnail() {
    assert!(matches!(
        thumbnail_decision("cat.svg", "image/svg+xml"),
        ThumbnailDecision::UnsupportedFormat
    ));
    assert!(matches!(
        thumbnail_decision("cat.gif", "image/gif"),
        ThumbnailDecision::UnsupportedFormat
    ));
    assert!(matches!(thumbnail_decision("notes.txt", "text/plain"), ThumbnailDecision::NotAnImage));
    assert!(!is_supported_image_format("image/svg+xml"));
    assert!(is_supported_image_format("image/png"));
    assert!(is_supported_image_format("image/jpeg"));
    assert!(is_supported_image_format("image/jpg"));
}

#[test]
fn supported_image_gets_derived_key() {
    match thumbnail_decision("my cat.png", "image/png") {
        ThumbnailDecision::Generate(key) => assert_eq!(key, "thumbnail-my cat.png"),
        _ => panic!("expected a generate decision"),
    }
}

#[test]
fn thumbnail_upload_halts_batch() {
    assert!(matches!(
        thumbnail_decision("thumbnail-cat.png", "image/png"),
        ThumbnailDecision::HaltBatch
    ));
}

#[test]
fn attribute_map_round_trip() {
    let info = sample_info();
    let item = build_put_item(&info);
    let back = convert_attribute_map_into_s3_info(&item).unwrap();
    assert!(back == info);
    assert_eq!(back.object_size, 2048);
}

#[test]
fn attribute_map_holds_exact_fields() {
    let info = sample_info();
    let attrs = convert_s3_info_into_attribute_map(&info);
    assert_eq!(attrs.len(), 4);
    assert_eq!(attrs[0].name, "s3_uri");
    assert!(matches!(&attrs[0].value, AttrValue::S(s) if s == "s3://b/cat.png"));
    assert_eq!(attrs[3].name, "object_size");
    assert!(matches!(&attrs[3].value, AttrValue::N(s) if s == "2048"));
    let item = build_put_item(&info);
    assert_eq!(item.len(), 6);
    assert_eq!(item[4].name, "this_is_a_partition_key");
    assert!(matches!(&item[4].value, AttrValue::S(s) if s == "123456"));
    assert_eq!(item[5].name, "a_sort_key");
    assert!(matches!(&item[5].value, AttrValue::S(s) if s == "s3://b/cat.png"));
}

#[test]
fn decode_rejects_missing_or_mistyped_attributes() {
    let info = sample_info();
    let mut item = build_put_item(&info);
    item.remove(1);
    assert!(convert_attribute_map_into_s3_info(&item).is_none());

    let mut item = build_put_item(&info);
    item[3] = Attr { name: "object_size".to_string(), value: AttrValue::S("2048".to_string()) };
    assert!(convert_attribute_map_into_s3_info(&item).is_none());

    let mut item = build_put_item(&info);
    item[3] = Attr { name: "object_size".to_string(), value: AttrValue::N("20x48".to_string()) };
    assert!(convert_attribute_map_into_s3_info(&item).is_none());
}

#[test]
fn report_has_one_row_per_record_in_order() {
    let a = sample_info();
    let b = S3ObjectInfo {
        s3_uri: "s3://b/dog.jpg".to_string(),
        object_name: "dog.jpg".to_string(),
        object_type: "image/jpeg".to_string(),
        object_size: 77,
    };
    let html = render_report_html(&vec![a, b]);
    assert_eq!(html.matches("<tr><td>").count(), 2);
    assert!(html.contains("cat.png"));
    assert!(html.contains("image/png"));
    assert!(html.contains("2048"));
    assert!(html.contains("s3://b/cat.png"));
    assert!(html.contains("dog.jpg"));
    assert!(html.find("cat.png").unwrap() < html.find("dog.jpg").unwrap());
    assert!(html.contains("<th>Object Name</th>"));
}

#[test]
fn empty_report_renders_header_only() {
    let html = render_report_html(&Vec::new());
    assert_eq!(html.matches("<tr><td>").count(), 0);
    assert!(html.contains("<th>Object Name</th>"));
    assert!(html.contains("</table>"));
}

#[test]
fn report_cycle_aborts_on_failed_query() {
    assert!(plan_report_cycle(None).is_none());
}

#[test]
fn report_cycle_deletes_exactly_the_batch_read() {
    let a = sample_info();
    let uri = a.s3_uri.clone();
    let plan = plan_report_cycle(Some(vec![a])).unwrap();
    assert_eq!(plan.delete_uris, vec![uri]);
    assert!(plan.html.contains("cat.png"));
}

#[test]
fn delete_failures_are_counted_not_propagated() {
    assert_eq!(count_failures(&vec![]), 0);
    assert_eq!(count_failures(&vec![true, true]), 0);
    assert_eq!(count_failures(&vec![true, false, false, true]), 2);
}

#[test]
fn payload_shapes_are_told_apart() {
    assert!(matches!(classify_event(true, false), EventKind::StorageNotification));
    assert!(matches!(classify_event(true, true), EventKind::StorageNotification));
    assert!(matches!(classify_event(false, true), EventKind::TimerSignal));
    assert!(matches!(classify_event(false, false), EventKind::Unrecognized));
}
