use audio_friend::clips::{
    bucket_target, clip_file_name, download_clip, download_problem, key_with_stamp, list_clips,
    listed_clips, upload_clip, uploaded_clip, BucketTarget, ClipSource, ListedObject, UploadOutcome,
    UploadPlan, CLIP_PREFIX, REGION,
};
use audio_friend::config::S3Config;
use audio_friend::detector::FinishedClip;
use audio_friend::time::Timestamp;

fn bucket() -> S3Config {
    S3Config {
        endpoint_url: "https://s3.example.com".to_string(),
        bucket: "sounds".to_string(),
        access_key: "reader".to_string(),
        secret_key: "open sesame".to_string(),
    }
}

fn finished() -> FinishedClip {
    FinishedClip {
        bytes: vec![1, 2, 3],
        duration: 5,
        size_bytes: 3,
        captured_at: Timestamp::new(1_000_000_000, 123_000_000).unwrap(),
    }
}

fn is_the_bucket(target: &BucketTarget) -> bool {
    target.region == "us-east-1"
        && target.endpoint == "https://s3.example.com"
        && target.bucket == "sounds"
        && target.access_key == "reader"
        && target.secret_key == "open sesame"
}

fn object(key: &str, last_modified: &str, size: u64) -> ListedObject {
    ListedObject { key: key.to_string(), last_modified: last_modified.to_string(), size }
}

#[test]
fn the_bucket_is_the_one_in_the_settings() {
    assert!(is_the_bucket(&bucket_target(&bucket())));
    assert_eq!(REGION, "us-east-1");
    assert_eq!(CLIP_PREFIX, "recordings/");
}

#[test]
fn clips_are_uploaded_under_their_time() {
    match upload_clip(&bucket(), &finished()) {
        UploadPlan::Put { target, key } => {
            assert!(is_the_bucket(&target));
            assert_eq!(key, "recordings/20010909T014640.123Z.wav");
        }
        UploadPlan::Skip { .. } => panic!("the clip was not to be skipped"),
    }
    assert_eq!(key_with_stamp("now"), "recordings/now.wav");
}

#[test]
fn uploads_are_skipped_without_a_bucket() {
    for i in 0..4 {
        let mut config = bucket();
        match i {
            0 => config.endpoint_url.clear(),
            1 => config.bucket.clear(),
            2 => config.access_key.clear(),
            _ => config.secret_key.clear(),
        }
        match upload_clip(&config, &finished()) {
            UploadPlan::Skip { outcome: UploadOutcome::Skipped { size_bytes } } => {
                assert_eq!(size_bytes, 3)
            }
            other => panic!("{other:?}"),
        }
        assert!(list_clips(&config).is_none());
    }
}

#[test]
fn uploads_are_skipped_with_a_blank_bucket() {
    let config = S3Config {
        endpoint_url: " ".to_string(),
        bucket: " ".to_string(),
        access_key: " ".to_string(),
        secret_key: " ".to_string(),
    };
    match upload_clip(&config, &finished()) {
        UploadPlan::Skip { outcome: UploadOutcome::Skipped { size_bytes } } => {
            assert_eq!(size_bytes, 3)
        }
        other => panic!("{other:?}"),
    }
}

#[test]
fn a_bucket_is_listed_where_no_field_is_empty() {
    let mut config = S3Config {
        endpoint_url: " ".to_string(),
        bucket: " ".to_string(),
        access_key: " ".to_string(),
        secret_key: " ".to_string(),
    };
    assert!(config.names_bucket());
    let plan = list_clips(&config).unwrap();
    assert_eq!(plan.target.endpoint, " ");
    assert_eq!(plan.prefix, "recordings/");
    config.bucket.clear();
    assert!(!config.names_bucket());
    assert!(list_clips(&config).is_none());
}

#[test]
fn the_status_of_an_upload_decides() {
    for status in [200u16, 204, 299] {
        match uploaded_clip(status, "k".to_string(), 7) {
            Ok(UploadOutcome::Uploaded { key, size_bytes }) => {
                assert_eq!((key.as_str(), size_bytes), ("k", 7))
            }
            other => panic!("{other:?}"),
        }
    }
    for status in [0u16, 100, 199, 300, 403, 500, u16::MAX] {
        match uploaded_clip(status, "k".to_string(), 7) {
            Err(e) => assert_eq!(e, format!("S3 upload failed with status {status}")),
            other => panic!("{other:?}"),
        }
    }
}

#[test]
fn clips_are_downloaded_to_a_file_of_their_name() {
    let plan = download_clip(&bucket(), "recordings/a.wav");
    assert!(is_the_bucket(&plan.target));
    assert_eq!(plan.key, "recordings/a.wav");
    assert_eq!(plan.file_name, "a.wav");
    for key in ["", "a", "/", "a/", "a/b", "/a/b/c.wav", "//", "\u{e4}/\u{f6}"] {
        assert_eq!(clip_file_name(key), key.rsplit('/').next().unwrap(), "{key:?}");
    }
}

#[test]
fn the_status_of_a_download_decides() {
    assert_eq!(download_problem(200), None);
    assert_eq!(download_problem(299), None);
    assert_eq!(
        download_problem(404),
        Some("S3 download failed with status 404".to_string())
    );
    assert_eq!(
        download_problem(199),
        Some("S3 download failed with status 199".to_string())
    );
    assert_eq!(
        download_problem(300),
        Some("S3 download failed with status 300".to_string())
    );
}

#[test]
fn clips_are_listed_under_the_prefix() {
    let plan = list_clips(&bucket()).unwrap();
    assert!(is_the_bucket(&plan.target));
    assert_eq!(plan.prefix, "recordings/");
}

#[test]
fn the_latest_clip_is_listed_first() {
    let clips = listed_clips(&vec![
        object("a", "2024-01-01T00:00:00.000Z", 1),
        object("b", "2024-03-01T00:00:00.000Z", 2),
        object("c", "2024-02-01T00:00:00.000Z", 3),
        object("d", "2024-03-01T00:00:00.000Z", 4),
        object("e", "unknown", 5),
    ]);
    let keys: Vec<&str> = clips.iter().map(|c| c.key.as_str()).collect();
    assert_eq!(keys, vec!["e", "b", "d", "c", "a"]);
    let sizes: Vec<u64> = clips.iter().map(|c| c.size_bytes).collect();
    assert_eq!(sizes, vec![5, 2, 4, 3, 1]);
    assert!(clips.iter().all(|c| c.source == ClipSource::Uploaded));
    assert_eq!(clips[0].last_modified_display, "unknown");
    assert_eq!(clips[4].last_modified, "2024-01-01T00:00:00.000Z");
    let shown = chrono::DateTime::parse_from_rfc3339("2024-01-01T00:00:00.000Z")
        .unwrap()
        .with_timezone(&chrono::Local)
        .format("%b %-d, %Y at %-I:%M:%S %p")
        .to_string();
    assert_eq!(clips[4].last_modified_display, shown);
}

#[test]
fn an_empty_bucket_has_no_clips() {
    assert!(listed_clips(&Vec::new()).is_empty());
}

#[test]
fn a_copy_of_a_clip_has_what_the_clip_has() {
    let clips = listed_clips(&vec![object("a", "x", 9)]);
    let copy = clips[0].clone();
    assert_eq!(
        (copy.key, copy.last_modified, copy.last_modified_display, copy.size_bytes, copy.source),
        ("a".to_string(), "x".to_string(), "x".to_string(), 9, ClipSource::Uploaded)
    );
}
