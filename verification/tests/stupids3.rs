use overwatch::stupids3::{get, get_obj, get_raw, put, StoreReply, StupidS3Error, NOT_UTF8};

#[test]
fn raw_body_is_handed_on() {
    let body = get_raw("bucket", "key", StoreReply::Body(vec![1, 2, 3])).unwrap();
    assert_eq!(body, vec![1, 2, 3]);
}

#[test]
fn raw_missing_key_names_bucket_and_key() {
    match get_raw("bucket", "key", StoreReply::NoSuchKey) {
        Err(StupidS3Error::NoSuchKey { bucket, key }) => {
            assert_eq!(bucket, "bucket");
            assert_eq!(key, "key");
        }
        other => panic!("expected NoSuchKey, got {:?}", other),
    }
}

#[test]
fn raw_missing_body() {
    assert!(matches!(
        get_raw("bucket", "key", StoreReply::NoBody),
        Err(StupidS3Error::ContentMissing)
    ));
}

#[test]
fn raw_failure_carries_its_text() {
    match get_raw("bucket", "key", StoreReply::Failed("access denied".to_string())) {
        Err(StupidS3Error::UnknownError { bucket, key, error }) => {
            assert_eq!(bucket, "bucket");
            assert_eq!(key, "key");
            assert_eq!(error, "access denied");
        }
        other => panic!("expected UnknownError, got {:?}", other),
    }
}

#[test]
fn text_is_decoded_from_utf8() {
    let body = vec![0x63, 0x61, 0x66, 0xc3, 0xa9, 0x20, 0xe2, 0x82, 0xac];
    let text = get("bucket", "key", StoreReply::Body(body)).unwrap();
    assert_eq!(text, "caf\u{e9} \u{20ac}");
    assert_eq!(text.chars().count(), 6);
}

#[test]
fn empty_body_is_the_empty_text() {
    assert_eq!(get("bucket", "key", StoreReply::Body(Vec::new())).unwrap(), "");
}

#[test]
fn body_that_is_not_utf8_is_invalid() {
    assert!(matches!(
        get("bucket", "key", StoreReply::Body(vec![0x61, 0xff, 0x62])),
        Err(StupidS3Error::ContentInvalid(_))
    ));
    assert!(matches!(
        get("bucket", "key", StoreReply::Body(vec![0xc3])),
        Err(StupidS3Error::ContentInvalid(_))
    ));
    assert!(matches!(
        get("bucket", "key", StoreReply::Body(vec![0xed, 0xa0, 0x80])),
        Err(StupidS3Error::ContentInvalid(_))
    ));
}

#[test]
fn body_that_is_not_utf8_says_so() {
    assert_eq!(NOT_UTF8, "stream did not contain valid UTF-8");
    match get("bucket", "key", StoreReply::Body(vec![0x80])) {
        Err(StupidS3Error::ContentInvalid(why)) => {
            assert_eq!(why, "stream did not contain valid UTF-8")
        }
        other => panic!("expected ContentInvalid, got {:?}", other),
    }
}

#[test]
fn text_errors_are_those_of_the_raw_read() {
    assert!(matches!(
        get("bucket", "key", StoreReply::NoSuchKey),
        Err(StupidS3Error::NoSuchKey { .. })
    ));
    assert!(matches!(get("bucket", "key", StoreReply::NoBody), Err(StupidS3Error::ContentMissing)));
    assert!(matches!(
        get("bucket", "key", StoreReply::Failed("x".to_string())),
        Err(StupidS3Error::UnknownError { .. })
    ));
}

#[test]
fn object_is_what_the_decoder_makes_of_the_body() {
    let object = get_obj("bucket", "key", StoreReply::Body(vec![4, 5, 6]), |bytes: Vec<u8>| {
        Ok::<usize, String>(bytes.len())
    });
    assert_eq!(object.unwrap(), 3);
}

#[test]
fn refused_body_is_invalid_with_the_decoder_reason() {
    let object = get_obj("bucket", "key", StoreReply::Body(vec![4, 5, 6]), |_bytes: Vec<u8>| {
        Err::<usize, String>("expected a list".to_string())
    });
    match object {
        Err(StupidS3Error::ContentInvalid(why)) => assert_eq!(why, "expected a list"),
        other => panic!("expected ContentInvalid, got {:?}", other),
    }
}

#[test]
fn object_errors_are_those_of_the_raw_read() {
    let decode = |bytes: Vec<u8>| Ok::<usize, String>(bytes.len());
    assert!(matches!(
        get_obj("bucket", "key", StoreReply::NoSuchKey, decode),
        Err(StupidS3Error::NoSuchKey { .. })
    ));
    assert!(matches!(
        get_obj("bucket", "key", StoreReply::NoBody, decode),
        Err(StupidS3Error::ContentMissing)
    ));
    assert!(matches!(
        get_obj("bucket", "key", StoreReply::Failed("x".to_string()), decode),
        Err(StupidS3Error::UnknownError { .. })
    ));
}

#[test]
fn put_reports_success() {
    assert!(put("bucket", "key", Ok(())).is_ok());
}

#[test]
fn put_failure_names_bucket_and_key() {
    match put("bucket", "key", Err("slow down".to_string())) {
        Err(StupidS3Error::UnknownError { bucket, key, error }) => {
            assert_eq!(bucket, "bucket");
            assert_eq!(key, "key");
            assert_eq!(error, "slow down");
        }
        other => panic!("expected UnknownError, got {:?}", other),
    }
}

#[test]
fn messages_of_the_errors() {
    let missing = StupidS3Error::NoSuchKey { bucket: "b".to_string(), key: "k".to_string() };
    assert_eq!(missing.message(), "The key b/k does not exist");
    assert_eq!(StupidS3Error::ContentMissing.message(), "The content was missing");
    assert_eq!(
        StupidS3Error::ContentInvalid("why".to_string()).message(),
        "The content was invalid"
    );
    let unknown = StupidS3Error::UnknownError {
        bucket: "b".to_string(),
        key: "k".to_string(),
        error: "timed out".to_string(),
    };
    assert_eq!(unknown.message(), "An unknown error occurred while retrieving b/k from S3");
}

#[test]
fn clone_of_an_error_keeps_its_fields() {
    let unknown = StupidS3Error::UnknownError {
        bucket: "b".to_string(),
        key: "k".to_string(),
        error: "timed out".to_string(),
    };
    match unknown.clone() {
        StupidS3Error::UnknownError { bucket, key, error } => {
            assert_eq!(bucket, "b");
            assert_eq!(key, "k");
            assert_eq!(error, "timed out");
        }
        other => panic!("expected UnknownError, got {:?}", other),
    }
}
