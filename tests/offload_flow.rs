use sqs_extended_client::{
    new_extended_receipt_handle, parse_extended_receipt_handle, AttributeValue, S3Pointer,
    SendPlan, SqsExtendedClient, SqsExtendedClientBuilder, SqsExtendedClientError,
    DEFAULT_POINTER_CLASS,
};

fn client_with(f: impl FnOnce(SqsExtendedClientBuilder) -> SqsExtendedClientBuilder) -> SqsExtendedClient {
    let creds = aws_sdk_s3::config::Credentials::new("id", "secret", None, None, "test");
    let s3 = aws_sdk_s3::Client::from_conf(
        aws_sdk_s3::Config::builder()
            .behavior_version(aws_sdk_s3::config::BehaviorVersion::latest())
            .credentials_provider(creds.clone())
            .build(),
    );
    let sqs = aws_sdk_sqs::Client::from_conf(
        aws_sdk_sqs::Config::builder()
            .behavior_version(aws_sdk_sqs::config::BehaviorVersion::latest())
            .credentials_provider(creds)
            .build(),
    );
    f(SqsExtendedClientBuilder::new(s3, sqs)).build().expect("valid settings")
}

const ID: &str = "0f8e2a64-7c3d-4b1e-9a50-d2c4e6f80a13";

fn pointer_body(class: &str, bucket: &str, key: &str) -> String {
    format!("[\"{}\",{{\"s3BucketName\":\"{}\",\"s3Key\":\"{}\"}}]", class, bucket, key)
}

#[test]
fn scenario_offload_above_threshold() {
    let client = client_with(|b| b.with_s3_bucket_name("bucket".to_string()).with_message_size_threshold(20));
    let body = "x".repeat(47);
    match client.plan_send_with_id(&Some(body), &None, ID.to_string()) {
        Ok(SendPlan::Offload(p)) => {
            assert_eq!("bucket", p.bucket);
            assert_eq!(ID, p.key);
            assert_eq!(pointer_body(DEFAULT_POINTER_CLASS, "bucket", ID), p.pointer_body);
            assert_eq!("ExtendedPayloadSize", p.size_attribute_name);
            assert_eq!("47", p.size_attribute_value);
        }
        _ => panic!("expected the body to be offloaded"),
    }
}

#[test]
fn scenario_always_offload_small_body() {
    let client = client_with(|b| {
        b.with_s3_bucket_name("bucket".to_string())
            .with_always_through_s3(true)
            .with_message_size_threshold(200000)
    });
    match client.plan_send_with_id(&Some("0123456789".to_string()), &None, ID.to_string()) {
        Ok(SendPlan::Offload(p)) => {
            assert_eq!(ID, p.key);
            assert_eq!(pointer_body(DEFAULT_POINTER_CLASS, "bucket", ID), p.pointer_body);
            assert_eq!("10", p.size_attribute_value);
        }
        _ => panic!("expected the body to be offloaded"),
    }
    match client.plan_send_with_id(&Some(String::new()), &None, ID.to_string()) {
        Ok(SendPlan::Offload(p)) => assert_eq!("0", p.size_attribute_value),
        _ => panic!("expected the empty body to be offloaded"),
    }
}

#[test]
fn offload_boundary_at_threshold() {
    let client = client_with(|b| b.with_s3_bucket_name("bucket".to_string()).with_message_size_threshold(10));
    let attrs = Some(vec![(
        "ab".to_string(),
        AttributeValue { data_type: "Number".to_string(), string_value: None, binary_value: None },
    )]);
    // 2 body bytes + 2 + 6 attribute bytes: exactly the threshold
    let at = client.plan_send_with_id(&Some("hi".to_string()), &attrs, ID.to_string());
    assert!(matches!(at, Ok(SendPlan::Unchanged)));
    let above = client.plan_send_with_id(&Some("hi!".to_string()), &attrs, ID.to_string());
    assert!(matches!(above, Ok(SendPlan::Offload(_))));
}

#[test]
fn offload_key_uses_prefix_and_emoji_size() {
    let client = client_with(|b| {
        b.with_s3_bucket_name("sqs-extended-client-bucket".to_string())
            .with_always_through_s3(true)
            .with_object_prefix("some_prefix".to_string())
    });
    let body = "hello SQS! with love from the sqs-extended-client-rust \u{1F60A}".to_string();
    match client.plan_send_with_id(&Some(body), &None, ID.to_string()) {
        Ok(SendPlan::Offload(p)) => {
            assert_eq!(format!("some_prefix/{}", ID), p.key);
            assert_eq!("59", p.size_attribute_value);
        }
        _ => panic!("expected the body to be offloaded"),
    }
}

#[test]
fn send_needs_bucket_and_body() {
    let no_bucket = client_with(|b| b);
    let r = no_bucket.plan_send(&Some("hi".to_string()), &None);
    assert!(matches!(r, Err(SqsExtendedClientError::NoBucketName)));
    let client = client_with(|b| b.with_s3_bucket_name("bucket".to_string()));
    let r = client.plan_send(&None, &None);
    assert!(matches!(r, Err(SqsExtendedClientError::NoMessageBody)));
    let r = client.plan_send(&Some("small".to_string()), &None);
    assert!(matches!(r, Ok(SendPlan::Unchanged)));
}

#[test]
fn plan_send_draws_fresh_identifiers() {
    let client = client_with(|b| b.with_s3_bucket_name("bucket".to_string()).with_always_through_s3(true));
    let first = match client.plan_send(&Some("a".to_string()), &None) {
        Ok(SendPlan::Offload(p)) => p.key,
        _ => panic!("expected the body to be offloaded"),
    };
    let second = match client.plan_send(&Some("a".to_string()), &None) {
        Ok(SendPlan::Offload(p)) => p.key,
        _ => panic!("expected the body to be offloaded"),
    };
    assert_eq!(36, first.len());
    assert_eq!(Some('-'), first.chars().nth(8));
    assert_ne!(first, second);
}

#[test]
fn scenario_send_then_receive_round_trip() {
    let client = client_with(|b| b.with_s3_bucket_name("bucket".to_string()).with_always_through_s3(true));
    let plan = match client.plan_send(&Some("hello".to_string()), &None) {
        Ok(SendPlan::Offload(p)) => p,
        _ => panic!("expected the body to be offloaded"),
    };
    let names = Some(vec![plan.size_attribute_name.clone()]);
    let pointer = match client.plan_receive(&names, &Some(plan.pointer_body.clone()), &Some("queue-handle".to_string())) {
        Ok(Some(p)) => p,
        _ => panic!("expected an offloaded message"),
    };
    assert_eq!(plan.bucket, pointer.s3_bucket_name);
    assert_eq!(plan.key, pointer.s3_key);
    let restored = client.restore_message(&pointer, "queue-handle", b"hello").expect("utf-8 body");
    assert_eq!("hello", restored.body);
    let (bucket, key, handle) =
        parse_extended_receipt_handle(&restored.receipt_handle).expect("an extended handle");
    assert_eq!(plan.bucket, bucket);
    assert_eq!(plan.key, key);
    assert_eq!("queue-handle", handle);
}

#[test]
fn scenario_delete_with_plain_handle() {
    let client = client_with(|b| b.with_s3_bucket_name("bucket".to_string()));
    let plan = client.plan_delete(&Some("AQEBplainhandle==".to_string())).expect("a handle");
    assert!(plan.object.is_none());
    assert_eq!("AQEBplainhandle==", plan.receipt_handle);
}

#[test]
fn delete_with_extended_handle_names_object() {
    let client = client_with(|b| b);
    let h = new_extended_receipt_handle("bucket", "key-1", "AQEBhandle");
    let plan = client.plan_delete(&Some(h)).expect("a handle");
    assert_eq!(Some(("bucket".to_string(), "key-1".to_string())), plan.object);
    assert_eq!("AQEBhandle", plan.receipt_handle);
    let r = client.plan_delete(&None);
    assert!(matches!(r, Err(SqsExtendedClientError::NoReceiptHandle)));
}

#[test]
fn delete_with_empty_part_removes_nothing() {
    let client = client_with(|b| b);
    for (bucket, key, queue) in [("", "k", "h"), ("b", "", "h"), ("b", "k", "")] {
        let h = new_extended_receipt_handle(bucket, key, queue);
        let plan = client.plan_delete(&Some(h.clone())).expect("a handle");
        assert!(plan.object.is_none());
        assert_eq!(h, plan.receipt_handle);
    }
}

#[test]
fn offloaded_pointer_escapes_quoted_key() {
    let client = client_with(|b| {
        b.with_s3_bucket_name("bucket".to_string())
            .with_always_through_s3(true)
            .with_object_prefix("odd\"prefix".to_string())
    });
    let plan = match client.plan_send(&Some("hello".to_string()), &None) {
        Ok(SendPlan::Offload(p)) => p,
        _ => panic!("expected the body to be offloaded"),
    };
    let names = Some(vec![plan.size_attribute_name.clone()]);
    let pointer = match client.plan_receive(&names, &Some(plan.pointer_body.clone()), &Some("h".to_string())) {
        Ok(Some(p)) => p,
        _ => panic!("expected an offloaded message"),
    };
    assert_eq!(plan.key, pointer.s3_key);
    assert!(pointer.s3_key.starts_with("odd\"prefix/"));
}

#[test]
fn visibility_handle_unwraps_extended_handles() {
    let client = client_with(|b| b);
    let h = new_extended_receipt_handle("bucket", "key-1", "AQEBhandle");
    assert_eq!("AQEBhandle", client.visibility_receipt_handle(&Some(h)).expect("a handle"));
    assert_eq!("plain", client.visibility_receipt_handle(&Some("plain".to_string())).expect("a handle"));
    assert!(matches!(
        client.visibility_receipt_handle(&None),
        Err(SqsExtendedClientError::NoReceiptHandle)
    ));
}

#[test]
fn scenario_legacy_attribute_recognised() {
    let client = client_with(|b| b);
    let names = Some(vec!["SQSLargePayloadSize".to_string()]);
    let body = Some(pointer_body("c", "bucket", "key"));
    let r = client.plan_receive(&names, &body, &Some("h".to_string()));
    match r {
        Ok(Some(p)) => {
            assert_eq!("bucket", p.s3_bucket_name);
            assert_eq!("key", p.s3_key);
            assert_eq!("c", p.class);
        }
        _ => panic!("expected an offloaded message"),
    }
}

#[test]
fn receive_leaves_other_messages_alone() {
    let client = client_with(|b| b);
    let body = Some(pointer_body("c", "bucket", "key"));
    let handle = Some("h".to_string());
    assert!(matches!(client.plan_receive(&None, &body, &handle), Ok(None)));
    let other = Some(vec!["Other".to_string()]);
    assert!(matches!(client.plan_receive(&other, &body, &handle), Ok(None)));
    let names = Some(vec!["ExtendedPayloadSize".to_string()]);
    assert!(matches!(client.plan_receive(&names, &None, &handle), Ok(None)));
    assert!(matches!(client.plan_receive(&names, &body, &None), Ok(None)));
    let bad = Some("just text".to_string());
    assert!(matches!(
        client.plan_receive(&names, &bad, &handle),
        Err(SqsExtendedClientError::SqsReceiveMessageUnMarshallMessageBody(_))
    ));
}

#[test]
fn restore_rejects_invalid_utf8() {
    let client = client_with(|b| b);
    let pointer = S3Pointer {
        s3_bucket_name: "bucket".to_string(),
        s3_key: "key".to_string(),
        class: "c".to_string(),
    };
    let r = client.restore_message(&pointer, "h", &[0x66, 0xff, 0x66]);
    assert!(matches!(r, Err(SqsExtendedClientError::S3DownloadToUtf8(_))));
    let ok = client.restore_message(&pointer, "h", "caf\u{e9}".as_bytes()).expect("utf-8 body");
    assert_eq!("caf\u{e9}", ok.body);
    assert_eq!("-..s3BucketName..-bucket-..s3BucketName..--..s3Key..-key-..s3Key..-h", ok.receipt_handle);
}
