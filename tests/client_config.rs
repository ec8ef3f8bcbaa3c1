use sqs_extended_client::{
    AttributeValue, SqsExtendedClient, SqsExtendedClientBuilder, SqsExtendedClientError,
    DEFAULT_POINTER_CLASS, LEGACY_RESERVED_ATTRIBUTE_NAME, MAX_MESSAGE_SIZE_IN_BYTES,
};

fn make_test_credentials() -> aws_sdk_s3::config::Credentials {
    aws_sdk_s3::config::Credentials::new(
        "TEST_ACCESS_KEY_ID",
        "TEST_SECRET_ACCESS_KEY",
        Some("TEST_SESSION_TOKEN".to_string()),
        None,
        "",
    )
}

fn make_test_s3_client() -> aws_sdk_s3::Client {
    aws_sdk_s3::Client::from_conf(
        aws_sdk_s3::Config::builder()
            .behavior_version(aws_sdk_s3::config::BehaviorVersion::latest())
            .credentials_provider(make_test_credentials())
            .build(),
    )
}

fn make_test_sqs_client() -> aws_sdk_sqs::Client {
    aws_sdk_sqs::Client::from_conf(
        aws_sdk_sqs::Config::builder()
            .behavior_version(aws_sdk_sqs::config::BehaviorVersion::latest())
            .credentials_provider(make_test_credentials())
            .build(),
    )
}

fn builder() -> SqsExtendedClientBuilder {
    SqsExtendedClientBuilder::new(make_test_s3_client(), make_test_sqs_client())
}

#[test]
fn test_builder_fns() {
    let sqs_extended_client: SqsExtendedClient = builder()
        .with_s3_bucket_name("bucket-name".to_string())
        .with_message_size_threshold(9999)
        .with_batch_message_size_threshold(1000)
        .with_always_through_s3(true)
        .with_reserved_attribute_names(vec!["attr_one".to_string(), "attr_two".to_string()])
        .with_pointer_class("pointer-class".to_string())
        .with_object_prefix("object-prefix".to_string())
        .build()
        .expect("valid settings");

    let bucket_name: String;
    match sqs_extended_client.bucket_name() {
        None => {
            bucket_name = String::from("");
        }
        Some(bn) => {
            bucket_name = bn.clone();
        }
    }

    assert_eq!("bucket-name", bucket_name);
    assert_eq!(9999, sqs_extended_client.message_size_threshold());
    assert_eq!(1000, sqs_extended_client.batch_messages_size_threshold());
    assert_eq!(true, sqs_extended_client.always_through_s3());
    assert_eq!(
        &vec!["attr_one".to_string(), "attr_two".to_string()],
        sqs_extended_client.reserved_attributes()
    );
    assert_eq!("pointer-class", sqs_extended_client.pointer_class());
    assert_eq!("object-prefix", sqs_extended_client.object_prefix());
    assert_eq!(84, sqs_extended_client.base_s3_pointer_size());
    assert_eq!(14, sqs_extended_client.base_attribute_size());
}

#[test]
fn test_builder_defaults() {
    let sqs_extended_client: SqsExtendedClient = builder().build().expect("valid settings");

    let bucket_name: String;
    match sqs_extended_client.bucket_name() {
        None => {
            bucket_name = String::from("");
        }
        Some(bn) => {
            bucket_name = bn.clone();
        }
    }

    assert_eq!("", bucket_name);
    assert_eq!(MAX_MESSAGE_SIZE_IN_BYTES, sqs_extended_client.message_size_threshold());
    assert_eq!(MAX_MESSAGE_SIZE_IN_BYTES, sqs_extended_client.batch_messages_size_threshold());
    assert_eq!(false, sqs_extended_client.always_through_s3());
    assert_eq!(
        &vec!["ExtendedPayloadSize".to_string(), LEGACY_RESERVED_ATTRIBUTE_NAME.to_string()],
        sqs_extended_client.reserved_attributes()
    );
    assert_eq!(DEFAULT_POINTER_CLASS, sqs_extended_client.pointer_class());
    assert_eq!("", sqs_extended_client.object_prefix());
    assert_eq!(121, sqs_extended_client.base_s3_pointer_size());
    assert_eq!(25, sqs_extended_client.base_attribute_size());
}

#[test]
fn test_calc_attribute_size() {
    let sqs_extended_client: SqsExtendedClient = builder().build().expect("valid settings");

    let reserved_attribute = AttributeValue {
        data_type: String::from("String"),
        string_value: Some(String::from("some string")),
        binary_value: None,
    };

    let hm: Vec<(String, AttributeValue)> =
        vec![(String::from("testing_strings"), reserved_attribute)];

    assert_eq!(32, sqs_extended_client.calc_attribute_size(&hm))
}

#[test]
fn test_s3_key() {
    let sqs_extended_client_no_prefix: SqsExtendedClient =
        builder().build().expect("valid settings");

    assert_eq!(
        String::from("00000000-0000-0000-0000-000000000000"),
        sqs_extended_client_no_prefix.s3_key(String::from("00000000-0000-0000-0000-000000000000"))
    );

    let sqs_extended_client_with_prefix: SqsExtendedClient = builder()
        .with_object_prefix(String::from("some_prefix"))
        .build()
        .expect("valid settings");

    assert_eq!(
        String::from("some_prefix/00000000-0000-0000-0000-000000000000"),
        sqs_extended_client_with_prefix.s3_key(String::from("00000000-0000-0000-0000-000000000000"))
    )
}

#[test]
fn build_rejects_empty_reserved_names() {
    let r = builder().with_reserved_attribute_names(vec![]).build();
    assert!(matches!(r, Err(SqsExtendedClientError::InvalidConfiguration)));
}

#[test]
fn build_rejects_zero_threshold() {
    let r = builder().with_message_size_threshold(0).build();
    assert!(matches!(r, Err(SqsExtendedClientError::InvalidConfiguration)));
    let r = builder().with_batch_message_size_threshold(0).build();
    assert!(matches!(r, Err(SqsExtendedClientError::InvalidConfiguration)));
}

#[test]
fn attribute_size_counts_binary_values_and_none() {
    let client = builder().build().expect("valid settings");
    let blob = AttributeValue {
        data_type: String::from("Binary"),
        string_value: None,
        binary_value: Some(vec![1, 2, 3, 4, 5]),
    };
    let text = AttributeValue {
        data_type: String::from("Number"),
        string_value: Some(String::from("12")),
        binary_value: None,
    };
    let attrs = vec![(String::from("b"), blob), (String::from("n"), text)];
    // 1 + 6 + 5, then 1 + 6 + 2
    assert_eq!(21, client.calc_attribute_size(&attrs));
    assert_eq!(21, client.attribute_size(&Some(attrs)));
    assert_eq!(0, client.attribute_size(&None));
}

#[test]
fn message_size_counts_bytes_not_characters() {
    let client = builder().build().expect("valid settings");
    let attrs = vec![(
        String::from("k"),
        AttributeValue {
            data_type: String::from("String"),
            string_value: Some(String::from("v")),
            binary_value: None,
        },
    )];
    let size = client.message_size("h\u{e9}llo \u{1F60A}", &Some(attrs));
    assert_eq!(11, size.body_size);
    assert_eq!(8, size.attribute_size);
    assert_eq!(19, size.total());
}

#[test]
fn offload_threshold_is_strict() {
    let client = builder().with_message_size_threshold(5).build().expect("valid settings");
    assert!(!client.message_exceeds_threshold("12345", &None));
    assert!(client.message_exceeds_threshold("123456", &None));
}

fn entries() -> ((String, AttributeValue), (String, AttributeValue)) {
    let a = (
        String::from("first"),
        AttributeValue {
            data_type: String::from("String"),
            string_value: Some(String::from("\u{e9}t\u{e9}")),
            binary_value: None,
        },
    );
    let b = (
        String::from("second"),
        AttributeValue {
            data_type: String::from("Binary"),
            string_value: None,
            binary_value: Some(vec![0, 1]),
        },
    );
    (a, b)
}

#[test]
fn attribute_size_ignores_order() {
    let client = builder().build().expect("valid settings");
    let (a, b) = entries();
    let forward = vec![a, b];
    let (a, b) = entries();
    let backward = vec![b, a];
    // 5 + 6 + 5, then 6 + 6 + 2
    assert_eq!(30, client.calc_attribute_size(&forward));
    assert_eq!(30, client.calc_attribute_size(&backward));
}
