use sqs_extended_client::{
    new_extended_receipt_handle, parse_extended_receipt_handle, MessageSize, PointerDecodeError,
    S3Pointer,
};

fn pointer(class: &str, bucket: &str, key: &str) -> S3Pointer {
    S3Pointer { s3_bucket_name: bucket.to_string(), s3_key: key.to_string(), class: class.to_string() }
}

#[test]
fn pointer_wire_form_is_exact() {
    let text = pointer("cls", "b", "k").marshall_json();
    assert_eq!("[\"cls\",{\"s3BucketName\":\"b\",\"s3Key\":\"k\"}]", text);
}

#[test]
fn pointer_round_trip() {
    for (c, b, k) in [
        ("cls", "bucket", "key"),
        ("", "", ""),
        ("a/b", "my.bucket", "pre/\u{e9}-1"),
        ("\"", "back\\slash", "quo\"te"),
        ("tab\there", "line\nbreak", "nul\u{0}\u{1f}"),
    ] {
        let text = pointer(c, b, k).marshall_json();
        let back = S3Pointer::unmarshall_json(&text).expect("a pointer record");
        assert_eq!(c, back.class);
        assert_eq!(b, back.s3_bucket_name);
        assert_eq!(k, back.s3_key);
    }
}

#[test]
fn pointer_fields_are_escaped() {
    let text = pointer("a\"b", "c\\d", "e\nf").marshall_json();
    assert_eq!("[\"a\\\"b\",{\"s3BucketName\":\"c\\\\d\",\"s3Key\":\"e\\u000af\"}]", text);
}

#[test]
fn pointer_decode_accepts_ordinary_json() {
    let texts = [
        " [ \"cls\" , { \"s3BucketName\" : \"b\" , \"s3Key\" : \"k\" } ]\n",
        "[\"cls\",{\"s3Key\":\"k\",\"s3BucketName\":\"b\"}]",
        "[\"cls\",{\"size\":12,\"s3BucketName\":\"b\",\"on\":true,\"s3Key\":\"k\",\"x\":null,\"y\":\"z\"}]",
        "[\"\\u0063ls\",{\"s3BucketName\":\"\\u0062\",\"s3Key\":\"\\u006B\"}]",
    ];
    for text in texts {
        let p = S3Pointer::unmarshall_json(text).expect("a pointer record");
        assert_eq!("cls", p.class, "{}", text);
        assert_eq!("b", p.s3_bucket_name, "{}", text);
        assert_eq!("k", p.s3_key, "{}", text);
    }
    let p = S3Pointer::unmarshall_json("[\"c\",{\"s3BucketName\":\"a\\/b\",\"s3Key\":\"x\\ty\\\"\"}]")
        .expect("a pointer record");
    assert_eq!("a/b", p.s3_bucket_name);
    assert_eq!("x\ty\"", p.s3_key);
}

#[test]
fn pointer_decode_rejects_malformed_input() {
    let bad = [
        "",
        "not json",
        "[\"cls\"]",
        "[\"cls\",{\"s3BucketName\":\"b\"}]",
        "[\"cls\",{\"s3Key\":\"k\"}]",
        "[\"cls\",{\"s3BucketName\":\"b\",\"s3Key\":\"k\"}",
        "[\"cls\",{\"s3BucketName\":\"b\",\"s3Key\":\"k\"}],",
        "[\"cls\",{\"s3BucketName\":\"b\",\"s3Key\":\"k\"},\"x\"]",
        "[1,{\"s3BucketName\":\"b\",\"s3Key\":\"k\"}]",
        "[\"cls\",{\"s3BucketName\":1,\"s3Key\":\"k\"}]",
        "[\"cls\",{\"s3BucketName\":\"b\",\"s3BucketName\":\"c\",\"s3Key\":\"k\"}]",
        "[\"cls\",{\"s3BucketName\":\"b\",\"s3Key\":\"k\"}] x",
        "[\"cls\",{\"s3BucketName\":\"b\",\"s3Key\":\"k\\q\"}]",
        "[\"cls\",{\"s3BucketName\":\"b\",\"s3Key\":\"k\nk\"}]",
        "[\"cls\",{\"s3BucketName\":\"b\",\"s3Key\":\"\\ud800\"}]",
    ];
    for text in bad {
        assert_eq!(Err(PointerDecodeError), S3Pointer::unmarshall_json(text).map(|_| ()), "{}", text);
    }
}

#[test]
fn receipt_handle_wire_form_is_exact() {
    assert_eq!(
        "-..s3BucketName..-b-..s3BucketName..--..s3Key..-k-..s3Key..-h",
        new_extended_receipt_handle("b", "k", "h")
    );
}

#[test]
fn receipt_handle_round_trip() {
    for (b, k, h) in [("bucket", "key", "AQEB+/="), ("", "", ""), ("b", "dir/k-1", "x-..s3Key..-y")] {
        let handle = new_extended_receipt_handle(b, k, h);
        let parsed = parse_extended_receipt_handle(&handle);
        assert_eq!(Some((b.to_string(), k.to_string(), h.to_string())), parsed);
    }
}

#[test]
fn plain_receipt_handle_is_not_extended() {
    assert_eq!(None, parse_extended_receipt_handle("AQEBwJnKyrHigUMZj6rYigCgxlaS3SLy0a"));
    assert_eq!(None, parse_extended_receipt_handle(""));
    assert_eq!(None, parse_extended_receipt_handle("-..s3BucketName..-bucket-only"));
    assert_eq!(None, parse_extended_receipt_handle("-..s3BucketName..-b-..s3BucketName..--..s3Key..-k"));
}

#[test]
fn message_size_total_saturates() {
    assert_eq!(30, MessageSize { body_size: 10, attribute_size: 20 }.total());
    assert_eq!(usize::MAX, MessageSize { body_size: usize::MAX, attribute_size: 1 }.total());
}
