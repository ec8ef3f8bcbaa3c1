use vstd::prelude::*;
use vstd::utf8::{encode_utf8, is_ascii_chars, is_ascii_chars_encode_utf8};

use crate::error::SqsExtendedClientError;
use crate::pointer::{parse_pointer, pointer_text, S3Pointer};
use crate::receipt::{
    bucket_clear, handle_text, key_clear, lemma_receipt_handle_round_trip,
    new_extended_receipt_handle, parse_extended_receipt_handle,
};
use crate::size::{
    attributes_size, byte_len, byte_length, capped, lemma_attributes_size_nonneg,
    message_total_size, optional_attributes_size, should_offload, AttributeValue, MessageSize,
};

verus! {

/// The largest message the queue accepts, in bytes.
pub const MAX_MESSAGE_SIZE_IN_BYTES: usize = 262144;

/// The type tag written into pointer records unless another is configured.
pub const DEFAULT_POINTER_CLASS: &'static str = "software.amazon.payloadoffloading.PayloadS3Pointer";

/// The attribute that marks an offloaded message unless others are configured.
pub const RESERVED_ATTRIBUTE_NAME: &'static str = "ExtendedPayloadSize";

/// The attribute name that earlier clients wrote; still recognised on receipt.
pub const LEGACY_RESERVED_ATTRIBUTE_NAME: &'static str = "SQSLargePayloadSize";

/// The settings of an extended client, as values.
pub ghost struct ExtendedConfig {
    pub bucket_name: Option<Seq<char>>,
    pub message_size_threshold: usize,
    pub batch_message_size_threshold: usize,
    pub always_through_s3: bool,
    pub pointer_class: Seq<char>,
    pub reserved_attributes: Seq<Seq<char>>,
    pub object_prefix: Seq<char>,
}

/// Settings that a client can be built from: both thresholds positive and at
/// least one reserved attribute name.
pub open spec fn valid_config(c: ExtendedConfig) -> bool {
    &&& c.message_size_threshold > 0
    &&& c.batch_message_size_threshold > 0
    &&& c.reserved_attributes.len() > 0
}

/// The configuration that a fresh builder holds.
pub open spec fn default_config() -> ExtendedConfig {
    ExtendedConfig {
        bucket_name: None,
        message_size_threshold: MAX_MESSAGE_SIZE_IN_BYTES,
        batch_message_size_threshold: MAX_MESSAGE_SIZE_IN_BYTES,
        always_through_s3: false,
        pointer_class: DEFAULT_POINTER_CLASS@,
        reserved_attributes: seq![RESERVED_ATTRIBUTE_NAME@, LEGACY_RESERVED_ATTRIBUTE_NAME@],
        object_prefix: Seq::empty(),
    }
}

/// The view of an optional string.
pub open spec fn opt_view(s: Option<String>) -> Option<Seq<char>> {
    match s {
        Some(t) => Some(t@),
        None => None,
    }
}

/// Whether a text is a random identifier in hyphenated form: 36 characters,
/// hyphens at 8, 13, 18 and 23, lowercase hexadecimal digits elsewhere.
pub open spec fn is_object_id(s: Seq<char>) -> bool {
    &&& s.len() == 36
    &&& forall|i: int|
        0 <= i < 36 ==> if i == 8 || i == 13 || i == 18 || i == 23 {
            s[i] == '-'
        } else {
            ('0' <= #[trigger] s[i] <= '9') || ('a' <= s[i] <= 'f')
        }
}

/// The key of a stored body: the identifier, under the prefix when one is set.
pub open spec fn object_key(prefix: Seq<char>, id: Seq<char>) -> Seq<char> {
    if prefix.len() == 0 {
        id
    } else {
        prefix + seq!['/'] + id
    }
}

/// The decimal digits of a number, most significant first.
pub open spec fn decimal(n: nat) -> Seq<char>
    decreases n,
{
    let d = seq!['0', '1', '2', '3', '4', '5', '6', '7', '8', '9'];
    if n < 10 {
        seq![d[n as int]]
    } else {
        decimal(n / 10) + seq![d[(n % 10) as int]]
    }
}

/// Relies on uuid's `Uuid::new_v4` and its `Display`, which writes the
/// hyphenated form: a fresh random identifier for a stored body.
#[verifier::external_body]
fn new_object_id() -> (r: String)
    ensures
        is_object_id(r@),
{
    uuid::Uuid::new_v4().to_string()
}

/// A number in decimal digits.
fn decimal_text(n: usize) -> (r: String)
    ensures
        r@ == decimal(n as nat),
{
    let digit: Vec<char> = vec!['0', '1', '2', '3', '4', '5', '6', '7', '8', '9'];
    assert(digit@ =~= seq!['0', '1', '2', '3', '4', '5', '6', '7', '8', '9']);
    let mut low_first: Vec<char> = Vec::new();
    let ghost mut tail: Seq<char> = Seq::empty();
    let mut m = n;
    while m >= 10
        invariant
            digit@ == seq!['0', '1', '2', '3', '4', '5', '6', '7', '8', '9'],
            decimal(n as nat) == decimal(m as nat) + tail,
            tail.len() == low_first.len(),
            forall|t: int| 0 <= t < tail.len() ==> tail[t] == low_first@[tail.len() - 1 - t],
        decreases m,
    {
        let d = digit[m % 10];
        proof {
            assert(decimal(m as nat) == decimal((m / 10) as nat) + seq![d]);
            assert(decimal((m / 10) as nat) + seq![d] + tail =~= decimal((m / 10) as nat) + (
            seq![d] + tail));
            tail = seq![d] + tail;
        }
        low_first.push(d);
        m = m / 10;
    }
    let mut r = String::new();
    crate::json::push_char(&mut r, digit[m]);
    assert(r@ =~= decimal(m as nat));
    let mut k = low_first.len();
    while k > 0
        invariant
            k <= low_first.len(),
            tail.len() == low_first.len(),
            forall|t: int| 0 <= t < tail.len() ==> tail[t] == low_first@[tail.len() - 1 - t],
            r@ == decimal(m as nat) + tail.take(low_first.len() - k),
        decreases k,
    {
        k = k - 1;
        crate::json::push_char(&mut r, low_first[k]);
        assert(tail.take(low_first.len() - k) =~= tail.take(low_first.len() - k - 1).push(
            low_first@[k as int],
        ));
    }
    assert(tail.take(low_first.len() as int) =~= tail);
    r
}

/// Relies on `std::str::from_utf8`, which fails exactly on bytes that are not
/// UTF-8, and otherwise reads the text that the bytes encode.
#[verifier::external_body]
fn utf8_text(bytes: &[u8]) -> (r: Result<String, std::str::Utf8Error>)
    ensures
        r is Ok <==> vstd::utf8::valid_utf8(bytes@),
        r matches Ok(s) ==> encode_utf8(s@) == bytes@,
{
    std::str::from_utf8(bytes).map(|s| s.to_string())
}

/// The bytes of two texts one after the other are the bytes of each.
pub proof fn lemma_byte_len_concat(a: Seq<char>, b: Seq<char>)
    ensures
        byte_len(a + b) == byte_len(a) + byte_len(b),
    decreases a.len(),
{
    if a.len() == 0 {
        assert(a + b =~= b);
    } else {
        lemma_byte_len_concat(a.drop_first(), b);
        assert((a + b).drop_first() =~= a.drop_first() + b);
        assert((a + b)[0] == a[0]);
    }
}

/// An ASCII text takes one byte per character.
proof fn lemma_ascii_byte_len(s: Seq<char>)
    requires
        is_ascii_chars(s),
    ensures
        byte_len(s) == s.len(),
{
    is_ascii_chars_encode_utf8(s);
}

/// The object-storage client, held and handed back to the caller unread.
#[verifier::external_type_specification]
#[verifier::external_body]
pub struct ExS3Client(aws_sdk_s3::Client);

/// The queue client, held and handed back to the caller unread.
#[verifier::external_type_specification]
#[verifier::external_body]
pub struct ExSqsClient(aws_sdk_sqs::Client);

/// Gathers the settings of an extended client, starting from the defaults.
pub struct SqsExtendedClientBuilder {
    s3_client: aws_sdk_s3::Client,
    sqs_client: aws_sdk_sqs::Client,
    bucket_name: Option<String>,
    message_size_threshold: usize,
    batch_message_size_threshold: usize,
    always_s3: bool,
    pointer_class: String,
    reserved_attributes: Vec<String>,
    object_prefix: String,
}

impl View for SqsExtendedClientBuilder {
    type V = ExtendedConfig;

    closed spec fn view(&self) -> ExtendedConfig {
        ExtendedConfig {
            bucket_name: opt_view(self.bucket_name),
            message_size_threshold: self.message_size_threshold,
            batch_message_size_threshold: self.batch_message_size_threshold,
            always_through_s3: self.always_s3,
            pointer_class: self.pointer_class@,
            reserved_attributes: self.reserved_attributes@.map_values(|a: String| a@),
            object_prefix: self.object_prefix@,
        }
    }
}

impl SqsExtendedClientBuilder {
    /// A builder over the two underlying clients, with the default settings.
    pub fn new(s3_client: aws_sdk_s3::Client, sqs_client: aws_sdk_sqs::Client) -> (r:
        SqsExtendedClientBuilder)
        ensures
            r@ == default_config(),
    {
        let reserved_attributes = vec![
            String::from_str(RESERVED_ATTRIBUTE_NAME),
            String::from_str(LEGACY_RESERVED_ATTRIBUTE_NAME),
        ];
        let r = SqsExtendedClientBuilder {
            s3_client,
            sqs_client,
            bucket_name: None,
            message_size_threshold: MAX_MESSAGE_SIZE_IN_BYTES,
            batch_message_size_threshold: MAX_MESSAGE_SIZE_IN_BYTES,
            always_s3: false,
            pointer_class: String::from_str(DEFAULT_POINTER_CLASS),
            reserved_attributes,
            object_prefix: String::new(),
        };
        assert(r@.reserved_attributes =~= default_config().reserved_attributes);
        assert(r@.object_prefix =~= Seq::<char>::empty());
        r
    }

    /// Sets the bucket that offloaded bodies are written to.
    pub fn with_s3_bucket_name(self, bucket_name: String) -> (r: SqsExtendedClientBuilder)
        ensures
            r@ == (ExtendedConfig { bucket_name: Some(bucket_name@), ..self@ }),
    {
        SqsExtendedClientBuilder { bucket_name: Some(bucket_name), ..self }
    }

    /// Sets the size above which a message is offloaded.
    pub fn with_message_size_threshold(self, msg_size: usize) -> (r: SqsExtendedClientBuilder)
        ensures
            r@ == (ExtendedConfig { message_size_threshold: msg_size, ..self@ }),
    {
        SqsExtendedClientBuilder { message_size_threshold: msg_size, ..self }
    }

    /// Sets the size threshold for batches of messages.
    pub fn with_batch_message_size_threshold(self, batch_msg_size: usize) -> (r:
        SqsExtendedClientBuilder)
        ensures
            r@ == (ExtendedConfig { batch_message_size_threshold: batch_msg_size, ..self@ }),
    {
        SqsExtendedClientBuilder { batch_message_size_threshold: batch_msg_size, ..self }
    }

    /// Sets whether every body is offloaded, whatever its size.
    pub fn with_always_through_s3(self, always_s3: bool) -> (r: SqsExtendedClientBuilder)
        ensures
            r@ == (ExtendedConfig { always_through_s3: always_s3, ..self@ }),
    {
        SqsExtendedClientBuilder { always_s3, ..self }
    }

    /// Sets the attribute names that mark an offloaded message; the first
    /// is the one written.
    pub fn with_reserved_attribute_names(self, reserved_attribute_names: Vec<String>) -> (r:
        SqsExtendedClientBuilder)
        ensures
            r@ == (ExtendedConfig {
                reserved_attributes: reserved_attribute_names@.map_values(|a: String| a@),
                ..self@
            }),
    {
        SqsExtendedClientBuilder { reserved_attributes: reserved_attribute_names, ..self }
    }

    /// Sets the type tag written into pointer records.
    pub fn with_pointer_class(self, pointer_class: String) -> (r: SqsExtendedClientBuilder)
        ensures
            r@ == (ExtendedConfig { pointer_class: pointer_class@, ..self@ }),
    {
        SqsExtendedClientBuilder { pointer_class, ..self }
    }

    /// Sets the prefix put before the keys of stored bodies.
    pub fn with_object_prefix(self, prefix: String) -> (r: SqsExtendedClientBuilder)
        ensures
            r@ == (ExtendedConfig { object_prefix: prefix@, ..self@ }),
    {
        SqsExtendedClientBuilder { object_prefix: prefix, ..self }
    }

    /// The client with these settings, where they are valid.
    pub fn build(self) -> (r: Result<SqsExtendedClient, SqsExtendedClientError>)
        ensures
            valid_config(self@) ==> (r matches Ok(c) && c@ == self@),
            !valid_config(self@) ==> (r matches Err(SqsExtendedClientError::InvalidConfiguration)),
    {
        if self.message_size_threshold == 0 || self.batch_message_size_threshold == 0
            || self.reserved_attributes.len() == 0 {
            return Err(SqsExtendedClientError::InvalidConfiguration);
        }
        let base_s3_pointer_size = byte_length(self.pointer_class.as_str()).saturating_add(71);
        let name_len = byte_length(self.reserved_attributes[0].as_str());
        let base_attribute_size = name_len.saturating_add(6);
        let c = SqsExtendedClient {
            s3_client: self.s3_client,
            sqs_client: self.sqs_client,
            bucket_name: self.bucket_name,
            message_size_threshold: self.message_size_threshold,
            batch_messages_size_threshold: self.batch_message_size_threshold,
            always_through_s3: self.always_s3,
            pointer_class: self.pointer_class,
            reserved_attributes: self.reserved_attributes,
            object_prefix: self.object_prefix,
            base_s3_pointer_size,
            base_attribute_size,
        };
        Ok(c)
    }
}

/// The queue client that moves large bodies to object storage.
pub struct SqsExtendedClient {
    s3_client: aws_sdk_s3::Client,
    sqs_client: aws_sdk_sqs::Client,
    bucket_name: Option<String>,
    message_size_threshold: usize,
    batch_messages_size_threshold: usize,
    always_through_s3: bool,
    pointer_class: String,
    reserved_attributes: Vec<String>,
    object_prefix: String,
    base_s3_pointer_size: usize,
    base_attribute_size: usize,
}

impl View for SqsExtendedClient {
    type V = ExtendedConfig;

    closed spec fn view(&self) -> ExtendedConfig {
        ExtendedConfig {
            bucket_name: opt_view(self.bucket_name),
            message_size_threshold: self.message_size_threshold,
            batch_message_size_threshold: self.batch_messages_size_threshold,
            always_through_s3: self.always_through_s3,
            pointer_class: self.pointer_class@,
            reserved_attributes: self.reserved_attributes@.map_values(|a: String| a@),
            object_prefix: self.object_prefix@,
        }
    }
}

impl SqsExtendedClient {
    #[verifier::type_invariant]
    spec fn inv(&self) -> bool {
        &&& valid_config(self@)
        &&& self.base_s3_pointer_size == capped(byte_len(self.pointer_class@) + 71)
        &&& self.base_attribute_size == capped(byte_len(self.reserved_attributes@[0]@) + 6)
    }
}

/// What sending a message takes, once the body is known to be offloaded: the
/// object to write, and the body and attribute that stand for it in the queue.
#[derive(Debug)]
pub struct OffloadPlan {
    pub bucket: String,
    pub key: String,
    pub pointer_body: String,
    pub size_attribute_name: String,
    pub size_attribute_data_type: String,
    pub size_attribute_value: String,
}

/// How a message is sent: as it is, or with its body moved to object storage.
#[derive(Debug)]
pub enum SendPlan {
    Unchanged,
    Offload(OffloadPlan),
}

/// `Number`, the data type of the attribute that records an offloaded
/// body's size.
pub open spec fn number_type() -> Seq<char> {
    seq!['N', 'u', 'm', 'b', 'e', 'r']
}

/// The outcome of planning a send of `body` with `attrs` under `cfg`, where
/// `id` names the object that an offloaded body is written to.
pub open spec fn send_outcome(
    cfg: ExtendedConfig,
    body: Option<Seq<char>>,
    attrs: Option<Vec<(String, AttributeValue)>>,
    id: Seq<char>,
    r: Result<SendPlan, SqsExtendedClientError>,
) -> bool {
    match cfg.bucket_name {
        None => r matches Err(SqsExtendedClientError::NoBucketName),
        Some(bucket) => match body {
            None => r matches Err(SqsExtendedClientError::NoMessageBody),
            Some(b) => {
                let offload = should_offload(
                    cfg.always_through_s3,
                    capped(message_total_size(b, attrs)),
                    cfg.message_size_threshold as int,
                );
                match r {
                    Ok(SendPlan::Unchanged) => !offload,
                    Ok(SendPlan::Offload(p)) => {
                        &&& offload
                        &&& p.bucket@ == bucket
                        &&& p.key@ == object_key(cfg.object_prefix, id)
                        &&& p.pointer_body@ == pointer_text(cfg.pointer_class, bucket, p.key@)
                        &&& p.size_attribute_name@ == cfg.reserved_attributes[0]
                        &&& p.size_attribute_data_type@ == number_type()
                        &&& p.size_attribute_value@ == decimal(byte_len(b) as nat)
                    },
                    Err(_) => false,
                }
            },
        },
    }
}

impl SqsExtendedClient {
    pub fn s3_client(&self) -> &aws_sdk_s3::Client {
        &self.s3_client
    }

    pub fn sqs_client(&self) -> &aws_sdk_sqs::Client {
        &self.sqs_client
    }

    pub fn bucket_name(&self) -> (r: &Option<String>)
        ensures
            opt_view(*r) == self@.bucket_name,
    {
        &self.bucket_name
    }

    pub fn message_size_threshold(&self) -> (r: usize)
        ensures
            r == self@.message_size_threshold,
            r > 0,
    {
        proof {
            use_type_invariant(self);
        }
        self.message_size_threshold
    }

    pub fn batch_messages_size_threshold(&self) -> (r: usize)
        ensures
            r == self@.batch_message_size_threshold,
            r > 0,
    {
        proof {
            use_type_invariant(self);
        }
        self.batch_messages_size_threshold
    }

    pub fn always_through_s3(&self) -> (r: bool)
        ensures
            r == self@.always_through_s3,
    {
        self.always_through_s3
    }

    pub fn pointer_class(&self) -> (r: &String)
        ensures
            r@ == self@.pointer_class,
    {
        &self.pointer_class
    }

    pub fn reserved_attributes(&self) -> (r: &Vec<String>)
        ensures
            r@.map_values(|a: String| a@) == self@.reserved_attributes,
            r@.len() > 0,
    {
        proof {
            use_type_invariant(self);
        }
        &self.reserved_attributes
    }

    pub fn object_prefix(&self) -> (r: &String)
        ensures
            r@ == self@.object_prefix,
    {
        &self.object_prefix
    }

    /// Bytes of a pointer record with an empty bucket and a key of the
    /// 36 characters of a fresh identifier: the class tag and 71 more.
    pub fn base_s3_pointer_size(&self) -> (r: usize)
        ensures
            r == capped(byte_len(self@.pointer_class) + 71),
    {
        proof {
            use_type_invariant(self);
        }
        self.base_s3_pointer_size
    }

    /// Bytes that the size attribute adds to an offloaded message, besides
    /// its value: the first reserved name and the data type `Number`.
    pub fn base_attribute_size(&self) -> (r: usize)
        ensures
            r == capped(byte_len(self@.reserved_attributes[0]) + 6),
    {
        proof {
            use_type_invariant(self);
        }
        self.base_attribute_size
    }

    /// The size of a list of attributes by the queue's rule.
    pub fn calc_attribute_size(&self, attributes: &Vec<(String, AttributeValue)>) -> (r: usize)
        ensures
            r == capped(attributes_size(attributes@)),
    {
        let mut sum: usize = 0;
        let mut i: usize = 0;
        while i < attributes.len()
            invariant
                i <= attributes.len(),
                sum == capped(attributes_size(attributes@.take(i as int))),
            decreases attributes.len() - i,
        {
            let (name, value) = &attributes[i];
            sum = sum.saturating_add(byte_length(name.as_str()));
            match &value.binary_value {
                None => {},
                Some(blob) => {
                    sum = sum.saturating_add(blob.len());
                },
            }
            match &value.string_value {
                None => {},
                Some(text) => {
                    sum = sum.saturating_add(byte_length(text.as_str()));
                },
            }
            sum = sum.saturating_add(byte_length(value.data_type.as_str()));
            proof {
                let t = attributes@.take(i + 1);
                assert(t.drop_last() =~= attributes@.take(i as int));
                assert(t.last() == attributes@[i as int]);
                lemma_attributes_size_nonneg(attributes@.take(i as int));
            }
            i = i + 1;
        }
        assert(attributes@.take(i as int) =~= attributes@);
        sum
    }

    /// The size of optional attributes: none count nothing.
    pub fn attribute_size(&self, attributes: &Option<Vec<(String, AttributeValue)>>) -> (r: usize)
        ensures
            r == capped(optional_attributes_size(*attributes)),
    {
        match attributes {
            None => 0,
            Some(list) => self.calc_attribute_size(list),
        }
    }

    /// The size of an outbound message, split into body and attributes.
    pub fn message_size(&self, body: &str, attributes: &Option<Vec<(String, AttributeValue)>>) -> (r:
        MessageSize)
        ensures
            r.body_size == byte_len(body@),
            r.attribute_size == capped(optional_attributes_size(*attributes)),
            byte_len(body@) + optional_attributes_size(*attributes) <= usize::MAX ==> r.body_size
                + r.attribute_size == byte_len(body@) + optional_attributes_size(*attributes),
    {
        proof {
            if let Some(a) = attributes {
                lemma_attributes_size_nonneg(a@);
            }
        }
        MessageSize { body_size: byte_length(body), attribute_size: self.attribute_size(attributes) }
    }

    /// Whether a message is larger than the configured threshold, its size
    /// held at `usize::MAX`.
    pub fn message_exceeds_threshold(
        &self,
        body: &str,
        attributes: &Option<Vec<(String, AttributeValue)>>,
    ) -> (r: bool)
        ensures
            r == (capped(message_total_size(body@, *attributes)) > self@.message_size_threshold),
    {
        proof {
            match attributes {
                Some(a) => lemma_attributes_size_nonneg(a@),
                None => {},
            }
        }
        self.message_size(body, attributes).total() > self.message_size_threshold
    }

    /// The key of a stored body: the file name, under the prefix when one is set.
    pub fn s3_key(&self, filename: String) -> (r: String)
        ensures
            r@ == object_key(self@.object_prefix, filename@),
    {
        if self.object_prefix.as_str().is_empty() {
            return filename;
        }
        let mut r = self.object_prefix.clone();
        r.append("/");
        r.append(filename.as_str());
        proof {
            reveal_strlit("/");
            assert(r@ =~= object_key(self@.object_prefix, filename@));
        }
        r
    }

    /// Plans the send of a message whose body, if offloaded, is written under
    /// the object identifier `object_id`.
    pub fn plan_send_with_id(
        &self,
        body: &Option<String>,
        attributes: &Option<Vec<(String, AttributeValue)>>,
        object_id: String,
    ) -> (r: Result<SendPlan, SqsExtendedClientError>)
        ensures
            send_outcome(self@, opt_view(*body), *attributes, object_id@, r),
    {
        proof {
            use_type_invariant(self);
        }
        let bucket = match &self.bucket_name {
            None => return Err(SqsExtendedClientError::NoBucketName),
            Some(b) => b,
        };
        let message_body = match body {
            None => return Err(SqsExtendedClientError::NoMessageBody),
            Some(b) => b,
        };
        if !(self.always_through_s3 || self.message_exceeds_threshold(
            message_body.as_str(),
            attributes,
        )) {
            return Ok(SendPlan::Unchanged);
        }
        let key = self.s3_key(object_id);
        let pointer = S3Pointer {
            s3_bucket_name: bucket.clone(),
            s3_key: key.clone(),
            class: self.pointer_class.clone(),
        };
        let pointer_body = pointer.marshall_json();
        let size_attribute_value = decimal_text(byte_length(message_body.as_str()));
        let size_attribute_data_type = String::from_str("Number");
        proof {
            reveal_strlit("Number");
            assert(size_attribute_data_type@ =~= number_type());
        }
        let plan = OffloadPlan {
            bucket: bucket.clone(),
            key,
            pointer_body,
            size_attribute_name: self.reserved_attributes[0].clone(),
            size_attribute_data_type,
            size_attribute_value,
        };
        Ok(SendPlan::Offload(plan))
    }

    /// Plans the send of a message, drawing a fresh identifier for the
    /// object that an offloaded body is written to.
    pub fn plan_send(&self, body: &Option<String>, attributes: &Option<Vec<(String, AttributeValue)>>) -> (r:
        Result<SendPlan, SqsExtendedClientError>)
        ensures
            exists|id: Seq<char>| is_object_id(id) && send_outcome(self@, opt_view(*body), *attributes, id, r),
    {
        let id = new_object_id();
        let ghost id_view = id@;
        let r = self.plan_send_with_id(body, attributes, id);
        assert(is_object_id(id_view) && send_outcome(self@, opt_view(*body), *attributes, id_view, r));
        r
    }
}

/// Whether one of `names` is one of the reserved attribute names.
pub open spec fn has_reserved_name(names: Seq<Seq<char>>, reserved: Seq<Seq<char>>) -> bool {
    exists|i: int, j: int|
        0 <= i < names.len() && 0 <= j < reserved.len() && #[trigger] names[i] == #[trigger] reserved[j]
}

/// The view of optional attribute names; absent names are no names.
pub open spec fn names_view(names: Option<Vec<String>>) -> Seq<Seq<char>> {
    match names {
        Some(n) => n@.map_values(|a: String| a@),
        None => Seq::empty(),
    }
}

/// The outcome of looking at a received message: `Ok(None)` leaves it as it
/// is, `Ok(Some(p))` says that its body is to be fetched from where `p` points.
pub open spec fn receive_outcome(
    cfg: ExtendedConfig,
    names: Seq<Seq<char>>,
    body: Option<Seq<char>>,
    handle: Option<Seq<char>>,
    r: Result<Option<S3Pointer>, SqsExtendedClientError>,
) -> bool {
    if !has_reserved_name(names, cfg.reserved_attributes) || body is None || handle is None {
        r matches Ok(None)
    } else {
        match r {
            Ok(Some(p)) => parse_pointer(body->0) == Some(
                (p.class@, p.s3_bucket_name@, p.s3_key@),
            ),
            Ok(None) => false,
            Err(e) => {
                &&& e is SqsReceiveMessageUnMarshallMessageBody
                &&& parse_pointer(body->0) is None
            },
        }
    }
}

/// Whether `h` is the extended handle of the object `(b, k)` and the queue's
/// own handle `o`, all three present.
pub open spec fn names_object(h: Seq<char>, b: Seq<char>, k: Seq<char>, o: Seq<char>) -> bool {
    &&& bucket_clear(b)
    &&& key_clear(k)
    &&& h == handle_text(b, k, o)
    &&& b.len() > 0
    &&& k.len() > 0
    &&& o.len() > 0
}

/// Whether a receipt handle names an offloaded object: an extended handle
/// whose bucket, key and queue handle are none of them empty.
pub open spec fn names_some_object(h: Seq<char>) -> bool {
    exists|b: Seq<char>, k: Seq<char>, o: Seq<char>| #[trigger] names_object(h, b, k, o)
}

/// Whether `o` is the handle to pass to the queue for the receipt handle
/// `h`: the queue's own handle inside one that names an object, any other
/// handle itself.
pub open spec fn queue_handle(h: Seq<char>, o: Seq<char>) -> bool {
    if names_some_object(h) {
        exists|b: Seq<char>, k: Seq<char>| #[trigger] names_object(h, b, k, o)
    } else {
        o == h
    }
}

/// A received message after its body came back from object storage.
#[derive(Debug)]
pub struct RestoredMessage {
    pub body: String,
    pub receipt_handle: String,
}

/// What deleting a message takes: the queue's own handle, and the object to
/// remove once the queue has deleted the message.
#[derive(Debug)]
pub struct DeletePlan {
    pub receipt_handle: String,
    pub object: Option<(String, String)>,
}

impl SqsExtendedClient {
    /// Whether a message carries one of the reserved attributes.
    pub fn is_offloaded(&self, attribute_names: &Vec<String>) -> (r: bool)
        ensures
            r == has_reserved_name(
                attribute_names@.map_values(|a: String| a@),
                self@.reserved_attributes,
            ),
    {
        let ghost names = attribute_names@.map_values(|a: String| a@);
        let ghost reserved = self@.reserved_attributes;
        let mut i: usize = 0;
        while i < attribute_names.len()
            invariant
                i <= attribute_names.len(),
                names == attribute_names@.map_values(|a: String| a@),
                reserved == self@.reserved_attributes,
                forall|a: int, b: int|
                    0 <= a < i && 0 <= b < reserved.len() ==> names[a] != reserved[b],
            decreases attribute_names.len() - i,
        {
            let mut j: usize = 0;
            while j < self.reserved_attributes.len()
                invariant
                    i < attribute_names.len(),
                    j <= self.reserved_attributes.len(),
                    names == attribute_names@.map_values(|a: String| a@),
                    reserved == self@.reserved_attributes,
                    forall|a: int, b: int|
                        0 <= a < i && 0 <= b < reserved.len() ==> names[a] != reserved[b],
                    forall|b: int| 0 <= b < j ==> names[i as int] != reserved[b],
                decreases self.reserved_attributes.len() - j,
            {
                if attribute_names[i] == self.reserved_attributes[j] {
                    assert(names[i as int] == reserved[j as int]);
                    return true;
                }
                j = j + 1;
            }
            i = i + 1;
        }
        false
    }

    /// Looks at one received message: whether its body was offloaded, and
    /// where to. A message without reserved attribute, body or receipt handle
    /// is left as it is.
    pub fn plan_receive(
        &self,
        attribute_names: &Option<Vec<String>>,
        body: &Option<String>,
        receipt_handle: &Option<String>,
    ) -> (r: Result<Option<S3Pointer>, SqsExtendedClientError>)
        ensures
            receive_outcome(
                self@,
                names_view(*attribute_names),
                opt_view(*body),
                opt_view(*receipt_handle),
                r,
            ),
    {
        let offloaded = match attribute_names {
            None => false,
            Some(names) => self.is_offloaded(names),
        };
        if !offloaded || body.is_none() || receipt_handle.is_none() {
            return Ok(None);
        }
        let text = match body {
            Some(b) => b,
            None => return Ok(None),
        };
        match S3Pointer::unmarshall_json(text.as_str()) {
            Ok(p) => Ok(Some(p)),
            Err(e) => Err(SqsExtendedClientError::SqsReceiveMessageUnMarshallMessageBody(e)),
        }
    }

    /// The message as delivered to the caller, once its stored body is in:
    /// the body read as UTF-8 text, and an extended receipt handle that
    /// records where the body lies.
    pub fn restore_message(&self, pointer: &S3Pointer, receipt_handle: &str, object: &[u8]) -> (r:
        Result<RestoredMessage, SqsExtendedClientError>)
        ensures
            r is Ok <==> vstd::utf8::valid_utf8(object@),
            r matches Ok(m) ==> encode_utf8(m.body@) == object@ && m.receipt_handle@ == handle_text(
                pointer.s3_bucket_name@,
                pointer.s3_key@,
                receipt_handle@,
            ),
            r matches Err(e) ==> e is S3DownloadToUtf8,
    {
        match utf8_text(object) {
            Ok(body) => {
                let handle = new_extended_receipt_handle(
                    pointer.s3_bucket_name.as_str(),
                    pointer.s3_key.as_str(),
                    receipt_handle,
                );
                Ok(RestoredMessage { body, receipt_handle: handle })
            },
            Err(e) => Err(SqsExtendedClientError::S3DownloadToUtf8(e)),
        }
    }

    /// Plans the delete of a message: a handle that names an object gives
    /// way to the queue's own handle, and the object is to be removed; any
    /// other handle is passed on unchanged, and nothing is removed from
    /// storage.
    pub fn plan_delete(&self, receipt_handle: &Option<String>) -> (r: Result<
        DeletePlan,
        SqsExtendedClientError,
    >)
        ensures
            receipt_handle is None ==> (r matches Err(SqsExtendedClientError::NoReceiptHandle)),
            receipt_handle matches Some(h) ==> (r matches Ok(p) && if names_some_object(h@) {
                p.object matches Some((b, k)) && names_object(h@, b@, k@, p.receipt_handle@)
            } else {
                p.object is None && p.receipt_handle@ == h@
            }),
    {
        let handle = match receipt_handle {
            None => return Err(SqsExtendedClientError::NoReceiptHandle),
            Some(h) => h,
        };
        match parse_extended_receipt_handle(handle.as_str()) {
            Some((bucket, key, queue_handle)) => {
                if !bucket.as_str().is_empty() && !key.as_str().is_empty()
                    && !queue_handle.as_str().is_empty() {
                    assert(names_object(handle@, bucket@, key@, queue_handle@));
                    return Ok(
                        DeletePlan { receipt_handle: queue_handle, object: Some((bucket, key)) },
                    );
                }
                proof {
                    if names_some_object(handle@) {
                        let (b, k, o) = choose|b: Seq<char>, k: Seq<char>, o: Seq<char>|
                            #[trigger] names_object(handle@, b, k, o);
                        lemma_receipt_handle_round_trip(bucket@, key@, queue_handle@);
                        assert(b == bucket@ && k == key@ && o == queue_handle@);
                    }
                }
                Ok(DeletePlan { receipt_handle: handle.clone(), object: None })
            },
            None => {
                proof {
                    if names_some_object(handle@) {
                        let (b, k, o) = choose|b: Seq<char>, k: Seq<char>, o: Seq<char>|
                            #[trigger] names_object(handle@, b, k, o);
                        assert(bucket_clear(b) && key_clear(k) && handle@ == handle_text(b, k, o));
                        assert(crate::receipt::is_extended_handle(handle@));
                    }
                }
                Ok(DeletePlan { receipt_handle: handle.clone(), object: None })
            },
        }
    }

    /// The handle to pass to the queue for a visibility change: the queue's
    /// own handle inside an extended one, any other handle unchanged.
    pub fn visibility_receipt_handle(&self, receipt_handle: &Option<String>) -> (r: Result<
        String,
        SqsExtendedClientError,
    >)
        ensures
            receipt_handle is None ==> (r matches Err(SqsExtendedClientError::NoReceiptHandle)),
            receipt_handle matches Some(h) ==> (r matches Ok(o) && queue_handle(h@, o@)),
    {
        let plan = match self.plan_delete(receipt_handle) {
            Ok(p) => p,
            Err(e) => return Err(e),
        };
        proof {
            let h = receipt_handle->Some_0;
            if names_some_object(h@) {
                let (b, k) = plan.object->Some_0;
                assert(names_object(h@, b@, k@, plan.receipt_handle@));
            }
            assert(queue_handle(h@, plan.receipt_handle@));
        }
        Ok(plan.receipt_handle)
    }
}

/// A message sent with its body offloaded comes back recognised: delivered
/// with the size attribute that the send attached and the pointer body, it
/// is read as pointing at the very bucket and key the body was written to.
pub proof fn lemma_send_then_receive(
    cfg: ExtendedConfig,
    body: Seq<char>,
    attrs: Option<Vec<(String, AttributeValue)>>,
    id: Seq<char>,
    plan: OffloadPlan,
    names: Seq<Seq<char>>,
    handle: Seq<char>,
    r: Result<Option<S3Pointer>, SqsExtendedClientError>,
)
    requires
        valid_config(cfg),
        send_outcome(cfg, Some(body), attrs, id, Ok(SendPlan::Offload(plan))),
        names.contains(plan.size_attribute_name@),
        receive_outcome(cfg, names, Some(plan.pointer_body@), Some(handle), r),
    ensures
        r matches Ok(Some(p)) && p.s3_bucket_name@ == plan.bucket@ && p.s3_key@ == plan.key@
            && p.class@ == cfg.pointer_class,
{
    let i = choose|i: int| 0 <= i < names.len() && names[i] == plan.size_attribute_name@;
    assert(names[i] == cfg.reserved_attributes[0]);
    crate::pointer::lemma_pointer_round_trip(cfg.pointer_class, plan.bucket@, plan.key@);
}

/// With the default settings, a message that carries only the attribute
/// name of earlier clients is still recognised as offloaded.
pub proof fn lemma_legacy_name_recognised(names: Seq<Seq<char>>)
    requires
        names.contains(LEGACY_RESERVED_ATTRIBUTE_NAME@),
    ensures
        has_reserved_name(names, default_config().reserved_attributes),
{
    let i = choose|i: int| 0 <= i < names.len() && names[i] == LEGACY_RESERVED_ATTRIBUTE_NAME@;
    assert(default_config().reserved_attributes[1] == LEGACY_RESERVED_ATTRIBUTE_NAME@);
    assert(names[i] == default_config().reserved_attributes[1]);
}

} // verus!
