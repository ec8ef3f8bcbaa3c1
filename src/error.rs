use vstd::prelude::*;

use aws_sdk_s3::operation::delete_object::DeleteObjectError;
use aws_sdk_s3::operation::get_object::GetObjectError;
use aws_sdk_s3::operation::put_object::PutObjectError;
use aws_sdk_sqs::operation::change_message_visibility::ChangeMessageVisibilityError;
use aws_sdk_sqs::operation::delete_message::DeleteMessageError;
use aws_sdk_sqs::operation::receive_message::ReceiveMessageError;
use aws_sdk_sqs::operation::send_message::SendMessageError;
use aws_smithy_runtime_api::client::orchestrator::HttpResponse;
use aws_smithy_runtime_api::client::result::SdkError;
use aws_smithy_types::byte_stream::error::Error as ByteStreamError;
use aws_smithy_types::error::operation::BuildError;
use std::str::Utf8Error;

use crate::pointer::PointerDecodeError;

verus! {

// The errors of the two underlying clients, carried through unchanged.
#[verifier::external_type_specification]
#[verifier::external_body]
#[verifier::reject_recursive_types(E)]
#[verifier::reject_recursive_types(R)]
pub struct ExSdkError<E, R>(SdkError<E, R>);

#[verifier::external_type_specification]
#[verifier::external_body]
#[verifier::reject_recursive_types(B)]
pub struct ExResponse<B>(aws_smithy_runtime_api::http::Response<B>);

#[verifier::external_type_specification]
#[verifier::external_body]
pub struct ExSdkBody(aws_smithy_types::body::SdkBody);

#[verifier::external_type_specification]
#[verifier::external_body]
pub struct ExPutObjectError(PutObjectError);

#[verifier::external_type_specification]
#[verifier::external_body]
pub struct ExGetObjectError(GetObjectError);

#[verifier::external_type_specification]
#[verifier::external_body]
pub struct ExDeleteObjectError(DeleteObjectError);

#[verifier::external_type_specification]
#[verifier::external_body]
pub struct ExByteStreamError(ByteStreamError);

#[verifier::external_type_specification]
#[verifier::external_body]
pub struct ExUtf8Error(Utf8Error);

#[verifier::external_type_specification]
#[verifier::external_body]
pub struct ExSendMessageError(SendMessageError);

#[verifier::external_type_specification]
#[verifier::external_body]
pub struct ExReceiveMessageError(ReceiveMessageError);

#[verifier::external_type_specification]
#[verifier::external_body]
pub struct ExDeleteMessageError(DeleteMessageError);

#[verifier::external_type_specification]
#[verifier::external_body]
pub struct ExChangeMessageVisibilityError(ChangeMessageVisibilityError);

#[verifier::external_type_specification]
#[verifier::external_body]
pub struct ExBuildError(BuildError);

/// Every way an operation of the extended client can fail. Failures of the
/// underlying clients carry their error unchanged.
#[derive(Debug)]
pub enum SqsExtendedClientError {
    S3Upload(SdkError<PutObjectError, HttpResponse>),
    S3Download(SdkError<GetObjectError, HttpResponse>),
    S3DeleteObject(SdkError<DeleteObjectError, HttpResponse>),
    S3DownloadToBytes(ByteStreamError),
    S3DownloadToUtf8(Utf8Error),
    SqsSendMessage(SdkError<SendMessageError, HttpResponse>),
    SqsReceiveMessage(SdkError<ReceiveMessageError, HttpResponse>),
    SqsDeleteMessage(SdkError<DeleteMessageError, HttpResponse>),
    SqsChangeMessageVisibility(SdkError<ChangeMessageVisibilityError, HttpResponse>),
    SqsBuildMessageAttribute(BuildError),
    SqsReceiveMessageUnMarshallMessageBody(PointerDecodeError),
    /// Sending needs a bucket, and none was configured.
    NoBucketName,
    /// The message to send has no body.
    NoMessageBody,
    /// The message to delete or make visible has no receipt handle.
    NoReceiptHandle,
    /// A threshold is zero, or no reserved attribute name was given.
    InvalidConfiguration,
}

// Each underlying error converts into the variant that carries it.

impl From<SdkError<PutObjectError, HttpResponse>> for SqsExtendedClientError {
    fn from(err: SdkError<PutObjectError, HttpResponse>) -> (r: Self)
        ensures
            r == SqsExtendedClientError::S3Upload(err),
    {
        SqsExtendedClientError::S3Upload(err)
    }
}

impl vstd::std_specs::convert::FromSpecImpl<SdkError<PutObjectError, HttpResponse>> for SqsExtendedClientError {
    open spec fn obeys_from_spec() -> bool {
        true
    }

    open spec fn from_spec(v: SdkError<PutObjectError, HttpResponse>) -> Self {
        SqsExtendedClientError::S3Upload(v)
    }
}

impl From<SdkError<GetObjectError, HttpResponse>> for SqsExtendedClientError {
    fn from(err: SdkError<GetObjectError, HttpResponse>) -> (r: Self)
        ensures
            r == SqsExtendedClientError::S3Download(err),
    {
        SqsExtendedClientError::S3Download(err)
    }
}

impl vstd::std_specs::convert::FromSpecImpl<SdkError<GetObjectError, HttpResponse>> for SqsExtendedClientError {
    open spec fn obeys_from_spec() -> bool {
        true
    }

    open spec fn from_spec(v: SdkError<GetObjectError, HttpResponse>) -> Self {
        SqsExtendedClientError::S3Download(v)
    }
}

impl From<SdkError<DeleteObjectError, HttpResponse>> for SqsExtendedClientError {
    fn from(err: SdkError<DeleteObjectError, HttpResponse>) -> (r: Self)
        ensures
            r == SqsExtendedClientError::S3DeleteObject(err),
    {
        SqsExtendedClientError::S3DeleteObject(err)
    }
}

impl vstd::std_specs::convert::FromSpecImpl<SdkError<DeleteObjectError, HttpResponse>> for SqsExtendedClientError {
    open spec fn obeys_from_spec() -> bool {
        true
    }

    open spec fn from_spec(v: SdkError<DeleteObjectError, HttpResponse>) -> Self {
        SqsExtendedClientError::S3DeleteObject(v)
    }
}

impl From<ByteStreamError> for SqsExtendedClientError {
    fn from(err: ByteStreamError) -> (r: Self)
        ensures
            r == SqsExtendedClientError::S3DownloadToBytes(err),
    {
        SqsExtendedClientError::S3DownloadToBytes(err)
    }
}

impl vstd::std_specs::convert::FromSpecImpl<ByteStreamError> for SqsExtendedClientError {
    open spec fn obeys_from_spec() -> bool {
        true
    }

    open spec fn from_spec(v: ByteStreamError) -> Self {
        SqsExtendedClientError::S3DownloadToBytes(v)
    }
}

impl From<Utf8Error> for SqsExtendedClientError {
    fn from(err: Utf8Error) -> (r: Self)
        ensures
            r == SqsExtendedClientError::S3DownloadToUtf8(err),
    {
        SqsExtendedClientError::S3DownloadToUtf8(err)
    }
}

impl vstd::std_specs::convert::FromSpecImpl<Utf8Error> for SqsExtendedClientError {
    open spec fn obeys_from_spec() -> bool {
        true
    }

    open spec fn from_spec(v: Utf8Error) -> Self {
        SqsExtendedClientError::S3DownloadToUtf8(v)
    }
}

impl From<SdkError<SendMessageError, HttpResponse>> for SqsExtendedClientError {
    fn from(err: SdkError<SendMessageError, HttpResponse>) -> (r: Self)
        ensures
            r == SqsExtendedClientError::SqsSendMessage(err),
    {
        SqsExtendedClientError::SqsSendMessage(err)
    }
}

impl vstd::std_specs::convert::FromSpecImpl<SdkError<SendMessageError, HttpResponse>> for SqsExtendedClientError {
    open spec fn obeys_from_spec() -> bool {
        true
    }

    open spec fn from_spec(v: SdkError<SendMessageError, HttpResponse>) -> Self {
        SqsExtendedClientError::SqsSendMessage(v)
    }
}

impl From<SdkError<ReceiveMessageError, HttpResponse>> for SqsExtendedClientError {
    fn from(err: SdkError<ReceiveMessageError, HttpResponse>) -> (r: Self)
        ensures
            r == SqsExtendedClientError::SqsReceiveMessage(err),
    {
        SqsExtendedClientError::SqsReceiveMessage(err)
    }
}

impl vstd::std_specs::convert::FromSpecImpl<SdkError<ReceiveMessageError, HttpResponse>> for SqsExtendedClientError {
    open spec fn obeys_from_spec() -> bool {
        true
    }

    open spec fn from_spec(v: SdkError<ReceiveMessageError, HttpResponse>) -> Self {
        SqsExtendedClientError::SqsReceiveMessage(v)
    }
}

impl From<SdkError<DeleteMessageError, HttpResponse>> for SqsExtendedClientError {
    fn from(err: SdkError<DeleteMessageError, HttpResponse>) -> (r: Self)
        ensures
            r == SqsExtendedClientError::SqsDeleteMessage(err),
    {
        SqsExtendedClientError::SqsDeleteMessage(err)
    }
}

impl vstd::std_specs::convert::FromSpecImpl<SdkError<DeleteMessageError, HttpResponse>> for SqsExtendedClientError {
    open spec fn obeys_from_spec() -> bool {
        true
    }

    open spec fn from_spec(v: SdkError<DeleteMessageError, HttpResponse>) -> Self {
        SqsExtendedClientError::SqsDeleteMessage(v)
    }
}

impl From<SdkError<ChangeMessageVisibilityError, HttpResponse>> for SqsExtendedClientError {
    fn from(err: SdkError<ChangeMessageVisibilityError, HttpResponse>) -> (r: Self)
        ensures
            r == SqsExtendedClientError::SqsChangeMessageVisibility(err),
    {
        SqsExtendedClientError::SqsChangeMessageVisibility(err)
    }
}

impl vstd::std_specs::convert::FromSpecImpl<SdkError<ChangeMessageVisibilityError, HttpResponse>> for SqsExtendedClientError {
    open spec fn obeys_from_spec() -> bool {
        true
    }

    open spec fn from_spec(v: SdkError<ChangeMessageVisibilityError, HttpResponse>) -> Self {
        SqsExtendedClientError::SqsChangeMessageVisibility(v)
    }
}

impl From<BuildError> for SqsExtendedClientError {
    fn from(err: BuildError) -> (r: Self)
        ensures
            r == SqsExtendedClientError::SqsBuildMessageAttribute(err),
    {
        SqsExtendedClientError::SqsBuildMessageAttribute(err)
    }
}

impl vstd::std_specs::convert::FromSpecImpl<BuildError> for SqsExtendedClientError {
    open spec fn obeys_from_spec() -> bool {
        true
    }

    open spec fn from_spec(v: BuildError) -> Self {
        SqsExtendedClientError::SqsBuildMessageAttribute(v)
    }
}

impl From<PointerDecodeError> for SqsExtendedClientError {
    fn from(err: PointerDecodeError) -> (r: Self)
        ensures
            r == SqsExtendedClientError::SqsReceiveMessageUnMarshallMessageBody(err),
    {
        SqsExtendedClientError::SqsReceiveMessageUnMarshallMessageBody(err)
    }
}

impl vstd::std_specs::convert::FromSpecImpl<PointerDecodeError> for SqsExtendedClientError {
    open spec fn obeys_from_spec() -> bool {
        true
    }

    open spec fn from_spec(v: PointerDecodeError) -> Self {
        SqsExtendedClientError::SqsReceiveMessageUnMarshallMessageBody(v)
    }
}

} // verus!
