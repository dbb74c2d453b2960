//! What an object store answers to a read, and what the library makes of it.
//!
//! The store itself is reached by the caller; this module takes the answer as
//! a plain value, names the failure with the bucket and the key that were
//! asked for, and decodes the body of a text object.

use vstd::prelude::*;
use vstd::string::StringExecFns;
use vstd::utf8::{decode_utf8, valid_utf8};

verus! {

/// The answer of the object store to a request for one object.
#[derive(Debug)]
pub enum StoreReply {
    /// The object exists and this is its body.
    Body(Vec<u8>),
    /// The object exists and the store sent no body with it.
    NoBody,
    /// The store has no object under the key.
    NoSuchKey,
    /// The request failed for any other reason, described by the text.
    Failed(String),
}

/// Why an object could not be read from, or written to, the object store.
#[derive(Debug)]
pub enum StupidS3Error {
    /// The store has no object under `bucket`/`key`.
    NoSuchKey { bucket: String, key: String },
    /// The object came without a body.
    ContentMissing,
    /// The body is not what was expected; the text says why.
    ContentInvalid(String),
    /// Any other failure while `bucket`/`key` was read or written.
    UnknownError { bucket: String, key: String, error: String },
}

impl Clone for StupidS3Error {
    fn clone(&self) -> (copy: StupidS3Error)
        ensures
            copy == *self,
    {
        match self {
            StupidS3Error::NoSuchKey { bucket, key } => StupidS3Error::NoSuchKey {
                bucket: bucket.clone(),
                key: key.clone(),
            },
            StupidS3Error::ContentMissing => StupidS3Error::ContentMissing,
            StupidS3Error::ContentInvalid(why) => StupidS3Error::ContentInvalid(why.clone()),
            StupidS3Error::UnknownError { bucket, key, error } => StupidS3Error::UnknownError {
                bucket: bucket.clone(),
                key: key.clone(),
                error: error.clone(),
            },
        }
    }
}

impl StupidS3Error {
    /// The text of the one-line description of the error.
    pub open spec fn description(&self) -> Seq<char> {
        match self {
            StupidS3Error::NoSuchKey { bucket, key } => "The key "@ + bucket@ + "/"@ + key@
                + " does not exist"@,
            StupidS3Error::ContentMissing => "The content was missing"@,
            StupidS3Error::ContentInvalid(_) => "The content was invalid"@,
            StupidS3Error::UnknownError { bucket, key, error } =>
                "An unknown error occurred while retrieving "@ + bucket@ + "/"@ + key@
                    + " from S3"@,
        }
    }

    /// Describes the error on one line.
    pub fn message(&self) -> (text: String)
        ensures
            text@ == self.description(),
    {
        match self {
            StupidS3Error::NoSuchKey { bucket, key } => {
                let mut text = String::from_str("The key ");
                text.append(bucket.as_str());
                text.append("/");
                text.append(key.as_str());
                text.append(" does not exist");
                text
            },
            StupidS3Error::ContentMissing => String::from_str("The content was missing"),
            StupidS3Error::ContentInvalid(_) => String::from_str("The content was invalid"),
            StupidS3Error::UnknownError { bucket, key, error } => {
                let mut text = String::from_str("An unknown error occurred while retrieving ");
                text.append(bucket.as_str());
                text.append("/");
                text.append(key.as_str());
                text.append(" from S3");
                text
            },
        }
    }
}

/// `error` says that the store has no object under `bucket`/`key`.
pub open spec fn is_no_such_key(error: StupidS3Error, bucket: Seq<char>, key: Seq<char>) -> bool {
    error matches StupidS3Error::NoSuchKey { bucket: b, key: k } && b@ == bucket && k@ == key
}

/// `error` says that reading or writing `bucket`/`key` failed because of `why`.
pub open spec fn is_unknown_error(
    error: StupidS3Error,
    bucket: Seq<char>,
    key: Seq<char>,
    why: Seq<char>,
) -> bool {
    error matches StupidS3Error::UnknownError { bucket: b, key: k, error: e } && b@ == bucket
        && k@ == key && e@ == why
}

/// The body of the object `bucket`/`key`, or the reason why there is none.
///
/// A reply with a body yields the body. Each other reply yields its own
/// error: a missing body `ContentMissing`, a missing object `NoSuchKey`, and
/// any other failure `UnknownError` with the text of the failure; the last two
/// carry the bucket and the key.
pub fn get_raw(bucket: &str, key: &str, reply: StoreReply) -> (body: Result<
    Vec<u8>,
    StupidS3Error,
>)
    ensures
        match reply {
            StoreReply::Body(bytes) => body == Ok::<Vec<u8>, StupidS3Error>(bytes),
            StoreReply::NoBody => body == Err::<Vec<u8>, StupidS3Error>(
                StupidS3Error::ContentMissing,
            ),
            StoreReply::NoSuchKey => body matches Err(e) && is_no_such_key(e, bucket@, key@),
            StoreReply::Failed(why) => body matches Err(e) && is_unknown_error(
                e,
                bucket@,
                key@,
                why@,
            ),
        },
{
    match reply {
        StoreReply::Body(bytes) => Ok(bytes),
        StoreReply::NoBody => Err(StupidS3Error::ContentMissing),
        StoreReply::NoSuchKey => Err(
            StupidS3Error::NoSuchKey { bucket: String::from_str(bucket), key: String::from_str(key) },
        ),
        StoreReply::Failed(why) => Err(
            StupidS3Error::UnknownError {
                bucket: String::from_str(bucket),
                key: String::from_str(key),
                error: why,
            },
        ),
    }
}

/// What is said of a body that is no text.
pub const NOT_UTF8: &'static str = "stream did not contain valid UTF-8";

/// Decodes `bytes` as UTF-8 with `String::from_utf8` of the standard library:
/// there is a text exactly when the bytes are valid UTF-8, and it is then the
/// text that they encode.
#[verifier::external_body]
fn text_of_bytes(bytes: Vec<u8>) -> (text: Option<String>)
    ensures
        text is Some <==> valid_utf8(bytes@),
        text matches Some(t) ==> t@ == decode_utf8(bytes@),
{
    String::from_utf8(bytes).ok()
}

/// The object `bucket`/`key` as text, or the reason why there is none.
///
/// Where `get_raw` yields an error, so does `get`, the same one. A body that
/// is valid UTF-8 yields the text that it encodes; any other body yields
/// `ContentInvalid`.
pub fn get(bucket: &str, key: &str, reply: StoreReply) -> (object: Result<String, StupidS3Error>)
    ensures
        match reply {
            StoreReply::Body(bytes) => if valid_utf8(bytes@) {
                object matches Ok(text) && text@ == decode_utf8(bytes@)
            } else {
                object matches Err(StupidS3Error::ContentInvalid(why)) && why@ == NOT_UTF8@
            },
            StoreReply::NoBody => object == Err::<String, StupidS3Error>(
                StupidS3Error::ContentMissing,
            ),
            StoreReply::NoSuchKey => object matches Err(e) && is_no_such_key(e, bucket@, key@),
            StoreReply::Failed(why) => object matches Err(e) && is_unknown_error(
                e,
                bucket@,
                key@,
                why@,
            ),
        },
{
    match get_raw(bucket, key, reply) {
        Ok(bytes) => match text_of_bytes(bytes) {
            Some(text) => Ok(text),
            None => Err(StupidS3Error::ContentInvalid(String::from_str(NOT_UTF8))),
        },
        Err(e) => Err(e),
    }
}

/// The object `bucket`/`key` as a value, or the reason why there is none.
///
/// Where `get_raw` yields an error, so does `get_obj`, the same one. A body
/// is handed to `decode`: the value that `decode` makes of it is the object,
/// and a body that `decode` refuses yields `ContentInvalid` with the reason
/// that `decode` gave.
pub fn get_obj<S, F: FnOnce(Vec<u8>) -> Result<S, String>>(
    bucket: &str,
    key: &str,
    reply: StoreReply,
    decode: F,
) -> (object: Result<S, StupidS3Error>)
    requires
        reply matches StoreReply::Body(bytes) ==> call_requires(decode, (bytes,)),
    ensures
        match reply {
            StoreReply::Body(bytes) => match object {
                Ok(value) => call_ensures(decode, (bytes,), Ok::<S, String>(value)),
                Err(e) => e matches StupidS3Error::ContentInvalid(why) && call_ensures(
                    decode,
                    (bytes,),
                    Err::<S, String>(why),
                ),
            },
            StoreReply::NoBody => object == Err::<S, StupidS3Error>(StupidS3Error::ContentMissing),
            StoreReply::NoSuchKey => object matches Err(e) && is_no_such_key(e, bucket@, key@),
            StoreReply::Failed(why) => object matches Err(e) && is_unknown_error(
                e,
                bucket@,
                key@,
                why@,
            ),
        },
{
    match get_raw(bucket, key, reply) {
        Ok(bytes) => match decode(bytes) {
            Ok(value) => Ok(value),
            Err(why) => Err(StupidS3Error::ContentInvalid(why)),
        },
        Err(e) => Err(e),
    }
}

/// What came of writing the object `bucket`/`key`, given what the store
/// said: a failure becomes `UnknownError` with the bucket, the key and the
/// text of the failure.
pub fn put(bucket: &str, key: &str, outcome: Result<(), String>) -> (done: Result<
    (),
    StupidS3Error,
>)
    ensures
        match outcome {
            Ok(_) => done is Ok,
            Err(why) => done matches Err(e) && is_unknown_error(e, bucket@, key@, why@),
        },
{
    match outcome {
        Ok(_) => Ok(()),
        Err(why) => Err(
            StupidS3Error::UnknownError {
                bucket: String::from_str(bucket),
                key: String::from_str(key),
                error: why,
            },
        ),
    }
}

} // verus!
