//! What the caller of the service is answered: a status and the data that
//! goes with it, for each way a request can end.

use vstd::prelude::*;
use vstd::string::*;
use vstd::utf8::encode_utf8;
use crate::api::{GetRequest, RejectionReason, LISTING_LIMIT};
use crate::listing::latest_of;
use crate::offer::{Offer, OfferView};
use crate::store::{keys_view, list_outcome, Command, CommandView, StoreError, StoreErrorView};

verus! {

/// The HTTP status of an answer to a request that went well.
pub const STATUS_OK: u16 = 200;

/// The HTTP status of an answer that turns a request down.
pub const STATUS_FORBIDDEN: u16 = 403;

/// The HTTP status of an answer to a request for a path that does not exist.
pub const STATUS_NOT_FOUND: u16 = 404;

/// The HTTP status of an answer to a request for an offer that is held no
/// more, or never was.
pub const STATUS_GONE: u16 = 410;

/// The HTTP status of an answer where the service or its backend failed.
pub const STATUS_INTERNAL_SERVER_ERROR: u16 = 500;

/// The data of an answer.
#[derive(Debug, Clone, PartialEq, Eq)]
pub enum ResponseData {
    /// A message, under the name `message`.
    Message(String),
    /// A message and the error behind it, under the names `message` and
    /// `error`.
    Failure { message: String, error: String },
    /// The key of an offer that was stored, under the name `id`.
    Id(String),
    /// An offer, with its password masked.
    Offer(Offer),
    /// The keys of a listing, in their order.
    Keys(Vec<String>),
}

/// An answer: the HTTP status and the data.
#[derive(Debug, Clone, PartialEq, Eq)]
pub struct WrappedResponse {
    pub http_status: u16,
    pub data: ResponseData,
}

/// The data of an answer, as mathematics sees it.
pub ghost enum ResponseDataView {
    Message(Seq<char>),
    Failure { message: Seq<char>, error: Seq<char> },
    Id(Seq<char>),
    Offer(OfferView),
    Keys(Seq<Seq<char>>),
}

impl View for ResponseData {
    type V = ResponseDataView;

    open spec fn view(&self) -> ResponseDataView {
        match self {
            ResponseData::Message(message) => ResponseDataView::Message(message@),
            ResponseData::Failure { message, error } => ResponseDataView::Failure {
                message: message@,
                error: error@,
            },
            ResponseData::Id(id) => ResponseDataView::Id(id@),
            ResponseData::Offer(offer) => ResponseDataView::Offer(offer@),
            ResponseData::Keys(keys) => ResponseDataView::Keys(keys.deep_view()),
        }
    }
}

/// An answer, as mathematics sees it.
pub ghost struct WrappedResponseView {
    pub http_status: u16,
    pub data: ResponseDataView,
}

impl View for WrappedResponse {
    type V = WrappedResponseView;

    open spec fn view(&self) -> WrappedResponseView {
        WrappedResponseView { http_status: self.http_status, data: self.data@ }
    }
}

/// The answer with the status `status` and the message `message`.
pub open spec fn said(status: u16, message: Seq<char>) -> WrappedResponseView {
    WrappedResponseView { http_status: status, data: ResponseDataView::Message(message) }
}

/// The answer with the status `status`, the message `message` and the error
/// `error`.
pub open spec fn reported(status: u16, message: Seq<char>, error: Seq<char>)
    -> WrappedResponseView {
    WrappedResponseView { http_status: status, data: ResponseDataView::Failure { message, error } }
}

/// What `format!` with `{:?}` writes for a text: the text between double
/// quotes, with the characters escaped that `Debug` for `str` escapes.
pub uninterp spec fn debug_text(text: Seq<char>) -> Seq<char>;

/// `format!` of std with `{:?}` on a `str`, which writes the text as
/// `Debug` for `str` does. The result is given the name `debug_text`.
#[verifier::external_body]
fn debug_string(text: &str) -> (quoted: String)
    ensures
        quoted@ == debug_text(text@),
{
    format!("{:?}", text)
}

/// The text of an error of the store: that of the backend where it failed.
pub open spec fn error_text(error: StoreErrorView) -> Seq<char> {
    match error {
        StoreErrorView::Storage(text) => text,
        StoreErrorView::NotFound => "no record is held under the key"@,
    }
}

impl StoreError {
    /// The text of the error: that of the backend where it failed.
    pub fn message(&self) -> (text: String)
        ensures
            text@ == error_text(self@),
    {
        match self {
            StoreError::Storage(text) => text.clone(),
            StoreError::NotFound => "no record is held under the key".to_owned(),
        }
    }
}

/// The answer to a request that is turned down, with the reason.
pub fn forbidden(message: &str) -> (response: WrappedResponse)
    ensures
        response@ == said(STATUS_FORBIDDEN, message@),
{
    WrappedResponse {
        http_status: STATUS_FORBIDDEN,
        data: ResponseData::Message(message.to_owned()),
    }
}

/// The answer to a request for a path that does not exist.
pub fn not_found() -> (response: WrappedResponse)
    ensures
        response@ == said(STATUS_NOT_FOUND, "404 The requested path/resource does not exist."@),
{
    WrappedResponse {
        http_status: STATUS_NOT_FOUND,
        data: ResponseData::Message("404 The requested path/resource does not exist.".to_owned()),
    }
}

/// The answer where the service itself failed.
pub fn internal_error() -> (response: WrappedResponse)
    ensures
        response@ == said(STATUS_INTERNAL_SERVER_ERROR, "Internal server error."@),
{
    WrappedResponse {
        http_status: STATUS_INTERNAL_SERVER_ERROR,
        data: ResponseData::Message("Internal server error.".to_owned()),
    }
}

/// The answer to a request whose data cannot be read as what is asked for.
pub fn unprocessable() -> (response: WrappedResponse)
    ensures
        response@ == said(STATUS_FORBIDDEN, "Unprocessable"@),
{
    forbidden("Unprocessable")
}

/// The answer to a request that is malformed.
pub fn bad_request() -> (response: WrappedResponse)
    ensures
        response@ == said(STATUS_FORBIDDEN, "Bad Request"@),
{
    forbidden("Bad Request")
}

/// The answer to a submitted offer that broke a rule: the rule's message.
pub fn rejected(reason: RejectionReason) -> (response: WrappedResponse)
    ensures
        response@ == said(STATUS_FORBIDDEN, reason.text()),
{
    let message = reason.message();
    forbidden(message.as_str())
}

/// The message to a submitter whose offer could not be stored: a fixed
/// sentence, a line break, and the error between its quotes.
pub open spec fn upload_failure_text(quoted: Seq<char>) -> Seq<char> {
    "An error has occured while uploading your offer to the database.\n"@ + quoted
}

/// The answer to a submitter whose offer could not be stored, from the error
/// as it stands between its quotes.
pub fn upload_failure(quoted: &str) -> (response: WrappedResponse)
    ensures
        response@ == said(STATUS_FORBIDDEN, upload_failure_text(quoted@)),
{
    let mut message =
        "An error has occured while uploading your offer to the database.\n".to_owned();
    message.append(quoted);
    forbidden(message.as_str())
}

/// The answer to a submitted offer that was accepted, once its write has
/// ended: the key under which it is stored, or that it could not be stored.
pub fn new_response(outcome: Result<String, StoreError>) -> (response: WrappedResponse)
    ensures
        match outcome {
            Ok(key) => response@ == (WrappedResponseView {
                http_status: STATUS_OK,
                data: ResponseDataView::Id(key@),
            }),
            Err(error) => response@ == said(
                STATUS_FORBIDDEN,
                upload_failure_text(debug_text(error_text(error@))),
            ),
        },
{
    match outcome {
        Ok(key) => WrappedResponse { http_status: STATUS_OK, data: ResponseData::Id(key) },
        Err(error) => {
            let cause = error.message();
            let quoted = debug_string(cause.as_str());
            upload_failure(quoted.as_str())
        },
    }
}

/// Whether a key that is asked for has a length that a key can have: 4 to
/// 32 bytes in UTF-8. (The rules of intake count characters; this guard
/// counts bytes.)
pub open spec fn key_length_ok(id: Seq<char>) -> bool {
    4 <= encode_utf8(id).len() <= 32
}

impl<'r> GetRequest<'r> {
    /// Begins a request for one offer: the command that reads it, or, where
    /// the key asked for is too short or too long to be one, the answer that
    /// turns the request down.
    pub fn begin(&self) -> (begun: Result<Command, WrappedResponse>)
        ensures
            match begun {
                Ok(command) => key_length_ok(self@.id) && command@ == (CommandView::Get {
                    key: self@.id,
                }),
                Err(response) => !key_length_ok(self@.id) && response@ == said(STATUS_FORBIDDEN,
                    "id length must be larger than 4 and smaller than 32"@,
                ),
            },
    {
        let len: usize = self.id.as_bytes().len();
        if 4 <= len && len <= 32 {
            Ok(Offer::Download(self.id))
        } else {
            Err(forbidden("id length must be larger than 4 and smaller than 32"))
        }
    }
}

/// The answer to a request for one offer: the offer with its password
/// masked; or that it is gone, where no record is held under the key; or
/// that the store is broken, where the backend failed or the record could
/// not be read.
pub fn get_response(outcome: Result<Offer, StoreError>) -> (response: WrappedResponse)
    ensures
        match outcome {
            Ok(offer) => response@ == (WrappedResponseView {
                http_status: STATUS_OK,
                data: ResponseDataView::Offer(offer@.redacted()),
            }),
            Err(StoreError::NotFound) => response@ == reported(STATUS_GONE,
                "Offer expired/deleted or does not exist."@,
                error_text(StoreErrorView::NotFound),
            ),
            Err(StoreError::Storage(text)) => response@ == reported(STATUS_INTERNAL_SERVER_ERROR,
                "Can't retrieve Offers, database broken ?"@,
                text@,
            ),
        },
{
    match outcome {
        Ok(offer) => WrappedResponse {
            http_status: STATUS_OK,
            data: ResponseData::Offer(offer.redacted()),
        },
        Err(error) => {
            let cause = error.message();
            match error {
                StoreError::NotFound => WrappedResponse {
                    http_status: STATUS_GONE,
                    data: ResponseData::Failure {
                        message: "Offer expired/deleted or does not exist.".to_owned(),
                        error: cause,
                    },
                },
                StoreError::Storage(_) => WrappedResponse {
                    http_status: STATUS_INTERNAL_SERVER_ERROR,
                    data: ResponseData::Failure {
                        message: "Can't retrieve Offers, database broken ?".to_owned(),
                        error: cause,
                    },
                },
            }
        },
    }
}

/// The answer to a request for the listing: the keys, or that the store is
/// broken.
pub fn all_response(outcome: Result<Vec<String>, StoreError>) -> (response: WrappedResponse)
    ensures
        match outcome {
            Ok(keys) => response@ == (WrappedResponseView {
                http_status: STATUS_OK,
                data: ResponseDataView::Keys(keys.deep_view()),
            }),
            Err(error) => response@ == reported(STATUS_INTERNAL_SERVER_ERROR,
                "Can't retrieve Offers, database broken ?"@,
                error_text(error@),
            ),
        },
{
    match outcome {
        Ok(keys) => WrappedResponse { http_status: STATUS_OK, data: ResponseData::Keys(keys) },
        Err(error) => WrappedResponse {
            http_status: STATUS_INTERNAL_SERVER_ERROR,
            data: ResponseData::Failure {
                message: "Can't retrieve Offers, database broken ?".to_owned(),
                error: error.message(),
            },
        },
    }
}

/// Answers a request for the listing from what the backend answered to
/// `KEYS`: the latest 1024 keys at most, from the latest write to the
/// earliest, or that the store is broken.
pub fn all(answer: Result<Vec<String>, String>) -> (response: WrappedResponse)
    ensures
        match keys_view(answer) {
            Ok(keys) => response@ == (WrappedResponseView {
                http_status: STATUS_OK,
                data: ResponseDataView::Keys(latest_of(keys, 1024)),
            }),
            Err(text) => response@ == reported(STATUS_INTERNAL_SERVER_ERROR,
                "Can't retrieve Offers, database broken ?"@,
                text,
            ),
        },
{
    all_response(list_outcome(answer, LISTING_LIMIT))
}

} // verus!
