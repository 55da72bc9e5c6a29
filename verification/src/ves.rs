//! Request errors in the form that event listeners report them.

use vstd::prelude::*;
use vstd::string::StringExecFns;
use crate::json::{is_plain, json_string, lemma_plain_text, quote_json};

verus! {

/// The identifier and the text of a reported error.
#[derive(Debug, PartialEq, Eq, PartialOrd, Ord)]
pub struct VesException {
    pub message_id: String,
    pub text: String,
}

/// A reported error: a fault of the request, or a breach of a policy.
#[derive(Debug, PartialEq, Eq, PartialOrd, Ord)]
pub enum VesError {
    ServiceException(VesException),
    PolicyException(VesException),
}

/// What a [`VesException`] holds.
pub struct VesExceptionView {
    pub message_id: Seq<char>,
    pub text: Seq<char>,
}

/// What a [`VesError`] holds.
pub enum VesErrorView {
    ServiceException(VesExceptionView),
    PolicyException(VesExceptionView),
}

impl View for VesException {
    type V = VesExceptionView;

    open spec fn view(&self) -> VesExceptionView {
        VesExceptionView { message_id: self.message_id@, text: self.text@ }
    }
}

impl View for VesError {
    type V = VesErrorView;

    open spec fn view(&self) -> VesErrorView {
        match self {
            VesError::ServiceException(e) => VesErrorView::ServiceException(e@),
            VesError::PolicyException(e) => VesErrorView::PolicyException(e@),
        }
    }
}

/// The error for a message that is larger than the listener allows.
pub open spec fn message_size_exceeded_view() -> VesErrorView {
    VesErrorView::PolicyException(
        VesExceptionView {
            message_id: "POL9003"@,
            text: "Message content size exceeds the allowable limit"@,
        },
    )
}

/// The error for a request that names no supported version.
pub open spec fn invalid_api_version_view() -> VesErrorView {
    VesErrorView::ServiceException(
        VesExceptionView { message_id: "SVC0002"@, text: "Bad parameter (Invalid API version)"@ },
    )
}

/// The error for a document that its schema does not accept.
pub open spec fn failed_schema_validation_view() -> VesErrorView {
    VesErrorView::ServiceException(
        VesExceptionView {
            message_id: "SVC0002"@,
            text: "Bad parameter (JSON does not conform to schema)"@,
        },
    )
}

/// The JSON object of an exception: its identifier under `messageId`, then its
/// text under `text`.
pub open spec fn exception_json(e: VesExceptionView) -> Seq<char> {
    "{\"messageId\":"@ + json_string(e.message_id) + ",\"text\":"@ + json_string(e.text) + "}"@
}

/// The JSON object of an error: the exception under the name of its kind.
pub open spec fn error_json(e: VesErrorView) -> Seq<char> {
    match e {
        VesErrorView::ServiceException(x) => "{\"serviceException\":"@ + exception_json(x) + "}"@,
        VesErrorView::PolicyException(x) => "{\"policyException\":"@ + exception_json(x) + "}"@,
    }
}

/// The body of the response that rejects a request with the error `e`.
pub open spec fn request_error_json(e: VesErrorView) -> Seq<char> {
    "{\"requestError\":"@ + error_json(e) + "}"@
}

pub fn message_size_exceeded() -> (e: VesError)
    ensures
        e@ == message_size_exceeded_view(),
{
    VesError::PolicyException(
        VesException {
            message_id: "POL9003".to_owned(),
            text: "Message content size exceeds the allowable limit".to_owned(),
        },
    )
}

pub fn invalid_api_version() -> (e: VesError)
    ensures
        e@ == invalid_api_version_view(),
{
    VesError::ServiceException(
        VesException {
            message_id: "SVC0002".to_owned(),
            text: "Bad parameter (Invalid API version)".to_owned(),
        },
    )
}

pub fn failed_schema_validation() -> (e: VesError)
    ensures
        e@ == failed_schema_validation_view(),
{
    VesError::ServiceException(
        VesException {
            message_id: "SVC0002".to_owned(),
            text: "Bad parameter (JSON does not conform to schema)".to_owned(),
        },
    )
}

impl VesException {
    /// The exception as a JSON object.
    pub fn to_json(&self) -> (json: String)
        ensures
            json@ == exception_json(self@),
    {
        let mut json: String = "{\"messageId\":".to_owned();
        json.append(quote_json(self.message_id.as_str()).as_str());
        json.append(",\"text\":");
        json.append(quote_json(self.text.as_str()).as_str());
        json.append("}");
        json
    }
}

impl VesError {
    /// The error as a JSON object.
    pub fn to_json(&self) -> (json: String)
        ensures
            json@ == error_json(self@),
    {
        match self {
            VesError::ServiceException(e) => {
                let mut json: String = "{\"serviceException\":".to_owned();
                json.append(e.to_json().as_str());
                json.append("}");
                json
            },
            VesError::PolicyException(e) => {
                let mut json: String = "{\"policyException\":".to_owned();
                json.append(e.to_json().as_str());
                json.append("}");
                json
            },
        }
    }

    /// The body of the response that rejects a request with this error.
    pub fn to_request_error(&self) -> (json: String)
        ensures
            json@ == request_error_json(self@),
    {
        let mut json: String = "{\"requestError\":".to_owned();
        json.append(self.to_json().as_str());
        json.append("}");
        json
    }
}

/// The body that rejects a request that names no supported version, as it is
/// sent.
pub const INVALID_API_VERSION_BODY: &'static str =
    "{\"requestError\":{\"serviceException\":{\"messageId\":\"SVC0002\",\"text\":\"Bad parameter (Invalid API version)\"}}}";

/// The body of a request that names no supported version is the text of
/// [`INVALID_API_VERSION_BODY`]: nothing in the error has to be escaped.
pub proof fn lemma_invalid_api_version_body()
    ensures
        request_error_json(invalid_api_version_view()) == INVALID_API_VERSION_BODY@,
{
    reveal_strlit("SVC0002");
    reveal_strlit("Bad parameter (Invalid API version)");
    reveal_strlit("{\"messageId\":");
    reveal_strlit(",\"text\":");
    reveal_strlit("}");
    reveal_strlit("{\"serviceException\":");
    reveal_strlit("{\"requestError\":");
    reveal_strlit(
        "{\"requestError\":{\"serviceException\":{\"messageId\":\"SVC0002\",\"text\":\"Bad parameter (Invalid API version)\"}}}",
    );
    let id = "SVC0002"@;
    let text = "Bad parameter (Invalid API version)"@;
    assert(forall|i: int| 0 <= i < id.len() ==> is_plain(#[trigger] id[i]));
    assert(forall|i: int| 0 <= i < text.len() ==> is_plain(#[trigger] text[i]));
    lemma_plain_text(id);
    lemma_plain_text(text);
    assert(request_error_json(invalid_api_version_view()) =~= INVALID_API_VERSION_BODY@);
}

/// The body that rejects a request whose body its schema does not accept, as
/// it is sent.
pub const FAILED_SCHEMA_VALIDATION_BODY: &'static str =
    "{\"requestError\":{\"serviceException\":{\"messageId\":\"SVC0002\",\"text\":\"Bad parameter (JSON does not conform to schema)\"}}}";

/// The body that rejects a message that is larger than the listener allows,
/// as it is sent.
pub const MESSAGE_SIZE_EXCEEDED_BODY: &'static str =
    "{\"requestError\":{\"policyException\":{\"messageId\":\"POL9003\",\"text\":\"Message content size exceeds the allowable limit\"}}}";

/// The body of a request whose body its schema does not accept is the text of
/// [`FAILED_SCHEMA_VALIDATION_BODY`]: nothing in the error has to be escaped.
pub proof fn lemma_failed_schema_validation_body()
    ensures
        request_error_json(failed_schema_validation_view()) == FAILED_SCHEMA_VALIDATION_BODY@,
{
    reveal_strlit("SVC0002");
    reveal_strlit("Bad parameter (JSON does not conform to schema)");
    reveal_strlit("{\"messageId\":");
    reveal_strlit(",\"text\":");
    reveal_strlit("}");
    reveal_strlit("{\"serviceException\":");
    reveal_strlit("{\"requestError\":");
    reveal_strlit(
        "{\"requestError\":{\"serviceException\":{\"messageId\":\"SVC0002\",\"text\":\"Bad parameter (JSON does not conform to schema)\"}}}",
    );
    let id = "SVC0002"@;
    let text = "Bad parameter (JSON does not conform to schema)"@;
    assert(forall|i: int| 0 <= i < id.len() ==> is_plain(#[trigger] id[i]));
    assert(forall|i: int| 0 <= i < text.len() ==> is_plain(#[trigger] text[i]));
    lemma_plain_text(id);
    lemma_plain_text(text);
    assert(request_error_json(failed_schema_validation_view()) =~= FAILED_SCHEMA_VALIDATION_BODY@);
}

/// The body for a message that is larger than the listener allows is the text
/// of [`MESSAGE_SIZE_EXCEEDED_BODY`]: nothing in the error has to be escaped.
pub proof fn lemma_message_size_exceeded_body()
    ensures
        request_error_json(message_size_exceeded_view()) == MESSAGE_SIZE_EXCEEDED_BODY@,
{
    reveal_strlit("POL9003");
    reveal_strlit("Message content size exceeds the allowable limit");
    reveal_strlit("{\"messageId\":");
    reveal_strlit(",\"text\":");
    reveal_strlit("}");
    reveal_strlit("{\"policyException\":");
    reveal_strlit("{\"requestError\":");
    reveal_strlit(
        "{\"requestError\":{\"policyException\":{\"messageId\":\"POL9003\",\"text\":\"Message content size exceeds the allowable limit\"}}}",
    );
    let id = "POL9003"@;
    let text = "Message content size exceeds the allowable limit"@;
    assert(forall|i: int| 0 <= i < id.len() ==> is_plain(#[trigger] id[i]));
    assert(forall|i: int| 0 <= i < text.len() ==> is_plain(#[trigger] text[i]));
    lemma_plain_text(id);
    lemma_plain_text(text);
    assert(request_error_json(message_size_exceeded_view()) =~= MESSAGE_SIZE_EXCEEDED_BODY@);
}

} // verus!
