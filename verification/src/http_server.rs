//! What the event listener decides about a request: whether it is valid,
//! which events its body holds, and what is answered.
//!
//! The functions here take the parts of a request as plain values; the HTTP
//! server hands them over, publishes the records and sends the reply.

use vstd::prelude::*;
use vstd::string::{StrSliceExecFns, StringExecFns, StringSliceAdditionalSpecFns};
use vstd::utf8::{decode_utf8, encode_utf8, valid_utf8};
use crate::json::{
    elements, is_null, json_document, json_elements, json_member, json_text, json_texts, member,
    null_text, parse_json, print_json, text_of,
};
use crate::kafka::{event_record_view, ProducerRecord, ProducerRecordView};
use crate::registry::{lemma_latest_patch_none, lemma_latest_patch_registered, SchemaRegistry};
use crate::resolver::{
    header_number, requested_major, resolution, resolve, Resolution, VersionError, VersionHeaders,
    VersionHeadersView, DEFAULT_MINOR_VERSION, DEFAULT_PATCH_VERSION, HEADER_MINOR_VERSION,
    HEADER_PATCH_VERSION,
};
use crate::schema::{schema_accepts, validator_accepts, CompiledSchema};
use crate::types::AppState;
use crate::utils::same_text;
use crate::version::SemVer;
use crate::ves::{request_error_json, VesError, VesErrorView};

verus! {

/// The header that tells the latest supported version.
pub const HEADER_LATEST_VERSION: &'static str = "X-LatestVersion";

/// The header that names the media type of a body.
pub const HEADER_CONTENT_TYPE: &'static str = "Content-Type";

/// The media type of JSON.
pub const CONTENT_TYPE_JSON: &'static str = "application/json";

/// Whether the body `data` is a valid event for the schema document `schema`:
/// it is UTF-8 text and a JSON document, its member `root_key` is there and
/// not `null`, and the schema accepts the document.
pub open spec fn event_is_valid(data: Seq<u8>, schema: Seq<char>, root_key: Seq<char>) -> bool {
    &&& valid_utf8(data)
    &&& json_document(decode_utf8(data)) matches Some(document)
    &&& json_member(document, root_key) != null_text()
    &&& schema_accepts(schema, document)
}

/// Tells whether a document that was read from a body is a valid event: its
/// member `root_key` is not `null`, and the schema accepts the document.
pub fn validate_document(document: &serde_json::Value, schema: &CompiledSchema, root_key: &str) -> (r:
    bool)
    ensures
        r == (json_member(json_text(*document), root_key@) != null_text() && schema_accepts(
            schema@,
            json_text(*document),
        )),
{
    if is_null(member(document, root_key)) {
        false
    } else {
        validator_accepts(schema, document)
    }
}

/// Validates the body of a request against a schema, after some checks of its
/// own.
///
/// The body is valid if it is text, and a JSON document, and has the member
/// `root_key`, and the schema accepts it.
pub fn validate_event(data: &Vec<u8>, schema: &CompiledSchema, root_key: &str) -> (r: bool)
    ensures
        r == event_is_valid(data@, schema@, root_key@),
{
    match text_of(data.as_slice()) {
        Err(_) => false,
        Ok(text) => match parse_json(text) {
            Err(_) => false,
            Ok(document) => validate_document(&document, schema, root_key),
        },
    }
}

/// Why a request is rejected, or `None` where it is accepted.
///
/// A request that names a patch version above the default only has to name a
/// registered version: its body is not validated. Every other request is
/// validated against the schema of the latest patch of its major and minor
/// version.
pub open spec fn request_error(
    version: Seq<u8>,
    headers: VersionHeadersView,
    data: Seq<u8>,
    event_mode: Seq<char>,
    registry: Map<SemVer, Seq<char>>,
) -> Option<VersionError> {
    match resolution(version, headers, registry.dom()) {
        Err(error) => Some(error),
        Ok(Resolution::Exact(_)) => None,
        Ok(Resolution::Latest(latest)) => if event_is_valid(data, registry[latest], event_mode) {
            None
        } else {
            Some(VersionError::SchemaValidationFailed)
        },
    }
}

/// Checks a request: its version, and, unless it names a patch version above
/// the default, its body.
pub fn check_request(
    version: &str,
    headers: &VersionHeaders,
    data: &Vec<u8>,
    event_mode: &str,
    schemas: &SchemaRegistry,
) -> (r: Result<Resolution, VersionError>)
    ensures
        match r {
            Ok(resolved) => request_error(
                version.spec_bytes(),
                headers@,
                data@,
                event_mode@,
                schemas@,
            ) is None && resolution(version.spec_bytes(), headers@, schemas@.dom()) == Ok::<
                Resolution,
                VersionError,
            >(resolved),
            Err(error) => request_error(
                version.spec_bytes(),
                headers@,
                data@,
                event_mode@,
                schemas@,
            ) == Some(error),
        },
{
    let resolved: Resolution = resolve(version, headers, schemas)?;
    match resolved {
        Resolution::Exact(_) => Ok(resolved),
        Resolution::Latest(latest) => {
            proof {
                lemma_latest_patch_registered(
                    schemas@.dom(),
                    latest.major,
                    latest.minor,
                );
            }
            match schemas.get(&latest) {
                None => Err(VersionError::InvalidApiVersion),
                Some(schema) => {
                    if validate_event(data, schema, event_mode) {
                        Ok(resolved)
                    } else {
                        Err(VersionError::SchemaValidationFailed)
                    }
                },
            }
        },
    }
}

/// Validates everything in a request.
///
/// The request is valid if the path names a major version such as `v7`, the
/// minor and patch version of its headers are numbers (0 and 1 where a header
/// is not there), a schema is registered for them, and, unless the request
/// names a patch version above 1, the body is valid for the schema of the
/// latest registered patch as [`validate_event`] tells.
pub fn validate_request(
    version: &str,
    headers: &VersionHeaders,
    data: &Vec<u8>,
    event_mode: &str,
    schemas: &SchemaRegistry,
) -> (r: Result<(), VesError>)
    ensures
        match r {
            Ok(_) => request_error(
                version.spec_bytes(),
                headers@,
                data@,
                event_mode@,
                schemas@,
            ) is None,
            Err(error) => request_error(
                version.spec_bytes(),
                headers@,
                data@,
                event_mode@,
                schemas@,
            ) matches Some(reason) && error@ == reason.report(),
        },
{
    match check_request(version, headers, data, event_mode, schemas) {
        Ok(_) => Ok(()),
        Err(reason) => Err(reason.to_ves_error()),
    }
}

/// The name of the member that holds a single event.
pub const EVENT_KEY: &'static str = "event";

/// The name of the member that holds a batch of events.
pub const EVENT_LIST_KEY: &'static str = "eventList";

/// The payloads of a sequence of texts: the UTF-8 bytes of each.
pub open spec fn payloads_of(texts: Seq<Seq<char>>) -> Seq<Seq<u8>> {
    Seq::new(texts.len(), |i: int| encode_utf8(texts[i]))
}

/// The bytes that each of the vectors holds.
pub open spec fn contents(payloads: Seq<Vec<u8>>) -> Seq<Seq<u8>> {
    Seq::new(payloads.len(), |i: int| payloads[i]@)
}

/// The events of the envelope `document`, each as the bytes of its compact
/// text. An envelope with a member `event` that is not `null` holds that one
/// event. Any other envelope holds the elements of its member `eventList`, in
/// their order, and no events at all where that member is no array.
pub open spec fn events_in(document: Seq<char>) -> Option<Seq<Seq<u8>>> {
    let event = json_member(document, EVENT_KEY@);
    if event != null_text() {
        Some(seq![encode_utf8(event)])
    } else {
        match json_elements(json_member(document, EVENT_LIST_KEY@)) {
            Some(items) => Some(payloads_of(items)),
            None => None,
        }
    }
}

/// The events of the body `data`; `None` where the body is no UTF-8 text, no
/// JSON document, or an envelope without events.
pub open spec fn events_of(data: Seq<u8>) -> Option<Seq<Seq<u8>>> {
    if valid_utf8(data) {
        match json_document(decode_utf8(data)) {
            Some(document) => events_in(document),
            None => None,
        }
    } else {
        None
    }
}

/// The bytes of the compact text of a value.
fn payload_of(value: &serde_json::Value) -> (payload: Vec<u8>)
    ensures
        payload@ == encode_utf8(json_text(*value)),
{
    print_json(value).as_str().as_bytes_vec()
}

/// Takes the events out of an envelope that was read from a body: the single
/// event of its member `event`, or else the events of its member `eventList`.
pub fn events_in_document(document: &serde_json::Value) -> (r: Option<Vec<Vec<u8>>>)
    ensures
        match r {
            Some(events) => events_in(json_text(*document)) == Some(contents(events@)),
            None => events_in(json_text(*document)) is None,
        },
{
    let event: &serde_json::Value = member(document, EVENT_KEY);
    if !is_null(event) {
        let mut events: Vec<Vec<u8>> = Vec::new();
        events.push(payload_of(event));
        assert(contents(events@) =~= seq![encode_utf8(json_text(*event))]);
        return Some(events);
    }
    let list: &serde_json::Value = member(document, EVENT_LIST_KEY);
    match elements(list) {
        None => None,
        Some(items) => {
            let mut events: Vec<Vec<u8>> = Vec::new();
            let mut i: usize = 0;
            while i < items.len()
                invariant
                    i <= items@.len(),
                    events@.len() == i,
                    forall|k: int|
                        0 <= k < i ==> (#[trigger] events@[k])@ == encode_utf8(
                            json_text(items@[k]),
                        ),
                decreases items@.len() - i,
            {
                events.push(payload_of(&items[i]));
                i = i + 1;
            }
            assert(contents(events@) =~= payloads_of(json_texts(items@)));
            Some(events)
        },
    }
}

/// Takes the events out of the body of a request, where it holds any.
pub fn try_parse_events(data: &Vec<u8>) -> (r: Option<Vec<Vec<u8>>>)
    ensures
        match r {
            Some(events) => events_of(data@) == Some(contents(events@)),
            None => events_of(data@) is None,
        },
{
    match text_of(data.as_slice()) {
        Err(_) => None,
        Ok(text) => match parse_json(text) {
            Err(_) => None,
            Ok(document) => events_in_document(&document),
        },
    }
}

/// Takes the events out of the body of a request.
///
/// Either a single event in the member `event`, or several events in the
/// member `eventList`. The body has to hold events, as a body does that
/// [`validate_event`] found valid for the member `event`.
pub fn parse_events(data: &Vec<u8>) -> (events: Vec<Vec<u8>>)
    requires
        events_of(data@) is Some,
    ensures
        events_of(data@) == Some(contents(events@)),
{
    try_parse_events(data).unwrap()
}

/// A body that is a valid event under the member `event` holds exactly one
/// event, whatever the schema.
pub proof fn lemma_valid_event_is_single(data: Seq<u8>, schema: Seq<char>)
    requires
        event_is_valid(data, schema, EVENT_KEY@),
    ensures
        events_of(data) is Some,
        events_of(data).unwrap().len() == 1,
{
}

/// A body that is no UTF-8 text or no JSON document, or an envelope in which
/// both `event` and `eventList` are missing or `null`, is valid under neither
/// member, whatever the schema: validation turns it down before any event is
/// taken out of it.
pub proof fn lemma_validation_needs_root_key(data: Seq<u8>, schema: Seq<char>)
    requires
        !valid_utf8(data) || json_document(decode_utf8(data)) is None || (json_member(
            json_document(decode_utf8(data)).unwrap(),
            EVENT_KEY@,
        ) == null_text() && json_member(
            json_document(decode_utf8(data)).unwrap(),
            EVENT_LIST_KEY@,
        ) == null_text()),
    ensures
        !event_is_valid(data, schema, EVENT_KEY@),
        !event_is_valid(data, schema, EVENT_LIST_KEY@),
{
}

/// What becomes of a request.
pub enum Verdict {
    /// The request is accepted. Its events are to be published as these
    /// records, in this order.
    Accepted(Vec<ProducerRecord>),
    /// The request is rejected with this error.
    Rejected(VesError),
    /// The request passed the version rules, but its body holds no events:
    /// it cannot be served.
    Unreadable,
}

impl Verdict {
    /// Whether this is the verdict on a request that is rejected for `error`,
    /// if for anything, and that holds the events `events`, if any, where
    /// events are published to the topic `topic`.
    pub open spec fn answers(
        self,
        error: Option<VersionError>,
        events: Option<Seq<Seq<u8>>>,
        topic: Seq<char>,
    ) -> bool {
        match self {
            Verdict::Rejected(reported) => {
                &&& error matches Some(reason)
                &&& reported@ == reason.report()
            },
            Verdict::Accepted(records) => {
                &&& error is None
                &&& events matches Some(payloads)
                &&& record_views(records@) == event_records(topic, payloads)
            },
            Verdict::Unreadable => error is None && events is None,
        }
    }
}

/// What each of the records holds.
pub open spec fn record_views(records: Seq<ProducerRecord>) -> Seq<ProducerRecordView> {
    Seq::new(records.len(), |i: int| records[i]@)
}

/// The records that carry the events `events` to the topic `topic`.
pub open spec fn event_records(topic: Seq<char>, events: Seq<Seq<u8>>) -> Seq<
    ProducerRecordView,
> {
    Seq::new(events.len(), |i: int| event_record_view(topic, events[i]))
}

/// Wraps each event into a record for the topic `topic`, keeping the order.
pub fn records_for(topic: &str, events: Vec<Vec<u8>>) -> (records: Vec<ProducerRecord>)
    ensures
        record_views(records@) == event_records(topic@, contents(events@)),
{
    let ghost payloads = contents(events@);
    let mut events: Vec<Vec<u8>> = events;
    let mut records: Vec<ProducerRecord> = Vec::new();
    let n: usize = events.len();
    let mut i: usize = 0;
    while i < n
        invariant
            i <= n,
            n == payloads.len(),
            events@.len() == n,
            records@.len() == i,
            forall|k: int| i <= k < n ==> (#[trigger] events@[k])@ == payloads[k],
            forall|k: int|
                0 <= k < i ==> (#[trigger] records@[k])@ == event_record_view(topic@, payloads[k]),
        decreases n - i,
    {
        let mut payload: Vec<u8> = Vec::new();
        std::mem::swap(&mut events[i], &mut payload);
        records.push(ProducerRecord::for_event(topic, payload));
        i = i + 1;
    }
    assert(record_views(records@) =~= event_records(topic@, payloads));
    records
}

/// Handles a request for the event listener: checks it, and takes the events
/// out of its body.
///
/// A request that [`validate_request`] turns down is rejected with that
/// error. Any other request is accepted, and each event of its body becomes a
/// record for the topic of `state`, in the order of the body. Where the body
/// holds no events although the request passed, the request is unreadable.
pub fn process_event_common(
    version: &str,
    headers: &VersionHeaders,
    data: &Vec<u8>,
    event_mode: &str,
    state: &AppState,
) -> (verdict: Verdict)
    ensures
        verdict.answers(
            request_error(version.spec_bytes(), headers@, data@, event_mode@, state.schemas@),
            events_of(data@),
            state.topic@,
        ),
{
    let resolved: Resolution = match check_request(
        version,
        headers,
        data,
        event_mode,
        &state.schemas,
    ) {
        Ok(resolved) => resolved,
        Err(reason) => {
            return Verdict::Rejected(reason.to_ves_error());
        },
    };
    let validated_single: bool = match resolved {
        Resolution::Latest(_) => same_text(event_mode, EVENT_KEY),
        Resolution::Exact(_) => false,
    };
    let events: Option<Vec<Vec<u8>>> = if validated_single {
        // The body was found valid under the member `event`: it holds one.
        Some(parse_events(data))
    } else {
        try_parse_events(data)
    };
    match events {
        Some(events) => Verdict::Accepted(records_for(state.topic.as_str(), events)),
        None => Verdict::Unreadable,
    }
}

/// The status of a response that accepts a request.
pub const STATUS_ACCEPTED: u16 = 202;

/// The status of a response that rejects a request.
pub const STATUS_BAD_REQUEST: u16 = 400;

/// The status of the response to a health check.
pub const STATUS_OK: u16 = 200;

/// The body of the response to a health check.
pub const HEALTH_BODY: &'static str = "Healthy\n";

/// The minor version that a response reports.
pub const REPORTED_MINOR_VERSION: &'static str = "1";

/// The patch version that a response reports.
pub const REPORTED_PATCH_VERSION: &'static str = "1";

/// The latest version that a response reports.
pub const REPORTED_LATEST_VERSION: &'static str = "7.1.1";

/// The address on which the server listens on all interfaces.
pub const LISTEN_HOST: &'static str = "0.0.0.0:";

/// A header of a response.
pub struct HeaderLine {
    pub name: String,
    pub value: String,
}

impl View for HeaderLine {
    type V = (Seq<char>, Seq<char>);

    open spec fn view(&self) -> (Seq<char>, Seq<char>) {
        (self.name@, self.value@)
    }
}

/// A response: its status, its headers in order, and its body.
pub struct HttpReply {
    pub status: u16,
    pub headers: Vec<HeaderLine>,
    pub body: String,
}

/// What an [`HttpReply`] holds.
pub struct HttpReplyView {
    pub status: u16,
    pub headers: Seq<(Seq<char>, Seq<char>)>,
    pub body: Seq<char>,
}

impl View for HttpReply {
    type V = HttpReplyView;

    open spec fn view(&self) -> HttpReplyView {
        HttpReplyView {
            status: self.status,
            headers: Seq::new(self.headers@.len(), |i: int| self.headers@[i]@),
            body: self.body@,
        }
    }
}

/// The response that accepts a request: the three version headers, and no
/// body.
pub open spec fn accepted_reply() -> HttpReplyView {
    HttpReplyView {
        status: STATUS_ACCEPTED,
        headers: seq![
            (HEADER_MINOR_VERSION@, REPORTED_MINOR_VERSION@),
            (HEADER_PATCH_VERSION@, REPORTED_PATCH_VERSION@),
            (HEADER_LATEST_VERSION@, REPORTED_LATEST_VERSION@),
        ],
        body: Seq::empty(),
    }
}

/// The response that rejects a request with the error `error`: a JSON body
/// that holds the error.
pub open spec fn rejected_reply(error: VesErrorView) -> HttpReplyView {
    HttpReplyView {
        status: STATUS_BAD_REQUEST,
        headers: seq![(HEADER_CONTENT_TYPE@, CONTENT_TYPE_JSON@)],
        body: request_error_json(error),
    }
}

/// The response to a health check.
pub open spec fn health_reply() -> HttpReplyView {
    HttpReplyView { status: STATUS_OK, headers: Seq::empty(), body: HEALTH_BODY@ }
}

/// A header with the given name and value.
fn header(name: &str, value: &str) -> (line: HeaderLine)
    ensures
        line@ == (name@, value@),
{
    HeaderLine { name: name.to_owned(), value: value.to_owned() }
}

/// The response to a health check: always the same.
pub fn health() -> (reply: HttpReply)
    ensures
        reply@ == health_reply(),
{
    let reply = HttpReply { status: STATUS_OK, headers: Vec::new(), body: HEALTH_BODY.to_owned() };
    assert(reply@.headers =~= Seq::empty());
    reply
}

/// The address on which the server listens: the port `port` on all
/// interfaces.
pub fn listen_address(port: &str) -> (address: String)
    ensures
        address@ == LISTEN_HOST@ + port@,
{
    let mut address: String = LISTEN_HOST.to_owned();
    address.append(port);
    address
}

impl Verdict {
    /// The response that this verdict is answered with; none for a request
    /// that cannot be served.
    pub open spec fn reply_view(self) -> Option<HttpReplyView> {
        match self {
            Verdict::Accepted(_) => Some(accepted_reply()),
            Verdict::Rejected(error) => Some(rejected_reply(error@)),
            Verdict::Unreadable => None,
        }
    }

    /// The response that this verdict is answered with: `202` with the
    /// version headers for an accepted request, `400` with the error in a JSON
    /// body for a rejected one, and none for a request that cannot be served.
    pub fn reply(&self) -> (r: Option<HttpReply>)
        ensures
            match r {
                Some(reply) => self.reply_view() == Some(reply@),
                None => self.reply_view() is None,
            },
    {
        match self {
            Verdict::Accepted(_) => {
                let mut headers: Vec<HeaderLine> = Vec::new();
                headers.push(header(HEADER_MINOR_VERSION, REPORTED_MINOR_VERSION));
                headers.push(header(HEADER_PATCH_VERSION, REPORTED_PATCH_VERSION));
                headers.push(header(HEADER_LATEST_VERSION, REPORTED_LATEST_VERSION));
                let reply = HttpReply { status: STATUS_ACCEPTED, headers, body: String::new() };
                assert(reply@.headers =~= accepted_reply().headers);
                Some(reply)
            },
            Verdict::Rejected(error) => {
                let mut headers: Vec<HeaderLine> = Vec::new();
                headers.push(header(HEADER_CONTENT_TYPE, CONTENT_TYPE_JSON));
                let reply = HttpReply {
                    status: STATUS_BAD_REQUEST,
                    headers,
                    body: error.to_request_error(),
                };
                assert(reply@.headers =~= rejected_reply(error@).headers);
                Some(reply)
            },
            Verdict::Unreadable => None,
        }
    }
}

/// A request that names a patch version above the default is rejected as an
/// invalid version unless exactly the version that it names is registered,
/// whatever its body and whatever the registered schemas hold.
pub proof fn lemma_unregistered_patch_is_rejected(
    version: Seq<u8>,
    headers: VersionHeadersView,
    data: Seq<u8>,
    event_mode: Seq<char>,
    registry: Map<SemVer, Seq<char>>,
)
    requires
        header_number(headers.patch_version, DEFAULT_PATCH_VERSION) matches Some(patch) && patch
            > DEFAULT_PATCH_VERSION,
        !(requested_major(version) matches Some(major) && header_number(
            headers.minor_version,
            DEFAULT_MINOR_VERSION,
        ) matches Some(minor) && header_number(
            headers.patch_version,
            DEFAULT_PATCH_VERSION,
        ) matches Some(patch) && registry.contains_key(SemVer { major, minor, patch })),
    ensures
        request_error(version, headers, data, event_mode, registry) == Some(
            VersionError::InvalidApiVersion,
        ),
{
}

/// A request that leaves the patch version open is rejected as an invalid
/// version where no version with its major and minor number is registered.
pub proof fn lemma_unregistered_line_is_rejected(
    version: Seq<u8>,
    headers: VersionHeadersView,
    data: Seq<u8>,
    event_mode: Seq<char>,
    registry: Map<SemVer, Seq<char>>,
)
    requires
        header_number(headers.patch_version, DEFAULT_PATCH_VERSION) matches Some(patch) && patch
            <= DEFAULT_PATCH_VERSION,
        requested_major(version) matches Some(major) && header_number(
            headers.minor_version,
            DEFAULT_MINOR_VERSION,
        ) matches Some(minor) && forall|patch: u16|
            !registry.contains_key(SemVer { major, minor, patch }),
    ensures
        request_error(version, headers, data, event_mode, registry) == Some(
            VersionError::InvalidApiVersion,
        ),
{
    let major = requested_major(version).unwrap();
    let minor = header_number(headers.minor_version, DEFAULT_MINOR_VERSION).unwrap();
    lemma_latest_patch_none(registry.dom(), major, minor);
}

} // verus!
