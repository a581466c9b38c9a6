//! Client side of the local model server: the chat wire types, the requests
//! the client sends, and how each outcome of an exchange is classified.

use crate::text::{decimal_text, seq_contains, signed_decimal, text_contains};
use vstd::prelude::*;

verus! {

/// Loopback address of the model server.
pub const BASE_URL: &'static str = "http://localhost:11434";

/// Seconds after which an outbound call is abandoned.
pub const REQUEST_TIMEOUT_SECS: u64 = 120;

/// One turn of a chat, as the server's chat endpoint reads it.
#[derive(Debug)]
pub struct ChatMessage {
    pub role: String,
    pub content: String,
    pub images: Option<Vec<String>>,
}

/// Body of a chat call; `stream` is always false.
#[derive(Debug)]
pub struct ChatRequest {
    pub model: String,
    pub messages: Vec<ChatMessage>,
    pub stream: bool,
}

/// Body of a successful chat call.
#[derive(Debug)]
pub struct ChatResponse {
    pub message: ChatMessage,
    pub done: bool,
}

/// One entry of the server's model registry.
#[derive(Debug)]
pub struct OllamaModel {
    pub name: String,
    pub size: i64,
    pub digest: String,
    pub modified_at: String,
}

/// Body of a successful model listing.
#[derive(Debug)]
pub struct ModelsResponse {
    pub models: Vec<OllamaModel>,
}

/// How a call that never produced an HTTP response failed.
#[derive(Debug)]
pub struct TransportFailure {
    /// The connection could not be established.
    pub is_connect: bool,
    /// The call ran past the timeout.
    pub is_timeout: bool,
    /// Description of the failure, for diagnostics.
    pub detail: String,
}

/// Everything one call to the server can end in.
#[derive(Debug)]
pub enum Exchange<T> {
    /// No HTTP response arrived.
    SendFailed(TransportFailure),
    /// The server answered with a status outside 200..=299.
    Rejected { status: u16, body: String },
    /// The server answered with success and the body decoded.
    Decoded(T),
    /// The server answered with success but the body did not decode.
    Malformed(String),
}

/// Failure categories of the gateway.
#[derive(Debug)]
pub enum GatewayError {
    /// The server cannot be reached.
    Unavailable,
    /// The call exceeded the timeout.
    TimedOut,
    /// The model cannot take image attachments.
    VisionUnsupported,
    /// Any other non-success answer, with its status and body.
    Http { status: u16, body: String },
    /// The answer did not have the expected shape.
    Decode(String),
    /// Any other failure of the call itself.
    Transport(String),
}

/// Text shown when the server cannot be reached.
pub const UNAVAILABLE_TEXT: &'static str = "Cannot connect to Ollama server. Please run 'ollama run gemma3:4b' in a terminal.";

/// Text shown when a call timed out.
pub const TIMEOUT_TEXT: &'static str = "Request timed out. The model might be loading or the prompt is too complex.";

/// Sentinel text by which callers recognise a model without image support.
pub const VISION_TEXT: &'static str = "VISION_NOT_SUPPORTED";

/// The standard reason phrase of an HTTP status code, where it has one.
pub uninterp spec fn reason_phrase(code: u16) -> Option<Seq<char>>;

/// Relies on `reqwest::StatusCode::from_u16` and `canonical_reason`: the
/// standard reason phrase of the code, `None` for a code outside 100..=999
/// or without one.
#[verifier::external_body]
fn status_reason(code: u16) -> (r: Option<String>)
    ensures
        match r {
            Some(t) => reason_phrase(code) == Some(t@),
            None => reason_phrase(code) is None,
        },
{
    reqwest::StatusCode::from_u16(code).ok().and_then(|s| s.canonical_reason()).map(|t| t.to_string())
}

/// How a status is written: its reason phrase, or a placeholder.
pub open spec fn status_reason_text(code: u16) -> Seq<char> {
    match reason_phrase(code) {
        Some(t) => t,
        None => "<unknown status code>"@,
    }
}

/// Text shown when the model registry cannot be reached.
pub const LISTING_UNAVAILABLE_TEXT: &'static str = "Cannot connect to Ollama server. Please ensure Ollama is running.";

/// The text that reports an error of a model listing to the user.
pub open spec fn listing_error_text(e: GatewayError) -> Seq<char> {
    match e {
        GatewayError::Unavailable => LISTING_UNAVAILABLE_TEXT@,
        GatewayError::Decode(d) => "Failed to parse models response: "@ + d@,
        _ => error_text(e),
    }
}

/// The text that reports an error to the user.
pub open spec fn error_text(e: GatewayError) -> Seq<char> {
    match e {
        GatewayError::Unavailable => UNAVAILABLE_TEXT@,
        GatewayError::TimedOut => TIMEOUT_TEXT@,
        GatewayError::VisionUnsupported => VISION_TEXT@,
        GatewayError::Http { status, body } => "HTTP "@ + signed_decimal(status as int) + " "@
            + status_reason_text(status) + ": "@ + body@,
        GatewayError::Decode(d) => "Failed to parse response: "@ + d@,
        GatewayError::Transport(d) => "Request failed: "@ + d@,
    }
}

impl GatewayError {
    /// The text that reports this error to the user.
    pub fn message(&self) -> (r: String)
        ensures
            r@ == error_text(*self),
    {
        match self {
            GatewayError::Unavailable => String::from_str(UNAVAILABLE_TEXT),
            GatewayError::TimedOut => String::from_str(TIMEOUT_TEXT),
            GatewayError::VisionUnsupported => String::from_str(VISION_TEXT),
            GatewayError::Http { status, body } => {
                let mut s = String::from_str("HTTP ");
                let code = decimal_text(*status as i64);
                s.append(code.as_str());
                s.append(" ");
                match status_reason(*status) {
                    Some(t) => s.append(t.as_str()),
                    None => s.append("<unknown status code>"),
                }
                s.append(": ");
                s.append(body.as_str());
                s
            },
            GatewayError::Decode(d) => String::from_str("Failed to parse response: ").concat(
                d.as_str(),
            ),
            GatewayError::Transport(d) => String::from_str("Request failed: ").concat(d.as_str()),
        }
    }

    /// The text that reports this error of a model listing to the user.
    pub fn listing_message(&self) -> (r: String)
        ensures
            r@ == listing_error_text(*self),
    {
        match self {
            GatewayError::Unavailable => String::from_str(LISTING_UNAVAILABLE_TEXT),
            GatewayError::Decode(d) => String::from_str("Failed to parse models response: ").concat(
                d.as_str(),
            ),
            _ => self.message(),
        }
    }
}

/// The body mentions a missing vision, image or multimodal capability.
pub open spec fn mentions_vision(body: Seq<char>) -> bool {
    seq_contains(body, "vision"@) || seq_contains(body, "image"@) || seq_contains(
        body,
        "multimodal"@,
    )
}

pub open spec fn is_success_spec(status: u16) -> bool {
    200 <= status <= 299
}

pub open spec fn transport_error(f: TransportFailure) -> GatewayError {
    if f.is_connect {
        GatewayError::Unavailable
    } else if f.is_timeout {
        GatewayError::TimedOut
    } else {
        GatewayError::Transport(f.detail)
    }
}

pub open spec fn rejection_error(status: u16, body: String) -> GatewayError {
    if mentions_vision(body@) {
        GatewayError::VisionUnsupported
    } else {
        GatewayError::Http { status, body }
    }
}

/// The liveness probe's answer, given the status that came back, if any.
pub open spec fn probe_spec(status: Option<u16>) -> bool {
    status matches Some(s) && is_success_spec(s)
}

/// What a sending operation returns for each outcome of its exchange.
pub open spec fn chat_result(o: Exchange<ChatResponse>) -> Result<String, GatewayError> {
    match o {
        Exchange::SendFailed(f) => Err(transport_error(f)),
        Exchange::Rejected { status, body } => Err(rejection_error(status, body)),
        Exchange::Decoded(resp) => Ok(resp.message.content),
        Exchange::Malformed(detail) => Err(GatewayError::Decode(detail)),
    }
}

/// What a model listing returns for each outcome of its exchange.
pub open spec fn models_result(o: Exchange<ModelsResponse>) -> Result<
    Vec<OllamaModel>,
    GatewayError,
> {
    match o {
        Exchange::SendFailed(f) => Err(
            if f.is_connect {
                GatewayError::Unavailable
            } else {
                GatewayError::Transport(f.detail)
            },
        ),
        Exchange::Rejected { status, body } => Err(GatewayError::Http { status, body }),
        Exchange::Decoded(resp) => Ok(resp.models),
        Exchange::Malformed(detail) => Err(GatewayError::Decode(detail)),
    }
}

/// A status in 200..=299: the body is then read as the expected reply,
/// otherwise as error text.
pub fn is_success_status(status: u16) -> (r: bool)
    ensures
        r == is_success_spec(status),
{
    200 <= status && status <= 299
}

/// Whether the body of a failed call names a missing image capability.
pub fn is_vision_rejection(body: &str) -> (r: bool)
    ensures
        r == mentions_vision(body@),
{
    text_contains(body, "vision") || text_contains(body, "image") || text_contains(
        body,
        "multimodal",
    )
}

/// Classifies a call that produced no HTTP response.
pub fn classify_transport(failure: TransportFailure) -> (e: GatewayError)
    ensures
        e == transport_error(failure),
{
    if failure.is_connect {
        GatewayError::Unavailable
    } else if failure.is_timeout {
        GatewayError::TimedOut
    } else {
        GatewayError::Transport(failure.detail)
    }
}

/// Classifies a non-success answer of a sending operation.
pub fn classify_rejection(status: u16, body: String) -> (e: GatewayError)
    ensures
        e == rejection_error(status, body),
{
    if is_vision_rejection(body.as_str()) {
        GatewayError::VisionUnsupported
    } else {
        GatewayError::Http { status, body }
    }
}

/// The reply text of a sending operation, or the category of its failure.
pub fn chat_reply(outcome: Exchange<ChatResponse>) -> (r: Result<String, GatewayError>)
    ensures
        r == chat_result(outcome),
{
    match outcome {
        Exchange::SendFailed(f) => Err(classify_transport(f)),
        Exchange::Rejected { status, body } => Err(classify_rejection(status, body)),
        Exchange::Decoded(resp) => Ok(resp.message.content),
        Exchange::Malformed(detail) => Err(GatewayError::Decode(detail)),
    }
}

/// The models of a listing, or the category of its failure.
pub fn models_reply(outcome: Exchange<ModelsResponse>) -> (r: Result<
    Vec<OllamaModel>,
    GatewayError,
>)
    ensures
        r == models_result(outcome),
{
    match outcome {
        Exchange::SendFailed(f) => {
            if f.is_connect {
                Err(GatewayError::Unavailable)
            } else {
                Err(GatewayError::Transport(f.detail))
            }
        },
        Exchange::Rejected { status, body } => Err(GatewayError::Http { status, body }),
        Exchange::Decoded(resp) => Ok(resp.models),
        Exchange::Malformed(detail) => Err(GatewayError::Decode(detail)),
    }
}

/// The liveness probe: reachable exactly when an answer came back with a
/// success status; a failed call is `false`, never an error.
pub fn probe_result(status: Option<u16>) -> (r: bool)
    ensures
        r == probe_spec(status),
{
    match status {
        Some(s) => is_success_status(s),
        None => false,
    }
}


#[verifier::external_type_specification]
#[verifier::external_body]
pub struct ExHttpClient(reqwest::Client);

/// Relies on `reqwest::ClientBuilder::timeout` and `build`: a client whose
/// calls are abandoned after `secs` seconds; `None` where the builder failed
/// (no TLS backend or resolver could be set up).
#[verifier::external_body]
fn build_http_client(secs: u64) -> (r: Option<reqwest::Client>) {
    reqwest::Client::builder().timeout(std::time::Duration::from_secs(secs)).build().ok()
}

/// The gateway: an HTTP client bound to the model server's address.
pub struct OllamaClient {
    client: reqwest::Client,
    base_url: String,
}

impl OllamaClient {
    /// Address of the server this client talks to.
    pub closed spec fn base(&self) -> Seq<char> {
        self.base_url@
    }

    /// A client for the loopback server, with the request timeout set;
    /// fails only where the HTTP client cannot be built.
    pub fn new() -> (r: Result<OllamaClient, GatewayError>)
        ensures
            r matches Ok(c) ==> c.base() == BASE_URL@,
            r matches Err(e) ==> e matches GatewayError::Transport(_),
    {
        match build_http_client(REQUEST_TIMEOUT_SECS) {
            Some(client) => Ok(OllamaClient { client, base_url: String::from_str(BASE_URL) }),
            None => Err(GatewayError::Transport(String::from_str("cannot build the HTTP client"))),
        }
    }

    /// The HTTP client that carries the calls.
    pub fn http(&self) -> &reqwest::Client {
        &self.client
    }

    /// Address of the liveness probe: the server root.
    pub fn root_url(&self) -> (r: String)
        ensures
            r@ == self.base(),
    {
        self.base_url.clone()
    }

    /// Address of the chat endpoint.
    pub fn chat_url(&self) -> (r: String)
        ensures
            r@ == self.base() + "/api/chat"@,
    {
        self.base_url.clone().concat("/api/chat")
    }

    /// Address of the model registry.
    pub fn tags_url(&self) -> (r: String)
        ensures
            r@ == self.base() + "/api/tags"@,
    {
        self.base_url.clone().concat("/api/tags")
    }

    /// The request of a single text prompt: one user turn, no images.
    pub fn prompt_request(&self, prompt: &str, model: &str) -> (r: ChatRequest)
        ensures
            r.model@ == model@,
            !r.stream,
            r.messages@.len() == 1,
            r.messages@[0].role@ == "user"@,
            r.messages@[0].content@ == prompt@,
            r.messages@[0].images is None,
    {
        let turn = ChatMessage {
            role: String::from_str("user"),
            content: String::from_str(prompt),
            images: None,
        };
        ChatRequest { model: String::from_str(model), messages: vec![turn], stream: false }
    }

    /// The request of a prompt with one attached image, given in base64.
    pub fn image_request(&self, prompt: &str, image_base64: &str, model: &str) -> (r:
        ChatRequest)
        ensures
            r.model@ == model@,
            !r.stream,
            r.messages@.len() == 1,
            r.messages@[0].role@ == "user"@,
            r.messages@[0].content@ == prompt@,
            r.messages@[0].images matches Some(imgs) && imgs@.len() == 1 && imgs@[0]@
                == image_base64@,
    {
        let turn = ChatMessage {
            role: String::from_str("user"),
            content: String::from_str(prompt),
            images: Some(vec![String::from_str(image_base64)]),
        };
        ChatRequest { model: String::from_str(model), messages: vec![turn], stream: false }
    }

    /// The request that carries a whole conversation, turns kept as given.
    pub fn history_request(&self, messages: Vec<ChatMessage>, model: &str) -> (r: ChatRequest)
        ensures
            r.model@ == model@,
            !r.stream,
            r.messages@ == messages@,
    {
        ChatRequest { model: String::from_str(model), messages, stream: false }
    }
}

/// An unreachable server makes every sending operation fail with
/// `Unavailable`, and the liveness probe answer `false`.
pub proof fn lemma_unreachable_is_unavailable(failure: TransportFailure)
    requires
        failure.is_connect,
    ensures
        chat_result(Exchange::SendFailed(failure)) == Err::<String, GatewayError>(
            GatewayError::Unavailable,
        ),
        models_result(Exchange::SendFailed(failure)) == Err::<Vec<OllamaModel>, GatewayError>(
            GatewayError::Unavailable,
        ),
        !probe_spec(None),
{
}

/// A rejection whose body mentions "vision" is `VisionUnsupported`; the same
/// status with a body that names no image capability is a plain HTTP error.
pub proof fn lemma_vision_marker(status: u16, with_marker: String, without_marker: String)
    requires
        seq_contains(with_marker@, "vision"@),
        !mentions_vision(without_marker@),
    ensures
        chat_result(Exchange::Rejected { status, body: with_marker }) == Err::<
            String,
            GatewayError,
        >(GatewayError::VisionUnsupported),
        chat_result(Exchange::Rejected { status, body: without_marker }) == Err::<
            String,
            GatewayError,
        >(GatewayError::Http { status, body: without_marker }),
{
}

} // verus!
