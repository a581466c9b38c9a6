use chat_store::gateway::{
    chat_reply, classify_rejection, classify_transport, is_success_status, is_vision_rejection,
    models_reply, probe_result, ChatMessage, ChatResponse, Exchange, GatewayError,
    ModelsResponse, OllamaClient, OllamaModel, TransportFailure, BASE_URL, REQUEST_TIMEOUT_SECS,
};

fn refused() -> TransportFailure {
    TransportFailure { is_connect: true, is_timeout: false, detail: "connection refused".to_string() }
}

fn turn(role: &str, content: &str, images: Option<Vec<String>>) -> ChatMessage {
    ChatMessage { role: role.to_string(), content: content.to_string(), images }
}

#[test]
fn client_targets_loopback_server() {
    let client = OllamaClient::new().expect("client builds");
    assert_eq!(BASE_URL, "http://localhost:11434");
    assert_eq!(REQUEST_TIMEOUT_SECS, 120);
    assert_eq!(client.root_url(), "http://localhost:11434");
    assert_eq!(client.chat_url(), "http://localhost:11434/api/chat");
    assert_eq!(client.tags_url(), "http://localhost:11434/api/tags");
}

#[test]
fn prompt_request_is_one_user_turn() {
    let client = OllamaClient::new().unwrap();
    let req = client.prompt_request("Why is the sky blue?", "gemma3:4b");
    assert_eq!(req.model, "gemma3:4b");
    assert!(!req.stream);
    assert_eq!(req.messages.len(), 1);
    assert_eq!(req.messages[0].role, "user");
    assert_eq!(req.messages[0].content, "Why is the sky blue?");
    assert!(req.messages[0].images.is_none());
}

#[test]
fn image_request_carries_one_image() {
    let client = OllamaClient::new().unwrap();
    let req = client.image_request("What is this?", "aGVsbG8=", "llava");
    assert_eq!(req.model, "llava");
    assert!(!req.stream);
    assert_eq!(req.messages.len(), 1);
    assert_eq!(req.messages[0].role, "user");
    assert_eq!(req.messages[0].content, "What is this?");
    assert_eq!(req.messages[0].images, Some(vec!["aGVsbG8=".to_string()]));
}

#[test]
fn history_request_keeps_order_and_fields() {
    let client = OllamaClient::new().unwrap();
    let history = vec![
        turn("user", "hello", None),
        turn("assistant", "hi there", None),
        turn("user", "look", Some(vec!["AAAA".to_string(), "BBBB".to_string()])),
    ];
    let req = client.history_request(history, "gemma3:4b");
    assert!(!req.stream);
    assert_eq!(req.model, "gemma3:4b");
    let got: Vec<(String, String, Option<Vec<String>>)> =
        req.messages.into_iter().map(|m| (m.role, m.content, m.images)).collect();
    assert_eq!(
        got,
        vec![
            ("user".to_string(), "hello".to_string(), None),
            ("assistant".to_string(), "hi there".to_string(), None),
            ("user".to_string(), "look".to_string(), Some(vec!["AAAA".to_string(), "BBBB".to_string()])),
        ]
    );
}

#[test]
fn unreachable_server_is_unavailable_for_every_send() {
    assert!(matches!(chat_reply(Exchange::SendFailed(refused())), Err(GatewayError::Unavailable)));
    assert!(matches!(models_reply(Exchange::SendFailed(refused())), Err(GatewayError::Unavailable)));
    assert!(!probe_result(None));
}

#[test]
fn timeout_is_distinguished() {
    let f = TransportFailure { is_connect: false, is_timeout: true, detail: "timed out".to_string() };
    assert!(matches!(classify_transport(f), GatewayError::TimedOut));
    let g = TransportFailure { is_connect: false, is_timeout: false, detail: "broken pipe".to_string() };
    match classify_transport(g) {
        GatewayError::Transport(d) => assert_eq!(d, "broken pipe"),
        other => panic!("unexpected {:?}", other),
    }
}

#[test]
fn vision_body_is_vision_unsupported() {
    let with = "model llama3 does not support vision".to_string();
    let without = "model llama3 does not support this".to_string();
    assert!(matches!(
        chat_reply(Exchange::Rejected { status: 400, body: with }),
        Err(GatewayError::VisionUnsupported)
    ));
    match chat_reply(Exchange::Rejected { status: 400, body: without }) {
        Err(GatewayError::Http { status, body }) => {
            assert_eq!(status, 400);
            assert_eq!(body, "model llama3 does not support this");
        }
        other => panic!("unexpected {:?}", other),
    }
}

#[test]
fn image_and_multimodal_bodies_are_vision_unsupported() {
    assert!(is_vision_rejection("cannot take an image"));
    assert!(is_vision_rejection("not multimodal"));
    assert!(!is_vision_rejection("internal error"));
    assert!(matches!(classify_rejection(500, "no image input".to_string()), GatewayError::VisionUnsupported));
}

#[test]
fn success_reply_yields_content() {
    let resp = ChatResponse { message: turn("assistant", "Rayleigh scattering.", None), done: true };
    assert_eq!(chat_reply(Exchange::Decoded(resp)).unwrap(), "Rayleigh scattering.");
}

#[test]
fn malformed_reply_is_decode_error() {
    match chat_reply(Exchange::Malformed("missing field `message`".to_string())) {
        Err(GatewayError::Decode(d)) => assert_eq!(d, "missing field `message`"),
        other => panic!("unexpected {:?}", other),
    }
}

#[test]
fn models_listing_outcomes() {
    let model = OllamaModel {
        name: "gemma3:4b".to_string(),
        size: 3338801804,
        digest: "a2af6cc3eb7f".to_string(),
        modified_at: "2025-01-01T00:00:00Z".to_string(),
    };
    let models = models_reply(Exchange::Decoded(ModelsResponse { models: vec![model] })).unwrap();
    assert_eq!(models.len(), 1);
    assert_eq!(models[0].name, "gemma3:4b");
    assert_eq!(models[0].size, 3338801804);
    let vision_body = "vision".to_string();
    assert!(matches!(
        models_reply(Exchange::Rejected { status: 404, body: vision_body }),
        Err(GatewayError::Http { status: 404, .. })
    ));
    let slow = TransportFailure { is_connect: false, is_timeout: true, detail: "slow".to_string() };
    assert!(matches!(models_reply(Exchange::SendFailed(slow)), Err(GatewayError::Transport(_))));
}

#[test]
fn probe_follows_status() {
    assert!(probe_result(Some(200)));
    assert!(probe_result(Some(204)));
    assert!(!probe_result(Some(404)));
    assert!(!probe_result(Some(500)));
    assert!(is_success_status(299));
    assert!(!is_success_status(300));
    assert!(!is_success_status(199));
}

#[test]
fn error_messages() {
    assert_eq!(
        GatewayError::Unavailable.message(),
        "Cannot connect to Ollama server. Please run 'ollama run gemma3:4b' in a terminal."
    );
    assert_eq!(
        GatewayError::TimedOut.message(),
        "Request timed out. The model might be loading or the prompt is too complex."
    );
    assert_eq!(GatewayError::VisionUnsupported.message(), "VISION_NOT_SUPPORTED");
    assert_eq!(GatewayError::Http { status: 503, body: "busy".to_string() }.message(), "HTTP 503 Service Unavailable: busy");
    assert_eq!(GatewayError::Decode("eof".to_string()).message(), "Failed to parse response: eof");
    assert_eq!(GatewayError::Transport("reset".to_string()).message(), "Request failed: reset");
}

#[test]
fn listing_messages() {
    assert_eq!(
        GatewayError::Unavailable.listing_message(),
        "Cannot connect to Ollama server. Please ensure Ollama is running."
    );
    assert_eq!(
        GatewayError::Decode("eof".to_string()).listing_message(),
        "Failed to parse models response: eof"
    );
    assert_eq!(
        GatewayError::Http { status: 404, body: "none".to_string() }.listing_message(),
        "HTTP 404 Not Found: none"
    );
    assert_eq!(
        GatewayError::Http { status: 599, body: "x".to_string() }.message(),
        "HTTP 599 <unknown status code>: x"
    );
}
