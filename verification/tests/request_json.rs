use lyra_client::model::Model;
use lyra_client::request::{request_headers, request_uri, Request, RequestMessage};
use lyra_client::role::Role;

fn ping_request() -> Request {
    Request {
        model: Model::Lyra3Altair,
        messages: vec![RequestMessage {
            role: Role::User,
            content: "Ping".to_string(),
        }],
        stream: true,
        system: "Respond to ping with pong".to_string(),
        max_tokens: 4096,
    }
}

#[test]
fn request_serializes_to_exact_wire_json() {
    let json = ping_request().to_json();
    assert_eq!(
        json,
        "{\"model\":\"lyra-3-altair-20240229\",\"messages\":[{\"role\":\"user\",\"content\":\"Ping\"}],\"stream\":true,\"system\":\"Respond to ping with pong\",\"max_tokens\":4096}"
    );
}

#[test]
fn request_model_is_reduced_to_its_wire_id() {
    let request = Request {
        model: Model::Custom {
            name: "my-model".to_string(),
            max_tokens: Some(1000),
        },
        messages: vec![],
        stream: false,
        system: String::new(),
        max_tokens: 1,
    };
    let json = request.to_json();
    assert_eq!(
        json,
        "{\"model\":\"my-model\",\"messages\":[],\"stream\":false,\"system\":\"\",\"max_tokens\":1}"
    );
}

#[test]
fn multiple_messages_keep_conversation_order() {
    let request = Request {
        model: Model::Lyra3Corvus,
        messages: vec![
            RequestMessage {
                role: Role::User,
                content: "a".to_string(),
            },
            RequestMessage {
                role: Role::Assistant,
                content: "b".to_string(),
            },
            RequestMessage {
                role: Role::User,
                content: "c".to_string(),
            },
        ],
        stream: true,
        system: "s".to_string(),
        max_tokens: 7,
    };
    let json = request.to_json();
    assert_eq!(
        json,
        "{\"model\":\"lyra-3-corvus-20240307\",\"messages\":[{\"role\":\"user\",\"content\":\"a\"},{\"role\":\"assistant\",\"content\":\"b\"},{\"role\":\"user\",\"content\":\"c\"}],\"stream\":true,\"system\":\"s\",\"max_tokens\":7}"
    );
}

#[test]
fn message_text_is_escaped() {
    let request = Request {
        model: Model::Lyra3Altair,
        messages: vec![RequestMessage {
            role: Role::User,
            content: "say \"hi\"\\\n\u{1}".to_string(),
        }],
        stream: false,
        system: "tab\there".to_string(),
        max_tokens: 10,
    };
    let json = request.to_json();
    assert_eq!(
        json,
        "{\"model\":\"lyra-3-altair-20240229\",\"messages\":[{\"role\":\"user\",\"content\":\"say \\\"hi\\\"\\\\\\n\\u0001\"}],\"stream\":false,\"system\":\"tab\\there\",\"max_tokens\":10}"
    );
}

#[test]
fn uri_and_headers() {
    assert_eq!(
        request_uri("https://api.lyra.example"),
        "https://api.lyra.example/v1/messages"
    );
    let headers = request_headers("SECRET-REDACTED");
    assert_eq!(headers.len(), 4);
    assert_eq!(headers[0].0, "Lyra-Version");
    assert_eq!(headers[0].1, "2023-06-01");
    assert_eq!(headers[1].0, "Lyra-Beta");
    assert_eq!(headers[1].1, "tools-2024-04-04");
    assert_eq!(headers[2].0, "X-Api-Key");
    assert_eq!(headers[2].1, "SECRET-REDACTED");
    assert_eq!(headers[3].0, "Content-Type");
    assert_eq!(headers[3].1, "application/json");
}
