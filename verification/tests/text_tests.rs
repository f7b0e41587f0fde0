use modelsocket::text::{concat_str, decimal_string, join};
use modelsocket::transport::{handshake_headers, handshake_request, status_text, upgrade_status};
use modelsocket::{collect_text, collect_text_and_tokens, GenChunk, ModelSocketError};

fn chunk(text: &str, hidden: bool, tokens: Option<Vec<u32>>) -> GenChunk {
    GenChunk { text: text.to_string(), hidden, tokens }
}

#[test]
fn generated_text_skips_hidden_chunks() {
    let chunks = vec![
        chunk("<think>", true, Some(vec![1])),
        chunk("Hello", false, Some(vec![2, 3])),
        chunk(", world", false, None),
        chunk("!", false, Some(vec![4])),
    ];
    assert_eq!(collect_text(&chunks), "Hello, world!");
    let (text, tokens) = collect_text_and_tokens(&chunks);
    assert_eq!(text, "Hello, world!");
    assert_eq!(tokens, vec![2, 3, 4]);
    assert_eq!(collect_text(&vec![]), "");
}

#[test]
fn string_helpers() {
    assert_eq!(concat_str("ab", "cd"), "abcd");
    assert_eq!(decimal_string(0), "0");
    assert_eq!(decimal_string(1), "1");
    assert_eq!(decimal_string(1234567890), "1234567890");
    let parts = vec!["a".to_string(), "b".to_string(), "c".to_string()];
    assert_eq!(join(&parts, ", "), "a, b, c");
    assert_eq!(join(&vec![], ", "), "");
}

#[test]
fn upgrade_request_headers() {
    let h = handshake_headers("localhost", "a2V5a2V5a2V5a2V5a2V5aw==".to_string(), Some("secret"));
    let pairs: Vec<(&str, &str)> = h.iter().map(|(n, v)| (n.as_str(), v.as_str())).collect();
    assert_eq!(
        pairs,
        vec![
            ("Sec-WebSocket-Key", "a2V5a2V5a2V5a2V5a2V5aw=="),
            ("host", "localhost"),
            ("upgrade", "websocket"),
            ("connection", "upgrade"),
            ("sec-websocket-version", "13"),
            ("Authorization", "Bearer secret"),
        ]
    );
    assert_eq!(handshake_headers("h", "k".to_string(), None).len(), 5);
}

#[test]
fn upgrade_request_for_url() {
    let h = handshake_request("ws://models.example.com:8080/ws", None).expect("host");
    assert_eq!(h[1].1, "models.example.com");
    assert_eq!(h[0].1.len(), 24);
    assert!(handshake_request("/just/a/path", None).is_none());
}

#[test]
fn upgrade_status_names_the_status() {
    assert!(upgrade_status(101).is_ok());
    assert_eq!(status_text(101), "101 Switching Protocols");
    match upgrade_status(404) {
        Err(ModelSocketError::Protocol(m)) => {
            assert_eq!(m, "WebSocket upgrade failed with status: 404 Not Found")
        }
        other => panic!("unexpected {other:?}"),
    }
    assert_eq!(status_text(599), "599 <unknown status code>");
}
