use segmented_encoder::echo::{echo_request, EchoService};
use segmented_encoder::static_files::{content_type, content_type_or_text};

#[test]
fn content_type_follows_the_extension() {
    assert_eq!(content_type("/index.html"), "text/html");
    assert_eq!(content_type("/css/style.css"), "text/css");
    assert_eq!(content_type("/app.js"), "text/javascript");
    assert_eq!(content_type("/image.png"), "image/png");
}

#[test]
fn content_type_defaults_to_plain_text() {
    assert_eq!(content_type("/README"), "text/plain");
    assert_eq!(content_type("/.hidden"), "text/plain");
    assert_eq!(content_type("/file.unknownext"), "text/plain");
    assert_eq!(content_type("/"), "text/plain");
}

#[test]
fn guess_or_plain_text() {
    assert_eq!(content_type_or_text(Some("video/webm".to_string())), "video/webm");
    assert_eq!(content_type_or_text(None), "text/plain");
}

#[test]
fn echo_announces_the_message() {
    let service = EchoService::new();
    assert_eq!(service.reply("hello"), "Server got: hello");
    assert_eq!(service.reply(""), "Server got: ");
}

#[test]
fn echo_requests_are_numbered() {
    assert_eq!(echo_request(0), "echo seq 0");
    assert_eq!(echo_request(42), "echo seq 42");
    assert_eq!(echo_request(u64::MAX), format!("echo seq {}", u64::MAX));
}
