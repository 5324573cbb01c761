use base64::Engine;
use nostr_mcp::blossom::{compute_sha256, create_auth_header, guess_content_type};
use nostr_mcp::qr::generate_qr_base64;
use nostr_mcp::uri::{build_connect_uri, percent_encode};

#[test]
fn test_generate_qr_base64() {
    let data = "nostrconnect://abc123?relay=wss://relay.damus.io";
    let result = generate_qr_base64(data);
    assert!(result.is_ok());

    let base64_str = result.unwrap();
    assert!(!base64_str.is_empty());

    let decoded = base64::engine::general_purpose::STANDARD.decode(&base64_str);
    assert!(decoded.is_ok());

    let bytes = decoded.unwrap();
    assert!(bytes.len() > 8);
    assert_eq!(&bytes[0..4], &[0x89, 0x50, 0x4E, 0x47]); // PNG magic number
}

#[test]
fn test_compute_sha256_known_values() {
    assert_eq!(
        compute_sha256(b""),
        "e3b0c44298fc1c149afbf4c8996fb92427ae41e4649b934ca495991b7852b855"
    );
    assert_eq!(
        compute_sha256(b"abc"),
        "ba7816bf8f01cfea414140de5dae2223b00361a396177a9cb410ff61f20015ad"
    );
}

#[test]
fn test_create_auth_header() {
    // base64 of "x" is "eA=="
    assert_eq!(create_auth_header("x"), "Nostr eA==");
    let header = create_auth_header("{\"kind\":24242}");
    assert!(header.starts_with("Nostr "));
    let body = &header["Nostr ".len()..];
    let decoded = base64::engine::general_purpose::STANDARD.decode(body).unwrap();
    assert_eq!(decoded, b"{\"kind\":24242}");
}

#[test]
fn test_guess_content_type() {
    assert_eq!(guess_content_type("photo.JPG"), "image/jpeg");
    assert_eq!(guess_content_type("clip.tar.mp4"), "video/mp4");
    assert_eq!(guess_content_type("song.flac"), "audio/flac");
    assert_eq!(guess_content_type("paper.pdf"), "application/pdf");
    assert_eq!(guess_content_type("archive.zip"), "application/octet-stream");
    assert_eq!(guess_content_type("noextension"), "application/octet-stream");
}

#[test]
fn test_percent_encode() {
    assert_eq!(percent_encode("abc-DEF_0.~"), "abc-DEF_0.~");
    assert_eq!(percent_encode("a b"), "a%20b");
    assert_eq!(percent_encode("wss://x"), "wss%3a%2f%2fx");
}

#[test]
fn test_build_connect_uri_exact() {
    let relays = vec!["wss://r one".to_string()];
    let uri = build_connect_uri("pubkeyhex", &relays, "{\"name\":\"x\"}", "tok", Some("sign_event:1"));
    assert_eq!(
        uri,
        "nostrconnect://pubkeyhex?relay=wss%3a%2f%2fr%20one&metadata=%7b%22name%22%3a%22x%22%7d&secret=tok&perms=sign_event%3a1"
    );
    let uri2 = build_connect_uri("pk", &vec!["a".to_string(), "b".to_string()], "m", "s", None);
    assert_eq!(uri2, "nostrconnect://pk?relay=a&relay=b&metadata=m&secret=s");
}

#[test]
fn test_default_blossom_servers() {
    let servers = nostr_mcp::blossom::default_blossom_servers();
    assert_eq!(servers.len(), 2);
    assert_eq!(servers[0], "https://blossom.primal.net");
}
