use nostr_mcp::content::{
    classify_url, extract_media, extract_hashtags, extract_nostr_references, parse_content,
    MediaType,
};

#[test]
fn test_extract_media_images() {
    let content = "Check this out https://example.com/photo.jpg and https://example.com/pic.png";
    let media = extract_media(content);
    assert_eq!(media.images.len(), 2);
    assert!(media.images[0].contains("photo.jpg"));
    assert!(media.images[1].contains("pic.png"));
    assert!(media.videos.is_empty());
    assert!(media.audios.is_empty());
}

#[test]
fn test_extract_media_videos() {
    let content = "Watch: https://example.com/video.mp4";
    let media = extract_media(content);
    assert_eq!(media.videos.len(), 1);
    assert!(media.images.is_empty());
}

#[test]
fn test_extract_media_audios() {
    let content = "Listen: https://example.com/song.mp3 and https://example.com/track.ogg";
    let media = extract_media(content);
    assert_eq!(media.audios.len(), 2);
}

#[test]
fn test_extract_media_with_query_params() {
    let content = "https://example.com/image.jpg?width=800&height=600";
    let media = extract_media(content);
    assert_eq!(media.images.len(), 1);
}

#[test]
fn test_extract_media_mixed() {
    let content = "photo https://a.com/img.webp video https://b.com/clip.webm audio https://c.com/song.flac";
    let media = extract_media(content);
    assert_eq!(media.images.len(), 1);
    assert_eq!(media.videos.len(), 1);
    assert_eq!(media.audios.len(), 1);
}

#[test]
fn test_extract_media_no_media() {
    let content = "Just a regular text note with no media";
    let media = extract_media(content);
    assert!(media.is_empty());
}

#[test]
fn test_extract_media_url_without_media_extension() {
    let content = "Visit https://example.com/page and https://nostr.com";
    let media = extract_media(content);
    assert!(media.is_empty());
}

#[test]
fn test_extract_hashtags() {
    let content = "Hello #nostr #bitcoin world";
    let tags = extract_hashtags(content);
    assert_eq!(tags, vec!["bitcoin", "nostr"]);
}

#[test]
fn test_extract_hashtags_japanese() {
    let content = "#日本語 のハッシュタグ #テスト";
    let tags = extract_hashtags(content);
    assert!(tags.contains(&"テスト".to_string()));
    assert!(tags.contains(&"日本語".to_string()));
}

#[test]
fn test_extract_hashtags_no_duplicates() {
    let content = "#nostr is great #nostr forever";
    let tags = extract_hashtags(content);
    assert_eq!(tags.len(), 1);
    assert_eq!(tags[0], "nostr");
}

#[test]
fn test_extract_hashtags_no_match_in_url() {
    let content = "https://example.com/#section is not a hashtag";
    let tags = extract_hashtags(content);
    assert!(tags.is_empty());
}

#[test]
fn test_extract_nostr_references_npub() {
    let content = "Follow nostr:npub1abc123def456 for updates";
    let refs = extract_nostr_references(content);
    assert_eq!(refs.len(), 1);
    assert_eq!(refs[0].ref_type, "npub");
    assert_eq!(refs[0].bech32, "npub1abc123def456");
}

#[test]
fn test_extract_nostr_references_note() {
    let content = "Check nostr:note1xyz789 out";
    let refs = extract_nostr_references(content);
    assert_eq!(refs.len(), 1);
    assert_eq!(refs[0].ref_type, "note");
}

#[test]
fn test_extract_nostr_references_multiple() {
    let content = "From nostr:npub1abc to nostr:nevent1def about nostr:note1ghi";
    let refs = extract_nostr_references(content);
    assert_eq!(refs.len(), 3);
}

#[test]
fn test_extract_nostr_references_naddr() {
    let content = "Article at nostr:naddr1abc123";
    let refs = extract_nostr_references(content);
    assert_eq!(refs.len(), 1);
    assert_eq!(refs[0].ref_type, "naddr");
}

#[test]
fn test_parse_content_comprehensive() {
    let content = "Hello #nostr! Check nostr:npub1abc123 and https://example.com/photo.jpg";
    let parsed = parse_content(content);
    assert!(!parsed.hashtags.is_empty());
    assert!(!parsed.references.is_empty());
    assert!(!parsed.media.is_empty());
}

#[test]
fn test_parse_content_empty() {
    let content = "Just plain text";
    let parsed = parse_content(content);
    assert!(parsed.is_empty());
}

#[test]
fn test_classify_url_kinds() {
    assert_eq!(classify_url("https://a.com/x.JPG"), Some(MediaType::Image));
    assert_eq!(classify_url("https://a.com/x.webm"), Some(MediaType::Video));
    assert_eq!(classify_url("https://a.com/x.m4a?dl=1"), Some(MediaType::Audio));
    assert_eq!(classify_url("https://a.com/x.txt"), None);
}
