use zstore::icons::{base64_encode, detect_image_mime, get_icon_cache_path, icon_hash_filename, is_avatar_url, sanitize_icon_segment};

fn icon_cases() {
    assert_eq!(base64_encode(b""), "");
    assert_eq!(base64_encode(b"f"), "Zg==");
    assert_eq!(base64_encode(b"fo"), "Zm8=");
    assert_eq!(base64_encode(b"foo"), "Zm9v");

    assert_eq!(detect_image_mime(b"\x89PNG\r\n\x1a\n123"), "image/png");
    assert_eq!(detect_image_mime(b"GIF89a..."), "image/gif");
    assert_eq!(detect_image_mime(&[0xff, 0xd8, 0xff, 0x00]), "image/jpeg");
    assert_eq!(detect_image_mime(b"<svg xmlns=..."), "image/svg+xml");

    let dir = "/tmp/zstore-data";
    let p1 = get_icon_cache_path(dir, Some("rustdesk"), Some("rustdesk"), Some("rustdesk"), "https://github.com/rustdesk.png");
    assert!(p1.ends_with("rustdesk_rustdesk.png"));

    let p2 = get_icon_cache_path(dir, Some("microsoft"), Some("terminal"), None, "https://github.com/microsoft.png");
    assert!(p2.ends_with("microsoft_terminal.png"));

    let p3 = get_icon_cache_path(dir, None, None, Some("alacritty/alacritty"), "https://github.com/alacritty.png");
    assert!(p3.ends_with("alacritty_alacritty.png"));

    let p4 = get_icon_cache_path(dir, None, None, Some("localsend"), "https://github.com/localsend.png");
    assert!(p4.ends_with("localsend.png"));
}

#[test]
fn commands_test_base64_encode_and_icon_cache_path() {
    icon_cases();
}

#[test]
fn tests_test_base64_encode_and_icon_cache_path() {
    icon_cases();
}

#[test]
fn icon_cache_path_is_under_icons_directory() {
    let p = get_icon_cache_path("/data", Some("a"), Some("b"), None, "https://x/y.png");
    assert_eq!(p, "/data/icons/a_b.png");
}

#[test]
fn base64_of_longer_input() {
    assert_eq!(base64_encode(b"foobar"), "Zm9vYmFy");
    assert_eq!(base64_encode(b"fooba"), "Zm9vYmE=");
    assert_eq!(base64_encode(&[0xff, 0xfe]), "//4=");
}

#[test]
fn mime_of_unknown_and_webp() {
    assert_eq!(detect_image_mime(b"RIFF\x00\x00\x00\x00WEBPVP8 "), "image/webp");
    assert_eq!(detect_image_mime(b"  <svg"), "image/svg+xml");
}

#[test]
fn icon_segment_and_avatar() {
    assert_eq!(sanitize_icon_segment("a/b c"), "abc");
    assert!(is_avatar_url("https://github.com/rustdesk.png"));
    assert!(!is_avatar_url("https://example.com/logo.png"));
    assert_eq!(icon_hash_filename("https://example.com/logo.png").len(), 20);
}

#[test]
fn cleaned_segments_are_stable() {
    for s in ["Rust Desk/äpp-1_2!", "", "plain", "../etc/passwd"] {
        let once = sanitize_icon_segment(s);
        assert_eq!(sanitize_icon_segment(&once), once);
        let mut rest = s.chars();
        assert!(once.chars().all(|c| rest.any(|d| d == c)));
    }
}

#[test]
fn base64_of_every_byte_value() {
    let all: Vec<u8> = (0..=255u8).collect();
    let text = base64_encode(&all);
    assert_eq!(text.len(), 4 * ((all.len() + 2) / 3));
    assert!(text.starts_with("AAECAwQFBgcICQoLDA0ODxAREhMUFRYXGBkaGxwdHh8gISIjJCUmJygpKissLS4v"));
    assert!(text.ends_with("+/w=="));
}
