use zstore::catalog::CatalogService;
use zstore::markdown::{clean_image_url_given, rewrite_pass_given, ReadmePass};

const README_SAMPLE: &str = r#"
# Demo Project
![Logo](./assets/logo.png)
<p align="center">
  <img src="docs/screenshot.svg" width="200" alt="demo" />
  <picture>
    <source media="(prefers-color-scheme: dark)" srcset="./docs/dark-banner.png" />
    <img src="doc/images/icons/Command Palette.png" alt="Command Palette" />
  </picture>
</p>
[Web Link](https://example.com/blob/main/test.png)
![GitHub Blob](https://github.com/rustdesk/rustdesk/blob/master/res/demo.png)
![External Shield](https://img.shields.io/badge/license-MIT-blue)
![User Uploaded](https://user-images.githubusercontent.com/71636191/171661982-demo.png)
![Attachment](https://github.com/user-attachments/assets/abcd-1234)
[![CI Status][ci-badge]][ci-link]

[ci-badge]: ./docs/ci-badge.svg
[ci-link]: https://github.com/rustdesk/rustdesk/actions
"#;

fn rewrite_cases() {
    let rewritten = CatalogService::rewrite_readme_images(README_SAMPLE, "rustdesk", "rustdesk");
    assert!(rewritten.contains("https://gh-proxy.com/https://raw.githubusercontent.com/rustdesk/rustdesk/HEAD/assets/logo.png"));
    assert!(rewritten.contains("https://gh-proxy.com/https://raw.githubusercontent.com/rustdesk/rustdesk/HEAD/docs/screenshot.svg"));
    assert!(rewritten.contains("https://gh-proxy.com/https://raw.githubusercontent.com/rustdesk/rustdesk/HEAD/doc/images/icons/Command%20Palette.png"));
    assert!(rewritten.contains("srcset=\"https://gh-proxy.com/https://raw.githubusercontent.com/rustdesk/rustdesk/HEAD/docs/dark-banner.png\""));
    assert!(rewritten.contains("[ci-badge]: https://gh-proxy.com/https://raw.githubusercontent.com/rustdesk/rustdesk/HEAD/docs/ci-badge.svg"));
    assert!(rewritten.contains("https://gh-proxy.com/https://raw.githubusercontent.com/rustdesk/rustdesk/master/res/demo.png"));
    assert!(rewritten.contains("https://img.shields.io/badge/license-MIT-blue"));
    assert!(rewritten.contains("https://user-images.githubusercontent.com/71636191/171661982-demo.png"));
    assert!(!rewritten.contains("gh-proxy.com/https://user-images.githubusercontent.com"));
    assert!(rewritten.contains("https://github.com/user-attachments/assets/abcd-1234"));
    assert!(!rewritten.contains("gh-proxy.com/https://github.com/user-attachments/assets"));
}

#[test]
fn github_test_rewrite_readme_images() {
    rewrite_cases();
}

#[test]
fn tests_test_rewrite_readme_images() {
    rewrite_cases();
}

fn logo_cases() {
    let sample = r#"
<p align="center">
  <img src="./assets/logo.png" width="100" alt="RustDesk Logo" />
</p>
# RustDesk
"#;
    let (logo, stripped) = CatalogService::extract_and_strip_logo_from_readme(sample, "rustdesk", "rustdesk");
    assert!(logo.is_some());
    assert!(logo.unwrap().contains("assets/logo.png"));
    assert!(!stripped.contains("assets/logo.png"));
    assert!(stripped.contains("# RustDesk"));
}

#[test]
fn github_test_extract_logo_from_readme() {
    logo_cases();
}

#[test]
fn tests_test_extract_logo_from_readme() {
    logo_cases();
}

#[test]
fn markdown_logo_is_found_and_readme_kept() {
    let sample = "# Tool\n![badge](https://img.shields.io/x.svg)\n![Tool icon](docs/tool.png)\n";
    let (logo, kept) = CatalogService::extract_and_strip_logo_from_readme(sample, "me", "tool");
    assert_eq!(logo.as_deref(), Some("https://gh-proxy.com/https://raw.githubusercontent.com/me/tool/HEAD/docs/tool.png"));
    assert_eq!(kept, sample);
    assert!(CatalogService::extract_logo_from_readme("no images here", "me", "tool").is_none());
}

#[test]
fn image_addresses_are_cleaned() {
    assert_eq!(CatalogService::clean_image_url(" <#top> ", "o", "r"), "#top");
    assert_eq!(
        CatalogService::clean_image_url("https://gh-proxy.com/https://github.com/user-attachments/assets/x", "o", "r"),
        "https://github.com/user-attachments/assets/x"
    );
    assert_eq!(
        CatalogService::clean_image_url("https://raw.githubusercontent.com/o/r/main/a.png", "o", "r"),
        "https://gh-proxy.com/https://raw.githubusercontent.com/o/r/main/a.png"
    );
    assert_eq!(
        CatalogService::clean_image_url("https://github.com/o/r/raw/dev/img/a.png?raw=true", "o", "r"),
        "https://gh-proxy.com/https://raw.githubusercontent.com/o/r/dev/img/a.png"
    );
    assert_eq!(
        CatalogService::clean_image_url_with_mirror("../img/a b.png", "o", "r", ""),
        "https://raw.githubusercontent.com/o/r/HEAD/img/a%20b.png"
    );
    assert_eq!(
        CatalogService::clean_image_url_with_mirror("img/a%20b c.png", "o", "r", "https://m.example"),
        "https://m.example/https://raw.githubusercontent.com/o/r/HEAD/img/a%20b%20c.png"
    );
}

#[test]
fn cleaning_given_pattern_matches() {
    let blob = Some(vec![
        Some("whole".to_string()),
        Some("a".to_string()),
        Some("b".to_string()),
        Some("c".to_string()),
        Some("d/e.png".to_string()),
    ]);
    assert_eq!(
        clean_image_url_given("https://example.org/x", "o", "r", "https://gh-proxy.com/", blob, None),
        "https://gh-proxy.com/https://raw.githubusercontent.com/a/b/c/d/e.png"
    );
    assert_eq!(clean_image_url_given("https://example.org/x", "o", "r", "https://gh-proxy.com/", None, None), "https://example.org/x");
}

#[test]
fn a_pass_given_its_matches() {
    let segments = vec![(
        "before ".to_string(),
        vec![Some("<img src=\"x.png\">".to_string()), Some("".to_string()), Some("x.png".to_string()), Some("".to_string())],
    )];
    let out = rewrite_pass_given(ReadmePass::HtmlImage, &segments, " after", "o", "r");
    assert_eq!(out, "before <img src=\"https://gh-proxy.com/https://raw.githubusercontent.com/o/r/HEAD/x.png\"> after");
}
