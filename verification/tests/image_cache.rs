use ntfier::services::image_cache::{
    accepts_image, cache_filename_for, extension_for, extract_first_image_from_markdown,
    get_cache_filename, image_candidates, orientation_of, ImageOrientation,
};
use ntfier::models::Attachment;

#[test]
fn test_extract_image_from_markdown() {
    let markdown = "Hello ![alt text](https://example.com/image.png) world";
    let url = extract_first_image_from_markdown(markdown);
    assert_eq!(url, Some("https://example.com/image.png".to_string()));
}

#[test]
fn test_extract_image_no_image() {
    let markdown = "Hello world, no images here";
    let url = extract_first_image_from_markdown(markdown);
    assert_eq!(url, None);
}

#[test]
fn test_extract_first_image_multiple() {
    let markdown = "![first](https://a.com/1.png) and ![second](https://b.com/2.png)";
    let url = extract_first_image_from_markdown(markdown);
    assert_eq!(url, Some("https://a.com/1.png".to_string()));
}

#[test]
fn test_cache_filename() {
    let url = "https://example.com/path/to/image.jpg";
    let filename = get_cache_filename(url);
    assert!(filename.ends_with(".jpg"));

    let url2 = "https://example.com/image.png?query=1";
    let filename2 = get_cache_filename(url2);
    // Should still work, though extension might not be perfect
    assert!(!filename2.is_empty());
}

#[test]
fn cache_filename_is_hash_dot_extension() {
    assert_eq!(cache_filename_for(255, "https://example.com/a.gif"), "ff.gif");
    assert_eq!(cache_filename_for(0, "https://example.com/a"), "0.png");
    assert_eq!(cache_filename_for(0x1a2b, "https://example.com/a.webp"), "1a2b.webp");
    assert_eq!(cache_filename_for(u64::MAX, "x.bmp"), "ffffffffffffffff.bmp");
}

#[test]
fn cache_filename_differs_between_addresses() {
    let a = get_cache_filename("https://example.com/one.png");
    let b = get_cache_filename("https://example.com/two.png");
    assert_ne!(a, b);
    assert_eq!(a, get_cache_filename("https://example.com/one.png"));
    assert_ne!(a, "https://example.com/one.png");
}

#[test]
fn extension_keeps_case_and_falls_back_to_png() {
    assert_eq!(extension_for("https://example.com/path/to/image.jpg"), "jpg");
    assert_eq!(extension_for("https://example.com/image.JPEG"), "JPEG");
    assert_eq!(extension_for("https://example.com/image.png?query=1"), "png");
    assert_eq!(extension_for("https://example.com/image.tiff"), "png");
    assert_eq!(extension_for("https://example.com/v1.2/image"), "png");
    assert_eq!(extension_for("https://example.com/dir.gif/image"), "png");
    assert_eq!(extension_for(""), "png");
    assert_eq!(extension_for("webp"), "webp");
}

#[test]
fn orientation_is_portrait_only_when_higher_than_wide() {
    assert_eq!(orientation_of(100, 200), ImageOrientation::Portrait);
    assert_eq!(orientation_of(200, 100), ImageOrientation::Landscape);
    assert_eq!(orientation_of(100, 100), ImageOrientation::Landscape);
}

#[test]
fn image_is_kept_up_to_ten_megabytes_and_only_with_image_type() {
    assert!(accepts_image(Some("image/png"), 10 * 1024 * 1024));
    assert!(!accepts_image(Some("image/png"), 10 * 1024 * 1024 + 1));
    assert!(!accepts_image(Some("text/html"), 10));
    assert!(accepts_image(None, 10));
}

fn attachment_for_candidates(kind: &str, url: &str) -> Attachment {
    Attachment {
        id: "a".to_string(),
        name: "n".to_string(),
        attachment_type: kind.to_string(),
        url: url.to_string(),
        size: None,
    }
}

#[test]
fn attached_image_comes_before_image_of_the_message() {
    let attachments = vec![
        attachment_for_candidates("application/pdf", "https://x/doc.pdf"),
        attachment_for_candidates("image/png", "https://x/pic.png"),
        attachment_for_candidates("image/jpeg", "https://x/other.jpg"),
    ];
    let got = image_candidates(&attachments, "see ![p](https://y/z.gif)");
    assert_eq!(got, vec!["https://x/pic.png".to_string(), "https://y/z.gif".to_string()]);
    let none: Vec<String> = Vec::new();
    assert_eq!(image_candidates(&Vec::new(), "no image"), none);
}
