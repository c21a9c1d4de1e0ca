use jetson_discord_bot::attachments::{image_mime_for_extension, sanitize_filename};

#[test]
fn sanitize_filename_removes_control_whitespace() {
    assert_eq!(sanitize_filename("hello\nworld.rs"), "hello world.rs");
}

#[test]
fn image_extension_detection_is_case_normalized_by_caller() {
    assert_eq!(image_mime_for_extension("png"), Some("image/png"));
    assert_eq!(image_mime_for_extension("jpeg"), Some("image/jpeg"));
    assert_eq!(image_mime_for_extension("txt"), None);
}

use jetson_discord_bot::attachments::{
    attachment_kind, attachment_type, AttachmentDownloader, AttachmentInfo,
    AttachmentKind, AttachmentType, DownloadOutcome, SkipReason,
};

fn info(filename: &str, content_type: Option<&str>, size: u64) -> AttachmentInfo {
    AttachmentInfo {
        filename: filename.to_string(),
        content_type: content_type.map(str::to_string),
        size,
    }
}

fn downloader() -> AttachmentDownloader {
    AttachmentDownloader { enabled: true, max_bytes: 100, max_images: 1, max_text_chars: 3 }
}

#[test]
fn attachment_kinds_by_type_then_extension() {
    assert!(matches!(
        attachment_kind(Some("Image/PNG; charset=x"), "a.bin"),
        Some(AttachmentKind::Image(m)) if m == "image/png"
    ));
    assert!(matches!(attachment_kind(Some("text/csv"), "a.bin"), Some(AttachmentKind::Text)));
    assert!(matches!(
        attachment_kind(None, "photo.JPG"),
        Some(AttachmentKind::Image(m)) if m == "image/jpeg"
    ));
    assert!(matches!(attachment_kind(None, "main.RS"), Some(AttachmentKind::Text)));
    assert!(attachment_kind(Some("application/pdf"), "doc.pdf").is_none());
    assert!(attachment_kind(None, "README").is_none());
    assert_eq!(attachment_type(None, "x.webp"), AttachmentType::Image);
    assert_eq!(attachment_type(None, "x.yaml"), AttachmentType::Document);
    assert_eq!(attachment_type(Some("image/gif"), "x.gif"), AttachmentType::Unsupported);
}

#[test]
fn plan_refuses_unsupported_large_and_extra_images() {
    let d = downloader();
    assert_eq!(d.plan(0, &info("a.exe", None, 1)).err(), Some(SkipReason::UnsupportedType));
    assert_eq!(d.plan(0, &info("a.png", None, 101)).err(), Some(SkipReason::TooLarge));
    assert_eq!(d.plan(1, &info("a.png", None, 10)).err(), Some(SkipReason::ImageLimitReached));
    assert!(matches!(d.plan(1, &info("a.txt", None, 10)), Ok(AttachmentKind::Text)));
    assert!(d.should_collect(2));
    assert!(!d.should_collect(0));
    assert_eq!(SkipReason::DownloadFailed.text(), "download failed");
}

#[test]
fn images_are_encoded_in_base64() {
    let d = downloader();
    let mut c = d.start();
    c.record(
        &info("a.png", None, 5),
        &AttachmentKind::Image("image/png".to_string()),
        DownloadOutcome::Bytes(b"hello".to_vec()),
    );
    assert_eq!(c.context.images.len(), 1);
    assert_eq!(c.context.images[0].data_base64, "aGVsbG8=");
    assert_eq!(c.context.images[0].mime, "image/png");
    assert_eq!(c.context.accepted_count(), 1);
}

#[test]
fn text_shares_one_budget() {
    let d = downloader();
    let mut c = d.start();
    c.record(&info("notes.txt", None, 5), &AttachmentKind::Text, DownloadOutcome::Bytes(b"hello".to_vec()));
    assert_eq!(
        c.context.text_blocks[0],
        "[Attached file: notes.txt]\n\n```text\nhel\n[Attachment text truncated]\n```"
    );
    assert_eq!(c.remaining_text_chars, 0);
    c.record(&info("b.txt", None, 1), &AttachmentKind::Text, DownloadOutcome::Bytes(b"b".to_vec()));
    c.record(&info("c.txt", None, 1), &AttachmentKind::Text, DownloadOutcome::Failed);
    c.record(&info("d.png", None, 1), &AttachmentKind::Text, DownloadOutcome::TooLarge);
    assert_eq!(
        c.context.skipped,
        vec![
            "b.txt: text limit reached".to_string(),
            "c.txt: download failed".to_string(),
            "d.png: too large".to_string(),
        ]
    );
    let mut prompt = "Q".to_string();
    c.context.append_text_to(&mut prompt);
    assert!(prompt.starts_with("Q\n\n[Attached file: notes.txt]"));
}

#[test]
fn fences_in_text_are_defused() {
    let d = AttachmentDownloader { enabled: true, max_bytes: 100, max_images: 1, max_text_chars: 100 };
    let mut c = d.start();
    c.record(&info("a.md", None, 7), &AttachmentKind::Text, DownloadOutcome::Bytes(b"```x```".to_vec()));
    assert_eq!(
        c.context.text_blocks[0],
        "[Attached file: a.md]\n\n```text\n`` `x`` `\n```"
    );
    assert_eq!(c.remaining_text_chars, 93);
}

#[test]
fn invalid_utf8_is_replaced() {
    let d = AttachmentDownloader { enabled: true, max_bytes: 100, max_images: 1, max_text_chars: 100 };
    let mut c = d.start();
    c.record(&info("a.txt", None, 3), &AttachmentKind::Text, DownloadOutcome::Bytes(vec![0x61, 0xff, 0x62]));
    c.record(&info("b.txt", None, 2), &AttachmentKind::Text, DownloadOutcome::Bytes(b"ok".to_vec()));
    assert_eq!(c.context.text_blocks[0], "[Attached file: a.txt]\n\n```text\na\u{FFFD}b\n```");
    assert_eq!(c.context.text_blocks[1], "[Attached file: b.txt]\n\n```text\nok\n```");
    assert_eq!(c.remaining_text_chars, 95);
}
