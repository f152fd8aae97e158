use holon_http::control::check_decoded_attachment;
use base64::Engine;
use holon_http::control::{
    agent_home_workspace_id, append_attachment_separator, append_control_prompt_attachment_link,
    control_prompt_attachment_file_name, decode_control_prompt_attachment,
    file_extension_for_attachment, file_extension_for_media_type, image_extension_for_media_type,
    markdown_alt_text, prepare_control_prompt_attachment, safe_media_extension, safe_media_stem,
    MAX_CONTROL_PROMPT_IMAGE_ATTACHMENT_BYTES,
};
use holon_http::types::{
    ControlPromptAttachment, ControlPromptFileAttachment, ControlPromptImageAttachment,
};

fn encoded(bytes: &[u8]) -> String {
    base64::engine::general_purpose::STANDARD.encode(bytes)
}

/// The prompt text and stored file names for `attachments`, with every
/// upload stamped `ts` (the steps the server runs around its file writes).
fn prompt_text(
    agent_id: &str,
    text: &str,
    attachments: &[ControlPromptAttachment],
    ts: &str,
) -> Result<(String, Vec<(String, Vec<u8>)>), String> {
    let mut out = text.to_string();
    let mut files = Vec::new();
    for (index, attachment) in attachments.iter().enumerate() {
        let position = index + 1;
        let (bytes, extension) = prepare_control_prompt_attachment(position, attachment)?;
        let (image, name) = match attachment {
            ControlPromptAttachment::Image(a) => (true, a.name.as_deref()),
            ControlPromptAttachment::File(a) => (false, a.name.as_deref()),
        };
        let label = if image { "image" } else { "file" };
        let file_name = control_prompt_attachment_file_name(ts, label, position, name, &extension);
        append_control_prompt_attachment_link(&mut out, image, position, name, agent_id, &file_name);
        files.push((file_name, bytes));
    }
    Ok((out, files))
}

fn percent_encode_path_segment(segment: &str) -> String {
    percent_encoding::utf8_percent_encode(segment, percent_encoding::NON_ALPHANUMERIC).to_string()
}

fn file(name: &str, media_type: &str, data: &[u8]) -> ControlPromptAttachment {
    ControlPromptAttachment::File(ControlPromptFileAttachment {
        name: Some(name.into()),
        media_type: media_type.into(),
        data_base64: encoded(data),
    })
}

#[test]
fn image_attachment_still_generates_markdown_preview() {
    let attachments = vec![ControlPromptAttachment::Image(ControlPromptImageAttachment {
        name: Some("diagram.png".into()),
        media_type: "image/png".into(),
        data_base64: encoded(b"png"),
    })];
    let (text, files) =
        prompt_text("agent-one", "look", &attachments, "20250101T000000000Z").unwrap();
    assert_eq!(files.len(), 1);
    assert!(files[0].0.ends_with("-diagram.png"));
    assert!(text.contains("look\n\n![diagram.png](workspace://agent_home:agent-one/media/inbox/"));
    assert!(text.contains(&percent_encode_path_segment(&files[0].0)));
}

#[test]
fn file_attachment_generates_plain_workspace_link_and_file() {
    let attachments = vec![file("report.pdf", "application/pdf", b"%PDF-1.7")];
    let (text, files) =
        prompt_text("agent-one", "read this", &attachments, "20250101T000000000Z").unwrap();
    assert_eq!(files.len(), 1);
    assert!(files[0].0.ends_with("-report.pdf"));
    assert_eq!(files[0].1, b"%PDF-1.7");
    assert!(text.contains("read this\n\n[report.pdf](workspace://agent_home:agent-one/media/inbox/"));
    assert!(!text.contains("![report.pdf]"));
}

#[test]
fn file_attachment_infers_extension_from_media_type_or_uses_bin() {
    assert_eq!(
        file_extension_for_attachment(Some("README"), "text/markdown; charset=utf-8"),
        "md"
    );
    assert_eq!(
        file_extension_for_attachment(Some("blob"), "application/octet-stream"),
        "bin"
    );
    assert_eq!(
        file_extension_for_attachment(Some("../../src/main.rs"), "text/plain"),
        "rs"
    );
}

#[test]
fn file_attachment_rejects_empty_content() {
    let attachments = vec![file("empty.txt", "text/plain", b"")];
    let error = prompt_text("agent-one", "", &attachments, "20250101T000000000Z").unwrap_err();
    assert!(error.contains("file attachment 1 is empty"));
}

#[test]
fn dangerous_file_names_stay_inside_inbox() {
    let attachments = vec![file("../../secret[name].md", "text/markdown", b"# secret")];
    let (_, files) = prompt_text("agent-one", "", &attachments, "20250101T000000000Z").unwrap();
    assert_eq!(files.len(), 1);
    assert!(files[0].0.ends_with("-secret-name.md"));
    assert!(!files[0].0.contains('/'));
}

#[test]
fn stored_file_name_layout() {
    assert_eq!(
        control_prompt_attachment_file_name("20250102T030405006Z", "file", 3, Some("My Report.PDF"), "pdf"),
        "20250102T030405006Z-3-My-Report.pdf"
    );
    assert_eq!(
        control_prompt_attachment_file_name("T", "image", 1, None, "png"),
        "T-1-image.png"
    );
    assert_eq!(
        control_prompt_attachment_file_name("T", "file", 2, Some("---"), "bin"),
        "T-2-file.bin"
    );
}

#[test]
fn stems_and_extensions() {
    assert_eq!(safe_media_stem(Some("a/b\\c.d.txt")).as_deref(), Some("c-d"));
    assert_eq!(safe_media_stem(Some("--x--")).as_deref(), Some("x"));
    assert_eq!(safe_media_stem(Some("")), None);
    assert_eq!(safe_media_stem(None), None);
    let long = "a".repeat(60);
    assert_eq!(safe_media_stem(Some(&long)).unwrap().len(), 48);
    assert_eq!(safe_media_extension(Some("x.TXT")).as_deref(), Some("TXT"));
    assert_eq!(safe_media_extension(Some("x.t-t")), None);
    assert_eq!(safe_media_extension(Some("x.")), None);
    assert_eq!(safe_media_extension(Some("x.abcdefghijklmnopq")), None);
    assert_eq!(safe_media_extension(Some("noext")), None);
    assert_eq!(file_extension_for_attachment(Some("Photo.JPEG"), "image/jpeg"), "jpeg");
    assert_eq!(file_extension_for_attachment(None, "application/json"), "json");
}

#[test]
fn media_type_tables() {
    assert_eq!(image_extension_for_media_type("image/jpg"), Some("jpg"));
    assert_eq!(image_extension_for_media_type("image/webp"), Some("webp"));
    assert_eq!(image_extension_for_media_type("image/svg+xml"), None);
    assert_eq!(file_extension_for_media_type("  text/csv ; x=y"), Some("csv"));
    assert_eq!(file_extension_for_media_type("application/gzip"), Some("gz"));
    assert_eq!(file_extension_for_media_type("text/unknown"), None);
}

#[test]
fn alt_text_and_separator() {
    assert_eq!(markdown_alt_text(Some(" [a](b)\n ")).as_deref(), Some("ab"));
    assert_eq!(markdown_alt_text(Some("[]()")), None);
    assert_eq!(markdown_alt_text(None), None);
    let mut t = String::from("x");
    append_attachment_separator(&mut t);
    assert_eq!(t, "x\n");
    append_attachment_separator(&mut t);
    assert_eq!(t, "x\n");
    let mut e = String::new();
    append_attachment_separator(&mut e);
    assert_eq!(e, "");
    assert_eq!(agent_home_workspace_id("a1"), "agent_home:a1");
}

#[test]
fn link_falls_back_to_label_and_position() {
    let mut t = String::new();
    append_control_prompt_attachment_link(&mut t, false, 2, Some("()"), "ag", "f 1.txt");
    assert_eq!(t, "\n[file 2](workspace://agent_home:ag/media/inbox/f%201%2Etxt)");
    let mut t = String::from("hi");
    append_control_prompt_attachment_link(&mut t, true, 1, None, "ag", "a.png");
    assert_eq!(t, "hi\n\n![image 1](workspace://agent_home:ag/media/inbox/a%2Epng)");
}

#[test]
fn decode_errors() {
    assert_eq!(
        decode_control_prompt_attachment("image", 2, "not base64!", 10).unwrap_err(),
        "decode image attachment 2"
    );
    assert_eq!(
        decode_control_prompt_attachment("file", 1, &encoded(b"abcdef"), 5).unwrap_err(),
        "file attachment 1 exceeds 5 bytes"
    );
    assert_eq!(
        decode_control_prompt_attachment("file", 1, &encoded(b"abcde"), 5).unwrap(),
        b"abcde"
    );
    let image = ControlPromptAttachment::Image(ControlPromptImageAttachment {
        name: None,
        media_type: "image/tiff".into(),
        data_base64: encoded(b"x"),
    });
    assert_eq!(
        prepare_control_prompt_attachment(1, &image).unwrap_err(),
        "unsupported image media type: image/tiff"
    );
}

#[test]
fn oversized_image_is_rejected() {
    let big = vec![0u8; MAX_CONTROL_PROMPT_IMAGE_ATTACHMENT_BYTES as usize + 1];
    let image = ControlPromptAttachment::Image(ControlPromptImageAttachment {
        name: None,
        media_type: "image/png".into(),
        data_base64: encoded(&big),
    });
    assert_eq!(
        prepare_control_prompt_attachment(3, &image).unwrap_err(),
        "image attachment 3 exceeds 20971520 bytes"
    );
}

#[test]
fn decoded_attachment_content_is_checked() {
    assert_eq!(check_decoded_attachment("file", 1, Some(vec![]), 10).unwrap_err(), "file attachment 1 is empty");
    assert_eq!(
        check_decoded_attachment("image", 2, Some(vec![0; 11]), 10).unwrap_err(),
        "image attachment 2 exceeds 10 bytes"
    );
    assert_eq!(check_decoded_attachment("file", 3, None, 10).unwrap_err(), "decode file attachment 3");
    assert_eq!(check_decoded_attachment("file", 1, Some(vec![1, 2]), 10).unwrap(), vec![1, 2]);
}
