//! The message parser and the attachment bridge.

use starboard_core::embedder::{
    attachments_for_upload, AttachmentHandle, CachedMessage, EmbedArtifact, ParsedMessage,
    SourceAttachment, SourceEmbed, SourceSticker, StickerFormat, VecAttachments,
};

fn image_attachment(n: u32) -> SourceAttachment {
    SourceAttachment {
        filename: format!("image{n}.png"),
        content_type: Some("image/png".to_string()),
        url: format!("https://cdn.example/image{n}.png"),
        proxy_url: format!("https://proxy.example/image{n}.png"),
    }
}

fn text_attachment() -> SourceAttachment {
    SourceAttachment {
        filename: "notes.txt".to_string(),
        content_type: Some("text/plain".to_string()),
        url: "https://cdn.example/notes.txt".to_string(),
        proxy_url: "https://proxy.example/notes.txt".to_string(),
    }
}

fn message_with(
    attachments: Vec<SourceAttachment>,
    embeds: Vec<SourceEmbed>,
    stickers: Vec<SourceSticker>,
) -> CachedMessage {
    CachedMessage { id: 1, author_id: 2, referenced_message: None, attachments, embeds, stickers }
}

#[test]
fn two_images_and_one_other_attachment() {
    let orig = message_with(
        vec![image_attachment(1), image_attachment(2), text_attachment()],
        vec![],
        vec![],
    );
    let parsed = ParsedMessage::parse(&orig);
    // the first image becomes the primary image
    assert_eq!(parsed.primary_image.as_deref(), Some("https://cdn.example/image1.png"));
    // the second becomes the one secondary embed
    assert_eq!(parsed.embeds.len(), 1);
    match &parsed.embeds[0] {
        EmbedArtifact::Image { url } => assert_eq!(url, "https://cdn.example/image2.png"),
        EmbedArtifact::Existing { .. } => panic!("expected an image embed"),
    }
    // the non-image one queues for re-upload
    assert_eq!(parsed.upload_attachments.len(), 1);
    assert_eq!(parsed.upload_attachments[0].filename, "notes.txt");
    // every attachment's proxy URL is listed, in order
    assert_eq!(
        parsed.url_list,
        vec![
            "https://proxy.example/image1.png".to_string(),
            "https://proxy.example/image2.png".to_string(),
            "https://proxy.example/notes.txt".to_string(),
        ]
    );
    assert!(parsed.sticker_names_str.is_none());
}

#[test]
fn image_only_embed_competes_for_primary() {
    let orig = message_with(
        vec![],
        vec![SourceEmbed { image: Some(image_attachment(7)), has_text: false }],
        vec![],
    );
    let parsed = ParsedMessage::parse(&orig);
    assert_eq!(parsed.primary_image.as_deref(), Some("https://cdn.example/image7.png"));
    assert!(parsed.embeds.is_empty());
    assert!(parsed.upload_attachments.is_empty());
}

#[test]
fn textual_embed_passes_through() {
    let orig = message_with(
        vec![],
        vec![SourceEmbed { image: Some(image_attachment(7)), has_text: true }],
        vec![],
    );
    let parsed = ParsedMessage::parse(&orig);
    assert!(parsed.primary_image.is_none());
    assert_eq!(parsed.embeds.len(), 1);
    assert!(matches!(&parsed.embeds[0], EmbedArtifact::Existing { .. }));
}

#[test]
fn lottie_stickers_become_text_lines() {
    let orig = message_with(
        vec![],
        vec![],
        vec![
            SourceSticker {
                name: "wave".to_string(),
                url: "https://cdn.example/stickers/1.png".to_string(),
                format: StickerFormat::Lottie,
            },
            SourceSticker {
                name: "dance".to_string(),
                url: "https://cdn.example/stickers/2.png".to_string(),
                format: StickerFormat::Lottie,
            },
        ],
    );
    let parsed = ParsedMessage::parse(&orig);
    assert_eq!(
        parsed.sticker_names_str.as_deref(),
        Some("Sticker: **wave**\nSticker: **dance**")
    );
}

#[test]
fn raster_sticker_competes_for_primary() {
    let orig = message_with(
        vec![],
        vec![],
        vec![SourceSticker {
            name: "cat".to_string(),
            url: "https://cdn.example/stickers/9.png".to_string(),
            format: StickerFormat::Png,
        }],
    );
    let parsed = ParsedMessage::parse(&orig);
    assert_eq!(parsed.primary_image.as_deref(), Some("https://cdn.example/stickers/9.png"));
    assert!(parsed.sticker_names_str.is_none());
}

#[test]
fn gif_stickers_are_skipped() {
    let orig = message_with(
        vec![],
        vec![],
        vec![SourceSticker {
            name: "spin".to_string(),
            url: "https://cdn.example/stickers/3.gif".to_string(),
            format: StickerFormat::Gif,
        }],
    );
    let parsed = ParsedMessage::parse(&orig);
    assert!(parsed.primary_image.is_none());
    assert!(parsed.embeds.is_empty());
    assert!(parsed.upload_attachments.is_empty());
    assert!(parsed.sticker_names_str.is_none());
}

#[test]
fn embedable_image_needs_image_mime_and_web_url() {
    let good = AttachmentHandle {
        filename: "a.png".to_string(),
        content_type: Some("image/png".to_string()),
        url: "https://cdn.example/a.png".to_string(),
        proxy_url: "https://proxy.example/a.png".to_string(),
    };
    assert!(good.embedable_image().is_some());
    assert!(good.as_embed().is_some());

    let bad_scheme = AttachmentHandle {
        filename: "a.png".to_string(),
        content_type: Some("image/png".to_string()),
        url: "ftp://cdn.example/a.png".to_string(),
        proxy_url: "https://proxy.example/a.png".to_string(),
    };
    assert!(bad_scheme.embedable_image().is_none());
    assert!(bad_scheme.as_embed().is_none());

    let not_an_image = AttachmentHandle {
        filename: "a.txt".to_string(),
        content_type: Some("text/plain".to_string()),
        url: "https://cdn.example/a.txt".to_string(),
        proxy_url: "https://proxy.example/a.txt".to_string(),
    };
    assert!(not_an_image.embedable_image().is_none());
}

#[test]
fn from_attachment_copies_the_fields() {
    let a = image_attachment(3);
    let h = AttachmentHandle::from_attachment(&a);
    assert_eq!(h.filename, a.filename);
    assert_eq!(h.content_type, a.content_type);
    assert_eq!(h.url, a.url);
    assert_eq!(h.proxy_url, a.proxy_url);
    assert_eq!(h.url_list_item(), a.proxy_url);
}

#[test]
fn attachments_get_sequential_upload_ids() {
    let handles = vec![
        AttachmentHandle::from_attachment(&text_attachment()),
        AttachmentHandle::from_attachment(&image_attachment(1)),
    ];
    let files = vec![b"hello".to_vec(), b"png-bytes".to_vec()];
    let uploads = attachments_for_upload(handles, files);
    assert_eq!(uploads.len(), 2);
    assert_eq!(uploads[0].id, 0);
    assert_eq!(uploads[0].filename, "notes.txt");
    assert_eq!(uploads[0].file, b"hello".to_vec());
    assert_eq!(uploads[1].id, 1);
    assert_eq!(uploads[1].filename, "image1.png");
}

#[test]
fn into_attachments_pairs_handles_with_bytes() {
    let handles = vec![AttachmentHandle::from_attachment(&text_attachment())];
    let uploads = handles.into_attachments(vec![b"x".to_vec()]);
    assert_eq!(uploads.len(), 1);
    assert_eq!(uploads[0].filename, "notes.txt");
    assert_eq!(uploads[0].id, 0);
    assert_eq!(uploads[0].file, b"x".to_vec());
    // a byte list of the wrong length yields nothing
    let handles = vec![AttachmentHandle::from_attachment(&text_attachment())];
    let uploads = handles.into_attachments(Vec::new());
    assert!(uploads.is_empty());
}
