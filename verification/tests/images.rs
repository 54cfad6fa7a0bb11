use base64::Engine;
use clipboard_manager::item::{ClipboardContent, ClipboardItem, RawImage, Timestamp};
use clipboard_manager::manager::{hash_text, ClipboardManager};
use clipboard_manager::paste::{ClipboardPayload, DecodingError, PasteError};
use std::hash::{Hash, Hasher};

fn pixels(width: usize, height: usize, seed: u8) -> RawImage {
    let mut bytes = Vec::new();
    for n in 0..width * height * 4 {
        bytes.push(seed.wrapping_add((n * 7) as u8));
    }
    RawImage { width, height, bytes }
}

fn copy_of(image: &RawImage) -> RawImage {
    image.clone()
}

#[test]
fn text_digest_is_that_of_the_default_hasher() {
    for text in ["", "a", "hello world", "\u{1f600} and more"] {
        let mut hasher = std::collections::hash_map::DefaultHasher::new();
        text.hash(&mut hasher);
        assert_eq!(hash_text(text), hasher.finish(), "text {:?}", text);
    }
    assert_ne!(hash_text("a"), hash_text("b"));
}

#[test]
fn pixel_digest_tells_images_apart() {
    let a = pixels(2, 2, 1);
    let b = pixels(2, 2, 2);
    assert_eq!(a.content_hash(), copy_of(&a).content_hash());
    assert_ne!(a.content_hash(), b.content_hash());
    let mut hasher = std::collections::hash_map::DefaultHasher::new();
    hasher.write(&a.bytes);
    assert_eq!(a.content_hash(), hasher.finish());
}

#[test]
fn image_is_stored_as_base64_png() {
    let mut manager = ClipboardManager::new();
    let image = pixels(3, 2, 9);
    let item = manager.add_image(copy_of(&image), 42).expect("the image is taken in");
    assert_eq!(item.preview, "Image (3x2) #42");
    assert_eq!(item.image_hash(), Some(42));
    assert!(!item.pinned);
    let (base64, width, height) = match &item.content {
        ClipboardContent::Image { base64, width, height } => (base64.clone(), *width, *height),
        ClipboardContent::Text(_) => panic!("an image was added"),
    };
    assert_eq!((width, height), (3, 2));
    let png = base64::engine::general_purpose::STANDARD.decode(&base64).expect("base64 text");
    assert_eq!(&png[..8], &[0x89, b'P', b'N', b'G', 0x0d, 0x0a, 0x1a, 0x0a]);
    assert_eq!(base64::engine::general_purpose::STANDARD.encode(&png), base64);
    let decoded = image::load_from_memory(&png).expect("a PNG image").to_rgba8();
    assert_eq!(decoded.width(), 3);
    assert_eq!(decoded.height(), 2);
    assert_eq!(decoded.into_raw(), image.bytes);
    let history = manager.get_history();
    assert_eq!(history.len(), 1);
    assert_eq!(history[0].id, item.id);
}

#[test]
fn image_at_the_top_is_not_added_again() {
    let mut manager = ClipboardManager::new();
    let image = pixels(1, 1, 0);
    assert!(manager.add_image(copy_of(&image), 5).is_some());
    assert!(manager.add_image(copy_of(&image), 5).is_none());
    assert!(manager.add_image(copy_of(&image), 6).is_some());
    assert!(manager.add_image(copy_of(&image), 5).is_some());
    assert_eq!(manager.get_history().len(), 3);
    // the stored hash is compared as a number, not as a run of digits
    assert!(manager.add_image(copy_of(&image), 55).is_some());
    assert!(manager.add_image(copy_of(&image), 5).is_some());
}

#[test]
fn pixels_that_do_not_fill_the_image_are_turned_away() {
    let mut manager = ClipboardManager::new();
    let short = RawImage { width: 2, height: 2, bytes: vec![0; 15] };
    assert!(manager.add_image(short, 1).is_none());
    let long = RawImage { width: 2, height: 2, bytes: vec![0; 17] };
    assert!(manager.add_image(long, 1).is_none());
    let empty = RawImage { width: 1, height: 1, bytes: Vec::new() };
    assert!(manager.add_image(empty, 1).is_none());
    assert!(manager.get_history().is_empty());
}

#[test]
fn image_without_pixels_is_turned_away() {
    let mut manager = ClipboardManager::new();
    let none = RawImage { width: 0, height: 0, bytes: Vec::new() };
    assert!(manager.add_image(none, 3).is_none());
    assert!(manager.get_history().is_empty());
}

#[test]
fn pasted_image_is_turned_away_once() {
    let mut manager = ClipboardManager::new();
    let first = pixels(2, 1, 40);
    let second = pixels(1, 2, 80);
    let item = manager.add_image(copy_of(&first), 100).expect("the image is taken in");
    manager.add_text("between".to_string()).expect("the text is taken in");
    match manager.paste_item(&item) {
        Ok(ClipboardPayload::Image(raw)) => {
            assert_eq!(raw.width, 2);
            assert_eq!(raw.height, 1);
            assert_eq!(raw.bytes, first.bytes);
        }
        other => panic!("unexpected payload: {:?}", other),
    }
    assert!(manager.add_image(copy_of(&first), 100).is_none());
    assert_eq!(manager.get_history().len(), 2);
    assert!(manager.add_image(copy_of(&second), 200).is_some());
    assert!(manager.add_image(copy_of(&first), 100).is_some());
    assert_eq!(manager.get_history().len(), 4);
}

#[test]
fn marking_an_image_forgets_a_pasted_text() {
    let mut manager = ClipboardManager::new();
    let text = manager.add_text("t".to_string()).expect("the text is taken in");
    let image = manager.add_image(pixels(1, 1, 3), 9).expect("the image is taken in");
    manager.mark_as_pasted(&text);
    manager.mark_as_pasted(&image);
    manager.add_text("u".to_string()).expect("the text is taken in");
    // the text is no longer suppressed, the image is
    assert!(manager.add_text("t".to_string()).is_some());
    assert!(manager.add_image(pixels(1, 1, 3), 9).is_none());
    assert!(manager.add_image(pixels(1, 1, 3), 9).is_some());
}

#[test]
fn marking_a_text_forgets_a_pasted_image() {
    let mut manager = ClipboardManager::new();
    let image = manager.add_image(pixels(1, 1, 3), 9).expect("the image is taken in");
    let text = manager.add_text("t".to_string()).expect("the text is taken in");
    manager.mark_as_pasted(&image);
    manager.mark_as_pasted(&text);
    assert!(manager.add_image(pixels(1, 1, 3), 9).is_some());
}

#[test]
fn image_without_hash_leaves_the_image_suppression_as_it_is() {
    let mut manager = ClipboardManager::new();
    let hashed = ClipboardItem::new_image_with_hash("QUJD".to_string(), 1, 1, 11);
    let plain = ClipboardItem::new_image("QUJD".to_string(), 1, 1);
    assert_eq!(plain.preview, "Image (1x1)");
    manager.mark_as_pasted(&hashed);
    manager.mark_as_pasted(&plain);
    assert!(manager.add_image(pixels(1, 1, 0), 11).is_none());
    assert!(manager.add_image(pixels(1, 1, 0), 11).is_some());
}

#[test]
fn malformed_entries_fail_to_decode() {
    let mut manager = ClipboardManager::new();
    let bad_text = ClipboardItem::with_image(
        "a".to_string(),
        Timestamp { secs: 0, nanos: 0 },
        "not base64!".to_string(),
        1,
        1,
        Some(1),
    );
    assert!(matches!(bad_text.payload(), Err(DecodingError::Base64(_))));
    assert!(matches!(
        manager.paste_item(&bad_text),
        Err(PasteError::Decoding(DecodingError::Base64(_)))
    ));
    // the suppression was armed all the same
    assert!(manager.add_image(pixels(1, 1, 0), 1).is_none());
    let bad_image = ClipboardItem::with_image(
        "b".to_string(),
        Timestamp { secs: 0, nanos: 0 },
        "QUJD".to_string(),
        1,
        1,
        None,
    );
    assert!(matches!(bad_image.payload(), Err(DecodingError::Image(_))));
    assert!(matches!(
        manager.paste_item(&bad_image),
        Err(PasteError::Decoding(DecodingError::Image(_)))
    ));
}

#[test]
fn payload_keeps_the_recorded_size() {
    let mut manager = ClipboardManager::new();
    let item = manager.add_image(pixels(2, 2, 1), 1).expect("the image is taken in");
    let base64 = match &item.content {
        ClipboardContent::Image { base64, .. } => base64.clone(),
        ClipboardContent::Text(_) => panic!("an image was added"),
    };
    let relabelled = ClipboardItem::with_image(
        "c".to_string(),
        Timestamp { secs: 0, nanos: 0 },
        base64,
        4,
        1,
        None,
    );
    match relabelled.payload() {
        Ok(ClipboardPayload::Image(raw)) => {
            assert_eq!((raw.width, raw.height), (4, 1));
            assert_eq!(raw.bytes, pixels(2, 2, 1).bytes);
        }
        other => panic!("unexpected payload: {:?}", other),
    }
}

#[test]
fn fresh_entries_carry_a_version_four_uuid_and_the_time() {
    let before = chrono::Utc::now().timestamp();
    let a = ClipboardItem::new_text("a".to_string());
    let b = ClipboardItem::new_text("a".to_string());
    let after = chrono::Utc::now().timestamp();
    assert_ne!(a.id, b.id);
    for item in [&a, &b] {
        let id = uuid::Uuid::parse_str(&item.id).expect("a UUID");
        assert_eq!(id.get_version_num(), 4);
        assert_eq!(item.id, id.hyphenated().to_string());
        assert_eq!(item.id.len(), 36);
        assert_eq!(item.id.as_bytes()[14], b'4');
        assert!(matches!(item.id.as_bytes()[19], b'8' | b'9' | b'a' | b'b'));
        for (at, byte) in item.id.bytes().enumerate() {
            if at == 8 || at == 13 || at == 18 || at == 23 {
                assert_eq!(byte, b'-');
            } else {
                assert!(byte.is_ascii_digit() || (b'a'..=b'f').contains(&byte));
            }
        }
        assert!(before <= item.timestamp.secs && item.timestamp.secs <= after);
        assert!(item.timestamp.nanos < 2_000_000_000);
    }
    let image = ClipboardItem::new_image_with_hash("QUJD".to_string(), 2, 3, 4);
    assert_eq!(image.preview, "Image (2x3) #4");
    assert!(uuid::Uuid::parse_str(&image.id).is_ok());
}
