//! One entry of the clipboard history and what it holds.

use vstd::prelude::*;
use vstd::std_specs::cmp::PartialEqSpecImpl;
use crate::outside::{current_time, fresh_id, is_uuid_v4_text, str_equal};
use crate::text::{
    image_preview, make_image_preview, make_text_preview, read_stored_hash, stored_hash,
    text_preview,
};

verus! {

/// An instant in UTC: whole seconds since 1970-01-01 00:00:00 and the
/// nanoseconds within the second. A leap second is written with a
/// nanosecond count of one thousand million or more.
#[derive(Clone, Copy, Debug, PartialEq, Eq, Structural)]
pub struct Timestamp {
    pub secs: i64,
    pub nanos: u32,
}

impl Timestamp {
    /// The nanoseconds stay below two seconds.
    pub open spec fn is_valid(self) -> bool {
        self.nanos < 2_000_000_000
    }
}

/// Raw RGBA pixels as a clipboard hands them over: four bytes per pixel, row
/// by row.
#[derive(Debug)]
pub struct RawImage {
    pub width: usize,
    pub height: usize,
    pub bytes: Vec<u8>,
}

impl Clone for RawImage {
    fn clone(&self) -> (copy: Self)
        ensures
            copy.width == self.width,
            copy.height == self.height,
            copy.bytes@ == self.bytes@,
    {
        RawImage { width: self.width, height: self.height, bytes: self.bytes.clone() }
    }
}

/// What a history entry holds.
#[derive(Debug)]
pub enum ClipboardContent {
    /// Plain text.
    Text(String),
    /// An image as base64 text of its PNG encoding.
    Image { base64: String, width: u32, height: u32 },
}

pub enum ContentView {
    Text(Seq<char>),
    Image { base64: Seq<char>, width: u32, height: u32 },
}

impl View for ClipboardContent {
    type V = ContentView;

    open spec fn view(&self) -> ContentView {
        match self {
            ClipboardContent::Text(text) => ContentView::Text(text@),
            ClipboardContent::Image { base64, width, height } => ContentView::Image {
                base64: base64@,
                width: *width,
                height: *height,
            },
        }
    }
}

impl Clone for ClipboardContent {
    fn clone(&self) -> (copy: Self)
        ensures
            copy@ == self@,
    {
        match self {
            ClipboardContent::Text(text) => ClipboardContent::Text(text.clone()),
            ClipboardContent::Image { base64, width, height } => ClipboardContent::Image {
                base64: base64.clone(),
                width: *width,
                height: *height,
            },
        }
    }
}

impl PartialEq for ClipboardContent {
    fn eq(&self, other: &Self) -> (same: bool) {
        match self {
            ClipboardContent::Text(a) => match other {
                ClipboardContent::Text(b) => str_equal(a.as_str(), b.as_str()),
                _ => false,
            },
            ClipboardContent::Image { base64, width, height } => match other {
                ClipboardContent::Image { base64: b, width: w, height: h } => str_equal(
                    base64.as_str(),
                    b.as_str(),
                ) && *width == *w && *height == *h,
                _ => false,
            },
        }
    }
}

impl PartialEqSpecImpl for ClipboardContent {
    open spec fn obeys_eq_spec() -> bool {
        true
    }

    open spec fn eq_spec(&self, other: &Self) -> bool {
        self@ == other@
    }
}

/// One entry of the history.
#[derive(Debug)]
pub struct ClipboardItem {
    /// Identifier, drawn when the entry is made.
    pub id: String,
    pub content: ClipboardContent,
    /// When the content was captured.
    pub timestamp: Timestamp,
    /// A pinned entry is neither evicted nor reordered.
    pub pinned: bool,
    /// Short text for display.
    pub preview: String,
}

pub struct ItemView {
    pub id: Seq<char>,
    pub content: ContentView,
    pub timestamp: Timestamp,
    pub pinned: bool,
    pub preview: Seq<char>,
}

impl ItemView {
    /// Whether the entry holds exactly this text.
    pub open spec fn holds_text(self, text: Seq<char>) -> bool {
        self.content == ContentView::Text(text)
    }

    /// The content hash of an image entry, as its preview carries it.
    pub open spec fn image_hash(self) -> Option<u64> {
        if self.content is Image {
            stored_hash(self.preview)
        } else {
            None
        }
    }
}

impl View for ClipboardItem {
    type V = ItemView;

    open spec fn view(&self) -> ItemView {
        ItemView {
            id: self.id@,
            content: self.content@,
            timestamp: self.timestamp,
            pinned: self.pinned,
            preview: self.preview@,
        }
    }
}

impl Clone for ClipboardItem {
    fn clone(&self) -> (copy: Self)
        ensures
            copy@ == self@,
    {
        ClipboardItem {
            id: self.id.clone(),
            content: self.content.clone(),
            timestamp: self.timestamp,
            pinned: self.pinned,
            preview: self.preview.clone(),
        }
    }
}

/// The unpinned text entry with the given identifier and capture time.
pub open spec fn text_item(id: Seq<char>, timestamp: Timestamp, text: Seq<char>) -> ItemView {
    ItemView {
        id,
        content: ContentView::Text(text),
        timestamp,
        pinned: false,
        preview: text_preview(text),
    }
}

/// The unpinned image entry with the given identifier and capture time,
/// whose preview carries `hash` where there is one.
pub open spec fn image_item(
    id: Seq<char>,
    timestamp: Timestamp,
    base64: Seq<char>,
    width: u32,
    height: u32,
    hash: Option<u64>,
) -> ItemView {
    ItemView {
        id,
        content: ContentView::Image { base64, width, height },
        timestamp,
        pinned: false,
        preview: image_preview(width, height, hash),
    }
}

impl ClipboardItem {
    /// A text entry with a fresh identifier, captured now.
    pub fn new_text(text: String) -> (item: Self)
        ensures
            item@ == text_item(item@.id, item@.timestamp, text@),
            is_uuid_v4_text(item@.id),
            item@.timestamp.is_valid(),
    {
        Self::with_text(fresh_id(), current_time(), text)
    }

    /// An image entry with a fresh identifier, captured now.
    pub fn new_image(base64: String, width: u32, height: u32) -> (item: Self)
        ensures
            item@ == image_item(item@.id, item@.timestamp, base64@, width, height, None),
            is_uuid_v4_text(item@.id),
            item@.timestamp.is_valid(),
    {
        Self::with_image(fresh_id(), current_time(), base64, width, height, None)
    }

    /// An image entry with a fresh identifier, captured now, that remembers
    /// the content hash of its pixels.
    pub fn new_image_with_hash(base64: String, width: u32, height: u32, hash: u64) -> (item: Self)
        ensures
            item@ == image_item(item@.id, item@.timestamp, base64@, width, height, Some(hash)),
            item@.image_hash() == Some(hash),
            is_uuid_v4_text(item@.id),
            item@.timestamp.is_valid(),
    {
        proof {
            crate::text::lemma_stored_hash_of_preview(width, height, Some(hash));
        }
        Self::with_image(fresh_id(), current_time(), base64, width, height, Some(hash))
    }

    /// The text entry with the given identifier and capture time.
    pub fn with_text(id: String, timestamp: Timestamp, text: String) -> (item: Self)
        ensures
            item@ == text_item(id@, timestamp, text@),
    {
        let preview = make_text_preview(text.as_str());
        ClipboardItem { id, content: ClipboardContent::Text(text), timestamp, pinned: false, preview }
    }

    /// The image entry with the given identifier and capture time.
    pub fn with_image(
        id: String,
        timestamp: Timestamp,
        base64: String,
        width: u32,
        height: u32,
        hash: Option<u64>,
    ) -> (item: Self)
        ensures
            item@ == image_item(id@, timestamp, base64@, width, height, hash),
    {
        let preview = make_image_preview(width, height, hash);
        ClipboardItem {
            id,
            content: ClipboardContent::Image { base64, width, height },
            timestamp,
            pinned: false,
            preview,
        }
    }

    /// Whether the entry holds exactly this text.
    pub fn holds_text(&self, text: &str) -> (held: bool)
        ensures
            held == self@.holds_text(text@),
    {
        match &self.content {
            ClipboardContent::Text(own) => str_equal(own.as_str(), text),
            ClipboardContent::Image { .. } => false,
        }
    }

    /// The content hash that an image entry remembers.
    pub fn image_hash(&self) -> (hash: Option<u64>)
        ensures
            hash == self@.image_hash(),
    {
        match &self.content {
            ClipboardContent::Text(_) => None,
            ClipboardContent::Image { .. } => read_stored_hash(self.preview.as_str()),
        }
    }
}

} // verus!
