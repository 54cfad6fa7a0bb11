//! Pasting an entry: what is armed, and what is to be written to the system
//! clipboard.

use vstd::prelude::*;
use crate::injection::{InjectionCause, InjectionState, Stage};
use crate::item::{ClipboardContent, ClipboardItem, ContentView, RawImage};
use crate::manager::ClipboardManager;
use crate::outside::{base64_bytes, decode_base64, decode_rgba, rgba_pixels};

verus! {

/// What a paste writes to the system clipboard.
#[derive(Debug)]
pub enum ClipboardPayload {
    Text(String),
    Image(RawImage),
}

pub enum PayloadView {
    Text(Seq<char>),
    Image { width: usize, height: usize, bytes: Seq<u8> },
}

impl View for ClipboardPayload {
    type V = PayloadView;

    open spec fn view(&self) -> PayloadView {
        match self {
            ClipboardPayload::Text(text) => PayloadView::Text(text@),
            ClipboardPayload::Image(image) => PayloadView::Image {
                width: image.width,
                height: image.height,
                bytes: image.bytes@,
            },
        }
    }
}

/// Why the stored form of an image could not be turned back into pixels.
#[derive(Debug)]
pub enum DecodingError {
    /// The stored text is not base64.
    Base64(base64::DecodeError),
    /// The bytes behind the text are not a PNG image.
    Image(image::ImageError),
}

/// Why a paste failed.
#[derive(Debug)]
pub enum PasteError {
    /// The system clipboard could not be opened or written.
    ClipboardAccess(String),
    /// The entry could not be decoded.
    Decoding(DecodingError),
    /// Every way of sending the keystroke failed.
    AllInjectionStrategiesFailed(Vec<InjectionCause>),
}

/// What decoding the content of an entry comes to.
pub enum Decoded {
    Payload(PayloadView),
    BadBase64,
    BadImage,
}

/// A text is written as it is. An image is read back from its base64 text
/// and decoded as PNG to RGBA pixels, which are written under the width and
/// height that the entry records.
pub open spec fn decoded(content: ContentView) -> Decoded {
    match content {
        ContentView::Text(text) => Decoded::Payload(PayloadView::Text(text)),
        ContentView::Image { base64, width, height } => match base64_bytes(base64) {
            None => Decoded::BadBase64,
            Some(encoded) => match rgba_pixels(encoded) {
                None => Decoded::BadImage,
                Some(pixels) => Decoded::Payload(
                    PayloadView::Image {
                        width: width as usize,
                        height: height as usize,
                        bytes: pixels,
                    },
                ),
            },
        },
    }
}

/// Whether `result` is what `outcome` asks for.
pub open spec fn payload_matches(
    result: Result<ClipboardPayload, DecodingError>,
    outcome: Decoded,
) -> bool {
    match result {
        Ok(payload) => outcome == Decoded::Payload(payload@),
        Err(DecodingError::Base64(_)) => outcome is BadBase64,
        Err(DecodingError::Image(_)) => outcome is BadImage,
    }
}

impl ClipboardItem {
    /// What a paste of this entry writes to the system clipboard.
    pub fn payload(&self) -> (result: Result<ClipboardPayload, DecodingError>)
        ensures
            payload_matches(result, decoded(self@.content)),
    {
        match &self.content {
            ClipboardContent::Text(text) => Ok(ClipboardPayload::Text(text.clone())),
            ClipboardContent::Image { base64, width, height } => {
                let encoded = match decode_base64(base64.as_str()) {
                    Ok(encoded) => encoded,
                    Err(error) => {
                        return Err(DecodingError::Base64(error));
                    },
                };
                let pixels = match decode_rgba(encoded.as_slice()) {
                    Ok(pixels) => pixels,
                    Err(error) => {
                        return Err(DecodingError::Image(error));
                    },
                };
                Ok(
                    ClipboardPayload::Image(
                        RawImage {
                            width: *width as usize,
                            height: *height as usize,
                            bytes: pixels,
                        },
                    ),
                )
            },
        }
    }
}

impl InjectionState {
    /// What the chain of strategies came to: nothing while it has not ended,
    /// success where a strategy sent the keystroke, and else the failure of
    /// every strategy that was tried, with what each reported.
    pub fn outcome(self) -> (result: Option<Result<(), PasteError>>)
        ensures
            match result {
                None => !(self.stage is Succeeded) && !(self.stage is Failed),
                Some(Ok(_)) => self.stage is Succeeded,
                Some(Err(PasteError::AllInjectionStrategiesFailed(causes))) => self.stage
                    is Failed && causes@.map_values(|cause: InjectionCause| cause@)
                    == self@.causes,
                Some(Err(_)) => false,
            },
    {
        match self.stage {
            Stage::Succeeded => Some(Ok(())),
            Stage::Failed => Some(Err(PasteError::AllInjectionStrategiesFailed(self.causes))),
            _ => None,
        }
    }
}

impl ClipboardManager {
    /// First step of a paste: arms the suppression for `item`, then hands
    /// out what is to be written to the system clipboard. The suppression is
    /// armed also where the entry cannot be decoded.
    pub fn paste_item(&mut self, item: &ClipboardItem) -> (result: Result<
        ClipboardPayload,
        PasteError,
    >)
        ensures
            final(self)@ == old(self)@.marked_as_pasted(item@),
            match result {
                Ok(payload) => decoded(item@.content) == Decoded::Payload(payload@),
                Err(PasteError::Decoding(DecodingError::Base64(_))) => decoded(item@.content)
                    is BadBase64,
                Err(PasteError::Decoding(DecodingError::Image(_))) => decoded(item@.content)
                    is BadImage,
                Err(_) => false,
            },
    {
        self.mark_as_pasted(item);
        match item.payload() {
            Ok(payload) => Ok(payload),
            Err(error) => Err(PasteError::Decoding(error)),
        }
    }
}

} // verus!
