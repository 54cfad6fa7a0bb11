//! The history as a mathematical object: a sequence of entries, most recent
//! unpinned entry first, and the state of the manager around it.

use vstd::prelude::*;
use std::collections::hash_map::DefaultHasher;
use vstd::std_specs::hash::DefaultHasherAdditionalSpecFns;
use vstd::utf8::encode_utf8;
use crate::item::ItemView;
use crate::sequences::{first_where, pairwise, retain_first, select};
use crate::text::is_blank;

verus! {

/// Largest number of unpinned entries that the history keeps.
pub const MAX_HISTORY_SIZE: usize = 50;

/// The entry is not pinned.
pub open spec fn unpinned() -> spec_fn(ItemView) -> bool {
    |item: ItemView| !item.pinned
}

/// The entry is pinned.
pub open spec fn pinned() -> spec_fn(ItemView) -> bool {
    |item: ItemView| item.pinned
}

/// The entry is not pinned and holds this text.
pub open spec fn unpinned_text(text: Seq<char>) -> spec_fn(ItemView) -> bool {
    |item: ItemView| !item.pinned && item.holds_text(text)
}

/// The entry has this identifier.
pub open spec fn has_id(id: Seq<char>) -> spec_fn(ItemView) -> bool {
    |item: ItemView| item.id == id
}

/// The entry has another identifier.
pub open spec fn lacks_id(id: Seq<char>) -> spec_fn(ItemView) -> bool {
    |item: ItemView| item.id != id
}

/// The digest by which two ingested texts are taken for the same: that of
/// the standard library's default hasher over the UTF-8 bytes of the text
/// and one closing byte.
pub open spec fn text_digest(text: Seq<char>) -> u64 {
    DefaultHasher::spec_finish(seq![encode_utf8(text), seq![0xffu8]])
}

/// The digest of the raw pixels of an image.
pub open spec fn pixel_digest(bytes: Seq<u8>) -> u64 {
    DefaultHasher::spec_finish(seq![bytes])
}

/// The history with `item` put immediately before its first unpinned entry,
/// or at its end where every entry is pinned.
pub open spec fn inserted(history: Seq<ItemView>, item: ItemView) -> Seq<ItemView> {
    history.insert(first_where(history, unpinned()), item)
}

/// The history cut down to capacity: every pinned entry stays, and of the
/// unpinned ones the `MAX_HISTORY_SIZE` most recent.
pub open spec fn trimmed(history: Seq<ItemView>) -> Seq<ItemView> {
    retain_first(history, unpinned(), MAX_HISTORY_SIZE as nat)
}

/// The history after `item` was inserted and the capacity enforced.
pub open spec fn stored(history: Seq<ItemView>, item: ItemView) -> Seq<ItemView> {
    trimmed(inserted(history, item))
}

/// The history without its first unpinned entry that holds `text`.
pub open spec fn without_duplicate(history: Seq<ItemView>, text: Seq<char>) -> Seq<ItemView> {
    let at = first_where(history, unpinned_text(text));
    if at < history.len() {
        history.remove(at)
    } else {
        history
    }
}

/// Two entries do not hold the same text while both are unpinned.
pub open spec fn distinct_texts() -> spec_fn(ItemView, ItemView) -> bool {
    |a: ItemView, b: ItemView| !a.pinned && !b.pinned && a.content is Text ==> a.content != b.content
}

/// No two unpinned entries hold the same text.
pub open spec fn texts_unique(history: Seq<ItemView>) -> bool {
    pairwise(history, distinct_texts())
}

/// The entry with its pin flipped.
pub open spec fn flipped(item: ItemView) -> ItemView {
    ItemView { pinned: !item.pinned, ..item }
}

/// One text on its way into the history: the text, the digest taken of it,
/// and the entry that is made for it where one is owed.
pub struct Ingestion {
    pub text: Seq<char>,
    pub digest: u64,
    pub item: ItemView,
}

/// State of a clipboard manager.
pub struct ManagerView {
    /// The entries, in display order.
    pub history: Seq<ItemView>,
    /// Text that the manager wrote to the clipboard itself and has not yet
    /// seen come back.
    pub last_pasted_text: Option<Seq<char>>,
    /// Content hash of an image that the manager wrote itself and has not yet
    /// seen come back.
    pub last_pasted_image_hash: Option<u64>,
    /// Digest of the text ingested last.
    pub last_added_text_hash: Option<u64>,
}

impl ManagerView {
    /// The state of a new manager.
    pub open spec fn empty() -> ManagerView {
        ManagerView {
            history: Seq::empty(),
            last_pasted_text: None,
            last_pasted_image_hash: None,
            last_added_text_hash: None,
        }
    }

    /// Index of the most recent unpinned entry, or the length of the history
    /// where there is none.
    pub open spec fn top(self) -> int {
        first_where(self.history, unpinned())
    }

    /// Decides on a text that is not blank and has the given digest: the
    /// state after the decision, and whether a new entry is owed.
    ///
    /// The text is turned away when its digest is that of the text ingested
    /// last; when it is the text the manager pasted itself, which uses that
    /// suppression up; and when the most recent unpinned entry holds it
    /// already. Otherwise an older unpinned entry that holds it leaves the
    /// history, and a new entry is owed.
    pub open spec fn admit_text(self, text: Seq<char>, digest: u64) -> (ManagerView, bool) {
        if self.last_added_text_hash == Some(digest) {
            (self, false)
        } else if self.last_pasted_text == Some(text) {
            (ManagerView { last_pasted_text: None, ..self }, false)
        } else if self.top() < self.history.len() && self.history[self.top()].holds_text(text) {
            (ManagerView { last_added_text_hash: Some(digest), ..self }, false)
        } else {
            (
                ManagerView {
                    history: without_duplicate(self.history, text),
                    last_added_text_hash: Some(digest),
                    ..self
                },
                true,
            )
        }
    }

    /// Decides on any text: a blank one changes nothing and owes nothing.
    pub open spec fn ingest_text(self, text: Seq<char>, digest: u64) -> (ManagerView, bool) {
        if is_blank(text) {
            (self, false)
        } else {
            self.admit_text(text, digest)
        }
    }

    /// Decides on an image with the given content hash: it is turned away
    /// when the manager pasted it itself, which uses that suppression up,
    /// and when the most recent unpinned entry is an image with this hash.
    pub open spec fn admit_image(self, hash: u64) -> (ManagerView, bool) {
        if self.last_pasted_image_hash == Some(hash) {
            (ManagerView { last_pasted_image_hash: None, ..self }, false)
        } else if self.top() < self.history.len() && self.history[self.top()].image_hash()
            == Some(hash) {
            (self, false)
        } else {
            (self, true)
        }
    }

    /// The state after an entry was stored.
    pub open spec fn with_item(self, item: ItemView) -> ManagerView {
        ManagerView { history: stored(self.history, item), ..self }
    }

    /// The state after a text was added: what the decision left, with the
    /// new entry stored where one was owed.
    pub open spec fn add_text(self, text: Seq<char>, digest: u64, item: ItemView) -> ManagerView {
        let (next, owed) = self.ingest_text(text, digest);
        if owed {
            next.with_item(item)
        } else {
            next
        }
    }

    /// The state after a run of texts was added, one after the other.
    pub open spec fn add_texts(self, batch: Seq<Ingestion>) -> ManagerView
        decreases batch.len(),
    {
        if batch.len() == 0 {
            self
        } else {
            self.add_texts(batch.drop_last()).add_text(
                batch.last().text,
                batch.last().digest,
                batch.last().item,
            )
        }
    }

    /// The state after an image was added whose encoding succeeded.
    pub open spec fn add_image(self, hash: u64, item: ItemView) -> ManagerView {
        let (next, owed) = self.admit_image(hash);
        if owed {
            next.with_item(item)
        } else {
            next
        }
    }

    /// The state with the pinned entries only.
    pub open spec fn cleared(self) -> ManagerView {
        ManagerView { history: select(self.history, pinned()), ..self }
    }

    /// The state without the entries that have this identifier.
    pub open spec fn without_id(self, id: Seq<char>) -> ManagerView {
        ManagerView { history: select(self.history, lacks_id(id)), ..self }
    }

    /// Index of the first entry with this identifier, or the length of the
    /// history where there is none.
    pub open spec fn position(self, id: Seq<char>) -> int {
        first_where(self.history, has_id(id))
    }

    /// The state with the pin of the first entry with this identifier flipped.
    pub open spec fn toggled(self, id: Seq<char>) -> ManagerView {
        let at = self.position(id);
        if at < self.history.len() {
            ManagerView { history: self.history.update(at, flipped(self.history[at])), ..self }
        } else {
            self
        }
    }

    /// The state armed against seeing `item` come back from the clipboard:
    /// for a text, the text is remembered and a remembered image forgotten;
    /// for an image, a remembered text is forgotten and the hash that the
    /// entry carries remembered, where it carries one.
    pub open spec fn marked_as_pasted(self, item: ItemView) -> ManagerView {
        if item.content is Text {
            ManagerView {
                last_pasted_text: Some(item.content->Text_0),
                last_pasted_image_hash: None,
                ..self
            }
        } else {
            ManagerView {
                last_pasted_text: None,
                last_pasted_image_hash: match item.image_hash() {
                    Some(hash) => Some(hash),
                    None => self.last_pasted_image_hash,
                },
                ..self
            }
        }
    }

    /// The state armed against a text that is to stay out of the history
    /// altogether.
    pub open spec fn marked_text(self, text: Seq<char>, digest: u64) -> ManagerView {
        ManagerView { last_pasted_text: Some(text), last_added_text_hash: Some(digest), ..self }
    }
}

} // verus!
