//! The clipboard manager: the history and the suppression state, and the
//! operations on them.

use vstd::prelude::*;
use std::collections::hash_map::DefaultHasher;
use std::hash::Hasher;
use crate::history::{
    flipped, has_id, inserted, lacks_id, pinned, pixel_digest, stored, text_digest, trimmed,
    unpinned, unpinned_text, ManagerView, MAX_HISTORY_SIZE,
};
use crate::item::{image_item, text_item, ClipboardContent, ClipboardItem, ItemView, RawImage};
use crate::outside::{
    base64_text, encode_base64, encode_png, is_uuid_v4_text, png_encoding, str_equal,
};
use crate::sequences::{
    count_where, first_where, lemma_count_remove, lemma_count_where, lemma_first_where_is,
    lemma_retain_all, lemma_retain_remove_last, select,
};
use crate::text::text_is_blank;

verus! {

/// The entries of a vector as the history sees them.
pub open spec fn item_views(items: Seq<ClipboardItem>) -> Seq<ItemView> {
    items.map_values(|item: ClipboardItem| item@)
}

/// The characters of a text that may be absent.
pub open spec fn text_view(text: Option<String>) -> Option<Seq<char>> {
    match text {
        Some(t) => Some(t@),
        None => None,
    }
}

/// Keeps the clipboard history and remembers what the manager itself put on
/// the clipboard.
pub struct ClipboardManager {
    history: Vec<ClipboardItem>,
    last_pasted_text: Option<String>,
    last_pasted_image_hash: Option<u64>,
    last_added_text_hash: Option<u64>,
}

impl View for ClipboardManager {
    type V = ManagerView;

    closed spec fn view(&self) -> ManagerView {
        ManagerView {
            history: item_views(self.history@),
            last_pasted_text: text_view(self.last_pasted_text),
            last_pasted_image_hash: self.last_pasted_image_hash,
            last_added_text_hash: self.last_added_text_hash,
        }
    }
}

/// The text of the PNG encoding of raw pixels, where the pixels fill the
/// image exactly, the encoder accepts them and the text fits the machine.
pub open spec fn encoded_image(width: usize, height: usize, pixels: Seq<u8>) -> Option<Seq<char>> {
    if width <= u32::MAX && height <= u32::MAX && pixels.len() == 4 * width * height {
        match png_encoding(width as u32, height as u32, pixels) {
            Some(png) => if (png.len() / 3 + 1) * 4 <= usize::MAX {
                Some(base64_text(png))
            } else {
                None
            },
            None => None,
        }
    } else {
        None
    }
}

proof fn lemma_views_insert(items: Seq<ClipboardItem>, at: int, item: ClipboardItem)
    requires
        0 <= at <= items.len(),
    ensures
        item_views(items.insert(at, item)) == item_views(items).insert(at, item@),
{
    assert(item_views(items.insert(at, item)) =~= item_views(items).insert(at, item@));
}

proof fn lemma_views_remove(items: Seq<ClipboardItem>, at: int)
    requires
        0 <= at < items.len(),
    ensures
        item_views(items.remove(at)) == item_views(items).remove(at),
{
    assert(item_views(items.remove(at)) =~= item_views(items).remove(at));
}

proof fn lemma_views_skip(items: Seq<ItemView>, at: int)
    requires
        0 <= at < items.len(),
    ensures
        items.skip(at)[0] == items[at],
        items.skip(at).skip(1) == items.skip(at + 1),
        items.skip(at).len() > 0,
{
    assert(items.skip(at).skip(1) =~= items.skip(at + 1));
}

fn first_unpinned(history: &Vec<ClipboardItem>) -> (at: usize)
    ensures
        at == first_where(item_views(history@), unpinned()),
        at <= history.len(),
{
    let mut at: usize = 0;
    while at < history.len() && history[at].pinned
        invariant
            at <= history.len(),
            forall|j: int| 0 <= j < at ==> history@[j].pinned,
        decreases history.len() - at,
    {
        at = at + 1;
    }
    proof {
        let views = item_views(history@);
        assert forall|j: int| 0 <= j < at implies !unpinned()(#[trigger] views[j]) by {
            assert(views[j] == history@[j]@);
        }
        lemma_first_where_is(views, unpinned(), at as int);
    }
    at
}

fn first_unpinned_text(history: &Vec<ClipboardItem>, text: &str) -> (at: usize)
    ensures
        at == first_where(item_views(history@), unpinned_text(text@)),
        at <= history.len(),
{
    let mut at: usize = 0;
    while at < history.len() && !(!history[at].pinned && history[at].holds_text(text))
        invariant
            at <= history.len(),
            forall|j: int| 0 <= j < at ==> !unpinned_text(text@)(#[trigger] history@[j]@),
        decreases history.len() - at,
    {
        at = at + 1;
    }
    proof {
        let views = item_views(history@);
        assert forall|j: int| 0 <= j < at implies !unpinned_text(text@)(#[trigger] views[j]) by {
            assert(views[j] == history@[j]@);
        }
        lemma_first_where_is(views, unpinned_text(text@), at as int);
    }
    at
}

fn first_with_id(history: &Vec<ClipboardItem>, id: &str) -> (at: usize)
    ensures
        at == first_where(item_views(history@), has_id(id@)),
        at <= history.len(),
{
    let mut at: usize = 0;
    while at < history.len() && !str_equal(history[at].id.as_str(), id)
        invariant
            at <= history.len(),
            forall|j: int| 0 <= j < at ==> !has_id(id@)(#[trigger] history@[j]@),
        decreases history.len() - at,
    {
        at = at + 1;
    }
    proof {
        let views = item_views(history@);
        assert forall|j: int| 0 <= j < at implies !has_id(id@)(#[trigger] views[j]) by {
            assert(views[j] == history@[j]@);
        }
        lemma_first_where_is(views, has_id(id@), at as int);
    }
    at
}

fn count_unpinned(history: &Vec<ClipboardItem>) -> (n: usize)
    ensures
        n == count_where(item_views(history@), unpinned()),
{
    let ghost views = item_views(history@);
    let mut n: usize = 0;
    let mut at: usize = 0;
    assert(views.skip(0) =~= views);
    while at < history.len()
        invariant
            at <= history.len(),
            n <= at,
            views == item_views(history@),
            n + count_where(views.skip(at as int), unpinned()) == count_where(views, unpinned()),
        decreases history.len() - at,
    {
        proof {
            lemma_views_skip(views, at as int);
            assert(views[at as int] == history@[at as int]@);
        }
        if !history[at].pinned {
            n = n + 1;
        }
        at = at + 1;
    }
    n
}

fn last_unpinned(history: &Vec<ClipboardItem>) -> (at: usize)
    requires
        count_where(item_views(history@), unpinned()) > 0,
    ensures
        at < history.len(),
        !history@[at as int].pinned,
        forall|k: int| at < k < history.len() ==> history@[k].pinned,
{
    let mut at: usize = history.len();
    loop
        invariant
            at <= history.len(),
            forall|k: int| at <= k < history.len() ==> history@[k].pinned,
            count_where(item_views(history@), unpinned()) > 0,
        decreases at,
    {
        proof {
            if at == 0 {
                let views = item_views(history@);
                assert forall|j: int| 0 <= j < views.len() implies !unpinned()(
                    #[trigger] views[j],
                ) by {
                    assert(views[j] == history@[j]@);
                }
                lemma_first_where_is(views, unpinned(), views.len() as int);
                lemma_count_where(views, unpinned());
            }
        }
        at = at - 1;
        if !history[at].pinned {
            return at;
        }
    }
}

/// The digest of a text, by the standard library's default hasher.
pub fn hash_text(text: &str) -> (digest: u64)
    ensures
        digest == text_digest(text@),
{
    let mut hasher = DefaultHasher::new();
    hasher.write(text.as_bytes());
    let end: [u8; 1] = [0xff];
    hasher.write(end.as_slice());
    proof {
        assert(end@ =~= seq![0xffu8]);
        assert(hasher@ =~= seq![vstd::utf8::encode_utf8(text@), seq![0xffu8]]);
    }
    hasher.finish()
}

impl RawImage {
    /// The digest of the pixels, by the standard library's default hasher.
    pub fn content_hash(&self) -> (digest: u64)
        ensures
            digest == pixel_digest(self.bytes@),
    {
        let mut hasher = DefaultHasher::new();
        hasher.write(self.bytes.as_slice());
        proof {
            assert(hasher@ =~= seq![self.bytes@]);
        }
        hasher.finish()
    }
}

impl ClipboardManager {
    /// A manager with an empty history and nothing to suppress.
    pub fn new() -> (manager: Self)
        ensures
            manager@ == ManagerView::empty(),
    {
        let manager = ClipboardManager {
            history: Vec::with_capacity(MAX_HISTORY_SIZE),
            last_pasted_text: None,
            last_pasted_image_hash: None,
            last_added_text_hash: None,
        };
        assert(manager@.history =~= Seq::<ItemView>::empty());
        manager
    }

    /// Decides on a text that is not blank, by the digest given for it, and
    /// removes the older entry that a new one would duplicate.
    pub fn admit_text(&mut self, text: &str, text_hash: u64) -> (owed: bool)
        ensures
            final(self)@ == old(self)@.admit_text(text@, text_hash).0,
            owed == old(self)@.admit_text(text@, text_hash).1,
    {
        match self.last_added_text_hash {
            Some(last) => {
                if last == text_hash {
                    return false;
                }
            },
            None => {},
        }
        let pasted = match &self.last_pasted_text {
            Some(own) => str_equal(own.as_str(), text),
            None => false,
        };
        if pasted {
            self.last_pasted_text = None;
            return false;
        }
        let top = first_unpinned(&self.history);
        if top < self.history.len() {
            assert(item_views(self.history@)[top as int] == self.history@[top as int]@);
            if self.history[top].holds_text(text) {
                self.last_added_text_hash = Some(text_hash);
                return false;
            }
        }
        let duplicate = first_unpinned_text(&self.history, text);
        if duplicate < self.history.len() {
            proof {
                lemma_views_remove(self.history@, duplicate as int);
            }
            let _ = self.history.remove(duplicate);
        }
        self.last_added_text_hash = Some(text_hash);
        true
    }

    /// Decides on an image by its content hash.
    pub fn admit_image(&mut self, hash: u64) -> (owed: bool)
        ensures
            final(self)@ == old(self)@.admit_image(hash).0,
            owed == old(self)@.admit_image(hash).1,
    {
        match self.last_pasted_image_hash {
            Some(own) => {
                if own == hash {
                    self.last_pasted_image_hash = None;
                    return false;
                }
            },
            None => {},
        }
        let top = first_unpinned(&self.history);
        if top < self.history.len() {
            assert(item_views(self.history@)[top as int] == self.history@[top as int]@);
            match self.history[top].image_hash() {
                Some(known) => {
                    if known == hash {
                        return false;
                    }
                },
                None => {},
            }
        }
        true
    }

    /// Puts an entry before the most recent unpinned one and evicts the
    /// least recent unpinned entries beyond capacity.
    pub fn insert_item(&mut self, item: ClipboardItem)
        ensures
            final(self)@ == old(self)@.with_item(item@),
    {
        let ghost target = stored(self@.history, item@);
        let at = first_unpinned(&self.history);
        proof {
            lemma_views_insert(self.history@, at as int, item);
        }
        self.history.insert(at, item);
        assert(item_views(self.history@) == inserted(old(self)@.history, item@));
        let mut unpinned_count = count_unpinned(&self.history);
        while unpinned_count > MAX_HISTORY_SIZE
            invariant
                unpinned_count == count_where(item_views(self.history@), unpinned()),
                trimmed(item_views(self.history@)) == target,
                self.last_pasted_text == old(self).last_pasted_text,
                self.last_pasted_image_hash == old(self).last_pasted_image_hash,
                self.last_added_text_hash == old(self).last_added_text_hash,
            decreases unpinned_count,
        {
            let last = last_unpinned(&self.history);
            proof {
                let views = item_views(self.history@);
                assert(views[last as int] == self.history@[last as int]@);
                assert forall|k: int| last < k < views.len() implies !unpinned()(
                    #[trigger] views[k],
                ) by {
                    assert(views[k] == self.history@[k]@);
                }
                lemma_retain_remove_last(
                    views,
                    unpinned(),
                    MAX_HISTORY_SIZE as nat,
                    last as int,
                );
                lemma_count_remove(views, unpinned(), last as int);
                lemma_views_remove(self.history@, last as int);
            }
            let _ = self.history.remove(last);
            unpinned_count = unpinned_count - 1;
        }
        proof {
            lemma_retain_all(item_views(self.history@), unpinned(), MAX_HISTORY_SIZE as nat);
        }
    }

    /// Takes a text into the history, unless it is blank, repeats the text
    /// ingested last, was pasted by the manager itself, or is the most
    /// recent unpinned entry already.
    pub fn add_text(&mut self, text: String) -> (added: Option<ClipboardItem>)
        ensures
            old(self)@.ingest_text(text@, text_digest(text@)).1 <==> added is Some,
            added matches Some(item) ==> item@ == text_item(
                item@.id,
                item@.timestamp,
                text@,
            ) && is_uuid_v4_text(item@.id) && item@.timestamp.is_valid(),
            final(self)@ == match added {
                Some(item) => old(self)@.add_text(text@, text_digest(text@), item@),
                None => old(self)@.ingest_text(text@, text_digest(text@)).0,
            },
    {
        if text_is_blank(text.as_str()) {
            return None;
        }
        let text_hash = hash_text(text.as_str());
        if !self.admit_text(text.as_str(), text_hash) {
            return None;
        }
        let item = ClipboardItem::new_text(text);
        self.insert_item(item.clone());
        Some(item)
    }

    /// Takes an image into the history, unless the manager pasted it itself,
    /// it is the most recent unpinned entry already, or it cannot be
    /// encoded.
    pub fn add_image(&mut self, image: RawImage, hash: u64) -> (added: Option<ClipboardItem>)
        ensures
            added is Some <==> old(self)@.admit_image(hash).1 && encoded_image(
                image.width,
                image.height,
                image.bytes@,
            ) is Some,
            added matches Some(item) ==> item@ == image_item(
                item@.id,
                item@.timestamp,
                encoded_image(image.width, image.height, image.bytes@)->0,
                image.width as u32,
                image.height as u32,
                Some(hash),
            ) && item@.image_hash() == Some(hash) && is_uuid_v4_text(item@.id)
                && item@.timestamp.is_valid(),
            final(self)@ == match added {
                Some(item) => old(self)@.add_image(hash, item@),
                None => old(self)@.admit_image(hash).0,
            },
    {
        if !self.admit_image(hash) {
            return None;
        }
        if image.width > u32::MAX as usize || image.height > u32::MAX as usize {
            return None;
        }
        let width = image.width as u32;
        let height = image.height as u32;
        assert(width * height <= 0x1_0000_0000_0000_0000 && 4 * width * height == (width
            * height) * 4) by (nonlinear_arith)
            requires
                width <= 0xffff_ffff,
                height <= 0xffff_ffff,
        ;
        let area: u128 = width as u128 * height as u128;
        if image.bytes.len() as u128 != area * 4 {
            return None;
        }
        let png = match encode_png(width, height, image.bytes.as_slice()) {
            Some(png) => png,
            None => {
                return None;
            },
        };
        if png.len() / 3 >= usize::MAX / 4 {
            return None;
        }
        let base64 = encode_base64(png.as_slice());
        let item = ClipboardItem::new_image_with_hash(base64, width, height, hash);
        self.insert_item(item.clone());
        Some(item)
    }

    /// The whole history, in order.
    pub fn get_history(&self) -> (items: Vec<ClipboardItem>)
        ensures
            item_views(items@) == self@.history,
    {
        let items = self.history.clone();
        assert(item_views(items@) =~= item_views(self.history@));
        items
    }

    /// The first entry with this identifier.
    pub fn get_item(&self, id: &str) -> (found: Option<&ClipboardItem>)
        ensures
            match found {
                Some(item) => self@.position(id@) < self@.history.len() && item@
                    == self@.history[self@.position(id@)],
                None => self@.position(id@) == self@.history.len(),
            },
    {
        let at = first_with_id(&self.history, id);
        if at < self.history.len() {
            assert(item_views(self.history@)[at as int] == self.history@[at as int]@);
            Some(&self.history[at])
        } else {
            None
        }
    }

    /// Removes every unpinned entry.
    pub fn clear(&mut self)
        ensures
            final(self)@ == old(self)@.cleared(),
    {
        let ghost views = item_views(self.history@);
        let mut kept: Vec<ClipboardItem> = Vec::new();
        let mut at: usize = 0;
        assert(views.skip(0) =~= views);
        assert(item_views(kept@) =~= Seq::<ItemView>::empty());
        while at < self.history.len()
            invariant
                at <= self.history.len(),
                views == item_views(self.history@),
                *self == *old(self),
                item_views(kept@) + select(views.skip(at as int), pinned()) == select(
                    views,
                    pinned(),
                ),
            decreases self.history.len() - at,
        {
            proof {
                lemma_views_skip(views, at as int);
                assert(views[at as int] == self.history@[at as int]@);
            }
            if self.history[at].pinned {
                let ghost before = item_views(kept@);
                let copy = self.history[at].clone();
                kept.push(copy);
                assert(item_views(kept@) =~= before.push(views[at as int]));
                assert(before.push(views[at as int]) + select(views.skip(at + 1), pinned())
                    =~= before + (seq![views[at as int]] + select(views.skip(at + 1), pinned())));
            }
            at = at + 1;
        }
        assert(views.skip(at as int) =~= Seq::<ItemView>::empty());
        assert(item_views(kept@) =~= select(views, pinned()));
        self.history = kept;
    }

    /// Removes every entry with this identifier, pinned or not.
    pub fn remove_item(&mut self, id: &str)
        ensures
            final(self)@ == old(self)@.without_id(id@),
    {
        let ghost views = item_views(self.history@);
        let mut kept: Vec<ClipboardItem> = Vec::new();
        let mut at: usize = 0;
        assert(views.skip(0) =~= views);
        assert(item_views(kept@) =~= Seq::<ItemView>::empty());
        while at < self.history.len()
            invariant
                at <= self.history.len(),
                views == item_views(self.history@),
                *self == *old(self),
                item_views(kept@) + select(views.skip(at as int), lacks_id(id@)) == select(
                    views,
                    lacks_id(id@),
                ),
            decreases self.history.len() - at,
        {
            proof {
                lemma_views_skip(views, at as int);
                assert(views[at as int] == self.history@[at as int]@);
            }
            if !str_equal(self.history[at].id.as_str(), id) {
                let ghost before = item_views(kept@);
                let copy = self.history[at].clone();
                kept.push(copy);
                assert(item_views(kept@) =~= before.push(views[at as int]));
                assert(before.push(views[at as int]) + select(views.skip(at + 1), lacks_id(id@))
                    =~= before + (seq![views[at as int]] + select(
                    views.skip(at + 1),
                    lacks_id(id@),
                )));
            }
            at = at + 1;
        }
        assert(views.skip(at as int) =~= Seq::<ItemView>::empty());
        assert(item_views(kept@) =~= select(views, lacks_id(id@)));
        self.history = kept;
    }

    /// Flips the pin of the first entry with this identifier and hands back
    /// the entry as it then is. The entry keeps its place.
    pub fn toggle_pin(&mut self, id: &str) -> (changed: Option<ClipboardItem>)
        ensures
            final(self)@ == old(self)@.toggled(id@),
            match changed {
                Some(item) => old(self)@.position(id@) < old(self)@.history.len() && item@
                    == flipped(old(self)@.history[old(self)@.position(id@)]),
                None => old(self)@.position(id@) == old(self)@.history.len(),
            },
    {
        let at = first_with_id(&self.history, id);
        if at >= self.history.len() {
            return None;
        }
        let ghost before = self.history@;
        let mut item = self.history.remove(at);
        item.pinned = !item.pinned;
        let copy = item.clone();
        self.history.insert(at, item);
        proof {
            assert(item_views(before)[at as int] == before[at as int]@);
            assert(item_views(self.history@) =~= item_views(before).update(
                at as int,
                flipped(item_views(before)[at as int]),
            ));
        }
        Some(copy)
    }

    /// Arms the suppression for an entry that is about to be written to the
    /// clipboard.
    pub fn mark_as_pasted(&mut self, item: &ClipboardItem)
        ensures
            final(self)@ == old(self)@.marked_as_pasted(item@),
    {
        match &item.content {
            ClipboardContent::Text(text) => {
                self.last_pasted_text = Some(text.clone());
                self.last_pasted_image_hash = None;
            },
            ClipboardContent::Image { .. } => {
                match item.image_hash() {
                    Some(hash) => {
                        self.last_pasted_image_hash = Some(hash);
                    },
                    None => {},
                }
                self.last_pasted_text = None;
            },
        }
    }

    /// Arms the suppression for a text that is to stay out of the history:
    /// it is turned away both as pasted and as ingested last.
    pub fn mark_text_as_pasted(&mut self, text: &str)
        ensures
            final(self)@ == old(self)@.marked_text(text@, text_digest(text@)),
    {
        self.last_pasted_text = Some(text.to_owned());
        self.last_added_text_hash = Some(hash_text(text));
    }
}

impl Default for ClipboardManager {
    fn default() -> (manager: Self)
        ensures
            manager@ == ManagerView::empty(),
    {
        Self::new()
    }
}

} // verus!
