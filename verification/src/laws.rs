//! What holds of the manager and of the injection chain across calls.

use vstd::prelude::*;
use crate::history::{
    distinct_texts, flipped, Ingestion, has_id, inserted, lacks_id, pinned, stored, texts_unique, unpinned,
    unpinned_text, without_duplicate, ManagerView, MAX_HISTORY_SIZE,
};
use crate::injection::{
    pending, ChainView, EventView, InjectionAction, Stage, Strategy,
};
use crate::item::ItemView;
use crate::sequences::{
    count_where, first_where, lemma_count_insert, lemma_count_one, lemma_count_remove,
    lemma_count_where,
    lemma_first_where, lemma_first_where_is, lemma_retain_all, lemma_retain_count,
    lemma_retain_first_where, lemma_retain_pairwise, lemma_retain_select, lemma_select,
    lemma_select_count, lemma_select_insert, lemma_select_pairwise, lemma_select_remove, select,
};
use crate::text::is_blank;

verus! {

/// A stored unpinned entry is the most recent unpinned entry of the history
/// it was stored in, and stands where the most recent one stood before.
pub proof fn lemma_stored_top(history: Seq<ItemView>, item: ItemView)
    requires
        !item.pinned,
    ensures
        first_where(stored(history, item), unpinned()) == first_where(history, unpinned()),
        first_where(history, unpinned()) < stored(history, item).len(),
        stored(history, item)[first_where(history, unpinned())] == item,
{
    lemma_first_where(history, unpinned());
    let at = first_where(history, unpinned());
    let grown = inserted(history, item);
    assert forall|j: int| 0 <= j < at implies !unpinned()(#[trigger] grown[j]) by {
        assert(grown[j] == history[j]);
    }
    assert(grown[at] == item);
    lemma_first_where_is(grown, unpinned(), at);
    lemma_retain_first_where(grown, unpinned(), MAX_HISTORY_SIZE as nat);
}

/// A stored entry lands immediately before the entry that was the most
/// recent unpinned one, and the entries before that place stay as they are.
pub proof fn law_insertion_point(history: Seq<ItemView>, item: ItemView)
    requires
        !item.pinned,
    ensures
        ({
            let at = first_where(history, unpinned());
            &&& 0 <= at <= history.len()
            &&& at < stored(history, item).len()
            &&& stored(history, item)[at] == item
            &&& forall|i: int| 0 <= i < at ==> #[trigger] stored(history, item)[i] == history[i]
            &&& forall|i: int| 0 <= i < at ==> (#[trigger] history[i]).pinned
        }),
{
    lemma_stored_top(history, item);
    lemma_first_where(history, unpinned());
    let at = first_where(history, unpinned());
    let grown = inserted(history, item);
    assert forall|j: int| 0 <= j < at implies !unpinned()(#[trigger] grown[j]) by {
        assert(grown[j] == history[j]);
    }
    lemma_first_where_is(grown, unpinned(), at);
    lemma_retain_first_where(grown, unpinned(), MAX_HISTORY_SIZE as nat);
    assert forall|i: int| 0 <= i < at implies #[trigger] stored(history, item)[i]
        == history[i] by {
        assert(grown[i] == history[i]);
    }
    assert forall|i: int| 0 <= i < at implies (#[trigger] history[i]).pinned by {
        assert(!unpinned()(history[i]));
    }
}

/// Storing an entry changes the pinned entries by that entry alone: none is
/// evicted and none changes place among them. After it, no more unpinned
/// entries are held than the capacity allows.
pub proof fn law_storing_keeps_pinned_entries(history: Seq<ItemView>, item: ItemView)
    ensures
        select(stored(history, item), pinned()) == select(inserted(history, item), pinned()),
        !item.pinned ==> select(stored(history, item), pinned()) == select(history, pinned()),
        count_where(stored(history, item), unpinned()) <= MAX_HISTORY_SIZE,
        stored(history, item).len() <= history.len() + 1,
{
    lemma_first_where(history, unpinned());
    let at = first_where(history, unpinned());
    let grown = inserted(history, item);
    lemma_retain_select(grown, unpinned(), pinned(), MAX_HISTORY_SIZE as nat);
    lemma_retain_count(grown, unpinned(), MAX_HISTORY_SIZE as nat);
    if !item.pinned {
        lemma_select_insert(history, pinned(), at, item);
    }
}

/// Removing the older unpinned entry that holds a text leaves the pinned
/// entries as they are and does not add to the unpinned ones.
pub proof fn lemma_without_duplicate(history: Seq<ItemView>, text: Seq<char>)
    ensures
        select(without_duplicate(history, text), pinned()) == select(history, pinned()),
        count_where(without_duplicate(history, text), unpinned()) <= count_where(
            history,
            unpinned(),
        ),
        without_duplicate(history, text).len() <= history.len(),
        first_where(history, unpinned_text(text)) < history.len() ==> without_duplicate(
            history,
            text,
        ).len() + 1 == history.len() && count_where(without_duplicate(history, text), unpinned())
            + 1 == count_where(history, unpinned()),
{
    lemma_first_where(history, unpinned_text(text));
    let at = first_where(history, unpinned_text(text));
    if at < history.len() {
        lemma_select_remove(history, pinned(), at);
        lemma_count_remove(history, unpinned(), at);
    }
}

/// A text that was just added is turned away when it is seen again at once,
/// and the second sight changes nothing. This holds wherever the first
/// sight was not taken for the manager's own paste.
pub proof fn law_repeated_text_is_turned_away(
    state: ManagerView,
    text: Seq<char>,
    digest: u64,
    item: ItemView,
)
    requires
        state.last_pasted_text != Some(text),
    ensures
        ({
            let after = state.add_text(text, digest, item);
            after.ingest_text(text, digest) == (after, false)
        }),
{
}

/// A text that no unpinned entry holds, seen while the history has room,
/// makes the history longer by exactly one entry.
pub proof fn law_new_text_grows_history_by_one(
    state: ManagerView,
    text: Seq<char>,
    digest: u64,
    item: ItemView,
)
    requires
        !is_blank(text),
        state.last_added_text_hash != Some(digest),
        state.last_pasted_text != Some(text),
        first_where(state.history, unpinned_text(text)) == state.history.len(),
        count_where(state.history, unpinned()) < MAX_HISTORY_SIZE,
    ensures
        state.ingest_text(text, digest).1,
        state.add_text(text, digest, item).history == inserted(state.history, item),
        state.add_text(text, digest, item).history.len() == state.history.len() + 1,
{
    lemma_first_where(state.history, unpinned());
    lemma_first_where(state.history, unpinned_text(text));
    let top = state.top();
    if top < state.history.len() && state.history[top].holds_text(text) {
        assert(unpinned_text(text)(state.history[top]));
    }
    let grown = inserted(state.history, item);
    lemma_count_insert(state.history, unpinned(), top, item);
    lemma_retain_all(grown, unpinned(), MAX_HISTORY_SIZE as nat);
}

/// A blank text changes nothing, whatever the state.
pub proof fn law_blank_text_changes_nothing(
    state: ManagerView,
    text: Seq<char>,
    digest: u64,
    item: ItemView,
)
    requires
        is_blank(text),
    ensures
        !state.ingest_text(text, digest).1,
        state.add_text(text, digest, item) == state,
{
}

/// A text of spaces only is blank, and so is the empty text.
pub proof fn law_spaces_are_blank(text: Seq<char>)
    requires
        forall|i: int| 0 <= i < text.len() ==> text[i] == ' ',
    ensures
        is_blank(text),
{
}

/// Adding a text never evicts a pinned entry nor changes the order of the
/// pinned entries, and where it stores an entry it leaves no more unpinned
/// entries than the capacity allows.
pub proof fn law_adding_text_keeps_pinned_entries(
    state: ManagerView,
    text: Seq<char>,
    digest: u64,
    item: ItemView,
)
    requires
        !item.pinned,
    ensures
        select(state.add_text(text, digest, item).history, pinned()) == select(
            state.history,
            pinned(),
        ),
        state.ingest_text(text, digest).1 ==> count_where(
            state.add_text(text, digest, item).history,
            unpinned(),
        ) <= MAX_HISTORY_SIZE,
        !state.ingest_text(text, digest).1 ==> state.add_text(text, digest, item).history
            == state.history,
{
    if state.ingest_text(text, digest).1 {
        let thinned = without_duplicate(state.history, text);
        lemma_without_duplicate(state.history, text);
        law_storing_keeps_pinned_entries(thinned, item);
    }
}

/// However many texts are added, one after the other, the pinned entries
/// stay as they are, each in its place among them, and a history that was
/// within capacity stays within it.
pub proof fn law_pinned_entries_outlast_ingestion(state: ManagerView, batch: Seq<Ingestion>)
    requires
        forall|k: int| 0 <= k < batch.len() ==> !(#[trigger] batch[k]).item.pinned,
    ensures
        select(state.add_texts(batch).history, pinned()) == select(state.history, pinned()),
        count_where(state.history, unpinned()) <= MAX_HISTORY_SIZE ==> count_where(
            state.add_texts(batch).history,
            unpinned(),
        ) <= MAX_HISTORY_SIZE,
    decreases batch.len(),
{
    if batch.len() > 0 {
        let before = batch.drop_last();
        assert forall|k: int| 0 <= k < before.len() implies !(#[trigger] before[k]).item.pinned by {
            assert(before[k] == batch[k]);
        }
        law_pinned_entries_outlast_ingestion(state, before);
        law_adding_text_keeps_pinned_entries(
            state.add_texts(before),
            batch.last().text,
            batch.last().digest,
            batch.last().item,
        );
    }
}

/// Adding an image never evicts a pinned entry nor changes the order of the
/// pinned entries, and where it stores an entry it leaves no more unpinned
/// entries than the capacity allows.
pub proof fn law_adding_image_keeps_pinned_entries(state: ManagerView, hash: u64, item: ItemView)
    requires
        !item.pinned,
    ensures
        select(state.add_image(hash, item).history, pinned()) == select(state.history, pinned()),
        state.admit_image(hash).1 ==> count_where(state.add_image(hash, item).history, unpinned())
            <= MAX_HISTORY_SIZE,
        !state.admit_image(hash).1 ==> state.add_image(hash, item).history == state.history,
{
    if state.admit_image(hash).1 {
        law_storing_keeps_pinned_entries(state.history, item);
    }
}

/// A text that an older unpinned entry holds, when it is taken in again,
/// moves to the front: the new entry is the most recent unpinned one, the
/// older entry is gone, and the history is no longer than before. Where the
/// history was within capacity, nothing else changes: every other entry
/// stays, in the order they had, and the history has the length it had.
/// Beyond capacity the least recent unpinned entries are evicted as well.
pub proof fn law_known_text_moves_to_front(
    state: ManagerView,
    text: Seq<char>,
    digest: u64,
    item: ItemView,
)
    requires
        state.ingest_text(text, digest).1,
        first_where(state.history, unpinned_text(text)) < state.history.len(),
        !item.pinned,
    ensures
        ({
            let after = state.add_text(text, digest, item);
            &&& after.history == stored(without_duplicate(state.history, text), item)
            &&& after.top() < after.history.len()
            &&& after.history[after.top()] == item
            &&& after.history.len() <= state.history.len()
            &&& count_where(state.history, unpinned()) <= MAX_HISTORY_SIZE ==> after.history
                == inserted(without_duplicate(state.history, text), item)
                && after.history.len() == state.history.len()
        }),
{
    let thinned = without_duplicate(state.history, text);
    lemma_without_duplicate(state.history, text);
    lemma_stored_top(thinned, item);
    lemma_first_where(thinned, unpinned());
    let grown = inserted(thinned, item);
    lemma_count_insert(thinned, unpinned(), first_where(thinned, unpinned()), item);
    lemma_retain_count(grown, unpinned(), MAX_HISTORY_SIZE as nat);
    if count_where(state.history, unpinned()) <= MAX_HISTORY_SIZE {
        lemma_retain_all(grown, unpinned(), MAX_HISTORY_SIZE as nat);
    }
}

/// Where no two unpinned entries hold the same text, a text that was added
/// is held by exactly one unpinned entry: the new one.
pub proof fn law_added_text_is_held_once(
    state: ManagerView,
    text: Seq<char>,
    digest: u64,
    item: ItemView,
)
    requires
        state.ingest_text(text, digest).1,
        texts_unique(state.history),
        !item.pinned,
        item.holds_text(text),
    ensures
        count_where(state.add_text(text, digest, item).history, unpinned_text(text)) == 1,
{
    law_adding_text_keeps_texts_unique(state, text, digest, item);
    let thinned = without_duplicate(state.history, text);
    lemma_stored_top(thinned, item);
    lemma_first_where(thinned, unpinned());
    let after = state.add_text(text, digest, item).history;
    let at = first_where(thinned, unpinned());
    assert(after == stored(thinned, item));
    assert forall|j: int| 0 <= j < after.len() && j != at implies !unpinned_text(text)(
        #[trigger] after[j],
    ) by {
        if unpinned_text(text)(after[j]) {
            if j < at {
                assert(distinct_texts()(after[j], after[at]));
            } else {
                assert(distinct_texts()(after[at], after[j]));
            }
        }
    }
    lemma_count_one(after, unpinned_text(text), at);
}

/// The text of an entry that was marked as pasted is turned away when it is
/// seen next.
pub proof fn law_pasted_text_is_turned_away(
    state: ManagerView,
    pasted: ItemView,
    text: Seq<char>,
    digest: u64,
)
    requires
        pasted.holds_text(text),
    ensures
        !state.marked_as_pasted(pasted).ingest_text(text, digest).1,
{
}

/// The suppression of a pasted text is used up by the sight it turns away:
/// after another text was taken in, the pasted text is taken in again. This
/// holds where the pasted text was not also the text ingested last, and the
/// two texts differ in their digests.
pub proof fn law_text_suppression_is_single_use(
    state: ManagerView,
    pasted: ItemView,
    text: Seq<char>,
    digest: u64,
    other: Seq<char>,
    other_digest: u64,
    other_item: ItemView,
)
    requires
        pasted.holds_text(text),
        !is_blank(text),
        state.last_added_text_hash != Some(digest),
        other != text,
        other_digest != digest,
        !other_item.pinned,
        other_item.holds_text(other),
        state.marked_as_pasted(pasted).ingest_text(text, digest).0.ingest_text(
            other,
            other_digest,
        ).1,
    ensures
        ({
            let seen = state.marked_as_pasted(pasted).ingest_text(text, digest).0;
            let later = seen.add_text(other, other_digest, other_item);
            later.ingest_text(text, digest).1
        }),
{
    let seen = state.marked_as_pasted(pasted).ingest_text(text, digest).0;
    assert(seen.last_pasted_text is None);
    let thinned = without_duplicate(seen.history, other);
    lemma_stored_top(thinned, other_item);
}

/// The image of an entry that was marked as pasted is turned away when it
/// is seen next, and that uses the suppression up.
pub proof fn law_pasted_image_is_turned_away(state: ManagerView, pasted: ItemView, hash: u64)
    requires
        pasted.image_hash() == Some(hash),
    ensures
        !state.marked_as_pasted(pasted).admit_image(hash).1,
        state.marked_as_pasted(pasted).admit_image(hash).0.last_pasted_image_hash is None,
{
}

/// After the sight that the suppression of a pasted image turned away, and
/// after another image was taken in, the pasted image is taken in again.
pub proof fn law_image_suppression_is_single_use(
    state: ManagerView,
    pasted: ItemView,
    hash: u64,
    other_hash: u64,
    other_item: ItemView,
)
    requires
        pasted.image_hash() == Some(hash),
        other_hash != hash,
        !other_item.pinned,
        other_item.image_hash() == Some(other_hash),
        state.marked_as_pasted(pasted).admit_image(hash).0.admit_image(other_hash).1,
    ensures
        ({
            let seen = state.marked_as_pasted(pasted).admit_image(hash).0;
            let later = seen.add_image(other_hash, other_item);
            later.admit_image(hash).1
        }),
{
    let seen = state.marked_as_pasted(pasted).admit_image(hash).0;
    lemma_stored_top(seen.history, other_item);
}

/// Toggling the pin of an entry twice gives back the state it started
/// from: the entry has its pin and its place again.
pub proof fn law_toggle_twice_restores(state: ManagerView, id: Seq<char>)
    ensures
        state.toggled(id).toggled(id) == state,
        state.toggled(id).history.len() == state.history.len(),
        state.toggled(id).position(id) == state.position(id),
{
    lemma_first_where(state.history, has_id(id));
    let at = state.position(id);
    if at < state.history.len() {
        let once = state.toggled(id).history;
        assert forall|j: int| 0 <= j < at implies !has_id(id)(#[trigger] once[j]) by {
            assert(once[j] == state.history[j]);
        }
        assert(has_id(id)(once[at]));
        lemma_first_where_is(once, has_id(id), at);
        assert(once.update(at, flipped(once[at])) =~= state.history);
    }
}

/// Clearing leaves exactly the pinned entries, in the order they had.
pub proof fn law_clear_keeps_exactly_the_pinned(state: ManagerView)
    ensures
        state.cleared().history == select(state.history, pinned()),
        forall|i: int|
            0 <= i < state.cleared().history.len() ==> (#[trigger] state.cleared().history[i]).pinned,
        count_where(state.cleared().history, unpinned()) == 0,
        state.cleared().history.len() == count_where(state.history, pinned()),
{
    let kept = state.cleared().history;
    lemma_select(state.history, pinned());
    assert forall|i: int| 0 <= i < kept.len() implies !unpinned()(#[trigger] kept[i]) by {
        assert(pinned()(kept[i]));
    }
    lemma_first_where_is(kept, unpinned(), kept.len() as int);
    lemma_count_where(kept, unpinned());
}

/// Clearing the history and removing entries by identifier never add to
/// the unpinned entries, and leave unpinned texts distinct where they were.
pub proof fn law_removal_keeps_order(state: ManagerView, id: Seq<char>)
    ensures
        count_where(state.without_id(id).history, unpinned()) <= count_where(
            state.history,
            unpinned(),
        ),
        texts_unique(state.history) ==> texts_unique(state.without_id(id).history)
            && texts_unique(state.cleared().history),
        forall|i: int|
            0 <= i < state.without_id(id).history.len() ==> (
            #[trigger] state.without_id(id).history[i]).id != id,
{
    lemma_select_count(state.history, lacks_id(id), unpinned());
    lemma_select(state.history, lacks_id(id));
    if texts_unique(state.history) {
        lemma_select_pairwise(state.history, lacks_id(id), distinct_texts());
        lemma_select_pairwise(state.history, pinned(), distinct_texts());
    }
}

/// Where no two unpinned entries hold the same text, adding a text leaves
/// it so.
pub proof fn law_adding_text_keeps_texts_unique(
    state: ManagerView,
    text: Seq<char>,
    digest: u64,
    item: ItemView,
)
    requires
        texts_unique(state.history),
        !item.pinned,
        item.holds_text(text),
    ensures
        texts_unique(state.add_text(text, digest, item).history),
{
    if state.ingest_text(text, digest).1 {
        let history = state.history;
        let thinned = without_duplicate(history, text);
        lemma_first_where(history, unpinned_text(text));
        let gone = first_where(history, unpinned_text(text));
        // no unpinned entry of the thinned history holds the text
        assert forall|k: int| 0 <= k < thinned.len() implies !unpinned_text(text)(
            #[trigger] thinned[k],
        ) by {
            if gone < history.len() {
                if k < gone {
                    assert(thinned[k] == history[k]);
                } else {
                    assert(thinned[k] == history[k + 1]);
                    assert(distinct_texts()(history[gone], history[k + 1]));
                }
            } else {
                assert(thinned[k] == history[k]);
            }
        }
        assert(texts_unique(thinned)) by {
            assert forall|i: int, j: int| 0 <= i < j < thinned.len() implies distinct_texts()(
                #[trigger] thinned[i],
                #[trigger] thinned[j],
            ) by {
                let from = if gone < history.len() && i >= gone {
                    i + 1
                } else {
                    i
                };
                let to = if gone < history.len() && j >= gone {
                    j + 1
                } else {
                    j
                };
                assert(thinned[i] == history[from] && thinned[j] == history[to]);
                assert(distinct_texts()(history[from], history[to]));
            }
        }
        lemma_first_where(thinned, unpinned());
        let at = first_where(thinned, unpinned());
        let grown = inserted(thinned, item);
        assert(texts_unique(grown)) by {
            assert forall|i: int, j: int| 0 <= i < j < grown.len() implies distinct_texts()(
                #[trigger] grown[i],
                #[trigger] grown[j],
            ) by {
                let from = if i > at {
                    i - 1
                } else {
                    i
                };
                let to = if j > at {
                    j - 1
                } else {
                    j
                };
                if i == at {
                    assert(grown[j] == thinned[to]);
                    assert(!unpinned_text(text)(thinned[to]));
                } else if j == at {
                    assert(grown[i] == thinned[from]);
                    assert(!unpinned_text(text)(thinned[from]));
                } else {
                    assert(grown[i] == thinned[from] && grown[j] == thinned[to]);
                    assert(distinct_texts()(thinned[from], thinned[to]));
                }
            }
        }
        lemma_retain_pairwise(grown, unpinned(), MAX_HISTORY_SIZE as nat, distinct_texts());
    }
}

/// A chain is consistent when it starts and stays so with every event.
pub proof fn law_chain_stays_consistent(chain: ChainView, event: EventView, native: bool)
    ensures
        ChainView::start(native).consistent(),
        chain.consistent() ==> chain.step(event).consistent(),
{
}

/// The chain fails only after the virtual device and the input library have
/// both failed, in that order, and succeeds as soon as one strategy does. A
/// chain that has ended stays as it is.
pub proof fn law_chain_outcome(chain: ChainView, event: EventView)
    requires
        chain.consistent(),
    ensures
        chain.stage is Failed ==> chain.causes.len() >= 2 && chain.causes[0].strategy
            == Strategy::VirtualDevice && chain.causes[1].strategy == Strategy::InputLibrary,
        chain.stage is Trying ==> chain.step(EventView::Succeeded).stage == Stage::Succeeded
            && chain.step(EventView::Succeeded).causes == chain.causes,
        chain.stage is Succeeded || chain.stage is Failed ==> chain.step(event) == chain,
        pending(chain.step(event).stage) == InjectionAction::Attempt(Strategy::KeyCommand)
            ==> chain.step(event).causes.len() == 2,
{
}

/// Where the virtual device fails and the input library succeeds, the paste
/// succeeds, and the key command is never asked for.
pub proof fn law_second_strategy_suffices(detail: Seq<char>)
    ensures
        ({
            let settling = ChainView::start(true);
            let first = settling.step(EventView::Settled);
            let second = first.step(EventView::Failed { detail });
            let done = second.step(EventView::Succeeded);
            &&& pending(settling.stage) is Settle
            &&& pending(first.stage) == InjectionAction::Attempt(Strategy::VirtualDevice)
            &&& pending(second.stage) == InjectionAction::Attempt(Strategy::InputLibrary)
            &&& pending(done.stage) == InjectionAction::Succeed
        }),
{
}

} // verus!
