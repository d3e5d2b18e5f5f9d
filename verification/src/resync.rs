//! Seeding a situation pack a second time: a model of the pack's stored items
//! and of the changes one sync makes to them, and the law that a second sync
//! of an unchanged configuration changes nothing.

use vstd::prelude::*;

use crate::seeder::{last_with_hash, last_with_text, row_hash, row_text, still_desired, text_hash, SeedRow};
use crate::text::trimmed;

verus! {

/// An item of a pack as the store holds it: its identifier, content hash,
/// whether it is active, and its text.
pub struct StoredItem {
    pub id: u128,
    pub hash: Option<Seq<char>>,
    pub active: bool,
    pub text: Option<Seq<char>>,
}

/// A stored row as an item.
pub open spec fn stored_item(r: SeedRow) -> StoredItem {
    StoredItem { id: r.id, hash: row_hash(r), active: r.is_active, text: row_text(r) }
}

/// The stored rows as items.
pub open spec fn stored_items(rows: Seq<SeedRow>) -> Seq<StoredItem> {
    rows.map_values(|r: SeedRow| stored_item(r))
}

/// The last item with hash `h`.
pub open spec fn last_hashed(items: Seq<StoredItem>, h: Seq<char>) -> Option<int>
    decreases items.len(),
{
    if items.len() == 0 {
        None
    } else if items.last().hash == Some(h) {
        Some(items.len() - 1)
    } else {
        last_hashed(items.drop_last(), h)
    }
}

/// The last item with text `t`.
pub open spec fn last_texted(items: Seq<StoredItem>, t: Seq<char>) -> Option<int>
    decreases items.len(),
{
    if items.len() == 0 {
        None
    } else if items.last().text == Some(t) {
        Some(items.len() - 1)
    } else {
        last_texted(items.drop_last(), t)
    }
}

/// Looking rows up by hash or text is looking their items up, and a row
/// stays desired when its item does.
pub proof fn lemma_stored_items_lookup(rows: Seq<SeedRow>, h: Seq<char>, t: Seq<char>, seen: Seq<Seq<char>>)
    ensures
        last_with_hash(rows, h) == last_hashed(stored_items(rows), h),
        last_with_text(rows, t) == last_texted(stored_items(rows), t),
        forall|i: int|
            0 <= i < rows.len() ==> #[trigger] still_desired(rows[i], seen) == stays_desired(
                stored_items(rows)[i],
                seen,
            ),
    decreases rows.len(),
{
    if rows.len() > 0 {
        assert(stored_items(rows.drop_last()) =~= stored_items(rows).drop_last());
        lemma_stored_items_lookup(rows.drop_last(), h, t, seen);
    }
}

/// `last_hashed` finds the last item with the hash, and none when no item
/// has it.
pub proof fn lemma_last_hashed(items: Seq<StoredItem>, h: Seq<char>)
    ensures
        match last_hashed(items, h) {
            Some(i) => 0 <= i < items.len() && items[i].hash == Some(h) && forall|j: int|
                i < j < items.len() ==> #[trigger] items[j].hash != Some(h),
            None => forall|j: int| 0 <= j < items.len() ==> #[trigger] items[j].hash != Some(h),
        },
    decreases items.len(),
{
    if items.len() > 0 {
        lemma_last_hashed(items.drop_last(), h);
        assert forall|j: int| 0 <= j < items.len() - 1 implies #[trigger] items[j] == items.drop_last()[j] by {}
    }
}

/// What one sync does with one configured situation.
pub enum PlannedChange {
    /// Nothing: the text is blank or repeated, or its item is active.
    Keep,
    /// The item at `index` is activated and given `text`.
    Reactivate { index: int, text: Seq<char> },
    /// The item at `index` is given the hash and activated.
    Rehash { index: int, hash: Seq<char> },
    /// A new active item with this text and hash is added.
    Insert { text: Seq<char>, hash: Seq<char> },
}

/// What a sync does with the configured text `raw`, given the hashes `seen`
/// earlier in the configuration: as `SeedSync::classify_situation` decides
/// on the stored rows (see `lemma_stored_items_lookup`).
pub open spec fn situation_change(items: Seq<StoredItem>, seen: Seq<Seq<char>>, raw: Seq<char>) -> PlannedChange {
    let t = trimmed(raw);
    let h = text_hash(t);
    if t.len() == 0 || seen.contains(h) {
        PlannedChange::Keep
    } else {
        match last_hashed(items, h) {
            Some(i) => if !items[i].active {
                PlannedChange::Reactivate { index: i, text: t }
            } else {
                PlannedChange::Keep
            },
            None => match last_texted(items, t) {
                Some(i) => PlannedChange::Rehash { index: i, hash: h },
                None => PlannedChange::Insert { text: t, hash: h },
            },
        }
    }
}

/// The hashes seen once `raw` is considered after `seen`.
pub open spec fn seen_after(seen: Seq<Seq<char>>, raw: Seq<char>) -> Seq<Seq<char>> {
    let t = trimmed(raw);
    let h = text_hash(t);
    if t.len() == 0 || seen.contains(h) {
        seen
    } else {
        seen.push(h)
    }
}

/// The hashes of a configuration's texts, each once, in the order first seen.
pub open spec fn seen_all(texts: Seq<Seq<char>>) -> Seq<Seq<char>>
    decreases texts.len(),
{
    if texts.len() == 0 {
        Seq::empty()
    } else {
        seen_after(seen_all(texts.drop_last()), texts.last())
    }
}

/// What one sync does with each configured text, in order.
pub open spec fn planned_changes(items: Seq<StoredItem>, texts: Seq<Seq<char>>) -> Seq<PlannedChange>
    decreases texts.len(),
{
    if texts.len() == 0 {
        Seq::empty()
    } else {
        planned_changes(items, texts.drop_last()).push(
            situation_change(items, seen_all(texts.drop_last()), texts.last()),
        )
    }
}

/// The items after one change. A new item's identifier is the store's choice;
/// the model does not track it.
pub open spec fn apply_change(items: Seq<StoredItem>, c: PlannedChange) -> Seq<StoredItem> {
    match c {
        PlannedChange::Keep => items,
        PlannedChange::Reactivate { index, text } => items.update(
            index,
            StoredItem { active: true, text: Some(text), ..items[index] },
        ),
        PlannedChange::Rehash { index, hash } => items.update(
            index,
            StoredItem { hash: Some(hash), active: true, ..items[index] },
        ),
        PlannedChange::Insert { text, hash } => items.push(
            StoredItem { id: 0, hash: Some(hash), active: true, text: Some(text) },
        ),
    }
}

/// The items after the changes, in order.
pub open spec fn apply_changes(items: Seq<StoredItem>, cs: Seq<PlannedChange>) -> Seq<StoredItem>
    decreases cs.len(),
{
    if cs.len() == 0 {
        items
    } else {
        apply_change(apply_changes(items, cs.drop_last()), cs.last())
    }
}

/// Whether an item stays active after a sync that saw `seen`.
pub open spec fn stays_desired(item: StoredItem, seen: Seq<Seq<char>>) -> bool {
    match item.hash {
        Some(h) => seen.contains(h),
        None => false,
    }
}

/// The items after one sync of `texts`: the changes, then every item that
/// was active before the sync and whose hash (as read before the sync) was
/// not seen is deactivated.
pub open spec fn after_sync(items: Seq<StoredItem>, texts: Seq<Seq<char>>) -> Seq<StoredItem> {
    let changed = apply_changes(items, planned_changes(items, texts));
    let seen = seen_all(texts);
    Seq::new(
        changed.len(),
        |i: int|
            if i < items.len() && items[i].active && !stays_desired(items[i], seen) {
                StoredItem { active: false, ..changed[i] }
            } else {
                changed[i]
            },
    )
}

proof fn lemma_planned_changes(items: Seq<StoredItem>, texts: Seq<Seq<char>>)
    ensures
        planned_changes(items, texts).len() == texts.len(),
        forall|k: int|
            0 <= k < texts.len() ==> #[trigger] planned_changes(items, texts)[k] == situation_change(
                items,
                seen_all(texts.subrange(0, k)),
                texts[k],
            ),
    decreases texts.len(),
{
    if texts.len() > 0 {
        let init = texts.drop_last();
        lemma_planned_changes(items, init);
        assert forall|k: int| 0 <= k < texts.len() implies #[trigger] planned_changes(items, texts)[k]
            == situation_change(items, seen_all(texts.subrange(0, k)), texts[k]) by {
            if k < init.len() {
                assert(texts.subrange(0, k) =~= init.subrange(0, k));
            } else {
                assert(texts.subrange(0, k) =~= init);
            }
        }
    }
}

proof fn lemma_seen_grows(texts: Seq<Seq<char>>, k: int, h: Seq<char>)
    requires
        0 <= k <= texts.len(),
        seen_all(texts.subrange(0, k)).contains(h),
    ensures
        seen_all(texts).contains(h),
    decreases texts.len() - k,
{
    if k < texts.len() {
        let next = texts.subrange(0, k + 1);
        assert(next.drop_last() =~= texts.subrange(0, k));
        let before = seen_all(texts.subrange(0, k));
        let j = choose|j: int| 0 <= j < before.len() && before[j] == h;
        assert(seen_all(next).contains(h)) by {
            if seen_all(next) != before {
                assert(seen_all(next) == before.push(text_hash(trimmed(texts[k]))));
                assert(seen_all(next)[j] == h);
            }
        }
        lemma_seen_grows(texts, k + 1, h);
    } else {
        assert(texts.subrange(0, k) =~= texts);
    }
}

/// Whether some change reactivates the item at `i`.
pub open spec fn reactivated(cs: Seq<PlannedChange>, i: int) -> bool {
    exists|k: int| 0 <= k < cs.len() && #[trigger] cs[k] == (PlannedChange::Reactivate { index: i, text: cs[k]->Reactivate_text })
}

/// Whether some change gives the item at `i` a hash.
pub open spec fn rehash_of(cs: Seq<PlannedChange>, i: int) -> bool {
    exists|k: int| 0 <= k < cs.len() && #[trigger] cs[k] == (PlannedChange::Rehash { index: i, hash: cs[k]->Rehash_hash })
}

/// Whether some change inserts an item with hash `h`.
pub open spec fn inserts(cs: Seq<PlannedChange>, h: Seq<char>) -> bool {
    exists|k: int| 0 <= k < cs.len() && #[trigger] cs[k] == (PlannedChange::Insert { text: cs[k]->Insert_text, hash: h })
}

proof fn lemma_apply_changes(items: Seq<StoredItem>, cs: Seq<PlannedChange>)
    requires
        forall|k: int|
            0 <= k < cs.len() && #[trigger] cs[k] is Reactivate ==> 0 <= cs[k]->Reactivate_index < items.len(),
        forall|k: int| 0 <= k < cs.len() && #[trigger] cs[k] is Rehash ==> 0 <= cs[k]->Rehash_index < items.len(),
        forall|k1: int, k2: int|
            0 <= k1 < k2 < cs.len() && #[trigger] cs[k1] is Rehash && #[trigger] cs[k2] is Rehash
                ==> cs[k1]->Rehash_index != cs[k2]->Rehash_index,
        forall|k1: int, k2: int|
            0 <= k1 < k2 < cs.len() && #[trigger] cs[k1] is Insert && #[trigger] cs[k2] is Insert
                ==> cs[k1]->Insert_hash != cs[k2]->Insert_hash,
    ensures
        ({
            let a = apply_changes(items, cs);
            &&& a.len() >= items.len()
            &&& forall|j1: int, j2: int|
                items.len() <= j1 < j2 < a.len() ==> #[trigger] a[j1].hash != #[trigger] a[j2].hash
            &&& forall|i: int|
                0 <= i < items.len() ==> (#[trigger] a[i].active <==> (items[i].active || reactivated(cs, i)
                    || rehash_of(cs, i))) && (!rehash_of(cs, i) ==> a[i].hash == items[i].hash)
            &&& forall|k: int|
                0 <= k < cs.len() && #[trigger] cs[k] is Rehash ==> a[cs[k]->Rehash_index].hash == Some(
                    cs[k]->Rehash_hash,
                )
            &&& forall|j: int|
                items.len() <= j < a.len() ==> #[trigger] a[j].active && a[j].hash is Some && inserts(
                    cs,
                    a[j].hash->0,
                )
            &&& forall|h: Seq<char>|
                #[trigger] inserts(cs, h) ==> exists|j: int|
                    items.len() <= j < a.len() && #[trigger] a[j].hash == Some(h)
        }),
    decreases cs.len(),
{
    if cs.len() > 0 {
        let init = cs.drop_last();
        let c = cs.last();
        let last = cs.len() - 1;
        assert forall|k: int| 0 <= k < init.len() implies #[trigger] init[k] == cs[k] by {}
        assert forall|k1: int, k2: int|
            0 <= k1 < k2 < init.len() && #[trigger] init[k1] is Rehash && #[trigger] init[k2] is Rehash
                implies init[k1]->Rehash_index != init[k2]->Rehash_index by {
            assert(init[k1] == cs[k1] && init[k2] == cs[k2]);
        }
        assert forall|k1: int, k2: int|
            0 <= k1 < k2 < init.len() && #[trigger] init[k1] is Insert && #[trigger] init[k2] is Insert
                implies init[k1]->Insert_hash != init[k2]->Insert_hash by {
            assert(init[k1] == cs[k1] && init[k2] == cs[k2]);
        }
        lemma_apply_changes(items, init);
        let prev = apply_changes(items, init);
        let a = apply_changes(items, cs);
        assert(a == apply_change(prev, c));
        assert(cs[last] == c);
        assert forall|i: int| 0 <= i < items.len() implies (#[trigger] a[i].active <==> (items[i].active
            || reactivated(cs, i) || rehash_of(cs, i))) && (!rehash_of(cs, i) ==> a[i].hash == items[i].hash) by {
            assert(prev[i].active <==> (items[i].active || reactivated(init, i) || rehash_of(init, i)));
            assert(!rehash_of(init, i) ==> prev[i].hash == items[i].hash);
            if reactivated(init, i) {
                let k = choose|k: int| 0 <= k < init.len() && #[trigger] init[k] == (PlannedChange::Reactivate { index: i, text: init[k]->Reactivate_text });
                assert(cs[k] == init[k]);
            }
            if reactivated(cs, i) && !reactivated(init, i) {
                let k = choose|k: int| 0 <= k < cs.len() && #[trigger] cs[k] == (PlannedChange::Reactivate { index: i, text: cs[k]->Reactivate_text });
                if k < init.len() {
                    assert(init[k] == cs[k]);
                }
            }
            if rehash_of(init, i) {
                let k = choose|k: int| 0 <= k < init.len() && #[trigger] init[k] == (PlannedChange::Rehash { index: i, hash: init[k]->Rehash_hash });
                assert(cs[k] == init[k]);
            }
            if rehash_of(cs, i) && !rehash_of(init, i) {
                let k = choose|k: int| 0 <= k < cs.len() && #[trigger] cs[k] == (PlannedChange::Rehash { index: i, hash: cs[k]->Rehash_hash });
                if k < init.len() {
                    assert(init[k] == cs[k]);
                }
            }
            if c is Reactivate && c->Reactivate_index == i {
                assert(cs[last] == (PlannedChange::Reactivate { index: i, text: c->Reactivate_text }));
            }
            if c is Rehash && c->Rehash_index == i {
                assert(cs[last] == (PlannedChange::Rehash { index: i, hash: c->Rehash_hash }));
            }
        }
        assert forall|k: int| 0 <= k < cs.len() && #[trigger] cs[k] is Rehash implies a[cs[k]->Rehash_index].hash
            == Some(cs[k]->Rehash_hash) by {
            if k < last {
                assert(init[k] == cs[k]);
                if c is Rehash {
                    assert(cs[k]->Rehash_index != cs[last]->Rehash_index);
                }
            }
        }
        assert forall|h: Seq<char>| #[trigger] inserts(init, h) implies inserts(cs, h) by {
            let k = choose|k: int| 0 <= k < init.len() && #[trigger] init[k] == (PlannedChange::Insert { text: init[k]->Insert_text, hash: h });
            assert(cs[k] == init[k]);
        }
        assert forall|j: int| items.len() <= j < a.len() implies #[trigger] a[j].active && a[j].hash is Some
            && inserts(cs, a[j].hash->0) by {
            if j < prev.len() {
                assert(prev[j].active);
                assert(a[j] == prev[j]);
                assert(inserts(init, prev[j].hash->0));
            }
        }
        assert forall|j1: int, j2: int| items.len() <= j1 < j2 < a.len() implies #[trigger] a[j1].hash
            != #[trigger] a[j2].hash by {
            assert(a[j1] == prev[j1]);
            if j2 < prev.len() {
                assert(a[j2] == prev[j2]);
                assert(prev[j1].hash != prev[j2].hash);
            } else {
                assert(prev[j1].active);
                let h1 = prev[j1].hash->0;
                assert(inserts(init, h1));
                let k = choose|k: int| 0 <= k < init.len() && #[trigger] init[k] == (PlannedChange::Insert { text: init[k]->Insert_text, hash: h1 });
                assert(cs[k] == init[k]);
                assert(cs[k] is Insert && cs[last] is Insert);
            }
        }
        assert forall|h: Seq<char>| #[trigger] inserts(cs, h) implies exists|j: int|
            items.len() <= j < a.len() && #[trigger] a[j].hash == Some(h) by {
            let k = choose|k: int| 0 <= k < cs.len() && #[trigger] cs[k] == (PlannedChange::Insert { text: cs[k]->Insert_text, hash: h });
            if k < init.len() {
                assert(init[k] == cs[k]);
                assert(inserts(init, h));
                let j = choose|j: int| items.len() <= j < prev.len() && #[trigger] prev[j].hash == Some(h);
                assert(a[j] == prev[j]);
            } else {
                assert(a[prev.len() as int].hash == Some(h));
            }
        }
    }
}

proof fn lemma_last_texted(items: Seq<StoredItem>, t: Seq<char>)
    ensures
        last_texted(items, t) matches Some(i) ==> 0 <= i < items.len() && items[i].text == Some(t),
    decreases items.len(),
{
    if items.len() > 0 {
        lemma_last_texted(items.drop_last(), t);
    }
}

/// Once a configured text is considered, its hash is among the hashes seen.
proof fn lemma_seen_at(texts: Seq<Seq<char>>, k: int)
    requires
        0 <= k < texts.len(),
        trimmed(texts[k]).len() > 0,
    ensures
        seen_all(texts).contains(text_hash(trimmed(texts[k]))),
{
    let h = text_hash(trimmed(texts[k]));
    let before = seen_all(texts.subrange(0, k));
    let next = texts.subrange(0, k + 1);
    assert(next.drop_last() =~= texts.subrange(0, k));
    assert(next.last() == texts[k]);
    assert(seen_all(next).contains(h)) by {
        if before.contains(h) {
            assert(seen_all(next) == before);
        } else {
            assert(seen_all(next) == before.push(h));
            assert(seen_all(next)[before.len() as int] == h);
        }
    }
    lemma_seen_grows(texts, k + 1, h);
}

/// A text considered before position `k2` has its hash seen there.
proof fn lemma_seen_before(texts: Seq<Seq<char>>, k1: int, k2: int)
    requires
        0 <= k1 < k2 <= texts.len(),
        trimmed(texts[k1]).len() > 0,
    ensures
        seen_all(texts.subrange(0, k2)).contains(text_hash(trimmed(texts[k1]))),
{
    let p = texts.subrange(0, k2);
    assert(p[k1] == texts[k1]);
    lemma_seen_at(p, k1);
}

/// The items that a sync gives a hash were inactive and had no hash that
/// the configuration holds.
pub open spec fn rehashes_only_retired(items: Seq<StoredItem>, texts: Seq<Seq<char>>) -> bool {
    forall|k: int|
        0 <= k < texts.len() && #[trigger] planned_changes(items, texts)[k] is Rehash ==> !items[planned_changes(
            items,
            texts,
        )[k]->Rehash_index].active && !stays_desired(
            items[planned_changes(items, texts)[k]->Rehash_index],
            seen_all(texts),
        )
}

/// What one sync's changes are made of, and what they leave.
proof fn lemma_sync_facts(items: Seq<StoredItem>, texts: Seq<Seq<char>>)
    requires
        rehashes_only_retired(items, texts),
    ensures
        ({
            let cs = planned_changes(items, texts);
            let seen = seen_all(texts);
            let a = apply_changes(items, cs);
            &&& cs.len() == texts.len()
            &&& forall|k: int|
                0 <= k < cs.len() ==> #[trigger] cs[k] == situation_change(
                    items,
                    seen_all(texts.subrange(0, k)),
                    texts[k],
                )
            &&& forall|k1: int, k2: int|
                0 <= k1 < cs.len() && 0 <= k2 < cs.len() && k1 != k2 && !(#[trigger] cs[k1] is Keep) && !(
                #[trigger] cs[k2] is Keep) ==> text_hash(trimmed(texts[k1])) != text_hash(trimmed(texts[k2]))
            &&& a.len() >= items.len()
            &&& forall|j1: int, j2: int|
                items.len() <= j1 < j2 < a.len() ==> #[trigger] a[j1].hash != #[trigger] a[j2].hash
            &&& forall|k: int|
                0 <= k < cs.len() && #[trigger] cs[k] is Insert ==> cs[k]->Insert_hash == text_hash(
                    trimmed(texts[k]),
                )
            &&& forall|i: int|
                0 <= i < items.len() ==> (#[trigger] a[i].active <==> (items[i].active || reactivated(cs, i)
                    || rehash_of(cs, i))) && (!rehash_of(cs, i) ==> a[i].hash == items[i].hash)
            &&& forall|k: int|
                0 <= k < cs.len() && #[trigger] cs[k] is Rehash ==> 0 <= cs[k]->Rehash_index < items.len()
                    && a[cs[k]->Rehash_index].hash == Some(cs[k]->Rehash_hash) && cs[k]->Rehash_hash
                    == text_hash(trimmed(texts[k]))
            &&& forall|j: int|
                items.len() <= j < a.len() ==> #[trigger] a[j].active && a[j].hash is Some && inserts(
                    cs,
                    a[j].hash->0,
                )
            &&& forall|h: Seq<char>|
                #[trigger] inserts(cs, h) ==> seen.contains(h) && last_hashed(items, h) is None && exists|j: int|
                    items.len() <= j < a.len() && #[trigger] a[j].hash == Some(h)
            &&& forall|i: int|
                0 <= i < items.len() && #[trigger] reactivated(cs, i) ==> stays_desired(items[i], seen)
            &&& forall|i: int|
                0 <= i < items.len() && #[trigger] rehash_of(cs, i) ==> !items[i].active && !stays_desired(
                    items[i],
                    seen,
                ) && stays_desired(a[i], seen) && a[i].hash is Some && last_hashed(items, a[i].hash->0) is None
        }),
{
    let cs = planned_changes(items, texts);
    let seen = seen_all(texts);
    let a = apply_changes(items, cs);
    lemma_planned_changes(items, texts);
    assert forall|k: int| 0 <= k < cs.len() && !(#[trigger] cs[k] is Keep) implies trimmed(texts[k]).len() > 0
        && seen.contains(text_hash(trimmed(texts[k]))) by {
        lemma_seen_at(texts, k);
    }
    assert forall|k1: int, k2: int|
        0 <= k1 < cs.len() && 0 <= k2 < cs.len() && k1 != k2 && !(#[trigger] cs[k1] is Keep) && !(
        #[trigger] cs[k2] is Keep) implies text_hash(trimmed(texts[k1])) != text_hash(trimmed(texts[k2])) by {
        if k1 < k2 {
            lemma_seen_before(texts, k1, k2);
        } else {
            lemma_seen_before(texts, k2, k1);
        }
    }
    assert forall|k: int| 0 <= k < cs.len() && #[trigger] cs[k] is Reactivate implies 0 <= cs[k]->Reactivate_index
        < items.len() && items[cs[k]->Reactivate_index].hash == Some(text_hash(trimmed(texts[k]))) by {
        lemma_last_hashed(items, text_hash(trimmed(texts[k])));
    }
    assert forall|k: int| 0 <= k < cs.len() && #[trigger] cs[k] is Rehash implies 0 <= cs[k]->Rehash_index
        < items.len() && items[cs[k]->Rehash_index].text == Some(trimmed(texts[k])) && cs[k]->Rehash_hash
        == text_hash(trimmed(texts[k])) && last_hashed(items, cs[k]->Rehash_hash) is None by {
        lemma_last_texted(items, trimmed(texts[k]));
    }
    assert forall|k1: int, k2: int|
        0 <= k1 < k2 < cs.len() && #[trigger] cs[k1] is Rehash && #[trigger] cs[k2] is Rehash implies cs[k1]->Rehash_index
        != cs[k2]->Rehash_index by {
        assert(!(cs[k1] is Keep) && !(cs[k2] is Keep));
    }
    lemma_apply_changes(items, cs);
    assert forall|i: int| 0 <= i < items.len() && #[trigger] reactivated(cs, i) implies stays_desired(items[i], seen) by {
        let k = choose|k: int| 0 <= k < cs.len() && #[trigger] cs[k] == (PlannedChange::Reactivate { index: i, text: cs[k]->Reactivate_text });
        assert(cs[k] is Reactivate);
    }
    assert forall|i: int| 0 <= i < items.len() && #[trigger] rehash_of(cs, i) implies !items[i].active
        && !stays_desired(items[i], seen) && stays_desired(a[i], seen) && a[i].hash is Some && last_hashed(
        items,
        a[i].hash->0,
    ) is None by {
        let k = choose|k: int| 0 <= k < cs.len() && #[trigger] cs[k] == (PlannedChange::Rehash { index: i, hash: cs[k]->Rehash_hash });
        assert(cs[k] is Rehash);
        assert(planned_changes(items, texts)[k] is Rehash);
    }
    assert forall|h: Seq<char>| #[trigger] inserts(cs, h) implies seen.contains(h) && last_hashed(items, h) is None
        && exists|j: int| items.len() <= j < a.len() && #[trigger] a[j].hash == Some(h) by {
        let k = choose|k: int| 0 <= k < cs.len() && #[trigger] cs[k] == (PlannedChange::Insert { text: cs[k]->Insert_text, hash: h });
        assert(!(cs[k] is Keep));
    }
}

/// After the sync, the configured text at `k` finds an active item of its hash.
proof fn lemma_second_sync_keeps(items: Seq<StoredItem>, texts: Seq<Seq<char>>, k: int)
    requires
        rehashes_only_retired(items, texts),
        0 <= k < texts.len(),
    ensures
        situation_change(after_sync(items, texts), seen_all(texts.subrange(0, k)), texts[k]) is Keep,
        ({
            let t = trimmed(texts[k]);
            let h = text_hash(t);
            t.len() > 0 && !seen_all(texts.subrange(0, k)).contains(h) ==> (last_hashed(
                after_sync(items, texts),
                h,
            ) matches Some(i) && after_sync(items, texts)[i].active)
        }),
{
    let cs = planned_changes(items, texts);
    let seen = seen_all(texts);
    let a = apply_changes(items, cs);
    let f = after_sync(items, texts);
    lemma_sync_facts(items, texts);
    let t = trimmed(texts[k]);
    let h = text_hash(t);
    let sk = seen_all(texts.subrange(0, k));
    if t.len() > 0 && !sk.contains(h) {
        lemma_seen_at(texts, k);
        lemma_last_hashed(items, h);
        lemma_last_hashed(f, h);
        assert(cs[k] == situation_change(items, sk, texts[k]));
        match last_hashed(items, h) {
            Some(i) => {
                assert(stays_desired(items[i], seen));
                assert(a[i].active == (items[i].active || reactivated(cs, i) || rehash_of(cs, i)));
                assert(f[i].hash == Some(h));
                if !items[i].active {
                    assert(cs[k] == (PlannedChange::Reactivate { index: i, text: t }));
                    assert(reactivated(cs, i));
                }
                assert(f[i].active);
                assert forall|j: int| i < j < f.len() implies #[trigger] f[j].hash != Some(h) by {
                    assert(f[j].hash == a[j].hash);
                    if j >= items.len() {
                        assert(a[j].active);
                        assert(inserts(cs, a[j].hash->0));
                    } else {
                        assert(a[j].active == (items[j].active || reactivated(cs, j) || rehash_of(cs, j)));
                        assert(items[j].hash != Some(h));
                        if rehash_of(cs, j) {
                            assert(last_hashed(items, a[j].hash->0) is None);
                        }
                    }
                }
            },
            None => {
                assert(!(cs[k] is Keep));
                if cs[k] is Insert {
                    assert(cs[k] == (PlannedChange::Insert { text: t, hash: h }));
                    assert(inserts(cs, h));
                    let j = choose|j: int| items.len() <= j < a.len() && #[trigger] a[j].hash == Some(h);
                    assert(f[j].hash == Some(h));
                } else {
                    assert(cs[k] is Rehash);
                    let i = cs[k]->Rehash_index;
                    assert(cs[k] == (PlannedChange::Rehash { index: i, hash: cs[k]->Rehash_hash }));
                    assert(rehash_of(cs, i));
                    assert(a[i].active == (items[i].active || reactivated(cs, i) || rehash_of(cs, i)));
                    assert(f[i] == a[i]);
                    assert(f[i].hash == Some(h));
                    assert(f[i].active);
                    assert forall|j: int| i < j < f.len() implies #[trigger] f[j].hash != Some(h) by {
                        assert(f[j].hash == a[j].hash);
                        if j < items.len() {
                            assert(a[j].active == (items[j].active || reactivated(cs, j) || rehash_of(cs, j)));
                            assert(items[j].hash != Some(h));
                        }
                        if j >= items.len() {
                            assert(a[j].active);
                            let hj = a[j].hash->0;
                            assert(inserts(cs, hj));
                            let k3 = choose|k3: int| 0 <= k3 < cs.len() && #[trigger] cs[k3] == (PlannedChange::Insert { text: cs[k3]->Insert_text, hash: hj });
                            assert(cs[k3] is Insert);
                            assert(!(cs[k3] is Keep));
                        } else if rehash_of(cs, j) {
                            let k2 = choose|k2: int| 0 <= k2 < cs.len() && #[trigger] cs[k2] == (PlannedChange::Rehash { index: j, hash: cs[k2]->Rehash_hash });
                            assert(cs[k2] is Rehash);
                            assert(!(cs[k2] is Keep));
                        }
                    }
                }
            },
        }
    }
}

/// A second sync of an unchanged configuration changes nothing: unless the
/// first sync gave a hash to an item that was active, or to one whose former
/// hash is configured, the second plans no change for any configured text,
/// and finds no active item left to deactivate.
pub proof fn lemma_second_sync_changes_nothing(items: Seq<StoredItem>, texts: Seq<Seq<char>>)
    requires
        rehashes_only_retired(items, texts),
    ensures
        ({
            let again = after_sync(items, texts);
            &&& forall|k: int| 0 <= k < texts.len() ==> #[trigger] planned_changes(again, texts)[k] is Keep
            &&& forall|i: int|
                0 <= i < again.len() ==> !(#[trigger] again[i].active && !stays_desired(again[i], seen_all(texts)))
        }),
{
    let cs = planned_changes(items, texts);
    let seen = seen_all(texts);
    let a = apply_changes(items, cs);
    let f = after_sync(items, texts);
    lemma_sync_facts(items, texts);
    assert forall|i: int| 0 <= i < f.len() implies !(#[trigger] f[i].active && !stays_desired(f[i], seen)) by {
        if i >= items.len() {
            assert(a[i].active);
            assert(inserts(cs, a[i].hash->0));
        } else {
            assert(a[i].active == (items[i].active || reactivated(cs, i) || rehash_of(cs, i)));
        }
    }
    lemma_planned_changes(f, texts);
    assert forall|k: int| 0 <= k < texts.len() implies #[trigger] planned_changes(f, texts)[k] is Keep by {
        lemma_second_sync_keeps(items, texts, k);
    }
}

/// Every hash seen was first seen at some non-blank configured text.
proof fn lemma_seen_origin(texts: Seq<Seq<char>>, h: Seq<char>)
    requires
        seen_all(texts).contains(h),
    ensures
        exists|k: int|
            0 <= k < texts.len() && trimmed(texts[k]).len() > 0 && #[trigger] text_hash(trimmed(texts[k])) == h
                && !seen_all(texts.subrange(0, k)).contains(h),
    decreases texts.len(),
{
    let init = texts.drop_last();
    let k = texts.len() - 1;
    if seen_all(init).contains(h) {
        lemma_seen_origin(init, h);
        let j = choose|j: int|
            0 <= j < init.len() && trimmed(init[j]).len() > 0 && #[trigger] text_hash(trimmed(init[j])) == h
                && !seen_all(init.subrange(0, j)).contains(h);
        assert(init.subrange(0, j) =~= texts.subrange(0, j));
        assert(text_hash(trimmed(texts[j])) == h);
    } else {
        assert(texts.subrange(0, k) =~= init);
        let t = trimmed(texts[k]);
        if t.len() == 0 || seen_all(init).contains(text_hash(t)) {
            assert(seen_all(texts) == seen_all(init));
        } else {
            assert(seen_all(texts) == seen_all(init).push(text_hash(t)));
            let i = choose|i: int| 0 <= i < seen_all(texts).len() && seen_all(texts)[i] == h;
            if i < seen_all(init).len() {
                assert(seen_all(init)[i] == h);
            }
            assert(text_hash(trimmed(texts[k])) == h);
        }
    }
}

/// No two items share a hash.
pub open spec fn hashes_distinct(items: Seq<StoredItem>) -> bool {
    forall|i: int, j: int|
        0 <= i < j < items.len() && (#[trigger] items[i]).hash is Some ==> items[i].hash != (#[trigger] items[j]).hash
}

/// A sync gives no two items one hash unless they shared it before.
proof fn lemma_after_sync_distinct(items: Seq<StoredItem>, texts: Seq<Seq<char>>)
    requires
        rehashes_only_retired(items, texts),
        hashes_distinct(items),
    ensures
        hashes_distinct(after_sync(items, texts)),
{
    let cs = planned_changes(items, texts);
    let a = apply_changes(items, cs);
    let f = after_sync(items, texts);
    let n = items.len();
    lemma_sync_facts(items, texts);
    assert forall|i: int, j: int| 0 <= i < j < f.len() && (#[trigger] f[i]).hash is Some implies f[i].hash
        != (#[trigger] f[j]).hash by {
        assert(f[i].hash == a[i].hash && f[j].hash == a[j].hash);
        if j >= n {
            assert(a[j].active);
            let hj = a[j].hash->0;
            assert(inserts(cs, hj));
            lemma_last_hashed(items, hj);
            let k3 = choose|k3: int| 0 <= k3 < cs.len() && #[trigger] cs[k3] == (PlannedChange::Insert { text: cs[k3]->Insert_text, hash: hj });
            assert(cs[k3] is Insert);
            if i < n {
                assert(a[i].active == (items[i].active || reactivated(cs, i) || rehash_of(cs, i)));
                if rehash_of(cs, i) {
                    let k2 = choose|k2: int| 0 <= k2 < cs.len() && #[trigger] cs[k2] == (PlannedChange::Rehash { index: i, hash: cs[k2]->Rehash_hash });
                    assert(cs[k2] is Rehash);
                    assert(!(cs[k2] is Keep) && !(cs[k3] is Keep));
                } else {
                    assert(items[i].hash != Some(hj));
                }
            }
        } else {
            assert(a[i].active == (items[i].active || reactivated(cs, i) || rehash_of(cs, i)));
            assert(a[j].active == (items[j].active || reactivated(cs, j) || rehash_of(cs, j)));
            if rehash_of(cs, i) && rehash_of(cs, j) {
                let k1 = choose|k1: int| 0 <= k1 < cs.len() && #[trigger] cs[k1] == (PlannedChange::Rehash { index: i, hash: cs[k1]->Rehash_hash });
                let k2 = choose|k2: int| 0 <= k2 < cs.len() && #[trigger] cs[k2] == (PlannedChange::Rehash { index: j, hash: cs[k2]->Rehash_hash });
                assert(cs[k1] is Rehash && cs[k2] is Rehash);
                assert(!(cs[k1] is Keep) && !(cs[k2] is Keep));
            } else if rehash_of(cs, i) {
                lemma_last_hashed(items, a[i].hash->0);
            } else if rehash_of(cs, j) {
                lemma_last_hashed(items, a[j].hash->0);
                assert(items[i].hash != a[j].hash);
            } else {
                assert(items[i].hash != items[j].hash);
            }
        }
    }
}

/// What a sync leaves, when it gives a hash only to items that were inactive
/// and had no configured hash: for every configured hash the last item with
/// it is active, and every active item has a configured hash; when no two
/// stored items shared a hash, none share one afterwards, so each configured
/// hash has exactly one item, and it is active.
pub proof fn lemma_sync_end_state(items: Seq<StoredItem>, texts: Seq<Seq<char>>)
    requires
        rehashes_only_retired(items, texts),
    ensures
        ({
            let f = after_sync(items, texts);
            let seen = seen_all(texts);
            &&& forall|h: Seq<char>|
                #[trigger] seen.contains(h) ==> (last_hashed(f, h) matches Some(i) && f[i].active)
            &&& forall|i: int| 0 <= i < f.len() && #[trigger] f[i].active ==> stays_desired(f[i], seen)
            &&& hashes_distinct(items) ==> hashes_distinct(f)
            &&& hashes_distinct(items) ==> forall|h: Seq<char>, j: int|
                #[trigger] seen.contains(h) && 0 <= j < f.len() && #[trigger] f[j].hash == Some(h) ==> f[j].active
        }),
{
    let f = after_sync(items, texts);
    let seen = seen_all(texts);
    lemma_second_sync_changes_nothing(items, texts);
    assert forall|h: Seq<char>| #[trigger] seen.contains(h) implies (last_hashed(f, h) matches Some(i)
        && f[i].active) by {
        lemma_seen_origin(texts, h);
        let k = choose|k: int|
            0 <= k < texts.len() && trimmed(texts[k]).len() > 0 && #[trigger] text_hash(trimmed(texts[k])) == h
                && !seen_all(texts.subrange(0, k)).contains(h);
        lemma_second_sync_keeps(items, texts, k);
    }
    assert forall|i: int| 0 <= i < f.len() && #[trigger] f[i].active implies stays_desired(f[i], seen) by {}
    if hashes_distinct(items) {
        lemma_after_sync_distinct(items, texts);
        assert forall|h: Seq<char>, j: int| #[trigger] seen.contains(h) && 0 <= j < f.len() && #[trigger] f[j].hash
            == Some(h) implies f[j].active by {
            lemma_last_hashed(f, h);
            let i = last_hashed(f, h)->0;
            assert(f[i].active);
            if i < j {
                assert(f[i].hash != f[j].hash);
            } else if j < i {
                assert(f[j].hash != f[i].hash);
            }
        }
    }
}

} // verus!
