//! The general properties of the store, stated and proved over the
//! mathematical views its contracts use.
use vstd::prelude::*;

verus! {

use crate::entity::{AttributeValueView, Entity, EntityView, LocatorView, project_row, value_tag};
use crate::errors::{AttributeStoreError, AttributeStoreErrorKind};
use crate::query::EntityQueryNode;
use crate::requests::AttributeToUpdateView;
use crate::store::{
    InMemoryAttributeStore,
    StoreView,
    apply_update_items,
    replay,
    store_inv,
    update_outcome,
};
use crate::validate::{update_item_valid, update_items_valid};
use crate::values::ValueType;
use crate::watch::{EventView, event_filtered};

/// Version monotonicity: the events a well-formed store has emitted carry
/// strictly increasing versions, none beyond the store's watermark, and an
/// event's added or modified entity is stamped with the event's own
/// version.
pub proof fn lemma_version_monotonicity(s: &InMemoryAttributeStore)
    requires
        s.wf(),
    ensures
        forall|i: int, j: int| 0 <= i < j < s@.events.len() ==> s@.events[i].version
            < s@.events[j].version,
        forall|i: int| 0 <= i < s@.events.len() ==> 0 < (#[trigger] s@.events[i]).version
            <= s@.watermark,
        forall|i: int| 0 <= i < s@.events.len() ==> ((#[trigger] s@.events[i]).after matches Some(
            a,
        ) ==> a.version == s@.events[i].version),
{
    s.lemma_wf_inv();
}

/// A live event past the snapshot watermark is filtered exactly as a
/// subscriber without a snapshot filters it: joining late loses nothing
/// that the snapshot does not already cover.
pub proof fn lemma_tail_filter_join(ev: EventView, n: EntityQueryNode, watermark: int)
    requires
        ev.version > watermark,
    ensures
        event_filtered(ev, n, Some(watermark)) == event_filtered(ev, n, None),
{
}

/// Replaying a history and then a tail is replaying the whole: the state a
/// snapshot captures, extended by the events after it, is the state the
/// full history reaches.
pub open spec fn replay_onto(base: Seq<EntityView>, evs: Seq<EventView>) -> Seq<EntityView>
    decreases evs.len(),
{
    if evs.len() == 0 {
        base
    } else {
        crate::store::apply_event(replay_onto(base, evs.drop_last()), evs.last())
    }
}

/// Snapshot+tail exactness at the state level: the full history replays to
/// the snapshot state extended by the tail alone.
pub proof fn lemma_replay_extends(evs: Seq<EventView>, tail: Seq<EventView>)
    ensures
        replay(evs + tail) == replay_onto(replay(evs), tail),
    decreases tail.len(),
{
    if tail.len() == 0 {
        assert(evs + tail =~= evs);
    } else {
        assert((evs + tail).drop_last() =~= evs + tail.drop_last());
        lemma_replay_extends(evs, tail.drop_last());
        assert((evs + tail).last() == tail.last());
    }
}

/// Snapshot+tail exactness at the store: a well-formed store's entities
/// are the replay of its event history, every entity's version is at most
/// the watermark, and every event already emitted sits at or below the
/// watermark, so the watermark filter drops exactly the events the
/// snapshot covers.
pub proof fn lemma_snapshot_tail_exact(s: &InMemoryAttributeStore)
    requires
        s.wf(),
    ensures
        s@.entities == replay(s@.events),
        forall|i: int| 0 <= i < s@.entities.len() ==> (#[trigger] s@.entities[i]).version
            <= s@.watermark,
        forall|i: int| 0 <= i < s@.events.len() ==> (#[trigger] s@.events[i]).version
            <= s@.watermark,
{
    s.lemma_wf_inv();
}

/// The full subscriber step agrees as well: past the watermark, a late
/// subscriber's filtered and suppressed view of a live event equals an
/// early subscriber's.
pub proof fn lemma_next_event_join(ev: EventView, n: EntityQueryNode, watermark: int)
    requires
        ev.version > watermark,
    ensures
        crate::watch::next_watch_event_spec(ev, n, Some(watermark))
            == crate::watch::next_watch_event_spec(ev, n, None),
{
    lemma_tail_filter_join(ev, n, watermark);
}

/// The row-projected subscriber step agrees past the watermark too.
pub proof fn lemma_next_row_event_join(
    ev: EventView,
    n: EntityQueryNode,
    watermark: int,
    cols: Seq<Seq<char>>,
)
    requires
        ev.version > watermark,
    ensures
        crate::watch::next_watch_row_event_spec(ev, n, Some(watermark), cols)
            == crate::watch::next_watch_row_event_spec(ev, n, None, cols),
{
    lemma_tail_filter_join(ev, n, watermark);
}

/// Snapshot+tail exactness across an evolution of the store: when one
/// well-formed store's event history extends another's, the later entity
/// list is exactly the earlier one (the snapshot) with the tail of new
/// events replayed on top; every tail event carries a version above the
/// snapshot's watermark, so the watermark filter keeps all of them; and
/// every event the snapshot already covers sits at or below the watermark,
/// so the filter drops exactly those. Together with
/// `lemma_tail_filter_join`, a subscriber that joins at the snapshot sees,
/// above the watermark, exactly what a subscriber from the start sees.
pub proof fn lemma_snapshot_tail_exactness(v1: StoreView, v2: StoreView)
    requires
        store_inv(v1),
        store_inv(v2),
        v1.events.len() <= v2.events.len(),
        v1.events == v2.events.subrange(0, v1.events.len() as int),
    ensures
        v2.entities == replay_onto(v1.entities, v2.events.skip(v1.events.len() as int)),
        forall|i: int| v1.events.len() <= i < v2.events.len() ==> (#[trigger] v2.events[i]).version
            > v1.watermark,
        forall|i: int| 0 <= i < v1.events.len() ==> (#[trigger] v2.events[i]).version
            <= v1.watermark,
{
    let tail = v2.events.skip(v1.events.len() as int);
    assert(v1.events + tail =~= v2.events);
    lemma_replay_extends(v1.events, tail);
    assert(replay(v1.events) == v1.entities);
    assert forall|i: int| v1.events.len() <= i < v2.events.len() implies (
    #[trigger] v2.events[i]).version > v1.watermark by {
        if v1.events.len() == 0 {
            assert(v2.events[i].version > 0);
        } else {
            let last = v1.events.len() - 1;
            assert(v2.events[last] == v1.events[last]);
            assert(v1.events[last].version == v1.watermark);
            assert(v2.events[last].version < v2.events[i].version);
        }
    }
    assert forall|i: int| 0 <= i < v1.events.len() implies (#[trigger] v2.events[i]).version
        <= v1.watermark by {
        assert(v2.events[i] == v1.events[i]);
    }
}

/// The last write a list of update items makes to a key: untouched, removed,
/// or set to a value.
pub open spec fn last_write(items: Seq<AttributeToUpdateView>, k: Seq<char>) -> Option<
    Option<AttributeValueView>,
>
    decreases items.len(),
{
    if items.len() == 0 {
        None
    } else if items.last().symbol == k {
        Some(items.last().value)
    } else {
        last_write(items.drop_last(), k)
    }
}

/// What applying a list of update items leaves at a key: the last write to
/// the key, or the original entry where the items never touch it.
pub proof fn lemma_apply_last_write(
    m: Map<Seq<char>, AttributeValueView>,
    items: Seq<AttributeToUpdateView>,
    k: Seq<char>,
)
    ensures
        match last_write(items, k) {
            None => apply_update_items(m, items).contains_key(k) == m.contains_key(k) && (
            m.contains_key(k) ==> apply_update_items(m, items)[k] == m[k]),
            Some(w) => match w {
                None => !apply_update_items(m, items).contains_key(k),
                Some(v) => apply_update_items(m, items).contains_key(k) && apply_update_items(
                    m,
                    items,
                )[k] == v,
            },
        },
    decreases items.len(),
{
    if items.len() > 0 {
        lemma_apply_last_write(m, items.drop_last(), k);
    }
}

/// Idempotent upsert at the attribute level: applying the same update
/// items twice leaves what applying them once leaves.
pub proof fn lemma_apply_update_items_idempotent(
    m: Map<Seq<char>, AttributeValueView>,
    items: Seq<AttributeToUpdateView>,
)
    ensures
        apply_update_items(apply_update_items(m, items), items) == apply_update_items(m, items),
{
    let once = apply_update_items(m, items);
    let twice = apply_update_items(once, items);
    assert forall|k: Seq<char>| true implies (twice.contains_key(k) == once.contains_key(k) && (
    twice.contains_key(k) ==> twice[k] == once[k])) by {
        lemma_apply_last_write(m, items, k);
        lemma_apply_last_write(once, items, k);
    }
    assert forall|k: Seq<char>| #[trigger] twice.dom().contains(k) == once.dom().contains(
        k,
    ) by {
        lemma_apply_last_write(m, items, k);
        lemma_apply_last_write(once, items, k);
    }
    assert(twice.dom() =~= once.dom());
    assert(twice =~= once);
}

/// Idempotent upsert at the store: running the same update twice against
/// a locator that resolves to the same entity both times returns the same
/// entity, leaves the store where the first run left it, and emits no
/// second event. An id locator in range always resolves the same way; a
/// symbol locator does so unless the request itself moves the symbol, or
/// another entity shadows it.
pub proof fn lemma_idempotent_upsert(
    v1: StoreView,
    v2: StoreView,
    v3: StoreView,
    loc: LocatorView,
    n: int,
    items: Seq<AttributeToUpdateView>,
    r1: Result<Entity, AttributeStoreError>,
    r2: Result<Entity, AttributeStoreError>,
)
    requires
        r1 is Ok,
        crate::store::resolve_locator(v1, loc) == Some(n),
        crate::store::resolve_locator(v2, loc) == Some(n),
        update_outcome(v1, loc, items, v2, r1),
        update_outcome(v2, loc, items, v3, r2),
    ensures
        v3 == v2,
        v3.events == v2.events,
        r2 matches Ok(e2) && r1 matches Ok(e1) && e2@ == e1@,
{
    crate::store::lemma_resolve_in_range(v1, loc, n);
    let before = v1.entities[n];
    let once = apply_update_items(before.attrs, items);
    if once == before.attrs {
    } else {
        assert(v2.entities[n] == (EntityView {
            id: before.id,
            version: v1.watermark + 1,
            attrs: once,
        }));
        lemma_apply_update_items_idempotent(before.attrs, items);
    }
}

/// Projection identity: the `@id` column of any projection of any entity
/// is a reference to the entity itself.
pub proof fn lemma_projection_identity(e: EntityView, cols: Seq<Seq<char>>, i: int)
    requires
        0 <= i < cols.len(),
        cols[i] == "@id"@,
    ensures
        project_row(e, cols)[i] == Some(AttributeValueView::Ref(e.id)),
{
}

/// Schema consistency: while the registry maps a symbol to a value type,
/// an update writing that symbol with a value of a different tag fails
/// validation and leaves the store unchanged.
pub proof fn lemma_schema_consistency(
    v: StoreView,
    w: StoreView,
    loc: LocatorView,
    items: Seq<AttributeToUpdateView>,
    r: Result<Entity, AttributeStoreError>,
    i: int,
    value: AttributeValueView,
    sym: Seq<char>,
    vt: ValueType,
)
    requires
        v.registry.contains_key(sym),
        v.registry[sym] == vt,
        0 <= i < items.len(),
        items[i].symbol == sym,
        items[i].value == Some(value),
        value_tag(value) != vt,
        update_outcome(v, loc, items, w, r),
    ensures
        w == v,
        r matches Err(e) && e.kind matches AttributeStoreErrorKind::ValidationError(_),
{
    assert(!update_item_valid(v.registry, items[i]));
    assert(!update_items_valid(v.registry, items));
}

} // verus!
