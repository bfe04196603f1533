//! The watch subsystem: versioned before/after change events, the
//! per-subscriber filter, row projection of events, and the snapshot+tail
//! plans behind the watch operations.
use vstd::prelude::*;

verus! {

use crate::entity::{
    AttributeValueView,
    Entity,
    EntityRow,
    EntityView,
    project_row,
    symbol_names,
};
use crate::query::{EntityQueryNode, node_matches};
use crate::symbol::Symbol;
use crate::values::EntityVersion;

/// A request to watch entities matching a query.
#[derive(PartialEq, Eq, Debug)]
pub struct WatchEntitiesRequest {
    pub query: EntityQueryNode,
    pub send_initial_events: bool,
}

/// A request to watch entities matching a query, with events projected to
/// rows.
#[derive(PartialEq, Eq, Debug)]
pub struct WatchEntityRowsRequest {
    pub query: EntityQueryNode,
    pub attribute_types: Vec<Symbol>,
    pub send_initial_events: bool,
}

/// One change event: the version it was stamped with, and the entity
/// before and after the change. An absent `before` marks an addition, an
/// absent `after` a removal.
#[derive(PartialEq, Eq, Debug)]
pub struct WatchEntitiesEvent {
    pub entity_version: EntityVersion,
    pub before: Option<Entity>,
    pub after: Option<Entity>,
}

/// The mathematical shape of a change event.
pub struct EventView {
    pub version: int,
    pub before: Option<EntityView>,
    pub after: Option<EntityView>,
}

impl View for WatchEntitiesEvent {
    type V = EventView;

    open spec fn view(&self) -> EventView {
        EventView {
            version: self.entity_version.0 as int,
            before: match &self.before {
                Some(e) => Some(e@),
                None => None,
            },
            after: match &self.after {
                Some(e) => Some(e@),
                None => None,
            },
        }
    }
}

impl Clone for WatchEntitiesEvent {
    fn clone(&self) -> (r: Self)
        ensures
            r@ == self@,
    {
        WatchEntitiesEvent {
            entity_version: self.entity_version,
            before: match &self.before {
                Some(e) => Some(e.clone()),
                None => None,
            },
            after: match &self.after {
                Some(e) => Some(e.clone()),
                None => None,
            },
        }
    }
}

/// One row-projected change event.
#[derive(PartialEq, Eq, Debug)]
pub struct WatchEntityRowsEvent {
    pub entity_version: EntityVersion,
    pub before: Option<EntityRow>,
    pub after: Option<EntityRow>,
}

/// The mathematical shape of a row-projected change event.
pub struct RowEventView {
    pub version: int,
    pub before: Option<Seq<Option<AttributeValueView>>>,
    pub after: Option<Seq<Option<AttributeValueView>>>,
}

impl View for WatchEntityRowsEvent {
    type V = RowEventView;

    open spec fn view(&self) -> RowEventView {
        RowEventView {
            version: self.entity_version.0 as int,
            before: match &self.before {
                Some(r) => Some(r@),
                None => None,
            },
            after: match &self.after {
                Some(r) => Some(r@),
                None => None,
            },
        }
    }
}

/// The watermark carried by an optional version, if any.
pub open spec fn min_version_view(m: Option<EntityVersion>) -> Option<int> {
    match m {
        Some(v) => Some(v.0 as int),
        None => None,
    }
}

/// What the per-subscriber filter makes of one live event: nothing when
/// the event is at or below the snapshot watermark; otherwise the event
/// with each side kept only where it matches the query.
pub open spec fn event_filtered(ev: EventView, n: EntityQueryNode, min: Option<int>) -> Option<
    EventView,
> {
    if min matches Some(m) && ev.version <= m {
        None
    } else {
        Some(
            EventView {
                version: ev.version,
                before: match ev.before {
                    Some(b) => if node_matches(n, b) {
                        Some(b)
                    } else {
                        None
                    },
                    None => None,
                },
                after: match ev.after {
                    Some(a) => if node_matches(n, a) {
                        Some(a)
                    } else {
                        None
                    },
                    None => None,
                },
            },
        )
    }
}

/// Applies the per-subscriber filter to one live event: drops it at or
/// below the snapshot watermark, and restricts both sides to the query.
pub fn filter_event(
    watch_entities_event: WatchEntitiesEvent,
    entity_query_node: &EntityQueryNode,
    min_entity_version: Option<EntityVersion>,
) -> (r: Option<WatchEntitiesEvent>)
    ensures
        match r {
            Some(out) => event_filtered(
                watch_entities_event@,
                *entity_query_node,
                min_version_view(min_entity_version),
            ) == Some(out@),
            None => event_filtered(
                watch_entities_event@,
                *entity_query_node,
                min_version_view(min_entity_version),
            ) is None,
        },
{
    let WatchEntitiesEvent { entity_version, before, after } = watch_entities_event;
    match min_entity_version {
        Some(min) => {
            if entity_version.0 <= min.0 {
                return None;
            }
        },
        None => {},
    }
    let filtered_before = match before {
        Some(b) => {
            if entity_query_node.matches(&b) {
                Some(b)
            } else {
                None
            }
        },
        None => None,
    };
    let filtered_after = match after {
        Some(a) => {
            if entity_query_node.matches(&a) {
                Some(a)
            } else {
                None
            }
        },
        None => None,
    };
    Some(
        WatchEntitiesEvent {
            entity_version,
            before: filtered_before,
            after: filtered_after,
        },
    )
}

/// Projects both sides of a change event through a projection list.
pub fn to_watch_entity_row_event(
    event: WatchEntitiesEvent,
    attribute_types: &Vec<Symbol>,
) -> (r: WatchEntityRowsEvent)
    ensures
        r@ == row_event_view(event@, symbol_names(attribute_types@)),
{
    let WatchEntitiesEvent { before, after, entity_version } = event;
    WatchEntityRowsEvent {
        entity_version,
        before: match before {
            Some(entity) => Some(entity.to_entity_row(attribute_types)),
            None => None,
        },
        after: match after {
            Some(entity) => Some(entity.to_entity_row(attribute_types)),
            None => None,
        },
    }
}

/// What row projection makes of a change event.
pub open spec fn row_event_view(ev: EventView, cols: Seq<Seq<char>>) -> RowEventView {
    RowEventView {
        version: ev.version,
        before: match ev.before {
            Some(b) => Some(project_row(b, cols)),
            None => None,
        },
        after: match ev.after {
            Some(a) => Some(project_row(a, cols)),
            None => None,
        },
    }
}

/// Whether a filtered event carries no visible change and is suppressed.
pub open spec fn event_suppressed(ev: EventView) -> bool {
    ev.before == ev.after
}

/// What a subscriber sees of one live event: the filtered event, unless
/// its two sides are equal, in which case nothing.
pub open spec fn next_watch_event_spec(
    ev: EventView,
    n: EntityQueryNode,
    min: Option<int>,
) -> Option<EventView> {
    match event_filtered(ev, n, min) {
        Some(f) => if event_suppressed(f) {
            None
        } else {
            Some(f)
        },
        None => None,
    }
}

/// The step a live entity-watch subscriber applies to each event from the
/// broadcaster: filter by watermark and query, then suppress events whose
/// sides agree.
pub fn next_watch_event(
    event: WatchEntitiesEvent,
    entity_query_node: &EntityQueryNode,
    min_entity_version: Option<EntityVersion>,
) -> (r: Option<WatchEntitiesEvent>)
    ensures
        match r {
            Some(out) => next_watch_event_spec(
                event@,
                *entity_query_node,
                min_version_view(min_entity_version),
            ) == Some(out@),
            None => next_watch_event_spec(
                event@,
                *entity_query_node,
                min_version_view(min_entity_version),
            ) is None,
        },
{
    match filter_event(event, entity_query_node, min_entity_version) {
        Some(filtered) => {
            let keep = match (&filtered.before, &filtered.after) {
                (None, None) => false,
                (Some(b), Some(a)) => !b.same_as(a),
                _ => true,
            };
            if keep {
                Some(filtered)
            } else {
                None
            }
        },
        None => None,
    }
}

/// What a row-watch subscriber sees of one live event: the filtered event
/// projected to rows, unless the two projected sides are equal.
pub open spec fn next_watch_row_event_spec(
    ev: EventView,
    n: EntityQueryNode,
    min: Option<int>,
    cols: Seq<Seq<char>>,
) -> Option<RowEventView> {
    match event_filtered(ev, n, min) {
        Some(f) => {
            let row = row_event_view(f, cols);
            if row.before == row.after {
                None
            } else {
                Some(row)
            }
        },
        None => None,
    }
}

/// The step a live row-watch subscriber applies to each event from the
/// broadcaster: filter, project both sides to rows, then suppress events
/// whose projected sides agree.
pub fn next_watch_row_event(
    event: WatchEntitiesEvent,
    entity_query_node: &EntityQueryNode,
    min_entity_version: Option<EntityVersion>,
    attribute_types: &Vec<Symbol>,
) -> (r: Option<WatchEntityRowsEvent>)
    ensures
        match r {
            Some(out) => next_watch_row_event_spec(
                event@,
                *entity_query_node,
                min_version_view(min_entity_version),
                symbol_names(attribute_types@),
            ) == Some(out@),
            None => next_watch_row_event_spec(
                event@,
                *entity_query_node,
                min_version_view(min_entity_version),
                symbol_names(attribute_types@),
            ) is None,
        },
{
    match filter_event(event, entity_query_node, min_entity_version) {
        Some(filtered) => {
            let row_event = to_watch_entity_row_event(filtered, attribute_types);
            let keep = match (&row_event.before, &row_event.after) {
                (None, None) => false,
                (Some(b), Some(a)) => !rows_equal(b, a),
                _ => true,
            };
            if keep {
                Some(row_event)
            } else {
                None
            }
        },
        None => None,
    }
}

/// Whether two rows carry the same optional values, position by position.
fn rows_equal(a: &EntityRow, b: &EntityRow) -> (r: bool)
    ensures
        r == (a@ == b@),
{
    if a.values.len() != b.values.len() {
        proof {
            assert(a@.len() != b@.len());
        }
        return false;
    }
    let mut i: usize = 0;
    while i < a.values.len()
        invariant
            i <= a.values@.len(),
            a.values@.len() == b.values@.len(),
            forall|j: int| 0 <= j < i ==> a@[j] == b@[j],
        decreases a.values@.len() - i,
    {
        let same = match (&a.values[i], &b.values[i]) {
            (None, None) => true,
            (Some(x), Some(y)) => x.same_as(y),
            _ => false,
        };
        if !same {
            proof {
                assert(a@[i as int] != b@[i as int]);
            }
            return false;
        }
        i = i + 1;
    }
    proof {
        assert(a@ =~= b@);
    }
    true
}

/// The views of a list of change events, in order.
pub open spec fn events_view(s: Seq<WatchEntitiesEvent>) -> Seq<EventView> {
    Seq::new(s.len(), |i: int| s[i]@)
}

/// The views of a list of row events, in order.
pub open spec fn row_events_view(s: Seq<WatchEntityRowsEvent>) -> Seq<RowEventView> {
    Seq::new(s.len(), |i: int| s[i]@)
}

/// What an entity-watch subscription starts from: the initial Added
/// events, the bookmark closing the snapshot, and the watermark below
/// which live events are dropped.
pub struct WatchEntitiesPlan {
    pub initial_events: Vec<WatchEntitiesEvent>,
    pub bookmark: Option<EntityVersion>,
    pub min_entity_version: Option<EntityVersion>,
}

/// What a row-watch subscription starts from.
#[derive(Debug)]
pub struct WatchEntityRowsPlan {
    pub initial_events: Vec<WatchEntityRowsEvent>,
    pub bookmark: Option<EntityVersion>,
    pub min_entity_version: Option<EntityVersion>,
}

} // verus!
