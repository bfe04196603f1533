//! The in-memory store engine: bootstrap seeding, lookup, queries,
//! attribute-type creation and locator-resolved upserts, with a monotonic
//! version sequence and a broadcast channel of change events.
use vstd::prelude::*;

verus! {

use crate::entity::{
    Attribute,
    AttributeType,
    AttributeValue,
    AttributeValueView,
    Entity,
    EntityLocator,
    EntityRow,
    EntityView,
    LocatorView,
    attrs_map,
    attrs_unique,
    bootstrap_entity_view,
    project_row,
    symbol_names,
    value_tag,
};
use crate::errors::{AttributeStoreError, AttributeStoreErrorKind, messages_view};
use crate::query::{
    EntityQuery,
    EntityQueryNode,
    EntityQueryResult,
    EntityRowQuery,
    EntityRowQueryResult,
    node_matches,
};
use crate::requests::{
    AttributeToUpdate,
    AttributeToUpdateView,
    CreateAttributeTypeRequest,
    UpdateEntityRequest,
    updates_view,
};
use crate::symbol::Symbol;
use crate::validate::{
    projection_valid,
    projection_violations,
    registry_map,
    registry_unique,
    update_item_valid,
    update_items_valid,
    update_violations,
};
use crate::values::{BootstrapSymbol, EntityId, EntityVersion, ValueType};
use crate::watch::{EventView, WatchEntitiesEvent, WatchEntitiesRequest, WatchEntityRowsRequest};

/// The outside type of the broadcast sending half, from tokio.
#[verifier::external_type_specification]
#[verifier::external_body]
#[verifier::reject_recursive_types(T)]
pub struct ExSender<T>(tokio::sync::broadcast::Sender<T>);

/// The outside type of the broadcast receiving half, from tokio.
#[verifier::external_type_specification]
#[verifier::external_body]
#[verifier::reject_recursive_types(T)]
pub struct ExReceiver<T>(tokio::sync::broadcast::Receiver<T>);

/// Relies on tokio's `broadcast::Sender::new`: makes the sending half of a
/// bounded broadcast channel. The capacity bound keeps clear of the values
/// on which tokio panics (zero, or beyond half the address space).
#[verifier::external_body]
fn new_watch_channel(capacity: usize) -> (r: tokio::sync::broadcast::Sender<WatchEntitiesEvent>)
    requires
        1 <= capacity <= 0x10000,
{
    tokio::sync::broadcast::Sender::new(capacity)
}

/// Relies on tokio's `broadcast::Sender::send`: every receiver subscribed
/// at the time of the call sees the same ordered sequence of sent values,
/// a slow receiver losing the oldest ones. The result (the receiver count,
/// or the value back when there is no receiver) is discarded, as the store
/// tolerates having no subscribers.
#[verifier::external_body]
fn send_watch_event(
    channel: &tokio::sync::broadcast::Sender<WatchEntitiesEvent>,
    event: WatchEntitiesEvent,
) {
    let _ = channel.send(event);
}

/// Relies on tokio's `broadcast::Sender::subscribe`: makes a receiving
/// half that sees every value sent after this call.
#[verifier::external_body]
fn subscribe_watch_channel(
    channel: &tokio::sync::broadcast::Sender<WatchEntitiesEvent>,
) -> tokio::sync::broadcast::Receiver<WatchEntitiesEvent> {
    channel.subscribe()
}

/// The views of a list of entities, in order.
pub open spec fn entities_view(s: Seq<Entity>) -> Seq<EntityView> {
    Seq::new(s.len(), |i: int| s[i]@)
}

/// The six entities seeded at construction.
pub open spec fn bootstrap_views() -> Seq<EntityView> {
    seq![
        bootstrap_entity_view(BootstrapSymbol::EntityId),
        bootstrap_entity_view(BootstrapSymbol::SymbolName),
        bootstrap_entity_view(BootstrapSymbol::ValueType),
        bootstrap_entity_view(BootstrapSymbol::ValueTypeEnum(ValueType::Text)),
        bootstrap_entity_view(BootstrapSymbol::ValueTypeEnum(ValueType::EntityReference)),
        bootstrap_entity_view(BootstrapSymbol::ValueTypeEnum(ValueType::Bytes)),
    ]
}

/// The schema registry derived from the bootstrap entities.
pub open spec fn bootstrap_registry() -> Map<Seq<char>, ValueType> {
    map![
        "@id"@ => ValueType::EntityReference,
        "@symbolName"@ => ValueType::Text,
        "@valueType"@ => ValueType::EntityReference
    ]
}

/// What one change event does to the entity list: an addition appends its
/// entity, a modification replaces the entity at its id.
pub open spec fn apply_event(es: Seq<EntityView>, ev: EventView) -> Seq<EntityView> {
    match ev.after {
        Some(a) => if ev.before is None {
            es.push(a)
        } else {
            es.update(a.id, a)
        },
        None => es,
    }
}

/// The entity list reached by replaying a history of change events over
/// the bootstrap entities.
pub open spec fn replay(evs: Seq<EventView>) -> Seq<EntityView>
    decreases evs.len(),
{
    if evs.len() == 0 {
        bootstrap_views()
    } else {
        apply_event(replay(evs.drop_last()), evs.last())
    }
}

/// An entity's attributes conform to the registry: every key is registered
/// and its value carries the registered tag.
pub open spec fn entity_conforms(e: EntityView, reg: Map<Seq<char>, ValueType>) -> bool {
    forall|k: Seq<char>| #[trigger]
        e.attrs.contains_key(k) ==> reg.contains_key(k) && value_tag(e.attrs[k]) == reg[k]
}

/// The store's invariants over its mathematical view: dense ids, versions
/// bounded by the watermark, a strictly version-ordered event history whose
/// replay is the current entity list, the bootstrap schema entries, and
/// schema-conformant entities.
pub open spec fn store_inv(v: StoreView) -> bool {
    &&& 0 <= v.watermark <= i64::MAX
    &&& v.entities.len() <= i64::MAX
    &&& forall|i: int| 0 <= i < v.entities.len() ==> (#[trigger] v.entities[i]).id == i
    &&& forall|i: int| 0 <= i < v.entities.len() ==> 0 <= (#[trigger] v.entities[i]).version
        <= v.watermark
    &&& forall|i: int| 0 <= i < v.events.len() ==> 0 < (#[trigger] v.events[i]).version
        <= v.watermark
    &&& forall|i: int, j: int| 0 <= i < j < v.events.len() ==> v.events[i].version
        < v.events[j].version
    &&& forall|i: int| 0 <= i < v.events.len() ==> ((#[trigger] v.events[i]).after matches Some(a)
        ==> a.version == v.events[i].version)
    &&& v.events.len() == 0 ==> v.watermark == 0
    &&& v.events.len() > 0 ==> v.events.last().version == v.watermark
    &&& v.entities == replay(v.events)
    &&& v.registry.contains_key("@id"@) && v.registry["@id"@] == ValueType::EntityReference
    &&& v.registry.contains_key("@symbolName"@) && v.registry["@symbolName"@] == ValueType::Text
    &&& v.registry.contains_key("@valueType"@) && v.registry["@valueType"@]
        == ValueType::EntityReference
    &&& forall|i: int| 0 <= i < v.entities.len() ==> entity_conforms(
        #[trigger] v.entities[i],
        v.registry,
    )
}

/// The mathematical view of the whole store.
pub struct StoreView {
    pub registry: Map<Seq<char>, ValueType>,
    pub entities: Seq<EntityView>,
    pub watermark: int,
    pub events: Seq<EventView>,
}

/// The in-memory attribute store.
pub struct InMemoryAttributeStore {
    attribute_types: Vec<AttributeType>,
    entities: Vec<Entity>,
    watch_entities_channel: tokio::sync::broadcast::Sender<WatchEntitiesEvent>,
    entity_version_counter: i64,
    events: Ghost<Seq<EventView>>,
}

impl View for InMemoryAttributeStore {
    type V = StoreView;

    closed spec fn view(&self) -> StoreView {
        StoreView {
            registry: registry_map(self.attribute_types@),
            entities: entities_view(self.entities@),
            watermark: self.entity_version_counter as int,
            events: self.events@,
        }
    }
}

impl InMemoryAttributeStore {
    /// The store is well formed: its view invariants hold, the registry
    /// and every entity's attribute bag have unique keys.
    pub closed spec fn wf(&self) -> bool {
        &&& store_inv(self@)
        &&& registry_unique(self.attribute_types@)
        &&& forall|i: int| 0 <= i < self.entities@.len() ==> attrs_unique(
            (#[trigger] self.entities@[i]).attributes@,
        )
    }

    /// A well-formed store satisfies the view invariants.
    pub proof fn lemma_wf_inv(&self)
        requires
            self.wf(),
        ensures
            store_inv(self@),
    {
    }

    /// The registry seen by validation is the view's registry.
    pub open spec fn registry(&self) -> Map<Seq<char>, ValueType> {
        self@.registry
    }

    /// Builds a store holding the six bootstrap entities, their schema
    /// entries, a fresh version sequence and an empty change history.
    pub fn new() -> (r: Self)
        ensures
            r.wf(),
            r@ == (StoreView {
                registry: bootstrap_registry(),
                entities: bootstrap_views(),
                watermark: 0,
                events: Seq::<EventView>::empty(),
            }),
    {
        let mut attribute_types: Vec<AttributeType> = Vec::new();
        attribute_types.push(
            AttributeType {
                symbol: Symbol::from_bootstrap(BootstrapSymbol::EntityId),
                value_type: ValueType::EntityReference,
            },
        );
        attribute_types.push(
            AttributeType {
                symbol: Symbol::from_bootstrap(BootstrapSymbol::SymbolName),
                value_type: ValueType::Text,
            },
        );
        attribute_types.push(
            AttributeType {
                symbol: Symbol::from_bootstrap(BootstrapSymbol::ValueType),
                value_type: ValueType::EntityReference,
            },
        );
        let mut entities: Vec<Entity> = Vec::new();
        entities.push(Entity::from_bootstrap(BootstrapSymbol::EntityId));
        entities.push(Entity::from_bootstrap(BootstrapSymbol::SymbolName));
        entities.push(Entity::from_bootstrap(BootstrapSymbol::ValueType));
        entities.push(Entity::from_bootstrap(BootstrapSymbol::ValueTypeEnum(ValueType::Text)));
        entities.push(
            Entity::from_bootstrap(BootstrapSymbol::ValueTypeEnum(ValueType::EntityReference)),
        );
        entities.push(Entity::from_bootstrap(BootstrapSymbol::ValueTypeEnum(ValueType::Bytes)));
        let watch_entities_channel = new_watch_channel(16);
        let r = InMemoryAttributeStore {
            attribute_types,
            entities,
            watch_entities_channel,
            entity_version_counter: 0,
            events: Ghost(Seq::empty()),
        };
        proof {
            reveal_strlit("@id");
            reveal_strlit("@symbolName");
            reveal_strlit("@valueType");
            let reg = r.attribute_types@;
            assert(reg.drop_last().drop_last().drop_last() =~= Seq::<AttributeType>::empty());
            assert(registry_map(reg.drop_last().drop_last().drop_last()) =~= Map::<
                Seq<char>,
                ValueType,
            >::empty());
            assert(registry_map(reg.drop_last().drop_last()) =~= registry_map(
                reg.drop_last().drop_last().drop_last(),
            ).insert(reg.drop_last().drop_last().last().symbol@, ValueType::EntityReference));
            assert(reg.drop_last().drop_last().last() == reg[0]);
            assert(reg.drop_last().last() == reg[1]);
            assert(registry_map(reg.drop_last()) =~= registry_map(
                reg.drop_last().drop_last(),
            ).insert(reg[1].symbol@, ValueType::Text));
            assert(registry_map(reg) =~= registry_map(reg.drop_last()).insert(
                reg[2].symbol@,
                ValueType::EntityReference,
            ));
            assert(registry_map(reg) =~= bootstrap_registry());
            assert(reg[0].symbol@ == "@id"@);
            assert(reg[1].symbol@ == "@symbolName"@);
            assert(reg[2].symbol@ == "@valueType"@);
            assert forall|i: int, j: int| 0 <= i < j < reg.len() implies reg[i].symbol@
                != reg[j].symbol@ by {
                assert(reg[0].symbol@.len() == 3);
                assert(reg[1].symbol@.len() == 11);
                assert(reg[2].symbol@.len() == 10);
            }
            assert(registry_unique(reg));
            assert(entities_view(r.entities@) =~= bootstrap_views());
            assert(replay(Seq::<EventView>::empty()) == bootstrap_views());
            assert forall|i: int| 0 <= i < bootstrap_views().len() implies entity_conforms(
                #[trigger] bootstrap_views()[i],
                bootstrap_registry(),
            ) by {
                let e = bootstrap_views()[i];
                assert forall|k: Seq<char>| #[trigger] e.attrs.contains_key(k) implies
                    bootstrap_registry().contains_key(k) && value_tag(e.attrs[k])
                    == bootstrap_registry()[k] by {
                    assert(k == "@symbolName"@ || k == "@valueType"@);
                }
            }
            assert(store_inv(r@));
        }
        r
    }

    /// Hands out a receiving half of the change-event channel. Relies on
    /// tokio's broadcast channel: the receiver sees every event published
    /// after this call, in order, losing the oldest when it lags beyond
    /// the channel's capacity.
    pub fn watch_entities_receiver(&self) -> tokio::sync::broadcast::Receiver<
        WatchEntitiesEvent,
    > {
        subscribe_watch_channel(&self.watch_entities_channel)
    }
}

/// An entity carries `name` in its `@symbolName` attribute.
pub open spec fn entity_has_symbol(e: EntityView, name: Seq<char>) -> bool {
    &&& e.attrs.contains_key("@symbolName"@)
    &&& e.attrs["@symbolName"@] == AttributeValueView::Text(name)
}

/// The first position at or after `i` of an entity carrying `name`.
pub open spec fn first_with_symbol_from(es: Seq<EntityView>, name: Seq<char>, i: int) -> Option<
    int,
>
    decreases es.len() - i,
{
    if i < 0 || i >= es.len() {
        None
    } else if entity_has_symbol(es[i], name) {
        Some(i)
    } else {
        first_with_symbol_from(es, name, i + 1)
    }
}

/// The position of the first entity carrying `name`, if any.
pub open spec fn first_with_symbol(es: Seq<EntityView>, name: Seq<char>) -> Option<int> {
    first_with_symbol_from(es, name, 0)
}

/// Scans for the first entity whose `@symbolName` attribute equals `name`.
fn find_entity_by_symbol(entities: &Vec<Entity>, name: &Symbol) -> (r: Option<usize>)
    ensures
        match r {
            Some(i) => first_with_symbol(entities_view(entities@), name@) == Some(i as int) && i
                < entities@.len(),
            None => first_with_symbol(entities_view(entities@), name@) is None,
        },
{
    let symbol_name_symbol = Symbol::from_bootstrap(BootstrapSymbol::SymbolName);
    let expected = AttributeValue::String(name.clone().into_string());
    let ghost es = entities_view(entities@);
    let mut i: usize = 0;
    while i < entities.len()
        invariant
            i <= entities@.len(),
            es == entities_view(entities@),
            symbol_name_symbol@ == "@symbolName"@,
            expected@ == AttributeValueView::Text(name@),
            first_with_symbol(es, name@) == first_with_symbol_from(es, name@, i as int),
        decreases entities@.len() - i,
    {
        let entity = &entities[i];
        let matched = match crate::entity::find_attribute(&entity.attributes, &symbol_name_symbol) {
            Some(value) => value.same_as(&expected),
            None => false,
        };
        proof {
            assert(es[i as int] == entities@[i as int]@);
            assert(matched == entity_has_symbol(es[i as int], name@));
        }
        if matched {
            return Some(i);
        }
        i = i + 1;
    }
    None
}

impl InMemoryAttributeStore {
    /// Fetches a copy of the entity a locator selects: by position for an
    /// id locator, by the first matching `@symbolName` for a symbol
    /// locator. Fails with `EntityNotFound` naming the locator when
    /// nothing is selected.
    pub fn get_entity(&self, entity_locator: &EntityLocator) -> (r: Result<
        Entity,
        AttributeStoreError,
    >)
        requires
            self.wf(),
        ensures
            match r {
                Ok(e) => {
                    &&& resolve_locator(self@, entity_locator@) matches Some(i) && e@
                        == self@.entities[i]
                    &&& attrs_unique(e.attributes@)
                },
                Err(err) => {
                    &&& resolve_locator(self@, entity_locator@) is None
                    &&& err.kind matches AttributeStoreErrorKind::EntityNotFound(loc) && loc@
                        == entity_locator@
                },
            },
    {
        match entity_locator {
            EntityLocator::EntityId(entity_id) => {
                if entity_id.0 >= 0 && (entity_id.0 as u64) < (self.entities.len() as u64) {
                    let idx = entity_id.0 as usize;
                    let e = self.entities[idx].clone();
                    Ok(e)
                } else {
                    Err(
                        AttributeStoreError {
                            kind: AttributeStoreErrorKind::EntityNotFound(entity_locator.clone()),
                        },
                    )
                }
            },
            EntityLocator::Symbol(symbol) => {
                match find_entity_by_symbol(&self.entities, symbol) {
                    Some(idx) => {
                        let e = self.entities[idx].clone();
                        Ok(e)
                    },
                    None => Err(
                        AttributeStoreError {
                            kind: AttributeStoreErrorKind::EntityNotFound(entity_locator.clone()),
                        },
                    ),
                }
            },
        }
    }
}

/// A successful scan lands at a position in range, at or after its start.
pub proof fn lemma_first_with_symbol_from_range(
    es: Seq<EntityView>,
    name: Seq<char>,
    i: int,
    j: int,
)
    requires
        first_with_symbol_from(es, name, i) == Some(j),
    ensures
        i <= j < es.len(),
        entity_has_symbol(es[j], name),
    decreases es.len() - i,
{
    if !(i < 0 || i >= es.len()) && !entity_has_symbol(es[i], name) {
        lemma_first_with_symbol_from_range(es, name, i + 1, j);
    }
}

/// A resolved locator lands at a position in range.
pub proof fn lemma_resolve_in_range(v: StoreView, loc: LocatorView, n: int)
    requires
        resolve_locator(v, loc) == Some(n),
    ensures
        0 <= n < v.entities.len(),
{
    match loc {
        LocatorView::ById(_) => {},
        LocatorView::BySymbol(s) => {
            lemma_first_with_symbol_from_range(v.entities, s, 0, n);
        },
    }
}

/// Where a locator leads in the entity list: the id itself when it is in
/// range, or the first entity carrying the symbol.
pub open spec fn resolve_locator(v: StoreView, loc: LocatorView) -> Option<int> {
    match loc {
        LocatorView::ById(n) => if 0 <= n < v.entities.len() {
            Some(n)
        } else {
            None
        },
        LocatorView::BySymbol(s) => first_with_symbol(v.entities, s),
    }
}

/// The entities of the list matching a query node, in order.
pub open spec fn matching_entities(es: Seq<EntityView>, n: EntityQueryNode) -> Seq<EntityView>
    decreases es.len(),
{
    if es.len() == 0 {
        Seq::empty()
    } else {
        let prev = matching_entities(es.drop_last(), n);
        if node_matches(n, es.last()) {
            prev.push(es.last())
        } else {
            prev
        }
    }
}

/// The views of a list of rows, in order.
pub open spec fn rows_view(s: Seq<EntityRow>) -> Seq<Seq<Option<AttributeValueView>>> {
    Seq::new(s.len(), |i: int| s[i]@)
}

/// Each entity of the list projected through the columns.
pub open spec fn rows_of_entities(es: Seq<EntityView>, cols: Seq<Seq<char>>) -> Seq<
    Seq<Option<AttributeValueView>>,
> {
    Seq::new(es.len(), |i: int| project_row(es[i], cols))
}

impl InMemoryAttributeStore {
    /// Collects a copy of every entity matching the query, together with
    /// the version watermark of this consistent snapshot.
    pub fn query_entities(&self, entity_query: &EntityQuery) -> (r: Result<
        EntityQueryResult,
        AttributeStoreError,
    >)
        requires
            self.wf(),
        ensures
            r matches Ok(res) && {
                &&& entities_view(res.entities@) == matching_entities(
                    self@.entities,
                    entity_query.root,
                )
                &&& res.entity_version.0 == self@.watermark
                &&& forall|i: int| 0 <= i < res.entities@.len() ==> attrs_unique(
                    (#[trigger] res.entities@[i]).attributes@,
                )
            },
    {
        let mut entities: Vec<Entity> = Vec::new();
        let mut i: usize = 0;
        while i < self.entities.len()
            invariant
                i <= self.entities@.len(),
                self.wf(),
                entities_view(entities@) == matching_entities(
                    entities_view(self.entities@).subrange(0, i as int),
                    entity_query.root,
                ),
                forall|j: int| 0 <= j < entities@.len() ==> attrs_unique(
                    (#[trigger] entities@[j]).attributes@,
                ),
            decreases self.entities@.len() - i,
        {
            let ghost es = entities_view(self.entities@);
            let ghost prev = entities_view(entities@);
            if entity_query.root.matches(&self.entities[i]) {
                entities.push(self.entities[i].clone());
            }
            proof {
                assert(es.subrange(0, i + 1).drop_last() =~= es.subrange(0, i as int));
                assert(es.subrange(0, i + 1).last() == es[i as int]);
                assert(es[i as int] == self.entities@[i as int]@);
                assert(entities_view(entities@) =~= matching_entities(
                    es.subrange(0, i + 1),
                    entity_query.root,
                ));
            }
            i = i + 1;
        }
        proof {
            assert(entities_view(self.entities@).subrange(
                0,
                self.entities@.len() as int,
            ) =~= entities_view(self.entities@));
        }
        Ok(
            EntityQueryResult {
                entities,
                entity_version: EntityVersion(self.entity_version_counter),
            },
        )
    }

    /// Validates the projection against the registry, then collects one
    /// row per matching entity, with the snapshot's version watermark.
    /// Fails with a `ValidationError` naming each unregistered column.
    pub fn query_entity_rows(&self, entity_row_query: &EntityRowQuery) -> (r: Result<
        EntityRowQueryResult,
        AttributeStoreError,
    >)
        requires
            self.wf(),
        ensures
            match r {
                Ok(res) => {
                    &&& projection_valid(
                        self@.registry,
                        symbol_names(entity_row_query.attribute_types@),
                    )
                    &&& rows_view(res.entity_rows@) == rows_of_entities(
                        matching_entities(self@.entities, entity_row_query.root),
                        symbol_names(entity_row_query.attribute_types@),
                    )
                    &&& res.entity_version.0 == self@.watermark
                },
                Err(err) => {
                    &&& !projection_valid(
                        self@.registry,
                        symbol_names(entity_row_query.attribute_types@),
                    )
                    &&& err.kind matches AttributeStoreErrorKind::ValidationError(rep)
                        && messages_view(rep.violations@) == projection_violations(
                        self@.registry,
                        symbol_names(entity_row_query.attribute_types@),
                    )
                },
            },
    {
        match crate::validate::validate_projection(
            &self.attribute_types,
            &entity_row_query.attribute_types,
        ) {
            Err(rep) => {
                return Err(
                    AttributeStoreError { kind: AttributeStoreErrorKind::ValidationError(rep) },
                );
            },
            Ok(_) => {},
        }
        let mut entity_rows: Vec<EntityRow> = Vec::new();
        let mut i: usize = 0;
        while i < self.entities.len()
            invariant
                i <= self.entities@.len(),
                self.wf(),
                rows_view(entity_rows@) == rows_of_entities(
                    matching_entities(
                        entities_view(self.entities@).subrange(0, i as int),
                        entity_row_query.root,
                    ),
                    symbol_names(entity_row_query.attribute_types@),
                ),
            decreases self.entities@.len() - i,
        {
            let ghost es = entities_view(self.entities@);
            let ghost cols = symbol_names(entity_row_query.attribute_types@);
            let ghost prev_rows = rows_view(entity_rows@);
            let ghost prev_matching = matching_entities(
                es.subrange(0, i as int),
                entity_row_query.root,
            );
            if entity_row_query.root.matches(&self.entities[i]) {
                entity_rows.push(
                    self.entities[i].to_entity_row(&entity_row_query.attribute_types),
                );
                proof {
                    assert(rows_view(entity_rows@) =~= prev_rows.push(
                        project_row(es[i as int], cols),
                    ));
                    assert(rows_of_entities(prev_matching.push(es[i as int]), cols)
                        =~= rows_of_entities(prev_matching, cols).push(
                        project_row(es[i as int], cols),
                    ));
                }
            }
            proof {
                assert(es.subrange(0, i + 1).drop_last() =~= es.subrange(0, i as int));
                assert(es.subrange(0, i + 1).last() == es[i as int]);
                assert(es[i as int] == self.entities@[i as int]@);
                assert(rows_view(entity_rows@) =~= rows_of_entities(
                    matching_entities(es.subrange(0, i + 1), entity_row_query.root),
                    cols,
                ));
            }
            i = i + 1;
        }
        proof {
            assert(entities_view(self.entities@).subrange(
                0,
                self.entities@.len() as int,
            ) =~= entities_view(self.entities@));
        }
        Ok(
            EntityRowQueryResult {
                entity_rows,
                entity_version: EntityVersion(self.entity_version_counter),
            },
        )
    }
}

/// The attribute map after applying a list of update items in order: a
/// present value writes or overwrites, an absent value removes.
pub open spec fn apply_update_items(
    attrs: Map<Seq<char>, AttributeValueView>,
    items: Seq<AttributeToUpdateView>,
) -> Map<Seq<char>, AttributeValueView>
    decreases items.len(),
{
    if items.len() == 0 {
        attrs
    } else {
        let prev = apply_update_items(attrs, items.drop_last());
        let it = items.last();
        match it.value {
            Some(v) => prev.insert(it.symbol, v),
            None => prev.remove(it.symbol),
        }
    }
}

/// The attributes of an entity created from a request: the present values
/// of its items, later writes overriding earlier ones.
pub open spec fn new_entity_attrs(items: Seq<AttributeToUpdateView>) -> Map<
    Seq<char>,
    AttributeValueView,
>
    decreases items.len(),
{
    if items.len() == 0 {
        Map::empty()
    } else {
        let prev = new_entity_attrs(items.drop_last());
        let it = items.last();
        match it.value {
            Some(v) => prev.insert(it.symbol, v),
            None => prev,
        }
    }
}

/// The update item a symbol-locator upsert must carry to be idempotent.
pub open spec fn symbol_write_item(s: Seq<char>) -> AttributeToUpdateView {
    AttributeToUpdateView {
        symbol: "@symbolName"@,
        value: Some(AttributeValueView::Text(s)),
    }
}

/// The request writes `@symbolName` with exactly the locator's symbol.
pub open spec fn contains_symbol_write(items: Seq<AttributeToUpdateView>, s: Seq<char>) -> bool {
    exists|i: int| 0 <= i < items.len() && #[trigger] items[i] == symbol_write_item(s)
}

/// A fresh entity id and version can still be drawn.
pub open spec fn can_allocate(v: StoreView) -> bool {
    &&& v.watermark < i64::MAX
    &&& v.entities.len() < i64::MAX
}

/// The event recording an addition.
pub open spec fn added_event(e: EntityView) -> EventView {
    EventView { version: e.version, before: None, after: Some(e) }
}

/// The event recording a modification.
pub open spec fn modified_event(before: EntityView, after: EntityView) -> EventView {
    EventView { version: after.version, before: Some(before), after: Some(after) }
}

/// An attribute map conforms to the registry: every key is registered and
/// its value carries the registered tag.
pub open spec fn attrs_conform(
    m: Map<Seq<char>, AttributeValueView>,
    reg: Map<Seq<char>, ValueType>,
) -> bool {
    forall|k: Seq<char>| #[trigger] m.contains_key(k) ==> reg.contains_key(k) && value_tag(m[k])
        == reg[k]
}

/// Applying schema-conformant items to a conformant map keeps conformance.
proof fn lemma_apply_items_conform(
    m: Map<Seq<char>, AttributeValueView>,
    items: Seq<AttributeToUpdateView>,
    reg: Map<Seq<char>, ValueType>,
)
    requires
        attrs_conform(m, reg),
        update_items_valid(reg, items),
    ensures
        attrs_conform(apply_update_items(m, items), reg),
    decreases items.len(),
{
    if items.len() > 0 {
        assert(forall|i: int| 0 <= i < items.drop_last().len() ==> #[trigger] items.drop_last()[i]
            == items[i]);
        lemma_apply_items_conform(m, items.drop_last(), reg);
        assert(items.last() == items[items.len() - 1]);
        assert(update_item_valid(reg, items.last()));
    }
}

/// The attributes of an entity created from conformant items conform.
proof fn lemma_new_attrs_conform(items: Seq<AttributeToUpdateView>, reg: Map<Seq<char>, ValueType>)
    requires
        update_items_valid(reg, items),
    ensures
        attrs_conform(new_entity_attrs(items), reg),
    decreases items.len(),
{
    if items.len() > 0 {
        assert(forall|i: int| 0 <= i < items.drop_last().len() ==> #[trigger] items.drop_last()[i]
            == items[i]);
        lemma_new_attrs_conform(items.drop_last(), reg);
        assert(items.last() == items[items.len() - 1]);
        assert(update_item_valid(reg, items.last()));
    }
}

/// Finds the position of the entry carrying `name`, if any.
fn find_attr_index(attrs: &Vec<Attribute>, name: &Symbol) -> (r: Option<usize>)
    ensures
        match r {
            Some(i) => i < attrs@.len() && attrs@[i as int].symbol@ == name@,
            None => !attrs_map(attrs@).contains_key(name@),
        },
{
    let mut i: usize = 0;
    while i < attrs.len()
        invariant
            i <= attrs@.len(),
            forall|j: int| 0 <= j < i ==> attrs@[j].symbol@ != name@,
        decreases attrs@.len() - i,
    {
        if attrs[i].symbol.same_as(name) {
            return Some(i);
        }
        i = i + 1;
    }
    proof {
        crate::entity::lemma_attrs_map_contains(attrs@, name@);
    }
    None
}

/// Applies a list of update items to an attribute bag, in order.
fn apply_items_to_attrs(attrs: &mut Vec<Attribute>, items: &Vec<AttributeToUpdate>)
    requires
        attrs_unique(old(attrs)@),
    ensures
        attrs_unique(final(attrs)@),
        attrs_map(final(attrs)@) == apply_update_items(
            attrs_map(old(attrs)@),
            updates_view(items@),
        ),
{
    let ghost m0 = attrs_map(attrs@);
    let mut i: usize = 0;
    while i < items.len()
        invariant
            i <= items@.len(),
            attrs_unique(attrs@),
            attrs_map(attrs@) == apply_update_items(
                m0,
                updates_view(items@).subrange(0, i as int),
            ),
        decreases items@.len() - i,
    {
        let ghost uv = updates_view(items@);
        let ghost a0 = attrs@;
        let item = &items[i];
        let idx_opt = find_attr_index(attrs, &item.symbol);
        match &item.value {
            Some(value) => {
                match idx_opt {
                    Some(idx) => {
                        proof {
                            crate::entity::lemma_attrs_map_remove(a0, idx as int);
                        }
                        attrs.remove(idx);
                    },
                    None => {},
                }
                let ghost a1 = attrs@;
                let new_attr = Attribute { symbol: item.symbol.clone(), value: value.clone() };
                proof {
                    crate::entity::lemma_attrs_map_contains(a1, item.symbol@);
                    crate::entity::lemma_attrs_map_push(a1, new_attr);
                }
                attrs.push(new_attr);
                proof {
                    assert(attrs_map(attrs@) =~= apply_update_items(m0, uv.subrange(0, i as int))
                        .insert(uv[i as int].symbol, uv[i as int].value->0));
                }
            },
            None => {
                match idx_opt {
                    Some(idx) => {
                        proof {
                            crate::entity::lemma_attrs_map_remove(a0, idx as int);
                        }
                        attrs.remove(idx);
                    },
                    None => {},
                }
                proof {
                    assert(attrs_map(attrs@) =~= apply_update_items(
                        m0,
                        uv.subrange(0, i as int),
                    ).remove(uv[i as int].symbol));
                }
            },
        }
        proof {
            assert(uv.subrange(0, i + 1).drop_last() =~= uv.subrange(0, i as int));
            assert(uv.subrange(0, i + 1).last() == uv[i as int]);
            assert(uv[i as int] == items@[i as int]@);
            assert(attrs_map(attrs@) == apply_update_items(m0, uv.subrange(0, i + 1)));
        }
        i = i + 1;
    }
    proof {
        assert(updates_view(items@).subrange(0, items@.len() as int) =~= updates_view(items@));
    }
}

/// Builds the attribute bag of a new entity from the present values of a
/// request's items.
fn new_attrs_from_items(items: &Vec<AttributeToUpdate>) -> (r: Vec<Attribute>)
    ensures
        attrs_unique(r@),
        attrs_map(r@) == new_entity_attrs(updates_view(items@)),
{
    let mut attrs: Vec<Attribute> = Vec::new();
    proof {
        assert(attrs_map(attrs@) =~= new_entity_attrs(updates_view(items@).subrange(0, 0)));
    }
    let mut i: usize = 0;
    while i < items.len()
        invariant
            i <= items@.len(),
            attrs_unique(attrs@),
            attrs_map(attrs@) == new_entity_attrs(updates_view(items@).subrange(0, i as int)),
        decreases items@.len() - i,
    {
        let ghost uv = updates_view(items@);
        let ghost a0 = attrs@;
        let item = &items[i];
        match &item.value {
            Some(value) => {
                match find_attr_index(&attrs, &item.symbol) {
                    Some(idx) => {
                        proof {
                            crate::entity::lemma_attrs_map_remove(a0, idx as int);
                        }
                        attrs.remove(idx);
                    },
                    None => {},
                }
                let ghost a1 = attrs@;
                let new_attr = Attribute { symbol: item.symbol.clone(), value: value.clone() };
                proof {
                    crate::entity::lemma_attrs_map_contains(a1, item.symbol@);
                    crate::entity::lemma_attrs_map_push(a1, new_attr);
                }
                attrs.push(new_attr);
                proof {
                    assert(attrs_map(attrs@) =~= new_entity_attrs(
                        uv.subrange(0, i as int),
                    ).insert(uv[i as int].symbol, uv[i as int].value->0));
                }
            },
            None => {},
        }
        proof {
            assert(uv.subrange(0, i + 1).drop_last() =~= uv.subrange(0, i as int));
            assert(uv.subrange(0, i + 1).last() == uv[i as int]);
            assert(uv[i as int] == items@[i as int]@);
            assert(attrs_map(attrs@) == new_entity_attrs(uv.subrange(0, i + 1)));
        }
        i = i + 1;
    }
    proof {
        assert(updates_view(items@).subrange(0, items@.len() as int) =~= updates_view(items@));
    }
    attrs
}

/// Whether the list holds an item structurally equal to `expected`.
fn contains_update_item(items: &Vec<AttributeToUpdate>, expected: &AttributeToUpdate) -> (r: bool)
    ensures
        r == exists|i: int| 0 <= i < items@.len() && #[trigger] updates_view(items@)[i]
            == expected@,
{
    let mut i: usize = 0;
    while i < items.len()
        invariant
            i <= items@.len(),
            forall|j: int| 0 <= j < i ==> #[trigger] updates_view(items@)[j] != expected@,
        decreases items@.len() - i,
    {
        if items[i].same_as(expected) {
            proof {
                assert(updates_view(items@)[i as int] == expected@);
            }
            return true;
        }
        i = i + 1;
    }
    false
}

/// The entity a successful attribute-type creation inserts.
pub open spec fn created_attr_entity(v: StoreView, sym: Seq<char>, vt: ValueType) -> EntityView {
    EntityView {
        id: v.entities.len() as int,
        version: v.watermark + 1,
        attrs: map![
            "@symbolName"@ => AttributeValueView::Text(sym),
            "@valueType"@ => AttributeValueView::Ref(crate::values::value_type_entity_id(vt))
        ],
    }
}

/// Builds the attribute bag of a new attribute-type entity.
fn attribute_type_attrs(symbol: &Symbol, value_type: ValueType) -> (r: Vec<Attribute>)
    ensures
        attrs_unique(r@),
        attrs_map(r@) == map![
            "@symbolName"@ => AttributeValueView::Text(symbol@),
            "@valueType"@ => AttributeValueView::Ref(crate::values::value_type_entity_id(value_type))
        ],
{
    let mut attrs: Vec<Attribute> = Vec::new();
    attrs.push(
        Attribute {
            symbol: Symbol::from_bootstrap(BootstrapSymbol::SymbolName),
            value: AttributeValue::String(symbol.clone().into_string()),
        },
    );
    attrs.push(
        Attribute {
            symbol: Symbol::from_bootstrap(BootstrapSymbol::ValueType),
            value: AttributeValue::EntityId(EntityId::from(value_type)),
        },
    );
    proof {
        reveal_strlit("@symbolName");
        reveal_strlit("@valueType");
        let a = attrs@;
        assert(a.drop_last().drop_last() =~= Seq::<Attribute>::empty());
        assert(attrs_map(a.drop_last().drop_last()) =~= Map::<
            Seq<char>,
            AttributeValueView,
        >::empty());
        assert(a.drop_last().last() == a[0]);
        assert(attrs_map(a.drop_last()) =~= attrs_map(a.drop_last().drop_last()).insert(
            a[0].symbol@,
            a[0].value@,
        ));
        assert(attrs_map(a) =~= attrs_map(a.drop_last()).insert(a[1].symbol@, a[1].value@));
        assert(a[0].symbol@.len() != a[1].symbol@.len());
        assert(attrs_unique(a));
        assert(attrs_map(a) =~= map![
            "@symbolName"@ => AttributeValueView::Text(symbol@),
            "@valueType"@ => AttributeValueView::Ref(
                crate::values::value_type_entity_id(value_type),
            )
        ]);
    }
    attrs
}

impl InMemoryAttributeStore {
    /// Inserts a fresh entity holding `attributes` at the next id, stamps
    /// it with a fresh version, records and publishes the addition. Fails
    /// with an internal error when the id or version sequence is
    /// exhausted, leaving the store unchanged.
    fn insert_new_entity_with_attributes(&mut self, attributes: Vec<Attribute>) -> (r: Result<
        Entity,
        AttributeStoreError,
    >)
        requires
            old(self).wf(),
            attrs_unique(attributes@),
            attrs_conform(attrs_map(attributes@), old(self)@.registry),
        ensures
            final(self).wf(),
            match r {
                Ok(e) => {
                    &&& can_allocate(old(self)@)
                    &&& e@ == (EntityView {
                        id: old(self)@.entities.len() as int,
                        version: old(self)@.watermark + 1,
                        attrs: attrs_map(attributes@),
                    })
                    &&& attrs_unique(e.attributes@)
                    &&& final(self)@ == (StoreView {
                        registry: old(self)@.registry,
                        entities: old(self)@.entities.push(e@),
                        watermark: old(self)@.watermark + 1,
                        events: old(self)@.events.push(added_event(e@)),
                    })
                },
                Err(err) => {
                    &&& !can_allocate(old(self)@)
                    &&& err.kind is Other
                    &&& *final(self) == *old(self)
                },
            },
    {
        if !(self.entity_version_counter < i64::MAX && (self.entities.len() as u64) < (
        i64::MAX as u64)) {
            return Err(
                AttributeStoreError {
                    kind: AttributeStoreErrorKind::Other {
                        message: String::from_str("entity id or version sequence exhausted"),
                    },
                },
            );
        }
        let version = self.entity_version_counter + 1;
        let entity = Entity {
            entity_id: EntityId(self.entities.len() as i64),
            entity_version: EntityVersion(version),
            attributes,
        };
        let returned = entity.clone();
        let ghost old_view = self@;
        self.entities.push(entity);
        self.entity_version_counter = version;
        proof {
            self.events@ = self.events@.push(added_event(returned@));
        }
        send_watch_event(
            &self.watch_entities_channel,
            WatchEntitiesEvent {
                entity_version: EntityVersion(version),
                before: None,
                after: Some(returned.clone()),
            },
        );
        proof {
            let v = self@;
            assert(v.entities =~= old_view.entities.push(returned@));
            assert(v.events =~= old_view.events.push(added_event(returned@)));
            assert(v == (StoreView {
                registry: old_view.registry,
                entities: old_view.entities.push(returned@),
                watermark: old_view.watermark + 1,
                events: old_view.events.push(added_event(returned@)),
            }));
            assert(v.events.drop_last() =~= old_view.events);
            assert(v.entities == replay(v.events));
            assert(store_inv(v));
            assert(forall|i: int| 0 <= i < self.entities@.len() ==> attrs_unique(
                (#[trigger] self.entities@[i]).attributes@,
            ));
        }
        Ok(returned)
    }

    /// Registers a new attribute type: rejects a symbol already in the
    /// registry with a `ValidationError`, otherwise inserts the entity
    /// carrying the symbol's name and value type, registers the mapping,
    /// and publishes the addition at a fresh version.
    pub fn create_attribute_type(
        &mut self,
        create_attribute_type_request: &CreateAttributeTypeRequest,
    ) -> (r: Result<Entity, AttributeStoreError>)
        requires
            old(self).wf(),
        ensures
            final(self).wf(),
            match r {
                Ok(e) => {
                    &&& !old(self)@.registry.contains_key(
                        create_attribute_type_request.attribute_type.symbol@,
                    )
                    &&& can_allocate(old(self)@)
                    &&& e@ == created_attr_entity(
                        old(self)@,
                        create_attribute_type_request.attribute_type.symbol@,
                        create_attribute_type_request.attribute_type.value_type,
                    )
                    &&& attrs_unique(e.attributes@)
                    &&& final(self)@ == (StoreView {
                        registry: old(self)@.registry.insert(
                            create_attribute_type_request.attribute_type.symbol@,
                            create_attribute_type_request.attribute_type.value_type,
                        ),
                        entities: old(self)@.entities.push(e@),
                        watermark: old(self)@.watermark + 1,
                        events: old(self)@.events.push(added_event(e@)),
                    })
                },
                Err(err) => {
                    &&& final(self)@ == old(self)@
                    &&& match err.kind {
                        AttributeStoreErrorKind::ValidationError(rep) => {
                            &&& old(self)@.registry.contains_key(
                                create_attribute_type_request.attribute_type.symbol@,
                            )
                            &&& messages_view(rep.violations@) == crate::validate::create_violations(
                                old(self)@.registry,
                                create_attribute_type_request.attribute_type.symbol@,
                            )
                        },
                        AttributeStoreErrorKind::Other { .. } => {
                            &&& !old(self)@.registry.contains_key(
                                create_attribute_type_request.attribute_type.symbol@,
                            )
                            &&& !can_allocate(old(self)@)
                        },
                        _ => false,
                    }
                },
            },
    {
        let symbol = &create_attribute_type_request.attribute_type.symbol;
        let value_type = create_attribute_type_request.attribute_type.value_type;
        match crate::validate::validate_create(&self.attribute_types, symbol) {
            Err(rep) => {
                return Err(
                    AttributeStoreError { kind: AttributeStoreErrorKind::ValidationError(rep) },
                );
            },
            Ok(_) => {},
        }
        let attributes = attribute_type_attrs(symbol, value_type);
        proof {
            assert forall|k: Seq<char>| #[trigger] attrs_map(attributes@).contains_key(k) implies
                self@.registry.contains_key(k) && value_tag(attrs_map(attributes@)[k])
                == self@.registry[k] by {
                assert(k == "@symbolName"@ || k == "@valueType"@);
            }
        }
        let ghost mid_view = self@;
        let created = match self.insert_new_entity_with_attributes(attributes) {
            Ok(e) => e,
            Err(err) => {
                return Err(err);
            },
        };
        let ghost pre_reg = self.attribute_types@;
        self.attribute_types.push(
            AttributeType { symbol: symbol.clone(), value_type },
        );
        proof {
            crate::validate::lemma_registry_map_contains(pre_reg, symbol@);
            assert(self.attribute_types@.drop_last() =~= pre_reg);
            assert(self.attribute_types@.last().symbol@ == symbol@);
            assert(self@.registry == registry_map(pre_reg).insert(symbol@, value_type));
            assert forall|i: int, j: int| 0 <= i < j < self.attribute_types@.len() implies
                self.attribute_types@[i].symbol@ != self.attribute_types@[j].symbol@ by {
                if j < pre_reg.len() {
                    assert(self.attribute_types@[i] == pre_reg[i]);
                    assert(self.attribute_types@[j] == pre_reg[j]);
                } else {
                    assert(self.attribute_types@[i] == pre_reg[i]);
                    crate::validate::lemma_registry_map_value(pre_reg, i);
                }
            }
            reveal_strlit("@id");
            reveal_strlit("@symbolName");
            reveal_strlit("@valueType");
            let v = self@;
            let before_reg = registry_map(pre_reg);
            assert(before_reg.contains_key("@id"@) && symbol@ != "@id"@);
            assert(before_reg.contains_key("@symbolName"@) && symbol@ != "@symbolName"@);
            assert(before_reg.contains_key("@valueType"@) && symbol@ != "@valueType"@);
            assert forall|i: int| 0 <= i < v.entities.len() implies entity_conforms(
                #[trigger] v.entities[i],
                v.registry,
            ) by {
                assert(entity_conforms(v.entities[i], before_reg));
                assert forall|k: Seq<char>| #[trigger] v.entities[i].attrs.contains_key(
                    k,
                ) implies v.registry.contains_key(k) && value_tag(v.entities[i].attrs[k])
                    == v.registry[k] by {
                    assert(before_reg.contains_key(k));
                    assert(k != symbol@);
                }
            }
            assert(store_inv(self@));
        }
        Ok(created)
    }
}

/// What `update_entity` does, relating the old store, the request, the new
/// store and the result: validation failures and their reports, locator
/// resolution and its failures, idempotent no-change updates, exhaustion
/// of the version sequence, and the committed creation or modification
/// with its recorded event.
pub open spec fn update_outcome(
    v: StoreView,
    loc: LocatorView,
    items: Seq<AttributeToUpdateView>,
    w: StoreView,
    r: Result<Entity, AttributeStoreError>,
) -> bool {
    if !update_items_valid(v.registry, items) {
        &&& w == v
        &&& r matches Err(e) && e.kind matches AttributeStoreErrorKind::ValidationError(rep)
            && messages_view(rep.violations@) == update_violations(v.registry, items)
    } else {
        match resolve_locator(v, loc) {
            Some(i) => {
                let before = v.entities[i];
                let new_attrs = apply_update_items(before.attrs, items);
                if new_attrs == before.attrs {
                    &&& w == v
                    &&& r matches Ok(e) && e@ == before
                } else if v.watermark == i64::MAX {
                    &&& w == v
                    &&& r matches Err(e) && e.kind is Other
                } else {
                    let after = EntityView {
                        id: before.id,
                        version: v.watermark + 1,
                        attrs: new_attrs,
                    };
                    &&& r matches Ok(e) && e@ == after
                    &&& w == (StoreView {
                        registry: v.registry,
                        entities: v.entities.update(i, after),
                        watermark: v.watermark + 1,
                        events: v.events.push(modified_event(before, after)),
                    })
                }
            },
            None => {
                match loc {
                    LocatorView::ById(_) => {
                        &&& w == v
                        &&& r matches Err(e) && e.kind matches
                            AttributeStoreErrorKind::EntityNotFound(l) && l@ == loc
                    },
                    LocatorView::BySymbol(sym) => {
                        if !contains_symbol_write(items, sym) {
                            &&& w == v
                            &&& r matches Err(e) && e.kind matches
                                AttributeStoreErrorKind::UpdateNotIdempotent {
                                missing_attribute_to_update,
                                entity_locator,
                            } && missing_attribute_to_update@ == symbol_write_item(sym)
                                && entity_locator@ == loc
                        } else if !can_allocate(v) {
                            &&& w == v
                            &&& r matches Err(e) && e.kind is Other
                        } else {
                            let after = EntityView {
                                id: v.entities.len() as int,
                                version: v.watermark + 1,
                                attrs: new_entity_attrs(items),
                            };
                            &&& r matches Ok(e) && e@ == after
                            &&& w == (StoreView {
                                registry: v.registry,
                                entities: v.entities.push(after),
                                watermark: v.watermark + 1,
                                events: v.events.push(added_event(after)),
                            })
                        }
                    },
                }
            },
        }
    }
}

impl InMemoryAttributeStore {
    /// Applies validated items to the entity at `idx`: returns it
    /// unchanged when the items change nothing, else replaces its
    /// attributes, stamps it with a fresh version, and records and
    /// publishes the modification.
    fn update_existing_entity(&mut self, idx: usize, items: &Vec<AttributeToUpdate>) -> (r:
        Result<Entity, AttributeStoreError>)
        requires
            old(self).wf(),
            idx < old(self)@.entities.len(),
            update_items_valid(old(self)@.registry, updates_view(items@)),
        ensures
            final(self).wf(),
            ({
                let before = old(self)@.entities[idx as int];
                let new_attrs = apply_update_items(before.attrs, updates_view(items@));
                if new_attrs == before.attrs {
                    &&& final(self)@ == old(self)@
                    &&& r matches Ok(e) && e@ == before && attrs_unique(e.attributes@)
                } else if old(self)@.watermark == i64::MAX {
                    &&& final(self)@ == old(self)@
                    &&& r matches Err(e) && e.kind is Other
                } else {
                    let after = EntityView {
                        id: before.id,
                        version: old(self)@.watermark + 1,
                        attrs: new_attrs,
                    };
                    &&& r matches Ok(e) && e@ == after && attrs_unique(e.attributes@)
                    &&& final(self)@ == (StoreView {
                        registry: old(self)@.registry,
                        entities: old(self)@.entities.update(idx as int, after),
                        watermark: old(self)@.watermark + 1,
                        events: old(self)@.events.push(modified_event(before, after)),
                    })
                }
            }),
    {
        let ghost v = self@;
        let mut new_attrs = self.entities[idx].attributes.clone();
        proof {
            assert(forall|i: int| 0 <= i < new_attrs@.len()
                ==> #[trigger] new_attrs@[i].symbol@
                == self.entities[idx as int].attributes@[i].symbol@ && new_attrs@[i].value@
                == self.entities[idx as int].attributes@[i].value@);
            crate::entity::lemma_attrs_pointwise(
                new_attrs@,
                self.entities[idx as int].attributes@,
            );
        }
        apply_items_to_attrs(&mut new_attrs, items);
        if crate::entity::attrs_maps_equal(&self.entities[idx].attributes, &new_attrs) {
            let e = self.entities[idx].clone();
            return Ok(e);
        }
        if self.entity_version_counter == i64::MAX {
            return Err(
                AttributeStoreError {
                    kind: AttributeStoreErrorKind::Other {
                        message: String::from_str("entity version sequence exhausted"),
                    },
                },
            );
        }
        let version = self.entity_version_counter + 1;
        let before_entity = self.entities[idx].clone();
        let mut entity = self.entities.remove(idx);
        entity.entity_version = EntityVersion(version);
        entity.attributes = new_attrs;
        let returned = entity.clone();
        self.entities.insert(idx, entity);
        self.entity_version_counter = version;
        proof {
            self.events@ = self.events@.push(modified_event(before_entity@, returned@));
        }
        send_watch_event(
            &self.watch_entities_channel,
            WatchEntitiesEvent {
                entity_version: EntityVersion(version),
                before: Some(before_entity),
                after: Some(returned.clone()),
            },
        );
        proof {
            let w = self@;
            let before = v.entities[idx as int];
            let after = EntityView {
                id: before.id,
                version: v.watermark + 1,
                attrs: apply_update_items(before.attrs, updates_view(items@)),
            };
            assert(returned@ == after);
            assert(w.entities =~= v.entities.update(idx as int, after));
            assert(w.events =~= v.events.push(modified_event(before, after)));
            assert(w == (StoreView {
                registry: v.registry,
                entities: v.entities.update(idx as int, after),
                watermark: v.watermark + 1,
                events: v.events.push(modified_event(before, after)),
            }));
            assert(w.events.drop_last() =~= v.events);
            assert(w.entities == replay(w.events));
            lemma_apply_items_conform(before.attrs, updates_view(items@), v.registry);
            assert(store_inv(w));
            assert(forall|i: int| 0 <= i < self.entities@.len() ==> attrs_unique(
                (#[trigger] self.entities@[i]).attributes@,
            ));
        }
        Ok(returned)
    }

    /// Resolves the locator, creating the entity for an unresolved symbol
    /// locator that writes its own `@symbolName`, and otherwise applying
    /// the validated items to the resolved entity. Validation failures,
    /// unknown ids, and non-idempotent symbol upserts fail without
    /// changing the store; a committed change stamps a fresh version and
    /// publishes one event.
    pub fn update_entity(&mut self, update_entity_request: &UpdateEntityRequest) -> (r: Result<
        Entity,
        AttributeStoreError,
    >)
        requires
            old(self).wf(),
        ensures
            final(self).wf(),
            update_outcome(
                old(self)@,
                update_entity_request.entity_locator@,
                updates_view(update_entity_request.attributes_to_update@),
                final(self)@,
                r,
            ),
            r matches Ok(e) ==> attrs_unique(e.attributes@),
    {
        let items = &update_entity_request.attributes_to_update;
        match crate::validate::validate_update_items(&self.attribute_types, items) {
            Err(rep) => {
                return Err(
                    AttributeStoreError { kind: AttributeStoreErrorKind::ValidationError(rep) },
                );
            },
            Ok(_) => {},
        }
        match &update_entity_request.entity_locator {
            EntityLocator::EntityId(entity_id) => {
                if entity_id.0 >= 0 && (entity_id.0 as u64) < (self.entities.len() as u64) {
                    self.update_existing_entity(entity_id.0 as usize, items)
                } else {
                    Err(
                        AttributeStoreError {
                            kind: AttributeStoreErrorKind::EntityNotFound(
                                update_entity_request.entity_locator.clone(),
                            ),
                        },
                    )
                }
            },
            EntityLocator::Symbol(symbol) => {
                match find_entity_by_symbol(&self.entities, symbol) {
                    Some(idx) => self.update_existing_entity(idx, items),
                    None => {
                        let expected = AttributeToUpdate {
                            symbol: Symbol::from_bootstrap(BootstrapSymbol::SymbolName),
                            value: Some(
                                AttributeValue::String(symbol.clone().into_string()),
                            ),
                        };
                        proof {
                            assert(expected@ == symbol_write_item(symbol@));
                        }
                        if !contains_update_item(items, &expected) {
                            return Err(
                                AttributeStoreError {
                                    kind: AttributeStoreErrorKind::UpdateNotIdempotent {
                                        missing_attribute_to_update: expected,
                                        entity_locator: update_entity_request
                                            .entity_locator
                                            .clone(),
                                    },
                                },
                            );
                        }
                        let attributes = new_attrs_from_items(items);
                        proof {
                            lemma_new_attrs_conform(updates_view(items@), self@.registry);
                        }
                        self.insert_new_entity_with_attributes(attributes)
                    },
                }
            },
        }
    }
}

/// The initial events of an entity-watch snapshot: one addition per
/// matching entity, each carrying the snapshot's watermark.
pub open spec fn snapshot_events(
    es: Seq<EntityView>,
    n: EntityQueryNode,
    watermark: int,
) -> Seq<EventView> {
    Seq::new(
        matching_entities(es, n).len(),
        |i: int| EventView {
            version: watermark,
            before: None,
            after: Some(matching_entities(es, n)[i]),
        },
    )
}

/// The initial events of a row-watch snapshot: one row addition per
/// matching entity, each carrying the snapshot's watermark.
pub open spec fn snapshot_row_events(
    es: Seq<EntityView>,
    n: EntityQueryNode,
    cols: Seq<Seq<char>>,
    watermark: int,
) -> Seq<crate::watch::RowEventView> {
    Seq::new(
        matching_entities(es, n).len(),
        |i: int| crate::watch::RowEventView {
            version: watermark,
            before: None,
            after: Some(project_row(matching_entities(es, n)[i], cols)),
        },
    )
}

impl InMemoryAttributeStore {
    /// Prepares an entity-watch subscription: when initial events are
    /// asked for, takes a consistent snapshot of the matching entities as
    /// Added events at the current watermark, to be closed by a bookmark
    /// at that watermark, and sets the watermark as the bound below which
    /// live events are dropped.
    pub fn watch_entities_plan(&self, request: &WatchEntitiesRequest) -> (r:
        crate::watch::WatchEntitiesPlan)
        requires
            self.wf(),
        ensures
            request.send_initial_events ==> {
                &&& crate::watch::events_view(r.initial_events@) == snapshot_events(
                    self@.entities,
                    request.query,
                    self@.watermark,
                )
                &&& r.bookmark == Some(EntityVersion(self@.watermark as i64))
                &&& r.min_entity_version == Some(EntityVersion(self@.watermark as i64))
            },
            !request.send_initial_events ==> {
                &&& r.initial_events@.len() == 0
                &&& r.bookmark is None
                &&& r.min_entity_version is None
            },
    {
        if !request.send_initial_events {
            return crate::watch::WatchEntitiesPlan {
                initial_events: Vec::new(),
                bookmark: None,
                min_entity_version: None,
            };
        }
        let watermark = EntityVersion(self.entity_version_counter);
        let mut initial_events: Vec<WatchEntitiesEvent> = Vec::new();
        let mut i: usize = 0;
        while i < self.entities.len()
            invariant
                i <= self.entities@.len(),
                self.wf(),
                watermark.0 as int == self@.watermark,
                crate::watch::events_view(initial_events@) == snapshot_events(
                    entities_view(self.entities@).subrange(0, i as int),
                    request.query,
                    self@.watermark,
                ),
            decreases self.entities@.len() - i,
        {
            let ghost es = entities_view(self.entities@);
            let ghost prev = crate::watch::events_view(initial_events@);
            let ghost prev_matching = matching_entities(es.subrange(0, i as int), request.query);
            if request.query.matches(&self.entities[i]) {
                initial_events.push(
                    WatchEntitiesEvent {
                        entity_version: watermark,
                        before: None,
                        after: Some(self.entities[i].clone()),
                    },
                );
                proof {
                    assert(crate::watch::events_view(initial_events@) =~= prev.push(
                        EventView {
                            version: self@.watermark,
                            before: None,
                            after: Some(es[i as int]),
                        },
                    ));
                    assert(snapshot_events(
                        es.subrange(0, i as int),
                        request.query,
                        self@.watermark,
                    ).push(
                        EventView {
                            version: self@.watermark,
                            before: None,
                            after: Some(es[i as int]),
                        },
                    ) =~= Seq::new(
                        prev_matching.push(es[i as int]).len(),
                        |j: int| EventView {
                            version: self@.watermark,
                            before: None,
                            after: Some(prev_matching.push(es[i as int])[j]),
                        },
                    ));
                }
            }
            proof {
                assert(es.subrange(0, i + 1).drop_last() =~= es.subrange(0, i as int));
                assert(es.subrange(0, i + 1).last() == es[i as int]);
                assert(es[i as int] == self.entities@[i as int]@);
                assert(crate::watch::events_view(initial_events@) =~= snapshot_events(
                    es.subrange(0, i + 1),
                    request.query,
                    self@.watermark,
                ));
            }
            i = i + 1;
        }
        proof {
            assert(entities_view(self.entities@).subrange(
                0,
                self.entities@.len() as int,
            ) =~= entities_view(self.entities@));
        }
        crate::watch::WatchEntitiesPlan {
            initial_events,
            bookmark: Some(watermark),
            min_entity_version: Some(watermark),
        }
    }

    /// Prepares a row-watch subscription: validates the projection, then
    /// as `watch_entities_plan`, with the snapshot projected to rows.
    /// Fails with a `ValidationError` naming each unregistered column.
    pub fn watch_entity_rows_plan(&self, request: &WatchEntityRowsRequest) -> (r: Result<
        crate::watch::WatchEntityRowsPlan,
        AttributeStoreError,
    >)
        requires
            self.wf(),
        ensures
            match r {
                Ok(plan) => {
                    &&& projection_valid(self@.registry, symbol_names(request.attribute_types@))
                    &&& request.send_initial_events ==> {
                        &&& crate::watch::row_events_view(plan.initial_events@)
                            == snapshot_row_events(
                            self@.entities,
                            request.query,
                            symbol_names(request.attribute_types@),
                            self@.watermark,
                        )
                        &&& plan.bookmark == Some(EntityVersion(self@.watermark as i64))
                        &&& plan.min_entity_version == Some(EntityVersion(self@.watermark as i64))
                    }
                    &&& !request.send_initial_events ==> {
                        &&& plan.initial_events@.len() == 0
                        &&& plan.bookmark is None
                        &&& plan.min_entity_version is None
                    }
                },
                Err(err) => {
                    &&& !projection_valid(self@.registry, symbol_names(request.attribute_types@))
                    &&& err.kind matches AttributeStoreErrorKind::ValidationError(rep)
                        && messages_view(rep.violations@) == projection_violations(
                        self@.registry,
                        symbol_names(request.attribute_types@),
                    )
                },
            },
    {
        match crate::validate::validate_projection(
            &self.attribute_types,
            &request.attribute_types,
        ) {
            Err(rep) => {
                return Err(
                    AttributeStoreError { kind: AttributeStoreErrorKind::ValidationError(rep) },
                );
            },
            Ok(_) => {},
        }
        if !request.send_initial_events {
            return Ok(
                crate::watch::WatchEntityRowsPlan {
                    initial_events: Vec::new(),
                    bookmark: None,
                    min_entity_version: None,
                },
            );
        }
        let watermark = EntityVersion(self.entity_version_counter);
        let ghost cols = symbol_names(request.attribute_types@);
        let mut initial_events: Vec<crate::watch::WatchEntityRowsEvent> = Vec::new();
        let mut i: usize = 0;
        while i < self.entities.len()
            invariant
                i <= self.entities@.len(),
                self.wf(),
                watermark.0 as int == self@.watermark,
                cols == symbol_names(request.attribute_types@),
                crate::watch::row_events_view(initial_events@) == snapshot_row_events(
                    entities_view(self.entities@).subrange(0, i as int),
                    request.query,
                    cols,
                    self@.watermark,
                ),
            decreases self.entities@.len() - i,
        {
            let ghost es = entities_view(self.entities@);
            let ghost prev = crate::watch::row_events_view(initial_events@);
            let ghost prev_matching = matching_entities(es.subrange(0, i as int), request.query);
            if request.query.matches(&self.entities[i]) {
                initial_events.push(
                    crate::watch::WatchEntityRowsEvent {
                        entity_version: watermark,
                        before: None,
                        after: Some(self.entities[i].to_entity_row(&request.attribute_types)),
                    },
                );
                proof {
                    assert(crate::watch::row_events_view(initial_events@) =~= prev.push(
                        crate::watch::RowEventView {
                            version: self@.watermark,
                            before: None,
                            after: Some(project_row(es[i as int], cols)),
                        },
                    ));
                    assert(snapshot_row_events(
                        es.subrange(0, i as int),
                        request.query,
                        cols,
                        self@.watermark,
                    ).push(
                        crate::watch::RowEventView {
                            version: self@.watermark,
                            before: None,
                            after: Some(project_row(es[i as int], cols)),
                        },
                    ) =~= Seq::new(
                        prev_matching.push(es[i as int]).len(),
                        |j: int| crate::watch::RowEventView {
                            version: self@.watermark,
                            before: None,
                            after: Some(project_row(prev_matching.push(es[i as int])[j], cols)),
                        },
                    ));
                }
            }
            proof {
                assert(es.subrange(0, i + 1).drop_last() =~= es.subrange(0, i as int));
                assert(es.subrange(0, i + 1).last() == es[i as int]);
                assert(es[i as int] == self.entities@[i as int]@);
                assert(crate::watch::row_events_view(initial_events@) =~= snapshot_row_events(
                    es.subrange(0, i + 1),
                    request.query,
                    cols,
                    self@.watermark,
                ));
            }
            i = i + 1;
        }
        proof {
            assert(entities_view(self.entities@).subrange(
                0,
                self.entities@.len() as int,
            ) =~= entities_view(self.entities@));
        }
        Ok(
            crate::watch::WatchEntityRowsPlan {
                initial_events,
                bookmark: Some(watermark),
                min_entity_version: Some(watermark),
            },
        )
    }
}

} // verus!
