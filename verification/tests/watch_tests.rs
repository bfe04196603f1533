use attribute_store::entity::{AttributeType, AttributeValue, EntityLocator};
use attribute_store::query::{EntityQueryNode, HasAttributeTypesNode};
use attribute_store::requests::{AttributeToUpdate, CreateAttributeTypeRequest, UpdateEntityRequest};
use attribute_store::store::InMemoryAttributeStore;
use attribute_store::symbol::Symbol;
use attribute_store::values::{EntityVersion, ValueType};
use attribute_store::watch::{next_watch_event, next_watch_row_event, WatchEntitiesRequest};
use tokio::sync::broadcast::error::TryRecvError;

fn symbol(name: &str) -> Symbol {
    Symbol::try_from(name).unwrap()
}

fn set(name: &str, value: &str) -> AttributeToUpdate {
    AttributeToUpdate {
        symbol: symbol(name),
        value: Some(AttributeValue::String(value.to_string())),
    }
}

fn color_query() -> EntityQueryNode {
    EntityQueryNode::HasAttributeTypes(HasAttributeTypesNode {
        attribute_types: vec![symbol("color")],
    })
}

fn seeded_store() -> InMemoryAttributeStore {
    let mut store = InMemoryAttributeStore::new();
    store
        .create_attribute_type(&CreateAttributeTypeRequest {
            attribute_type: AttributeType {
                symbol: symbol("color"),
                value_type: ValueType::Text,
            },
        })
        .unwrap();
    store
        .update_entity(&UpdateEntityRequest {
            entity_locator: EntityLocator::Symbol(symbol("widget-1")),
            attributes_to_update: vec![set("@symbolName", "widget-1"), set("color", "red")],
        })
        .unwrap();
    store
        .update_entity(&UpdateEntityRequest {
            entity_locator: EntityLocator::Symbol(symbol("widget-2")),
            attributes_to_update: vec![set("@symbolName", "widget-2"), set("color", "blue")],
        })
        .unwrap();
    store
}

#[test]
fn snapshot_then_tail() {
    let mut store = seeded_store();
    let mut receiver = store.watch_entities_receiver();
    let plan = store.watch_entities_plan(&WatchEntitiesRequest {
        query: color_query(),
        send_initial_events: true,
    });

    // the snapshot: one Added event per matching entity, all at the
    // watermark, closed by a bookmark at the watermark
    assert_eq!(plan.initial_events.len(), 2);
    let v0 = plan.bookmark.unwrap();
    assert_eq!(plan.min_entity_version, Some(v0));
    for event in &plan.initial_events {
        assert_eq!(event.entity_version, v0);
        assert!(event.before.is_none());
        assert!(event.after.is_some());
    }
    let names: Vec<String> = plan
        .initial_events
        .iter()
        .map(|e| {
            e.after
                .as_ref()
                .unwrap()
                .attributes
                .iter()
                .find(|a| a.symbol == symbol("@symbolName"))
                .map(|a| match &a.value {
                    AttributeValue::String(s) => s.clone(),
                    _ => String::new(),
                })
                .unwrap()
        })
        .collect();
    assert_eq!(names, vec!["widget-1".to_string(), "widget-2".to_string()]);

    // a live change to a matching entity surfaces as Modified past the bookmark
    store
        .update_entity(&UpdateEntityRequest {
            entity_locator: EntityLocator::Symbol(symbol("widget-1")),
            attributes_to_update: vec![set("@symbolName", "widget-1"), set("color", "green")],
        })
        .unwrap();
    let raw = receiver.try_recv().unwrap();
    let query = color_query();
    let delivered = next_watch_event(raw, &query, plan.min_entity_version).unwrap();
    assert!(delivered.before.is_some());
    assert!(delivered.after.is_some());
    assert!(delivered.entity_version > v0);

    // a change to an entity outside the query is suppressed
    store
        .update_entity(&UpdateEntityRequest {
            entity_locator: EntityLocator::Symbol(symbol("plain")),
            attributes_to_update: vec![set("@symbolName", "plain")],
        })
        .unwrap();
    let raw = receiver.try_recv().unwrap();
    assert!(next_watch_event(raw, &query, plan.min_entity_version).is_none());
    assert!(matches!(receiver.try_recv(), Err(TryRecvError::Empty)));
}

#[test]
fn snapshot_skipped_without_initial_events() {
    let store = seeded_store();
    let plan = store.watch_entities_plan(&WatchEntitiesRequest {
        query: color_query(),
        send_initial_events: false,
    });
    assert!(plan.initial_events.is_empty());
    assert!(plan.bookmark.is_none());
    assert!(plan.min_entity_version.is_none());
}

#[test]
fn tail_drops_events_at_or_below_watermark() {
    let mut store = seeded_store();
    let mut receiver = store.watch_entities_receiver();
    store
        .update_entity(&UpdateEntityRequest {
            entity_locator: EntityLocator::Symbol(symbol("widget-1")),
            attributes_to_update: vec![set("@symbolName", "widget-1"), set("color", "green")],
        })
        .unwrap();
    let raw = receiver.try_recv().unwrap();
    let version = raw.entity_version;
    let query = color_query();
    // at the watermark: covered by the snapshot, dropped from the tail
    assert!(next_watch_event(raw.clone(), &query, Some(version)).is_none());
    // below the watermark: dropped as well
    assert!(next_watch_event(raw.clone(), &query, Some(EntityVersion(i64::MAX))).is_none());
    // no watermark: delivered
    assert!(next_watch_event(raw, &query, None).is_some());
}

#[test]
fn no_event_for_idempotent_update() {
    let mut store = seeded_store();
    let mut receiver = store.watch_entities_receiver();
    store
        .update_entity(&UpdateEntityRequest {
            entity_locator: EntityLocator::Symbol(symbol("widget-1")),
            attributes_to_update: vec![set("@symbolName", "widget-1"), set("color", "red")],
        })
        .unwrap();
    assert!(matches!(receiver.try_recv(), Err(TryRecvError::Empty)));
}

#[test]
fn row_watch_projects_live_events() {
    let mut store = seeded_store();
    let mut receiver = store.watch_entities_receiver();
    let request = attribute_store::watch::WatchEntityRowsRequest {
        query: color_query(),
        attribute_types: vec![symbol("@id"), symbol("color")],
        send_initial_events: true,
    };
    let plan = store.watch_entity_rows_plan(&request).unwrap();
    assert_eq!(plan.initial_events.len(), 2);
    let first = &plan.initial_events[0];
    assert!(first.before.is_none());
    let row = first.after.as_ref().unwrap();
    assert!(row.entity_id_value(0).is_some());
    assert_eq!(row.string_value(1), Some(&"red".to_string()));

    store
        .update_entity(&UpdateEntityRequest {
            entity_locator: EntityLocator::Symbol(symbol("widget-1")),
            attributes_to_update: vec![set("@symbolName", "widget-1"), set("color", "green")],
        })
        .unwrap();
    let raw = receiver.try_recv().unwrap();
    let query = color_query();
    let columns = vec![symbol("@id"), symbol("color")];
    let delivered =
        next_watch_row_event(raw, &query, plan.min_entity_version, &columns).unwrap();
    let after = delivered.after.unwrap();
    assert_eq!(after.string_value(1), Some(&"green".to_string()));
    let before = delivered.before.unwrap();
    assert_eq!(before.string_value(1), Some(&"red".to_string()));
}

#[test]
fn row_watch_rejects_unregistered_projection() {
    let store = seeded_store();
    let request = attribute_store::watch::WatchEntityRowsRequest {
        query: color_query(),
        attribute_types: vec![symbol("nope")],
        send_initial_events: true,
    };
    let err = store.watch_entity_rows_plan(&request).unwrap_err();
    match err.kind {
        attribute_store::errors::AttributeStoreErrorKind::ValidationError(report) => {
            assert_eq!(report.violations[0].path, "attribute_types[0]");
            assert_eq!(report.violations[0].message, "unregistered attribute type");
        }
        other => panic!("expected a validation error, got {:?}", other),
    }
}
