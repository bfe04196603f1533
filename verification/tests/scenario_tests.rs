use attribute_store::entity::{AttributeType, AttributeValue, EntityLocator};
use attribute_store::errors::AttributeStoreErrorKind;
use attribute_store::query::{EntityQueryNode, EntityRowQuery, MatchAllQueryNode};
use attribute_store::requests::{AttributeToUpdate, CreateAttributeTypeRequest, UpdateEntityRequest};
use attribute_store::store::InMemoryAttributeStore;
use attribute_store::symbol::Symbol;
use attribute_store::values::{EntityId, ValueType};

fn symbol(name: &str) -> Symbol {
    Symbol::try_from(name).unwrap()
}

fn set(name: &str, value: AttributeValue) -> AttributeToUpdate {
    AttributeToUpdate {
        symbol: symbol(name),
        value: Some(value),
    }
}

fn text(value: &str) -> AttributeValue {
    AttributeValue::String(value.to_string())
}

#[test]
fn create_attribute_write_and_read_back() {
    let mut store = InMemoryAttributeStore::new();
    let e1 = store
        .create_attribute_type(&CreateAttributeTypeRequest {
            attribute_type: AttributeType {
                symbol: symbol("color"),
                value_type: ValueType::Text,
            },
        })
        .unwrap();
    assert_eq!(e1.entity_id, EntityId(6));

    let e2 = store
        .update_entity(&UpdateEntityRequest {
            entity_locator: EntityLocator::Symbol(symbol("widget-1")),
            attributes_to_update: vec![
                set("@symbolName", text("widget-1")),
                set("color", text("red")),
            ],
        })
        .unwrap();
    assert_eq!(e2.entity_id, EntityId(7));

    let result = store
        .query_entity_rows(&EntityRowQuery {
            root: EntityQueryNode::MatchAll(MatchAllQueryNode),
            attribute_types: vec![symbol("@id"), symbol("@symbolName"), symbol("color")],
        })
        .unwrap();
    let row = &result.entity_rows[7];
    assert_eq!(row.entity_id_value(0), Some(EntityId(7)));
    assert_eq!(row.string_value(1), Some(&"widget-1".to_string()));
    assert_eq!(row.string_value(2), Some(&"red".to_string()));
}

#[test]
fn rejected_update_of_immutable_attribute() {
    let mut store = InMemoryAttributeStore::new();
    store
        .create_attribute_type(&CreateAttributeTypeRequest {
            attribute_type: AttributeType {
                symbol: symbol("color"),
                value_type: ValueType::Text,
            },
        })
        .unwrap();
    let e2 = store
        .update_entity(&UpdateEntityRequest {
            entity_locator: EntityLocator::Symbol(symbol("widget-1")),
            attributes_to_update: vec![
                set("@symbolName", text("widget-1")),
                set("color", text("red")),
            ],
        })
        .unwrap();

    let err = store
        .update_entity(&UpdateEntityRequest {
            entity_locator: EntityLocator::EntityId(e2.entity_id),
            attributes_to_update: vec![set(
                "@valueType",
                AttributeValue::EntityId(EntityId(3)),
            )],
        })
        .unwrap_err();
    match err.kind {
        AttributeStoreErrorKind::ValidationError(report) => {
            assert_eq!(report.violations.len(), 1);
            assert_eq!(report.violations[0].path, "attributes_to_update[0].symbol");
            assert_eq!(report.violations[0].message, "immutable attribute type");
        }
        other => panic!("expected a validation error, got {:?}", other),
    }
}

#[test]
fn rejected_update_with_wrong_value_tag() {
    let mut store = InMemoryAttributeStore::new();
    store
        .create_attribute_type(&CreateAttributeTypeRequest {
            attribute_type: AttributeType {
                symbol: symbol("count"),
                value_type: ValueType::Bytes,
            },
        })
        .unwrap();
    let err = store
        .update_entity(&UpdateEntityRequest {
            entity_locator: EntityLocator::Symbol(symbol("x")),
            attributes_to_update: vec![set("@symbolName", text("x")), set("count", text("seven"))],
        })
        .unwrap_err();
    match err.kind {
        AttributeStoreErrorKind::ValidationError(report) => {
            assert_eq!(report.violations.len(), 1);
            assert_eq!(report.violations[0].path, "attributes_to_update[1].value");
            assert_eq!(report.violations[0].message, "incorrect value type");
        }
        other => panic!("expected a validation error, got {:?}", other),
    }
}

#[test]
fn unregistered_attribute_type_is_rejected() {
    let mut store = InMemoryAttributeStore::new();
    let err = store
        .update_entity(&UpdateEntityRequest {
            entity_locator: EntityLocator::Symbol(symbol("x")),
            attributes_to_update: vec![set("@symbolName", text("x")), set("nope", text("y"))],
        })
        .unwrap_err();
    match err.kind {
        AttributeStoreErrorKind::ValidationError(report) => {
            assert_eq!(report.violations.len(), 2);
            assert_eq!(report.violations[0].path, "attributes_to_update[1].symbol");
            assert_eq!(report.violations[0].message, "unregistered attribute type");
            assert_eq!(report.violations[1].path, "attributes_to_update[1].value");
            assert_eq!(
                report.violations[1].message,
                "cannot find value type for attribute type"
            );
        }
        other => panic!("expected a validation error, got {:?}", other),
    }
}

#[test]
fn duplicate_attribute_type_is_rejected() {
    let mut store = InMemoryAttributeStore::new();
    let request = CreateAttributeTypeRequest {
        attribute_type: AttributeType {
            symbol: symbol("color"),
            value_type: ValueType::Text,
        },
    };
    store.create_attribute_type(&request).unwrap();
    let err = store.create_attribute_type(&request).unwrap_err();
    match err.kind {
        AttributeStoreErrorKind::ValidationError(report) => {
            assert_eq!(report.violations.len(), 1);
            assert_eq!(report.violations[0].path, "attribute_type.symbol");
            assert_eq!(report.violations[0].message, "attribute type already exists");
        }
        other => panic!("expected a validation error, got {:?}", other),
    }
}

#[test]
fn non_idempotent_symbol_upsert_is_rejected() {
    let mut store = InMemoryAttributeStore::new();
    let err = store
        .update_entity(&UpdateEntityRequest {
            entity_locator: EntityLocator::Symbol(symbol("widget-1")),
            attributes_to_update: vec![],
        })
        .unwrap_err();
    match err.kind {
        AttributeStoreErrorKind::UpdateNotIdempotent {
            missing_attribute_to_update,
            entity_locator,
        } => {
            assert_eq!(missing_attribute_to_update.symbol, symbol("@symbolName"));
            assert_eq!(
                missing_attribute_to_update.value,
                Some(text("widget-1"))
            );
            assert_eq!(entity_locator, EntityLocator::Symbol(symbol("widget-1")));
        }
        other => panic!("expected an idempotence error, got {:?}", other),
    }
}

#[test]
fn idempotent_upsert_returns_equal_entity() {
    let mut store = InMemoryAttributeStore::new();
    store
        .create_attribute_type(&CreateAttributeTypeRequest {
            attribute_type: AttributeType {
                symbol: symbol("color"),
                value_type: ValueType::Text,
            },
        })
        .unwrap();
    let request = UpdateEntityRequest {
        entity_locator: EntityLocator::Symbol(symbol("widget-1")),
        attributes_to_update: vec![
            set("@symbolName", text("widget-1")),
            set("color", text("red")),
        ],
    };
    let first = store.update_entity(&request).unwrap();
    let second = store.update_entity(&request).unwrap();
    assert_eq!(first, second);
    assert_eq!(first.entity_version, second.entity_version);
}

#[test]
fn attribute_removal_by_null_value() {
    let mut store = InMemoryAttributeStore::new();
    store
        .create_attribute_type(&CreateAttributeTypeRequest {
            attribute_type: AttributeType {
                symbol: symbol("color"),
                value_type: ValueType::Text,
            },
        })
        .unwrap();
    let created = store
        .update_entity(&UpdateEntityRequest {
            entity_locator: EntityLocator::Symbol(symbol("widget-1")),
            attributes_to_update: vec![
                set("@symbolName", text("widget-1")),
                set("color", text("red")),
            ],
        })
        .unwrap();
    let updated = store
        .update_entity(&UpdateEntityRequest {
            entity_locator: EntityLocator::EntityId(created.entity_id),
            attributes_to_update: vec![AttributeToUpdate {
                symbol: symbol("color"),
                value: None,
            }],
        })
        .unwrap();
    assert!(updated
        .attributes
        .iter()
        .all(|a| a.symbol != symbol("color")));
    assert!(updated.entity_version > created.entity_version);
}
