use attribute_store::entity::{Attribute, AttributeType, AttributeValue, Entity, EntityLocator};
use attribute_store::errors::AttributeStoreErrorKind;
use attribute_store::query::{
    AndQueryNode, EntityQueryNode, HasAttributeTypesNode, MatchAllQueryNode, MatchNoneQueryNode,
    OrQueryNode,
};
use attribute_store::requests::{AttributeToUpdate, CreateAttributeTypeRequest, UpdateEntityRequest};
use attribute_store::store::InMemoryAttributeStore;
use attribute_store::symbol::Symbol;
use attribute_store::values::{BootstrapSymbol, EntityId, EntityVersion, ValueType};

fn symbol(name: &str) -> Symbol {
    Symbol::try_from(name).unwrap()
}

fn sample_entity() -> Entity {
    Entity {
        entity_id: EntityId(9),
        entity_version: EntityVersion(4),
        attributes: vec![
            Attribute {
                symbol: symbol("@symbolName"),
                value: AttributeValue::String("widget".to_string()),
            },
            Attribute {
                symbol: symbol("size"),
                value: AttributeValue::EntityId(EntityId(3)),
            },
            Attribute {
                symbol: symbol("payload"),
                value: AttributeValue::Bytes(vec![1, 2, 3]),
            },
        ],
    }
}

#[test]
fn projection_synthesizes_id_column() {
    let entity = sample_entity();
    let row = entity.to_entity_row(&vec![symbol("@id"), symbol("size"), symbol("missing")]);
    assert_eq!(row.entity_id_value(0), Some(EntityId(9)));
    assert_eq!(row.entity_id_value(1), Some(EntityId(3)));
    assert_eq!(row.attribute_value(2), None);
    assert_eq!(row.attribute_value(3), None);
}

#[test]
fn row_accessors_match_tags() {
    let entity = sample_entity();
    let row = entity.to_entity_row(&vec![symbol("@symbolName"), symbol("payload")]);
    assert_eq!(row.string_value(0), Some(&"widget".to_string()));
    assert_eq!(row.bytes_value(1), Some(&vec![1, 2, 3]));
    assert_eq!(row.entity_id_value(0), None);
    assert_eq!(row.bytes_value(0), None);
}

#[test]
fn query_nodes_evaluate() {
    let entity = sample_entity();
    assert!(EntityQueryNode::MatchAll(MatchAllQueryNode).matches(&entity));
    assert!(!EntityQueryNode::MatchNone(MatchNoneQueryNode).matches(&entity));
    let has_size = EntityQueryNode::HasAttributeTypes(HasAttributeTypesNode {
        attribute_types: vec![symbol("size")],
    });
    assert!(has_size.matches(&entity));
    let has_other = EntityQueryNode::HasAttributeTypes(HasAttributeTypesNode {
        attribute_types: vec![symbol("size"), symbol("missing")],
    });
    assert!(!has_other.matches(&entity));

    let and_node = EntityQueryNode::And(AndQueryNode {
        clauses: vec![
            EntityQueryNode::MatchAll(MatchAllQueryNode),
            EntityQueryNode::MatchNone(MatchNoneQueryNode),
        ],
    });
    assert!(!and_node.matches(&entity));
    let or_node = EntityQueryNode::Or(OrQueryNode {
        clauses: vec![
            EntityQueryNode::MatchNone(MatchNoneQueryNode),
            EntityQueryNode::MatchAll(MatchAllQueryNode),
        ],
    });
    assert!(or_node.matches(&entity));
    // empty clause lists
    assert!(EntityQueryNode::And(AndQueryNode { clauses: vec![] }).matches(&entity));
    assert!(!EntityQueryNode::Or(OrQueryNode { clauses: vec![] }).matches(&entity));
}

#[test]
fn value_type_conversions() {
    assert_eq!(ValueType::try_from(EntityId(3)).unwrap(), ValueType::Text);
    assert_eq!(
        ValueType::try_from(EntityId(4)).unwrap(),
        ValueType::EntityReference
    );
    assert_eq!(ValueType::try_from(EntityId(5)).unwrap(), ValueType::Bytes);
    let err = ValueType::try_from(EntityId(7)).unwrap_err();
    assert!(matches!(
        err.kind,
        AttributeStoreErrorKind::InvalidValueType(EntityId(7))
    ));
    assert_eq!(EntityId::from(ValueType::Text), EntityId(3));
    assert_eq!(EntityId::from(BootstrapSymbol::SymbolName), EntityId(1));
    assert_eq!(
        BootstrapSymbol::EntityId.value_type(),
        Some(EntityId::from(ValueType::EntityReference))
    );
    assert_eq!(
        BootstrapSymbol::ValueTypeEnum(ValueType::Bytes).value_type(),
        None
    );
    let err = usize::try_from(EntityId(-5)).unwrap_err();
    assert!(matches!(
        err.kind,
        AttributeStoreErrorKind::EntityNotFound(EntityLocator::EntityId(EntityId(-5)))
    ));
    assert_eq!(usize::try_from(EntityId(5)).unwrap(), 5usize);
}

#[test]
fn versions_are_strictly_monotonic() {
    let mut store = InMemoryAttributeStore::new();
    let e1 = store
        .create_attribute_type(&CreateAttributeTypeRequest {
            attribute_type: AttributeType {
                symbol: symbol("color"),
                value_type: ValueType::Text,
            },
        })
        .unwrap();
    assert_eq!(e1.entity_version, EntityVersion(1));
    let e2 = store
        .update_entity(&UpdateEntityRequest {
            entity_locator: EntityLocator::Symbol(symbol("w")),
            attributes_to_update: vec![AttributeToUpdate {
                symbol: symbol("@symbolName"),
                value: Some(AttributeValue::String("w".to_string())),
            }],
        })
        .unwrap();
    assert_eq!(e2.entity_version, EntityVersion(2));
    let e3 = store
        .update_entity(&UpdateEntityRequest {
            entity_locator: EntityLocator::EntityId(e2.entity_id),
            attributes_to_update: vec![AttributeToUpdate {
                symbol: symbol("color"),
                value: Some(AttributeValue::String("red".to_string())),
            }],
        })
        .unwrap();
    assert_eq!(e3.entity_version, EntityVersion(3));
    assert!(e1.entity_version < e2.entity_version && e2.entity_version < e3.entity_version);
}

#[test]
fn schema_stays_consistent_after_registration() {
    let mut store = InMemoryAttributeStore::new();
    store
        .create_attribute_type(&CreateAttributeTypeRequest {
            attribute_type: AttributeType {
                symbol: symbol("color"),
                value_type: ValueType::Text,
            },
        })
        .unwrap();
    // a write with the registered tag succeeds
    store
        .update_entity(&UpdateEntityRequest {
            entity_locator: EntityLocator::Symbol(symbol("w")),
            attributes_to_update: vec![
                AttributeToUpdate {
                    symbol: symbol("@symbolName"),
                    value: Some(AttributeValue::String("w".to_string())),
                },
                AttributeToUpdate {
                    symbol: symbol("color"),
                    value: Some(AttributeValue::String("red".to_string())),
                },
            ],
        })
        .unwrap();
    // a write with any other tag fails validation
    let err = store
        .update_entity(&UpdateEntityRequest {
            entity_locator: EntityLocator::Symbol(symbol("w")),
            attributes_to_update: vec![AttributeToUpdate {
                symbol: symbol("color"),
                value: Some(AttributeValue::Bytes(vec![1])),
            }],
        })
        .unwrap_err();
    assert!(matches!(
        err.kind,
        AttributeStoreErrorKind::ValidationError(_)
    ));
}

#[test]
fn server_wraps_a_store() {
    let server = attribute_store::server::AttributeServer::new(InMemoryAttributeStore::new());
    server.ping();
    let entity = server
        .store()
        .get_entity(&EntityLocator::EntityId(EntityId(0)))
        .unwrap();
    assert_eq!(entity.entity_id, EntityId(0));
}
