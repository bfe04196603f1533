use attribute_store::entity::{AttributeValue, Entity, EntityLocator, EntityRow};
use attribute_store::query::{EntityQuery, HasAttributeTypesNode};
use attribute_store::requests::{AttributeToUpdate, UpdateEntityRequest};
use attribute_store::errors::AttributeStoreErrorKind;
use attribute_store::query::{EntityQueryNode, EntityRowQuery, MatchAllQueryNode};
use attribute_store::store::InMemoryAttributeStore;
use attribute_store::symbol::Symbol;
use attribute_store::values::{BootstrapSymbol, EntityId, EntityVersion};

#[test]
fn can_fetch_by_entity_id() {
    let store = InMemoryAttributeStore::new();
    let entity_id_entity = store
        .get_entity(&EntityLocator::EntityId(BootstrapSymbol::EntityId.into()))
        .unwrap();
    assert_eq!(entity_id_entity, BootstrapSymbol::EntityId.into());
}

#[test]
fn can_fetch_by_symbol() {
    let store = InMemoryAttributeStore::new();
    let entity_id_entity = store
        .get_entity(&EntityLocator::Symbol(BootstrapSymbol::EntityId.into()))
        .unwrap();
    assert_eq!(entity_id_entity, BootstrapSymbol::EntityId.into());
}

#[test]
fn can_query_all() {
    let store = InMemoryAttributeStore::new();
    let result = store
        .query_entity_rows(&EntityRowQuery {
            root: EntityQueryNode::MatchAll(MatchAllQueryNode),
            attribute_types: vec![
                BootstrapSymbol::EntityId.into(),
                BootstrapSymbol::SymbolName.into(),
            ],
        })
        .unwrap();
    let bootstrap_entities: Vec<Entity> = vec![
        BootstrapSymbol::EntityId.into(),
        BootstrapSymbol::SymbolName.into(),
        BootstrapSymbol::ValueType.into(),
        BootstrapSymbol::ValueTypeEnum(attribute_store::values::ValueType::Text).into(),
        BootstrapSymbol::ValueTypeEnum(attribute_store::values::ValueType::EntityReference).into(),
        BootstrapSymbol::ValueTypeEnum(attribute_store::values::ValueType::Bytes).into(),
    ];
    let symbol_name: Symbol = BootstrapSymbol::SymbolName.into();
    let expected: Vec<EntityRow> = bootstrap_entities
        .iter()
        .map(|entity| EntityRow {
            values: vec![
                Some(AttributeValue::EntityId(entity.entity_id)),
                entity
                    .attributes
                    .iter()
                    .find(|a| a.symbol == symbol_name)
                    .map(|a| a.value.clone()),
            ],
        })
        .collect();
    assert_eq!(result.entity_rows, expected);
    assert_eq!(result.entity_version, EntityVersion(0));
}

#[test]
fn bootstrap_value_type_text_entity() {
    let store = InMemoryAttributeStore::new();
    let entity = store
        .get_entity(&EntityLocator::Symbol(
            Symbol::try_from("@valueType/text").unwrap(),
        ))
        .unwrap();
    assert_eq!(entity.entity_id, EntityId(3));
    let symbol_name: Symbol = BootstrapSymbol::SymbolName.into();
    let name = entity
        .attributes
        .iter()
        .find(|a| a.symbol == symbol_name)
        .map(|a| a.value.clone());
    assert_eq!(
        name,
        Some(AttributeValue::String("@valueType/text".to_string()))
    );
}

#[test]
fn get_entity_unknown_id_fails() {
    let store = InMemoryAttributeStore::new();
    let err = store
        .get_entity(&EntityLocator::EntityId(EntityId(99)))
        .unwrap_err();
    assert!(matches!(err.kind, AttributeStoreErrorKind::EntityNotFound(_)));
    let err = store
        .get_entity(&EntityLocator::EntityId(EntityId(-1)))
        .unwrap_err();
    assert!(matches!(err.kind, AttributeStoreErrorKind::EntityNotFound(_)));
}

#[test]
fn duplicate_symbol_names_resolve_to_first() {
    let mut store = InMemoryAttributeStore::new();
    let make = |name: &str| UpdateEntityRequest {
        entity_locator: EntityLocator::Symbol(Symbol::try_from(name).unwrap()),
        attributes_to_update: vec![AttributeToUpdate {
            symbol: Symbol::try_from("@symbolName").unwrap(),
            value: Some(AttributeValue::String(name.to_string())),
        }],
    };
    let first = store.update_entity(&make("widget-1")).unwrap();
    let second = store.update_entity(&make("widget-2")).unwrap();
    // move the second entity onto the first one's name
    store
        .update_entity(&UpdateEntityRequest {
            entity_locator: EntityLocator::EntityId(second.entity_id),
            attributes_to_update: vec![AttributeToUpdate {
                symbol: Symbol::try_from("@symbolName").unwrap(),
                value: Some(AttributeValue::String("widget-1".to_string())),
            }],
        })
        .unwrap();
    // lookup by symbol returns the first match in id order
    let found = store
        .get_entity(&EntityLocator::Symbol(Symbol::try_from("widget-1").unwrap()))
        .unwrap();
    assert_eq!(found.entity_id, first.entity_id);
}

#[test]
fn query_entities_returns_matching_entities() {
    let store = InMemoryAttributeStore::new();
    let result = store
        .query_entities(&EntityQuery {
            root: EntityQueryNode::HasAttributeTypes(HasAttributeTypesNode {
                attribute_types: vec![Symbol::try_from("@valueType").unwrap()],
            }),
        })
        .unwrap();
    // exactly the three bootstrap attribute-type entities carry @valueType
    let ids: Vec<EntityId> = result.entities.iter().map(|e| e.entity_id).collect();
    assert_eq!(ids, vec![EntityId(0), EntityId(1), EntityId(2)]);
    assert_eq!(result.entity_version, EntityVersion(0));
}
