//! Scalar identifiers of the store: entity ids, versions, value types and
//! the bootstrap vocabulary.
use vstd::prelude::*;

verus! {

/// Dense, monotonically assigned identifier of an entity. The numeric value
/// equals the entity's position in storage.
#[derive(PartialEq, Eq, Structural, Hash, Debug, Copy, Clone)]
pub struct EntityId(pub i64);

/// Strictly monotonically increasing version, drawn from a single per-store
/// sequence and stamped on entities and change events alike.
#[derive(PartialEq, Eq, Structural, Hash, Debug, Copy, Clone, PartialOrd, Ord)]
pub struct EntityVersion(pub i64);

/// The three kinds of attribute values an attribute type can require.
#[derive(PartialEq, Eq, Structural, Debug, Copy, Clone)]
pub enum ValueType {
    Text,
    EntityReference,
    Bytes,
}

/// The entities seeded at store construction, ids 0 through 5.
#[derive(PartialEq, Eq, Structural, Debug, Copy, Clone)]
pub enum BootstrapSymbol {
    EntityId,
    SymbolName,
    ValueType,
    ValueTypeEnum(ValueType),
}

impl From<i64> for EntityId {
    fn from(value: i64) -> Self {
        EntityId(value)
    }
}

impl vstd::std_specs::convert::FromSpecImpl<i64> for EntityId {
    open spec fn obeys_from_spec() -> bool {
        true
    }

    open spec fn from_spec(v: i64) -> EntityId {
        EntityId(v)
    }
}

/// The canonical entity id reserved for each value type at bootstrap.
pub open spec fn value_type_entity_id(value_type: ValueType) -> int {
    match value_type {
        ValueType::Text => 3,
        ValueType::EntityReference => 4,
        ValueType::Bytes => 5,
    }
}

impl From<ValueType> for EntityId {
    fn from(value: ValueType) -> Self {
        match value {
            ValueType::Text => EntityId(3),
            ValueType::EntityReference => EntityId(4),
            ValueType::Bytes => EntityId(5),
        }
    }
}

impl vstd::std_specs::convert::FromSpecImpl<ValueType> for EntityId {
    open spec fn obeys_from_spec() -> bool {
        true
    }

    open spec fn from_spec(v: ValueType) -> EntityId {
        EntityId(value_type_entity_id(v) as i64)
    }
}

/// The entity id of each bootstrap entity.
pub open spec fn bootstrap_entity_id(symbol: BootstrapSymbol) -> int {
    match symbol {
        BootstrapSymbol::EntityId => 0,
        BootstrapSymbol::SymbolName => 1,
        BootstrapSymbol::ValueType => 2,
        BootstrapSymbol::ValueTypeEnum(value_type) => value_type_entity_id(value_type),
    }
}

impl From<BootstrapSymbol> for EntityId {
    fn from(value: BootstrapSymbol) -> Self {
        match value {
            BootstrapSymbol::EntityId => EntityId(0),
            BootstrapSymbol::SymbolName => EntityId(1),
            BootstrapSymbol::ValueType => EntityId(2),
            BootstrapSymbol::ValueTypeEnum(value_type) => EntityId::from(value_type),
        }
    }
}

impl vstd::std_specs::convert::FromSpecImpl<BootstrapSymbol> for EntityId {
    open spec fn obeys_from_spec() -> bool {
        true
    }

    open spec fn from_spec(v: BootstrapSymbol) -> EntityId {
        EntityId(bootstrap_entity_id(v) as i64)
    }
}

/// The value type registered for a bootstrap symbol, if it names an
/// attribute type.
pub open spec fn bootstrap_value_type(symbol: BootstrapSymbol) -> Option<EntityId> {
    match symbol {
        BootstrapSymbol::EntityId => Some(EntityId(4)),
        BootstrapSymbol::SymbolName => Some(EntityId(3)),
        BootstrapSymbol::ValueType => Some(EntityId(4)),
        BootstrapSymbol::ValueTypeEnum(_) => None,
    }
}

impl BootstrapSymbol {
    /// The canonical id of the value type required for values of this
    /// bootstrap attribute type, or `None` for the plain value-type
    /// entities, which are not attribute types themselves.
    pub fn value_type(self: BootstrapSymbol) -> (r: Option<EntityId>)
        ensures
            r == bootstrap_value_type(self),
    {
        match self {
            BootstrapSymbol::EntityId => Some(EntityId::from(ValueType::EntityReference)),
            BootstrapSymbol::SymbolName => Some(EntityId::from(ValueType::Text)),
            BootstrapSymbol::ValueType => Some(EntityId::from(ValueType::EntityReference)),
            BootstrapSymbol::ValueTypeEnum(_) => None,
        }
    }
}

} // verus!
