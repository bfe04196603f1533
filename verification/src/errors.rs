//! The error kinds visible at the store boundary, and the fallible
//! conversions between scalar identifier types.
use vstd::prelude::*;

verus! {

use vstd::string::StringExecFns;
use crate::entity::{Entity, EntityLocator};
use crate::requests::AttributeToUpdate;
use crate::symbol::{Symbol, is_valid_symbol_name};
use crate::values::{EntityId, ValueType};

/// One entry of a validation report: a field path and a message.
#[derive(PartialEq, Eq, Debug)]
pub struct ValidationMessage {
    pub path: String,
    pub message: String,
}

/// The mathematical shape of a validation message.
pub struct ValidationMessageView {
    pub path: Seq<char>,
    pub message: Seq<char>,
}

impl View for ValidationMessage {
    type V = ValidationMessageView;

    open spec fn view(&self) -> ValidationMessageView {
        ValidationMessageView { path: self.path@, message: self.message@ }
    }
}

/// A list of per-field diagnostics, in the order the fields were checked.
#[derive(PartialEq, Eq, Debug)]
pub struct ValidationReport {
    pub violations: Vec<ValidationMessage>,
}

/// The views of a list of messages, in order.
pub open spec fn messages_view(s: Seq<ValidationMessage>) -> Seq<ValidationMessageView> {
    Seq::new(s.len(), |i: int| s[i]@)
}

/// The views of a report's entries, in order.
pub open spec fn report_view(r: ValidationReport) -> Seq<ValidationMessageView> {
    messages_view(r.violations@)
}

/// What went wrong in the store.
#[derive(Debug)]
pub enum AttributeStoreErrorKind {
    InvalidSymbolName(String),
    EntityNotFound(EntityLocator),
    AttributeTypeAlreadyExists(Entity),
    InvalidValueType(EntityId),
    ValidationError(ValidationReport),
    UpdateNotIdempotent {
        missing_attribute_to_update: AttributeToUpdate,
        entity_locator: EntityLocator,
    },
    Other { message: String },
}

/// An error of the store, wrapping its kind.
#[derive(Debug)]
pub struct AttributeStoreError {
    pub kind: AttributeStoreErrorKind,
}

/// What went wrong while reading one field of an external message.
#[derive(PartialEq, Eq, Structural, Debug, Copy, Clone)]
pub enum FieldError {
    FieldMissing,
    InvalidEntityId,
    InvalidSymbol,
    InvalidValueType,
}

impl TryFrom<String> for Symbol {
    type Error = AttributeStoreError;

    fn try_from(value: String) -> Result<Self, Self::Error> {
        if Symbol::is_valid_name(value.as_str()) {
            Ok(Symbol(value))
        } else {
            Err(
                AttributeStoreError {
                    kind: AttributeStoreErrorKind::InvalidSymbolName(value),
                },
            )
        }
    }
}

impl vstd::std_specs::convert::TryFromSpecImpl<String> for Symbol {
    open spec fn obeys_try_from_spec() -> bool {
        true
    }

    closed spec fn try_from_spec(v: String) -> Result<Symbol, AttributeStoreError> {
        if is_valid_symbol_name(v@) {
            Ok(Symbol(v))
        } else {
            Err(AttributeStoreError { kind: AttributeStoreErrorKind::InvalidSymbolName(v) })
        }
    }
}

/// What `Symbol::try_from` on an owned string returns: a symbol carrying
/// the given name exactly when the name is valid, and otherwise the
/// `InvalidSymbolName` error naming the rejected string.
pub proof fn lemma_symbol_try_from(v: String)
    ensures
        <Symbol as vstd::std_specs::convert::TryFromSpec<String>>::try_from_spec(v) matches Ok(s)
            <==> is_valid_symbol_name(v@),
        <Symbol as vstd::std_specs::convert::TryFromSpec<String>>::try_from_spec(v) matches Ok(s)
            ==> s@ == v@,
        <Symbol as vstd::std_specs::convert::TryFromSpec<String>>::try_from_spec(v) matches Err(e)
            ==> e.kind matches AttributeStoreErrorKind::InvalidSymbolName(w) && w@ == v@,
{
    crate::symbol::lemma_symbol_wrap_view(v);
}

impl<'a> TryFrom<&'a str> for Symbol {
    type Error = AttributeStoreError;

    fn try_from(value: &'a str) -> Result<Self, Self::Error> {
        Symbol::try_from(String::from_str(value))
    }
}

impl<'a> vstd::std_specs::convert::TryFromSpecImpl<&'a str> for Symbol {
    open spec fn obeys_try_from_spec() -> bool {
        false
    }

    open spec fn try_from_spec(v: &'a str) -> Result<Symbol, AttributeStoreError> {
        vstd::pervasive::arbitrary()
    }
}

impl TryFrom<EntityId> for ValueType {
    type Error = AttributeStoreError;

    fn try_from(value: EntityId) -> Result<Self, Self::Error> {
        if value.0 == 3 {
            Ok(ValueType::Text)
        } else if value.0 == 4 {
            Ok(ValueType::EntityReference)
        } else if value.0 == 5 {
            Ok(ValueType::Bytes)
        } else {
            Err(AttributeStoreError { kind: AttributeStoreErrorKind::InvalidValueType(value) })
        }
    }
}

impl vstd::std_specs::convert::TryFromSpecImpl<EntityId> for ValueType {
    open spec fn obeys_try_from_spec() -> bool {
        true
    }

    open spec fn try_from_spec(v: EntityId) -> Result<ValueType, AttributeStoreError> {
        if v.0 == 3 {
            Ok(ValueType::Text)
        } else if v.0 == 4 {
            Ok(ValueType::EntityReference)
        } else if v.0 == 5 {
            Ok(ValueType::Bytes)
        } else {
            Err(AttributeStoreError { kind: AttributeStoreErrorKind::InvalidValueType(v) })
        }
    }
}

impl TryFrom<EntityId> for usize {
    type Error = AttributeStoreError;

    fn try_from(value: EntityId) -> Result<Self, Self::Error> {
        if value.0 >= 0 && value.0 as u64 <= usize::MAX as u64 {
            Ok(value.0 as usize)
        } else {
            Err(
                AttributeStoreError {
                    kind: AttributeStoreErrorKind::EntityNotFound(
                        EntityLocator::EntityId(value),
                    ),
                },
            )
        }
    }
}

impl vstd::std_specs::convert::TryFromSpecImpl<EntityId> for usize {
    open spec fn obeys_try_from_spec() -> bool {
        true
    }

    open spec fn try_from_spec(v: EntityId) -> Result<usize, AttributeStoreError> {
        if 0 <= v.0 && v.0 <= usize::MAX {
            Ok(v.0 as usize)
        } else {
            Err(
                AttributeStoreError {
                    kind: AttributeStoreErrorKind::EntityNotFound(EntityLocator::EntityId(v)),
                },
            )
        }
    }
}

} // verus!
