//! Mutation request shapes: attribute updates, upserts and attribute-type
//! creation.
use vstd::prelude::*;

verus! {

use crate::entity::{AttributeType, AttributeValue, AttributeValueView, EntityLocator};
use crate::symbol::Symbol;

/// The optional value of an update item, as a mathematical value.
pub open spec fn opt_value_view(v: Option<AttributeValue>) -> Option<AttributeValueView> {
    match v {
        Some(x) => Some(x@),
        None => None,
    }
}

/// One item of an update request: a present value writes or overwrites the
/// symbol's attribute, an absent value removes it.
#[derive(PartialEq, Eq, Debug)]
pub struct AttributeToUpdate {
    pub symbol: Symbol,
    pub value: Option<AttributeValue>,
}

/// The mathematical shape of an update item.
pub struct AttributeToUpdateView {
    pub symbol: Seq<char>,
    pub value: Option<AttributeValueView>,
}

impl View for AttributeToUpdate {
    type V = AttributeToUpdateView;

    open spec fn view(&self) -> AttributeToUpdateView {
        AttributeToUpdateView { symbol: self.symbol@, value: opt_value_view(self.value) }
    }
}

impl Clone for AttributeToUpdate {
    fn clone(&self) -> (r: Self)
        ensures
            r@ == self@,
    {
        let value = match &self.value {
            Some(v) => Some(v.clone()),
            None => None,
        };
        AttributeToUpdate { symbol: self.symbol.clone(), value }
    }
}

impl AttributeToUpdate {
    /// Structural equality of two update items.
    pub fn same_as(&self, other: &AttributeToUpdate) -> (r: bool)
        ensures
            r == (self@ == other@),
    {
        if !self.symbol.same_as(&other.symbol) {
            return false;
        }
        match (&self.value, &other.value) {
            (None, None) => true,
            (Some(a), Some(b)) => a.same_as(b),
            _ => false,
        }
    }
}

/// The views of a list of update items, in order.
pub open spec fn updates_view(s: Seq<AttributeToUpdate>) -> Seq<AttributeToUpdateView> {
    Seq::new(s.len(), |i: int| s[i]@)
}

/// A request to update the entity selected by a locator, creating it if the
/// locator is a symbol that resolves to nothing.
#[derive(PartialEq, Eq, Debug)]
pub struct UpdateEntityRequest {
    pub entity_locator: EntityLocator,
    pub attributes_to_update: Vec<AttributeToUpdate>,
}

impl Clone for UpdateEntityRequest {
    fn clone(&self) -> (r: Self)
        ensures
            r.entity_locator@ == self.entity_locator@,
            updates_view(r.attributes_to_update@) == updates_view(self.attributes_to_update@),
    {
        let attributes_to_update = self.attributes_to_update.clone();
        proof {
            assert(updates_view(attributes_to_update@) =~= updates_view(
                self.attributes_to_update@,
            ));
        }
        UpdateEntityRequest { entity_locator: self.entity_locator.clone(), attributes_to_update }
    }
}

/// A request to register a new attribute type.
#[derive(PartialEq, Eq, Debug)]
pub struct CreateAttributeTypeRequest {
    pub attribute_type: AttributeType,
}

impl Clone for CreateAttributeTypeRequest {
    fn clone(&self) -> (r: Self)
        ensures
            r.attribute_type.symbol@ == self.attribute_type.symbol@,
            r.attribute_type.value_type == self.attribute_type.value_type,
    {
        CreateAttributeTypeRequest { attribute_type: self.attribute_type.clone() }
    }
}

} // verus!
