//! The query algebra: a predicate tree over entities, and the one-shot
//! query request and result shapes.
use vstd::prelude::*;

verus! {

broadcast use vstd::std_specs::vec::group_vec_axioms;

use crate::entity::{Attribute, Entity, EntityRow, EntityView, attrs_map};
use crate::symbol::Symbol;
use crate::values::EntityVersion;

/// Matches every entity.
#[derive(PartialEq, Eq, Debug, Copy, Clone)]
pub struct MatchAllQueryNode;

/// Matches no entity.
#[derive(PartialEq, Eq, Debug, Copy, Clone)]
pub struct MatchNoneQueryNode;

/// Matches iff every clause matches; an empty clause list matches all.
#[derive(PartialEq, Eq, Debug)]
pub struct AndQueryNode {
    pub clauses: Vec<EntityQueryNode>,
}

/// Matches iff any clause matches; an empty clause list matches none.
#[derive(PartialEq, Eq, Debug)]
pub struct OrQueryNode {
    pub clauses: Vec<EntityQueryNode>,
}

/// Matches iff every listed symbol is a key of the entity's attributes.
#[derive(PartialEq, Eq, Debug)]
pub struct HasAttributeTypesNode {
    pub attribute_types: Vec<Symbol>,
}

/// A node of the query predicate tree.
#[derive(PartialEq, Eq, Debug)]
pub enum EntityQueryNode {
    MatchAll(MatchAllQueryNode),
    MatchNone(MatchNoneQueryNode),
    And(AndQueryNode),
    Or(OrQueryNode),
    HasAttributeTypes(HasAttributeTypesNode),
}

/// Whether a query node matches an entity.
pub open spec fn node_matches(n: EntityQueryNode, e: EntityView) -> bool
    decreases n,
{
    match n {
        EntityQueryNode::MatchAll(_) => true,
        EntityQueryNode::MatchNone(_) => false,
        EntityQueryNode::And(a) => all_clauses_match(a.clauses@, e),
        EntityQueryNode::Or(o) => any_clause_matches(o.clauses@, e),
        EntityQueryNode::HasAttributeTypes(h) => has_all_attribute_types(h.attribute_types@, e),
    }
}

/// Every clause of the list matches the entity.
pub open spec fn all_clauses_match(cs: Seq<EntityQueryNode>, e: EntityView) -> bool
    decreases cs,
{
    forall|i: int| 0 <= i < cs.len() ==> node_matches(#[trigger] cs[i], e)
}

/// Some clause of the list matches the entity.
pub open spec fn any_clause_matches(cs: Seq<EntityQueryNode>, e: EntityView) -> bool
    decreases cs,
{
    exists|i: int| 0 <= i < cs.len() && node_matches(#[trigger] cs[i], e)
}

/// Every listed symbol is a key of the entity's attributes.
pub open spec fn has_all_attribute_types(syms: Seq<Symbol>, e: EntityView) -> bool {
    forall|i: int| 0 <= i < syms.len() ==> e.attrs.contains_key(#[trigger] syms[i]@)
}

/// Whether some attribute of the bag carries `name`, without assuming
/// unique keys.
fn has_attribute(attrs: &Vec<Attribute>, name: &Symbol) -> (r: bool)
    ensures
        r == attrs_map(attrs@).contains_key(name@),
{
    let mut i: usize = 0;
    while i < attrs.len()
        invariant
            i <= attrs@.len(),
            forall|j: int| 0 <= j < i ==> attrs@[j].symbol@ != name@,
        decreases attrs@.len() - i,
    {
        if attrs[i].symbol.same_as(name) {
            proof {
                crate::entity::lemma_attrs_map_contains(attrs@, name@);
            }
            return true;
        }
        i = i + 1;
    }
    proof {
        crate::entity::lemma_attrs_map_contains(attrs@, name@);
    }
    false
}

impl EntityQueryNode {
    /// Evaluates this query node against an entity. `And` stops at the
    /// first clause that does not match, `Or` at the first that does.
    pub fn matches(&self, entity: &Entity) -> (r: bool)
        ensures
            r == node_matches(*self, entity@),
        decreases *self,
    {
        match self {
            EntityQueryNode::MatchAll(_) => true,
            EntityQueryNode::MatchNone(_) => false,
            EntityQueryNode::And(and_node) => {
                let mut i: usize = 0;
                while i < and_node.clauses.len()
                    invariant
                        *self == EntityQueryNode::And(*and_node),
                        i <= and_node.clauses@.len(),
                        forall|j: int| 0 <= j < i ==> node_matches(
                            #[trigger] and_node.clauses@[j],
                            entity@,
                        ),
                    decreases and_node.clauses@.len() - i,
                {
                    proof {
                        assert(decreases_to!(*self => self->And_0.clauses@[i as int]));
                    }
                    if !and_node.clauses[i].matches(entity) {
                        proof {
                            let k = i as int;
                            if all_clauses_match(and_node.clauses@, entity@) {
                                assert(node_matches(and_node.clauses@[k], entity@));
                            }
                        }
                        return false;
                    }
                    i = i + 1;
                }
                true
            },
            EntityQueryNode::Or(or_node) => {
                let mut i: usize = 0;
                while i < or_node.clauses.len()
                    invariant
                        *self == EntityQueryNode::Or(*or_node),
                        i <= or_node.clauses@.len(),
                        forall|j: int| 0 <= j < i ==> !node_matches(
                            #[trigger] or_node.clauses@[j],
                            entity@,
                        ),
                    decreases or_node.clauses@.len() - i,
                {
                    proof {
                        assert(decreases_to!(*self => self->Or_0.clauses@[i as int]));
                    }
                    if or_node.clauses[i].matches(entity) {
                        proof {
                            assert(any_clause_matches(or_node.clauses@, entity@));
                        }
                        return true;
                    }
                    i = i + 1;
                }
                false
            },
            EntityQueryNode::HasAttributeTypes(has_node) => {
                let mut i: usize = 0;
                while i < has_node.attribute_types.len()
                    invariant
                        *self == EntityQueryNode::HasAttributeTypes(*has_node),
                        i <= has_node.attribute_types@.len(),
                        forall|j: int| 0 <= j < i ==> entity@.attrs.contains_key(
                            #[trigger] has_node.attribute_types@[j]@,
                        ),
                    decreases has_node.attribute_types@.len() - i,
                {
                    if !has_attribute(&entity.attributes, &has_node.attribute_types[i]) {
                        proof {
                            let k = i as int;
                            if has_all_attribute_types(has_node.attribute_types@, entity@) {
                                assert(entity@.attrs.contains_key(has_node.attribute_types@[k]@));
                            }
                        }
                        return false;
                    }
                    i = i + 1;
                }
                true
            },
        }
    }
}

/// A one-shot query for whole entities.
#[derive(PartialEq, Eq, Debug)]
pub struct EntityQuery {
    pub root: EntityQueryNode,
}

/// The entities matching a query, together with the version watermark at
/// which the snapshot was taken.
#[derive(PartialEq, Eq, Debug)]
pub struct EntityQueryResult {
    pub entities: Vec<Entity>,
    pub entity_version: EntityVersion,
}

/// A one-shot query projected to rows.
#[derive(PartialEq, Eq, Debug)]
pub struct EntityRowQuery {
    pub root: EntityQueryNode,
    pub attribute_types: Vec<Symbol>,
}

/// The rows matching a row query, together with the version watermark at
/// which the snapshot was taken.
#[derive(PartialEq, Eq, Debug)]
pub struct EntityRowQueryResult {
    pub entity_rows: Vec<EntityRow>,
    pub entity_version: EntityVersion,
}

} // verus!
