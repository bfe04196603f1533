//! The validator: structural and schema checks for requests, producing
//! path-tagged reports, and the schema registry they consult.
use vstd::prelude::*;

verus! {

use vstd::string::StringExecFns;
use crate::digits::{decimal_digits, decimal_string};
use crate::entity::{AttributeType, value_tag};
use crate::errors::{
    ValidationMessage,
    ValidationMessageView,
    ValidationReport,
    messages_view,
};
use crate::requests::{AttributeToUpdate, AttributeToUpdateView, updates_view};
use crate::symbol::Symbol;
use crate::values::{BootstrapSymbol, ValueType};

/// The schema registry as a mapping from symbol names to value types; a
/// later entry for the same name overrides an earlier one.
pub open spec fn registry_map(s: Seq<AttributeType>) -> Map<Seq<char>, ValueType>
    decreases s.len(),
{
    if s.len() == 0 {
        Map::empty()
    } else {
        registry_map(s.drop_last()).insert(s.last().symbol@, s.last().value_type)
    }
}

/// No two registry entries carry the same symbol name.
pub open spec fn registry_unique(s: Seq<AttributeType>) -> bool {
    forall|i: int, j: int| 0 <= i < j < s.len() ==> s[i].symbol@ != s[j].symbol@
}

/// A name is a key of the registry map exactly when some entry carries it.
pub proof fn lemma_registry_map_contains(s: Seq<AttributeType>, k: Seq<char>)
    ensures
        registry_map(s).contains_key(k) <==> exists|i: int| 0 <= i < s.len() && s[i].symbol@ == k,
    decreases s.len(),
{
    if s.len() > 0 {
        lemma_registry_map_contains(s.drop_last(), k);
        if s.last().symbol@ == k {
            assert(s[s.len() - 1].symbol@ == k);
        } else {
            if registry_map(s).contains_key(k) {
                let i = choose|i: int| 0 <= i < s.drop_last().len() && s.drop_last()[i].symbol@
                    == k;
                assert(s[i].symbol@ == k);
            }
            if exists|i: int| 0 <= i < s.len() && s[i].symbol@ == k {
                let i = choose|i: int| 0 <= i < s.len() && s[i].symbol@ == k;
                assert(s.drop_last()[i].symbol@ == k);
            }
        }
    }
}

/// With unique names, the registry's value for an entry's name is that
/// entry's value type.
pub proof fn lemma_registry_map_value(s: Seq<AttributeType>, i: int)
    requires
        registry_unique(s),
        0 <= i < s.len(),
    ensures
        registry_map(s).contains_key(s[i].symbol@),
        registry_map(s)[s[i].symbol@] == s[i].value_type,
    decreases s.len(),
{
    if i < s.len() - 1 {
        assert(registry_unique(s.drop_last()));
        lemma_registry_map_value(s.drop_last(), i);
        assert(s.drop_last()[i] == s[i]);
        assert(s[i].symbol@ != s.last().symbol@);
    }
}

/// Whether the registry holds an entry for `name`.
pub fn registry_contains(reg: &Vec<AttributeType>, name: &Symbol) -> (r: bool)
    ensures
        r == registry_map(reg@).contains_key(name@),
{
    let mut i: usize = 0;
    while i < reg.len()
        invariant
            i <= reg@.len(),
            forall|j: int| 0 <= j < i ==> reg@[j].symbol@ != name@,
        decreases reg@.len() - i,
    {
        if reg[i].symbol.same_as(name) {
            proof {
                lemma_registry_map_contains(reg@, name@);
            }
            return true;
        }
        i = i + 1;
    }
    proof {
        lemma_registry_map_contains(reg@, name@);
    }
    false
}

/// The value type registered for `name`, as the registry map gives it.
pub fn registry_lookup(reg: &Vec<AttributeType>, name: &Symbol) -> (r: Option<ValueType>)
    requires
        registry_unique(reg@),
    ensures
        match r {
            Some(vt) => registry_map(reg@).contains_key(name@) && registry_map(reg@)[name@] == vt,
            None => !registry_map(reg@).contains_key(name@),
        },
{
    let mut i: usize = 0;
    while i < reg.len()
        invariant
            i <= reg@.len(),
            registry_unique(reg@),
            forall|j: int| 0 <= j < i ==> reg@[j].symbol@ != name@,
        decreases reg@.len() - i,
    {
        if reg[i].symbol.same_as(name) {
            proof {
                lemma_registry_map_value(reg@, i as int);
            }
            return Some(reg[i].value_type);
        }
        i = i + 1;
    }
    proof {
        lemma_registry_map_contains(reg@, name@);
    }
    None
}

/// The field path of one update item's sub-field.
pub open spec fn update_item_path(i: nat, field: Seq<char>) -> Seq<char> {
    "attributes_to_update["@ + decimal_digits(i) + "]."@ + field
}

/// Renders the field path of one update item's sub-field.
fn update_item_path_string(i: usize, field: &str) -> (r: String)
    ensures
        r@ == update_item_path(i as nat, field@),
{
    let mut s = String::from_str("attributes_to_update[");
    let digits = decimal_string(i as u64);
    s.append(digits.as_str());
    s.append("].");
    s.append(field);
    proof {
        assert(s@ =~= update_item_path(i as nat, field@));
    }
    s
}

/// The field path of one projected column.
pub open spec fn projection_item_path(i: nat) -> Seq<char> {
    "attribute_types["@ + decimal_digits(i) + "]"@
}

/// Renders the field path of one projected column.
fn projection_item_path_string(i: usize) -> (r: String)
    ensures
        r@ == projection_item_path(i as nat),
{
    let mut s = String::from_str("attribute_types[");
    let digits = decimal_string(i as u64);
    s.append(digits.as_str());
    s.append("]");
    proof {
        assert(s@ =~= projection_item_path(i as nat));
    }
    s
}

/// One update item conforms to the schema: its symbol is registered, it is
/// not the immutable `@valueType`, and a present value's tag matches the
/// registered value type.
pub open spec fn update_item_valid(
    reg: Map<Seq<char>, ValueType>,
    it: AttributeToUpdateView,
) -> bool {
    &&& reg.contains_key(it.symbol)
    &&& it.symbol != "@valueType"@
    &&& (it.value matches Some(v) ==> value_tag(v) == reg[it.symbol])
}

/// Every item of the list conforms to the schema.
pub open spec fn update_items_valid(
    reg: Map<Seq<char>, ValueType>,
    items: Seq<AttributeToUpdateView>,
) -> bool {
    forall|i: int| 0 <= i < items.len() ==> update_item_valid(reg, #[trigger] items[i])
}

/// Shorthand for one report entry.
pub open spec fn message(path: Seq<char>, message: Seq<char>) -> ValidationMessageView {
    ValidationMessageView { path, message }
}

/// The diagnostics one update item produces, in check order: symbol
/// registration, symbol immutability, then value conformance.
pub open spec fn update_item_violations(
    reg: Map<Seq<char>, ValueType>,
    it: AttributeToUpdateView,
    i: nat,
) -> Seq<ValidationMessageView> {
    (if !reg.contains_key(it.symbol) {
        seq![message(update_item_path(i, "symbol"@), "unregistered attribute type"@)]
    } else {
        Seq::empty()
    }) + (if it.symbol == "@valueType"@ {
        seq![message(update_item_path(i, "symbol"@), "immutable attribute type"@)]
    } else {
        Seq::empty()
    }) + (if !reg.contains_key(it.symbol) {
        seq![message(update_item_path(i, "value"@), "cannot find value type for attribute type"@)]
    } else if it.value matches Some(v) && value_tag(v) != reg[it.symbol] {
        seq![message(update_item_path(i, "value"@), "incorrect value type"@)]
    } else {
        Seq::empty()
    })
}

/// The diagnostics of a whole update request, item by item.
pub open spec fn update_violations(
    reg: Map<Seq<char>, ValueType>,
    items: Seq<AttributeToUpdateView>,
) -> Seq<ValidationMessageView>
    decreases items.len(),
{
    if items.len() == 0 {
        Seq::empty()
    } else {
        update_violations(reg, items.drop_last()) + update_item_violations(
            reg,
            items.last(),
            (items.len() - 1) as nat,
        )
    }
}

/// An update request passes validation exactly when every item conforms.
pub proof fn lemma_update_violations_empty(
    reg: Map<Seq<char>, ValueType>,
    items: Seq<AttributeToUpdateView>,
)
    ensures
        update_violations(reg, items).len() == 0 <==> update_items_valid(reg, items),
    decreases items.len(),
{
    if items.len() > 0 {
        lemma_update_violations_empty(reg, items.drop_last());
        assert(update_item_violations(reg, items.last(), (items.len() - 1) as nat).len() == 0
            <==> update_item_valid(reg, items.last()));
        if update_violations(reg, items).len() == 0 {
            assert(forall|i: int| 0 <= i < items.len() - 1 ==> items.drop_last()[i]
                == #[trigger] items[i]);
            assert(items.last() == items[items.len() - 1]);
        } else {
            if update_items_valid(reg, items) {
                assert(forall|i: int| 0 <= i < items.drop_last().len()
                    ==> #[trigger] items.drop_last()[i] == items[i]);
                assert(update_items_valid(reg, items.drop_last()));
                assert(update_item_valid(reg, items[items.len() - 1]));
            }
        }
    }
}

/// Checks every update item against the registry, collecting path-tagged
/// diagnostics in check order.
pub fn validate_update_items(reg: &Vec<AttributeType>, items: &Vec<AttributeToUpdate>) -> (r:
    Result<(), ValidationReport>)
    requires
        registry_unique(reg@),
    ensures
        match r {
            Ok(_) => update_items_valid(registry_map(reg@), updates_view(items@)),
            Err(rep) => {
                &&& messages_view(rep.violations@) == update_violations(
                    registry_map(reg@),
                    updates_view(items@),
                )
                &&& !update_items_valid(registry_map(reg@), updates_view(items@))
            },
        },
{
    let value_type_symbol = Symbol::from_bootstrap(BootstrapSymbol::ValueType);
    let mut msgs: Vec<ValidationMessage> = Vec::new();
    let mut i: usize = 0;
    while i < items.len()
        invariant
            i <= items@.len(),
            registry_unique(reg@),
            value_type_symbol@ == "@valueType"@,
            messages_view(msgs@) == update_violations(
                registry_map(reg@),
                updates_view(items@).subrange(0, i as int),
            ),
        decreases items@.len() - i,
    {
        let ghost prev = messages_view(msgs@);
        let item = &items[i];
        let looked = registry_lookup(reg, &item.symbol);
        if looked.is_none() {
            msgs.push(
                ValidationMessage {
                    path: update_item_path_string(i, "symbol"),
                    message: String::from_str("unregistered attribute type"),
                },
            );
        }
        if item.symbol.same_as(&value_type_symbol) {
            msgs.push(
                ValidationMessage {
                    path: update_item_path_string(i, "symbol"),
                    message: String::from_str("immutable attribute type"),
                },
            );
        }
        match looked {
            None => {
                msgs.push(
                    ValidationMessage {
                        path: update_item_path_string(i, "value"),
                        message: String::from_str("cannot find value type for attribute type"),
                    },
                );
            },
            Some(expected) => {
                match &item.value {
                    Some(value) => {
                        if value.tag() != expected {
                            msgs.push(
                                ValidationMessage {
                                    path: update_item_path_string(i, "value"),
                                    message: String::from_str("incorrect value type"),
                                },
                            );
                        }
                    },
                    None => {},
                }
            },
        }
        proof {
            let regm = registry_map(reg@);
            let full = updates_view(items@);
            assert(full.subrange(0, i + 1).drop_last() =~= full.subrange(0, i as int));
            assert(full.subrange(0, i + 1).last() == full[i as int]);
            assert(full[i as int] == items@[i as int]@);
            assert(messages_view(msgs@) =~= prev + update_item_violations(
                regm,
                full[i as int],
                i as nat,
            ));
        }
        i = i + 1;
    }
    proof {
        assert(updates_view(items@).subrange(0, items@.len() as int) =~= updates_view(items@));
        lemma_update_violations_empty(registry_map(reg@), updates_view(items@));
    }
    if msgs.len() == 0 {
        Ok(())
    } else {
        Err(ValidationReport { violations: msgs })
    }
}

/// Every projected column names a registered attribute type.
pub open spec fn projection_valid(reg: Map<Seq<char>, ValueType>, syms: Seq<Seq<char>>) -> bool {
    forall|i: int| 0 <= i < syms.len() ==> reg.contains_key(#[trigger] syms[i])
}

/// The diagnostics of a projection list, column by column.
pub open spec fn projection_violations(
    reg: Map<Seq<char>, ValueType>,
    syms: Seq<Seq<char>>,
) -> Seq<ValidationMessageView>
    decreases syms.len(),
{
    if syms.len() == 0 {
        Seq::empty()
    } else {
        projection_violations(reg, syms.drop_last()) + (if !reg.contains_key(syms.last()) {
            seq![
                message(
                    projection_item_path((syms.len() - 1) as nat),
                    "unregistered attribute type"@,
                ),
            ]
        } else {
            Seq::empty()
        })
    }
}

/// A projection passes validation exactly when every column is registered.
pub proof fn lemma_projection_violations_empty(
    reg: Map<Seq<char>, ValueType>,
    syms: Seq<Seq<char>>,
)
    ensures
        projection_violations(reg, syms).len() == 0 <==> projection_valid(reg, syms),
    decreases syms.len(),
{
    if syms.len() > 0 {
        lemma_projection_violations_empty(reg, syms.drop_last());
        if projection_violations(reg, syms).len() == 0 {
            assert(forall|i: int| 0 <= i < syms.len() - 1 ==> syms.drop_last()[i]
                == #[trigger] syms[i]);
            assert(syms.last() == syms[syms.len() - 1]);
        } else {
            if projection_valid(reg, syms) {
                assert(forall|i: int| 0 <= i < syms.drop_last().len()
                    ==> #[trigger] syms.drop_last()[i] == syms[i]);
                assert(projection_valid(reg, syms.drop_last()));
                assert(reg.contains_key(syms[syms.len() - 1]));
            }
        }
    }
}

/// Checks every projected column against the registry.
pub fn validate_projection(reg: &Vec<AttributeType>, syms: &Vec<Symbol>) -> (r: Result<
    (),
    ValidationReport,
>)
    ensures
        match r {
            Ok(_) => projection_valid(registry_map(reg@), crate::entity::symbol_names(syms@)),
            Err(rep) => {
                &&& messages_view(rep.violations@) == projection_violations(
                    registry_map(reg@),
                    crate::entity::symbol_names(syms@),
                )
                &&& !projection_valid(registry_map(reg@), crate::entity::symbol_names(syms@))
            },
        },
{
    let mut msgs: Vec<ValidationMessage> = Vec::new();
    let mut i: usize = 0;
    while i < syms.len()
        invariant
            i <= syms@.len(),
            messages_view(msgs@) == projection_violations(
                registry_map(reg@),
                crate::entity::symbol_names(syms@).subrange(0, i as int),
            ),
        decreases syms@.len() - i,
    {
        let ghost prev = messages_view(msgs@);
        if !registry_contains(reg, &syms[i]) {
            msgs.push(
                ValidationMessage {
                    path: projection_item_path_string(i),
                    message: String::from_str("unregistered attribute type"),
                },
            );
        }
        proof {
            let names = crate::entity::symbol_names(syms@);
            assert(names.subrange(0, i + 1).drop_last() =~= names.subrange(0, i as int));
            assert(names.subrange(0, i + 1).last() == names[i as int]);
            assert(names[i as int] == syms@[i as int]@);
            assert(messages_view(msgs@) =~= projection_violations(
                registry_map(reg@),
                names.subrange(0, i + 1),
            ));
        }
        i = i + 1;
    }
    proof {
        let names = crate::entity::symbol_names(syms@);
        assert(names.subrange(0, names.len() as int) =~= names);
        lemma_projection_violations_empty(registry_map(reg@), names);
    }
    if msgs.len() == 0 {
        Ok(())
    } else {
        Err(ValidationReport { violations: msgs })
    }
}

/// The diagnostic a duplicate attribute type produces.
pub open spec fn create_violations(
    reg: Map<Seq<char>, ValueType>,
    symbol: Seq<char>,
) -> Seq<ValidationMessageView> {
    if reg.contains_key(symbol) {
        seq![message("attribute_type.symbol"@, "attribute type already exists"@)]
    } else {
        Seq::empty()
    }
}

/// Checks that the symbol of a new attribute type is not yet registered.
pub fn validate_create(reg: &Vec<AttributeType>, symbol: &Symbol) -> (r: Result<
    (),
    ValidationReport,
>)
    ensures
        match r {
            Ok(_) => !registry_map(reg@).contains_key(symbol@),
            Err(rep) => {
                &&& registry_map(reg@).contains_key(symbol@)
                &&& messages_view(rep.violations@) == create_violations(
                    registry_map(reg@),
                    symbol@,
                )
            },
        },
{
    if registry_contains(reg, symbol) {
        let mut msgs: Vec<ValidationMessage> = Vec::new();
        msgs.push(
            ValidationMessage {
                path: String::from_str("attribute_type.symbol"),
                message: String::from_str("attribute type already exists"),
            },
        );
        proof {
            assert(messages_view(msgs@) =~= create_violations(registry_map(reg@), symbol@));
        }
        Err(ValidationReport { violations: msgs })
    } else {
        Ok(())
    }
}

} // verus!
