//! The entity model: typed attribute values, attribute bags with unique
//! keys, entities, row projection and entity locators.
use vstd::prelude::*;

verus! {

use crate::symbol::{Symbol, bootstrap_symbol_name};
use crate::values::{
    BootstrapSymbol,
    EntityId,
    EntityVersion,
    ValueType,
    bootstrap_entity_id,
    bootstrap_value_type,
};

/// A tagged attribute value: a text string, a reference to another entity,
/// or an opaque byte string.
#[derive(PartialEq, Eq, Hash, Debug)]
pub enum AttributeValue {
    String(String),
    EntityId(EntityId),
    Bytes(Vec<u8>),
}

/// The mathematical shape of an attribute value.
pub enum AttributeValueView {
    Text(Seq<char>),
    Ref(int),
    Bytes(Seq<u8>),
}

impl View for AttributeValue {
    type V = AttributeValueView;

    open spec fn view(&self) -> AttributeValueView {
        match self {
            AttributeValue::String(s) => AttributeValueView::Text(s@),
            AttributeValue::EntityId(e) => AttributeValueView::Ref(e.0 as int),
            AttributeValue::Bytes(b) => AttributeValueView::Bytes(b@),
        }
    }
}

impl Clone for AttributeValue {
    fn clone(&self) -> (r: Self)
        ensures
            r@ == self@,
    {
        match self {
            AttributeValue::String(s) => AttributeValue::String(s.clone()),
            AttributeValue::EntityId(e) => AttributeValue::EntityId(*e),
            AttributeValue::Bytes(b) => {
                let copy = b.clone();
                proof {
                    assert(copy@ =~= b@);
                }
                AttributeValue::Bytes(copy)
            },
        }
    }
}

/// The tag of an attribute value, as a value type.
pub open spec fn value_tag(v: AttributeValueView) -> ValueType {
    match v {
        AttributeValueView::Text(_) => ValueType::Text,
        AttributeValueView::Ref(_) => ValueType::EntityReference,
        AttributeValueView::Bytes(_) => ValueType::Bytes,
    }
}

impl AttributeValue {
    /// The value type this value's tag conforms to.
    pub fn tag(&self) -> (r: ValueType)
        ensures
            r == value_tag(self@),
    {
        match self {
            AttributeValue::String(_) => ValueType::Text,
            AttributeValue::EntityId(_) => ValueType::EntityReference,
            AttributeValue::Bytes(_) => ValueType::Bytes,
        }
    }

    /// Structural equality of two attribute values.
    pub fn same_as(&self, other: &AttributeValue) -> (r: bool)
        ensures
            r == (self@ == other@),
    {
        match (self, other) {
            (AttributeValue::String(a), AttributeValue::String(b)) => *a == *b,
            (AttributeValue::EntityId(a), AttributeValue::EntityId(b)) => *a == *b,
            (AttributeValue::Bytes(a), AttributeValue::Bytes(b)) => bytes_eq(a, b),
            _ => false,
        }
    }
}

/// Byte-for-byte equality of two byte strings.
fn bytes_eq(a: &Vec<u8>, b: &Vec<u8>) -> (r: bool)
    ensures
        r == (a@ == b@),
{
    if a.len() != b.len() {
        return false;
    }
    let mut i: usize = 0;
    while i < a.len()
        invariant
            i <= a.len(),
            a.len() == b.len(),
            forall|j: int| 0 <= j < i ==> a@[j] == b@[j],
        decreases a.len() - i,
    {
        if a[i] != b[i] {
            return false;
        }
        i = i + 1;
    }
    proof {
        assert(a@ =~= b@);
    }
    true
}

/// One attribute of an entity: a symbol together with its value.
#[derive(PartialEq, Eq, Debug)]
pub struct Attribute {
    pub symbol: Symbol,
    pub value: AttributeValue,
}

impl Clone for Attribute {
    fn clone(&self) -> (r: Self)
        ensures
            r.symbol@ == self.symbol@,
            r.value@ == self.value@,
    {
        Attribute { symbol: self.symbol.clone(), value: self.value.clone() }
    }
}

/// The attribute bag as a mapping from symbol names to values; a later
/// entry for the same name overrides an earlier one.
pub open spec fn attrs_map(s: Seq<Attribute>) -> Map<Seq<char>, AttributeValueView>
    decreases s.len(),
{
    if s.len() == 0 {
        Map::empty()
    } else {
        attrs_map(s.drop_last()).insert(s.last().symbol@, s.last().value@)
    }
}

/// No two attributes of the bag carry the same symbol name.
pub open spec fn attrs_unique(s: Seq<Attribute>) -> bool {
    forall|i: int, j: int| 0 <= i < j < s.len() ==> s[i].symbol@ != s[j].symbol@
}

/// A name is a key of the attribute map exactly when some entry carries it.
pub proof fn lemma_attrs_map_contains(s: Seq<Attribute>, k: Seq<char>)
    ensures
        attrs_map(s).contains_key(k) <==> exists|i: int| 0 <= i < s.len() && s[i].symbol@ == k,
    decreases s.len(),
{
    if s.len() > 0 {
        lemma_attrs_map_contains(s.drop_last(), k);
        if s.last().symbol@ == k {
            assert(s[s.len() - 1].symbol@ == k);
        } else {
            if attrs_map(s).contains_key(k) {
                let i = choose|i: int| 0 <= i < s.drop_last().len() && s.drop_last()[i].symbol@
                    == k;
                assert(s[i].symbol@ == k);
            }
            if exists|i: int| 0 <= i < s.len() && s[i].symbol@ == k {
                let i = choose|i: int| 0 <= i < s.len() && s[i].symbol@ == k;
                assert(s.drop_last()[i].symbol@ == k);
            }
        }
    }
}

/// With unique keys, the map's value for an entry's name is that entry's
/// value.
pub proof fn lemma_attrs_map_value(s: Seq<Attribute>, i: int)
    requires
        attrs_unique(s),
        0 <= i < s.len(),
    ensures
        attrs_map(s).contains_key(s[i].symbol@),
        attrs_map(s)[s[i].symbol@] == s[i].value@,
    decreases s.len(),
{
    if i < s.len() - 1 {
        assert(attrs_unique(s.drop_last()));
        lemma_attrs_map_value(s.drop_last(), i);
        assert(s.drop_last()[i] == s[i]);
        assert(s[i].symbol@ != s.last().symbol@);
    }
}

/// Two attribute bags that agree entry by entry induce the same map and
/// agree on key uniqueness.
pub proof fn lemma_attrs_pointwise(s1: Seq<Attribute>, s2: Seq<Attribute>)
    requires
        s1.len() == s2.len(),
        forall|i: int| 0 <= i < s1.len() ==> #[trigger] s1[i].symbol@ == s2[i].symbol@
            && s1[i].value@ == s2[i].value@,
    ensures
        attrs_map(s1) == attrs_map(s2),
        attrs_unique(s1) <==> attrs_unique(s2),
    decreases s1.len(),
{
    if s1.len() > 0 {
        assert(forall|i: int| 0 <= i < s1.drop_last().len() ==> #[trigger] s1.drop_last()[i]
            == s1[i] && s2.drop_last()[i] == s2[i]);
        lemma_attrs_pointwise(s1.drop_last(), s2.drop_last());
        assert(s1.last() == s1[s1.len() - 1]);
        assert(s2.last() == s2[s1.len() - 1]);
        assert(attrs_map(s1) =~= attrs_map(s2));
    }
    assert forall|i: int, j: int| 0 <= i < j < s1.len() implies (s1[i].symbol@ != s1[j].symbol@)
        == (s2[i].symbol@ != s2[j].symbol@) by {
        assert(s1[i].symbol@ == s2[i].symbol@);
        assert(s1[j].symbol@ == s2[j].symbol@);
    }
}

/// The last entry carrying a name gives the map's value for it.
pub proof fn lemma_attrs_map_last(s: Seq<Attribute>, i: int)
    requires
        0 <= i < s.len(),
        forall|j: int| i < j < s.len() ==> s[j].symbol@ != s[i].symbol@,
    ensures
        attrs_map(s).contains_key(s[i].symbol@),
        attrs_map(s)[s[i].symbol@] == s[i].value@,
    decreases s.len(),
{
    if i < s.len() - 1 {
        assert(forall|j: int| i < j < s.drop_last().len() ==> s.drop_last()[j] == s[j]);
        assert(s.drop_last()[i] == s[i]);
        lemma_attrs_map_last(s.drop_last(), i);
        assert(s.last().symbol@ != s[i].symbol@);
    }
}

/// Finds the attribute carrying `name`, as the attribute map would: the
/// last entry wins.
pub fn find_attribute<'a>(attrs: &'a Vec<Attribute>, name: &Symbol) -> (r: Option<
    &'a AttributeValue,
>)
    ensures
        match r {
            Some(v) => attrs_map(attrs@).contains_key(name@) && v@ == attrs_map(attrs@)[name@],
            None => !attrs_map(attrs@).contains_key(name@),
        },
{
    let mut i: usize = attrs.len();
    while i > 0
        invariant
            i <= attrs@.len(),
            forall|j: int| i <= j < attrs@.len() ==> attrs@[j].symbol@ != name@,
        decreases i,
    {
        i = i - 1;
        if attrs[i].symbol.same_as(name) {
            proof {
                lemma_attrs_map_last(attrs@, i as int);
            }
            return Some(&attrs[i].value);
        }
    }
    proof {
        lemma_attrs_map_contains(attrs@, name@);
    }
    None
}

/// Appending an entry inserts its pair into the map; with a fresh key,
/// uniqueness is kept.
pub proof fn lemma_attrs_map_push(s: Seq<Attribute>, a: Attribute)
    ensures
        attrs_map(s.push(a)) == attrs_map(s).insert(a.symbol@, a.value@),
        attrs_unique(s) && !attrs_map(s).contains_key(a.symbol@) ==> attrs_unique(s.push(a)),
{
    assert(s.push(a).drop_last() =~= s);
    assert(s.push(a).last() == a);
    if attrs_unique(s) && !attrs_map(s).contains_key(a.symbol@) {
        lemma_attrs_map_contains(s, a.symbol@);
        assert forall|i: int, j: int| 0 <= i < j < s.push(a).len() implies s.push(a)[i].symbol@
            != s.push(a)[j].symbol@ by {
            if j < s.len() {
                assert(s.push(a)[i] == s[i]);
                assert(s.push(a)[j] == s[j]);
            } else {
                assert(s.push(a)[i] == s[i]);
                assert(s.push(a)[j] == a);
            }
        }
    }
}

/// With unique keys, removing an entry removes its key from the map and
/// keeps uniqueness.
pub proof fn lemma_attrs_map_remove(s: Seq<Attribute>, i: int)
    requires
        attrs_unique(s),
        0 <= i < s.len(),
    ensures
        attrs_map(s.remove(i)) == attrs_map(s).remove(s[i].symbol@),
        attrs_unique(s.remove(i)),
    decreases s.len(),
{
    let k = s[i].symbol@;
    assert(attrs_unique(s.drop_last()));
    if i == s.len() - 1 {
        assert(s.remove(i) =~= s.drop_last());
        lemma_attrs_map_contains(s.drop_last(), k);
        assert(!attrs_map(s.drop_last()).contains_key(k));
        assert(attrs_map(s.remove(i)) =~= attrs_map(s).remove(k));
    } else {
        let t = s.last();
        assert(s.remove(i).last() == t);
        assert(s.remove(i).drop_last() =~= s.drop_last().remove(i));
        assert(s.drop_last()[i] == s[i]);
        lemma_attrs_map_remove(s.drop_last(), i);
        assert(attrs_map(s.remove(i)) == attrs_map(s.drop_last().remove(i)).insert(
            t.symbol@,
            t.value@,
        ));
        assert(t.symbol@ != k);
        assert(attrs_map(s.drop_last()).remove(k).insert(t.symbol@, t.value@) =~= attrs_map(
            s.drop_last(),
        ).insert(t.symbol@, t.value@).remove(k));
        assert(attrs_map(s.remove(i)) =~= attrs_map(s).remove(k));
    }
    assert forall|a: int, b: int| 0 <= a < b < s.remove(i).len() implies s.remove(i)[a].symbol@
        != s.remove(i)[b].symbol@ by {
        let sa = if a < i { a } else { a + 1 };
        let sb = if b < i { b } else { b + 1 };
        assert(s.remove(i)[a] == s[sa]);
        assert(s.remove(i)[b] == s[sb]);
    }
}

/// Whether every key of `a`'s attribute map is in `b`'s with the same
/// value.
fn attrs_submap(a: &Vec<Attribute>, b: &Vec<Attribute>) -> (r: bool)
    ensures
        r == forall|k: Seq<char>| #[trigger]
            attrs_map(a@).contains_key(k) ==> attrs_map(b@).contains_key(k) && attrs_map(b@)[k]
            == attrs_map(a@)[k],
{
    let mut i: usize = 0;
    while i < a.len()
        invariant
            i <= a@.len(),
            forall|j: int| 0 <= j < i ==> {
                let k = #[trigger] a@[j].symbol@;
                attrs_map(b@).contains_key(k) && attrs_map(b@)[k] == attrs_map(a@)[k]
            },
        decreases a@.len() - i,
    {
        let own = find_attribute(a, &a[i].symbol);
        let other = find_attribute(b, &a[i].symbol);
        proof {
            lemma_attrs_map_contains(a@, a@[i as int].symbol@);
        }
        match (own, other) {
            (Some(x), Some(y)) => {
                if !x.same_as(y) {
                    return false;
                }
            },
            _ => {
                return false;
            },
        }
        i = i + 1;
    }
    proof {
        assert forall|k: Seq<char>| #[trigger] attrs_map(a@).contains_key(k) implies attrs_map(
            b@,
        ).contains_key(k) && attrs_map(b@)[k] == attrs_map(a@)[k] by {
            lemma_attrs_map_contains(a@, k);
            let j = choose|j: int| 0 <= j < a@.len() && a@[j].symbol@ == k;
            assert(a@[j].symbol@ == k);
        }
    }
    true
}

/// Whether two attribute bags induce the same attribute map.
pub fn attrs_maps_equal(a: &Vec<Attribute>, b: &Vec<Attribute>) -> (r: bool)
    ensures
        r == (attrs_map(a@) == attrs_map(b@)),
{
    let forward = attrs_submap(a, b);
    let backward = attrs_submap(b, a);
    if forward && backward {
        proof {
            assert(attrs_map(a@) =~= attrs_map(b@));
        }
        true
    } else {
        proof {
            if attrs_map(a@) == attrs_map(b@) {
                assert(forall|k: Seq<char>| #[trigger] attrs_map(a@).contains_key(k)
                    ==> attrs_map(b@).contains_key(k) && attrs_map(b@)[k] == attrs_map(a@)[k]);
                assert(forall|k: Seq<char>| #[trigger] attrs_map(b@).contains_key(k)
                    ==> attrs_map(a@).contains_key(k) && attrs_map(a@)[k] == attrs_map(b@)[k]);
            }
        }
        false
    }
}

/// An entity: a versioned bag of attributes identified by an entity id.
#[derive(PartialEq, Eq, Debug)]
pub struct Entity {
    pub entity_id: EntityId,
    pub entity_version: EntityVersion,
    pub attributes: Vec<Attribute>,
}

/// The mathematical shape of an entity.
pub struct EntityView {
    pub id: int,
    pub version: int,
    pub attrs: Map<Seq<char>, AttributeValueView>,
}

impl View for Entity {
    type V = EntityView;

    open spec fn view(&self) -> EntityView {
        EntityView {
            id: self.entity_id.0 as int,
            version: self.entity_version.0 as int,
            attrs: attrs_map(self.attributes@),
        }
    }
}

/// An entity is well formed when its attribute keys are unique.
pub open spec fn entity_wf(e: Entity) -> bool {
    attrs_unique(e.attributes@)
}

impl Clone for Entity {
    fn clone(&self) -> (r: Self)
        ensures
            r@ == self@,
            entity_wf(r) <==> entity_wf(*self),
    {
        let attributes = self.attributes.clone();
        proof {
            assert(forall|i: int| 0 <= i < self.attributes@.len()
                ==> #[trigger] attributes@[i].symbol@ == self.attributes@[i].symbol@
                && attributes@[i].value@ == self.attributes@[i].value@);
            lemma_attrs_pointwise(attributes@, self.attributes@);
        }
        Entity { entity_id: self.entity_id, entity_version: self.entity_version, attributes }
    }
}

impl Entity {
    /// Whether two entities agree on id, version and attribute map.
    pub fn same_as(&self, other: &Entity) -> (r: bool)
        ensures
            r == (self@ == other@),
    {
        if self.entity_id == other.entity_id && self.entity_version == other.entity_version
            && attrs_maps_equal(&self.attributes, &other.attributes) {
            true
        } else {
            false
        }
    }
}

/// A locator selects an entity either by id or by the symbol stored in its
/// `@symbolName` attribute.
#[derive(PartialEq, Eq, Debug)]
pub enum EntityLocator {
    EntityId(EntityId),
    Symbol(Symbol),
}

/// The mathematical shape of a locator.
pub enum LocatorView {
    ById(int),
    BySymbol(Seq<char>),
}

impl View for EntityLocator {
    type V = LocatorView;

    open spec fn view(&self) -> LocatorView {
        match self {
            EntityLocator::EntityId(id) => LocatorView::ById(id.0 as int),
            EntityLocator::Symbol(s) => LocatorView::BySymbol(s@),
        }
    }
}

impl Clone for EntityLocator {
    fn clone(&self) -> (r: Self)
        ensures
            r@ == self@,
    {
        match self {
            EntityLocator::EntityId(id) => EntityLocator::EntityId(*id),
            EntityLocator::Symbol(s) => EntityLocator::Symbol(s.clone()),
        }
    }
}

/// An attribute type: a symbol together with the value type its values
/// must use.
#[derive(PartialEq, Eq, Debug)]
pub struct AttributeType {
    pub symbol: Symbol,
    pub value_type: ValueType,
}

impl Clone for AttributeType {
    fn clone(&self) -> (r: Self)
        ensures
            r.symbol@ == self.symbol@,
            r.value_type == self.value_type,
    {
        AttributeType { symbol: self.symbol.clone(), value_type: self.value_type }
    }
}

/// One row of a row query result: one optional value per projected column.
#[derive(PartialEq, Eq, Debug)]
pub struct EntityRow {
    pub values: Vec<Option<AttributeValue>>,
}

impl View for EntityRow {
    type V = Seq<Option<AttributeValueView>>;

    open spec fn view(&self) -> Seq<Option<AttributeValueView>> {
        Seq::new(
            self.values@.len(),
            |i: int|
                match self.values@[i] {
                    Some(v) => Some(v@),
                    None => None,
                },
        )
    }
}

impl EntityRow {
    /// The value in one column, when the column exists and is not null.
    pub fn attribute_value(&self, idx: usize) -> (r: Option<&AttributeValue>)
        ensures
            match r {
                Some(v) => idx < self.values@.len() && self.values@[idx as int] == Some(*v),
                None => !(idx < self.values@.len() && self.values@[idx as int] is Some),
            },
    {
        if idx < self.values.len() {
            self.values[idx].as_ref()
        } else {
            None
        }
    }

    /// The text in one column, when it holds a text value.
    pub fn string_value(&self, idx: usize) -> (r: Option<&String>)
        ensures
            match r {
                Some(s) => idx < self@.len() && self@[idx as int] == Some(
                    AttributeValueView::Text(s@),
                ),
                None => !(idx < self@.len() && self@[idx as int] matches Some(
                    AttributeValueView::Text(_),
                )),
            },
    {
        match self.attribute_value(idx) {
            Some(AttributeValue::String(s)) => Some(s),
            _ => None,
        }
    }

    /// The entity reference in one column, when it holds one.
    pub fn entity_id_value(&self, idx: usize) -> (r: Option<EntityId>)
        ensures
            match r {
                Some(id) => idx < self@.len() && self@[idx as int] == Some(
                    AttributeValueView::Ref(id.0 as int),
                ),
                None => !(idx < self@.len() && self@[idx as int] matches Some(
                    AttributeValueView::Ref(_),
                )),
            },
    {
        match self.attribute_value(idx) {
            Some(AttributeValue::EntityId(id)) => Some(*id),
            _ => None,
        }
    }

    /// The byte string in one column, when it holds one.
    pub fn bytes_value(&self, idx: usize) -> (r: Option<&Vec<u8>>)
        ensures
            match r {
                Some(b) => idx < self@.len() && self@[idx as int] == Some(
                    AttributeValueView::Bytes(b@),
                ),
                None => !(idx < self@.len() && self@[idx as int] matches Some(
                    AttributeValueView::Bytes(_),
                )),
            },
    {
        match self.attribute_value(idx) {
            Some(AttributeValue::Bytes(b)) => Some(b),
            _ => None,
        }
    }
}

/// The names of a sequence of symbols, in order.
pub open spec fn symbol_names(s: Seq<Symbol>) -> Seq<Seq<char>> {
    Seq::new(s.len(), |i: int| s[i]@)
}

/// Row projection: the `@id` column yields a reference to the entity
/// itself; any other column yields the entity's value for that name, or
/// nothing.
pub open spec fn project_row(e: EntityView, cols: Seq<Seq<char>>) -> Seq<
    Option<AttributeValueView>,
> {
    Seq::new(
        cols.len(),
        |i: int|
            if cols[i] == "@id"@ {
                Some(AttributeValueView::Ref(e.id))
            } else if e.attrs.contains_key(cols[i]) {
                Some(e.attrs[cols[i]])
            } else {
                None
            },
    )
}

impl Entity {
    /// Projects this entity through an ordered list of attribute types,
    /// producing one optional value per column; the `@id` column is
    /// synthesized from the entity's own id.
    pub fn to_entity_row(&self, attribute_types: &Vec<Symbol>) -> (r: EntityRow)
        ensures
            r@ == project_row(self@, symbol_names(attribute_types@)),
    {
        let id_symbol = Symbol::from_bootstrap(BootstrapSymbol::EntityId);
        let mut values: Vec<Option<AttributeValue>> = Vec::new();
        let mut i: usize = 0;
        while i < attribute_types.len()
            invariant
                i <= attribute_types@.len(),
                id_symbol@ == "@id"@,
                values@.len() == i,
                forall|j: int| 0 <= j < i ==> (match values@[j] {
                    Some(v) => Some(v@),
                    None => None,
                }) == project_row(self@, symbol_names(attribute_types@))[j],
            decreases attribute_types@.len() - i,
        {
            let attribute_type = &attribute_types[i];
            if attribute_type.same_as(&id_symbol) {
                values.push(Some(AttributeValue::EntityId(self.entity_id)));
            } else {
                match find_attribute(&self.attributes, attribute_type) {
                    Some(value) => values.push(Some(value.clone())),
                    None => values.push(None),
                }
            }
            i = i + 1;
        }
        let r = EntityRow { values };
        proof {
            assert(r@ =~= project_row(self@, symbol_names(attribute_types@)));
        }
        r
    }
}

/// The bootstrap entity seeded for each bootstrap symbol: its symbol name,
/// and for the attribute-type symbols the value type they require.
pub open spec fn bootstrap_entity_view(b: BootstrapSymbol) -> EntityView {
    EntityView {
        id: bootstrap_entity_id(b),
        version: 0,
        attrs: match bootstrap_value_type(b) {
            Some(vt) => map![
                "@symbolName"@ => AttributeValueView::Text(bootstrap_symbol_name(b)),
                "@valueType"@ => AttributeValueView::Ref(vt.0 as int)
            ],
            None => map!["@symbolName"@ => AttributeValueView::Text(bootstrap_symbol_name(b))],
        },
    }
}

impl Entity {
    /// Builds the bootstrap entity for a bootstrap symbol.
    pub fn from_bootstrap(value: BootstrapSymbol) -> (r: Entity)
        ensures
            r@ == bootstrap_entity_view(value),
            entity_wf(r),
    {
        let symbol: Symbol = Symbol::from_bootstrap(value);
        let symbol_name_symbol = Symbol::from_bootstrap(BootstrapSymbol::SymbolName);
        let mut attributes: Vec<Attribute> = Vec::new();
        attributes.push(
            Attribute {
                symbol: symbol_name_symbol,
                value: AttributeValue::String(symbol.into_string()),
            },
        );
        match value.value_type() {
            Some(value_type_entity_id) => {
                attributes.push(
                    Attribute {
                        symbol: Symbol::from_bootstrap(BootstrapSymbol::ValueType),
                        value: AttributeValue::EntityId(value_type_entity_id),
                    },
                );
            },
            None => {},
        }
        let r = Entity {
            entity_id: EntityId::from(value),
            entity_version: EntityVersion(0),
            attributes,
        };
        proof {
            reveal_strlit("@symbolName");
            reveal_strlit("@valueType");
            let s = r.attributes@;
            if s.len() == 2 {
                assert(s.drop_last().drop_last() =~= Seq::<Attribute>::empty());
                assert(attrs_map(s.drop_last().drop_last()) =~= Map::<
                    Seq<char>,
                    AttributeValueView,
                >::empty());
                assert(attrs_map(s.drop_last()) =~= attrs_map(s.drop_last().drop_last()).insert(
                    s.drop_last().last().symbol@,
                    s.drop_last().last().value@,
                ));
                assert(s.drop_last().last() == s[0]);
                assert(attrs_map(s) =~= attrs_map(s.drop_last()).insert(
                    s[1].symbol@,
                    s[1].value@,
                ));
            } else {
                assert(s.drop_last() =~= Seq::<Attribute>::empty());
                assert(attrs_map(s.drop_last()) =~= Map::<Seq<char>, AttributeValueView>::empty());
                assert(s.last() == s[0]);
                assert(attrs_map(s) =~= attrs_map(s.drop_last()).insert(s[0].symbol@, s[0].value@));
            }
            assert(r@.attrs =~= bootstrap_entity_view(value).attrs);
            if s.len() == 2 {
                assert(s[0].symbol@ == "@symbolName"@);
                assert(s[1].symbol@ == "@valueType"@);
                assert(s[0].symbol@.len() != s[1].symbol@.len());
                assert(attrs_unique(s));
            } else {
                assert(attrs_unique(s));
            }
        }
        r
    }
}

impl From<BootstrapSymbol> for Entity {
    fn from(value: BootstrapSymbol) -> Self {
        Entity::from_bootstrap(value)
    }
}

impl vstd::std_specs::convert::FromSpecImpl<BootstrapSymbol> for Entity {
    open spec fn obeys_from_spec() -> bool {
        false
    }

    open spec fn from_spec(v: BootstrapSymbol) -> Entity {
        vstd::pervasive::arbitrary()
    }
}

} // verus!
