//! Entities whose attributes may be absent: each attribute holds an optional
//! value, and absent values are left out of items and of key composites.
use vstd::prelude::*;
use crate::item::{AttributeValue, Item, ValueView};
use crate::request::{QueryPlan, key_query, plan_matches, query_matches};
use crate::table::{Table, map_of, distinct_keys, lemma_map_of_domain};
use crate::text::{int_decimal, bool_text, i64_to_decimal, bool_to_text, concat2, concat3, owned,
    is_canonical_decimal, decimal_value, lemma_int_decimal};

verus! {

/// Where an entity is stored and what it is called.
pub struct EntityInfo {
    pub table: String,
    pub service: String,
    pub entity: String,
}

pub struct EntityInfoView {
    pub table: Seq<char>,
    pub service: Seq<char>,
    pub entity: Seq<char>,
}

impl View for EntityInfo {
    type V = EntityInfoView;

    open spec fn view(&self) -> EntityInfoView {
        EntityInfoView { table: self.table@, service: self.service@, entity: self.entity@ }
    }
}

/// A key attribute of an index: the item field that holds it and the names of
/// the attributes whose values it is composed of, in order.
#[derive(Debug)]
pub struct Key {
    pub field: String,
    pub composite: Vec<String>,
}

pub struct KeyView {
    pub field: Seq<char>,
    pub composite: Seq<Seq<char>>,
}

impl View for Key {
    type V = KeyView;

    open spec fn view(&self) -> KeyView {
        KeyView { field: self.field@, composite: self.composite.deep_view() }
    }
}

/// An index: its partition key and its sort key.
#[derive(Debug)]
pub struct Index {
    pub partition_key: Key,
    pub sort_key: Key,
}

pub struct IndexView {
    pub partition_key: KeyView,
    pub sort_key: KeyView,
}

impl View for Index {
    type V = IndexView;

    open spec fn view(&self) -> IndexView {
        IndexView { partition_key: self.partition_key@, sort_key: self.sort_key@ }
    }
}

/// An attribute of an entity, typed, with a value that may be absent.
#[derive(Debug, Clone)]
pub enum Attribute {
    DdbString(Option<String>),
    DdbNumber(Option<i64>),
    DdbBoolean(Option<bool>),
}

pub enum AttributeView {
    DdbString(Option<Seq<char>>),
    DdbNumber(Option<i64>),
    DdbBoolean(Option<bool>),
}

impl View for Attribute {
    type V = AttributeView;

    open spec fn view(&self) -> AttributeView {
        match self {
            Attribute::DdbString(s) => AttributeView::DdbString(
                match s {
                    Some(x) => Some(x@),
                    None => None,
                },
            ),
            Attribute::DdbNumber(n) => AttributeView::DdbNumber(*n),
            Attribute::DdbBoolean(b) => AttributeView::DdbBoolean(*b),
        }
    }
}

/// The text of an attribute's value, if it has one: strings as they are,
/// numbers and booleans as `Display` writes them.
pub open spec fn attribute_text(a: AttributeView) -> Option<Seq<char>> {
    match a {
        AttributeView::DdbString(s) => s,
        AttributeView::DdbNumber(n) => match n {
            Some(x) => Some(int_decimal(x as int)),
            None => None,
        },
        AttributeView::DdbBoolean(b) => match b {
            Some(x) => Some(bool_text(x)),
            None => None,
        },
    }
}

/// The item value an attribute is stored as, if it has a value.
pub open spec fn attribute_value(a: AttributeView) -> Option<ValueView> {
    match a {
        AttributeView::DdbString(s) => match s {
            Some(x) => Some(ValueView::S(x)),
            None => None,
        },
        AttributeView::DdbNumber(n) => match n {
            Some(x) => Some(ValueView::N(int_decimal(x as int))),
            None => None,
        },
        AttributeView::DdbBoolean(b) => match b {
            Some(x) => Some(ValueView::Bool(x)),
            None => None,
        },
    }
}

/// The segment one composite attribute adds to a key: `#name_value`, or
/// nothing when the attribute has no value.
pub open spec fn composite_segment(name: Seq<char>, a: AttributeView) -> Seq<char> {
    match attribute_text(a) {
        Some(t) => seq!['#'] + name + seq!['_'] + t,
        None => Seq::empty(),
    }
}

/// The segments of the named composite attributes, in order.
pub open spec fn joined_composite(names: Seq<Seq<char>>, attrs: Map<Seq<char>, AttributeView>) -> Seq<char>
    decreases names.len(),
{
    if names.len() == 0 {
        Seq::empty()
    } else {
        joined_composite(names.drop_last(), attrs) + composite_segment(names.last(), attrs[names.last()])
    }
}

/// Every attribute that a key is composed of is one of the entity's attributes.
pub open spec fn key_names_present(k: KeyView, attrs: Map<Seq<char>, AttributeView>) -> bool {
    forall|i: int| 0 <= i < k.composite.len() ==> attrs.contains_key(#[trigger] k.composite[i])
}

/// Every key of every index is composed of the entity's attributes.
pub open spec fn composites_present(indexes: Seq<(Seq<char>, IndexView)>, attrs: Map<Seq<char>, AttributeView>) -> bool {
    forall|i: int| 0 <= i < indexes.len() ==> {
        &&& key_names_present((#[trigger] indexes[i]).1.partition_key, attrs)
        &&& key_names_present(indexes[i].1.sort_key, attrs)
    }
}

/// The partition key value: `$service#entity` followed by the composite segments.
pub open spec fn partition_value(info: EntityInfoView, k: KeyView, attrs: Map<Seq<char>, AttributeView>) -> Seq<char> {
    seq!['$'] + info.service + seq!['#'] + info.entity + joined_composite(k.composite, attrs)
}

/// The sort key value: `$entity` followed by the composite segments.
pub open spec fn sort_value(info: EntityInfoView, k: KeyView, attrs: Map<Seq<char>, AttributeView>) -> Seq<char> {
    seq!['$'] + info.entity + joined_composite(k.composite, attrs)
}

/// The attributes that have values, as item values.
pub open spec fn attribute_item(attrs: Map<Seq<char>, AttributeView>) -> Map<Seq<char>, ValueView> {
    Map::new(
        |k: Seq<char>| attrs.contains_key(k) && attribute_value(attrs[k]) is Some,
        |k: Seq<char>| attribute_value(attrs[k])->0,
    )
}

/// `base` with the key fields of the given indexes written in order, the
/// partition key of each index before its sort key.
pub open spec fn with_index_keys(
    base: Map<Seq<char>, ValueView>,
    info: EntityInfoView,
    indexes: Seq<(Seq<char>, IndexView)>,
    attrs: Map<Seq<char>, AttributeView>,
) -> Map<Seq<char>, ValueView>
    decreases indexes.len(),
{
    if indexes.len() == 0 {
        base
    } else {
        let ix = indexes.last().1;
        with_index_keys(base, info, indexes.drop_last(), attrs)
            .insert(ix.partition_key.field, ValueView::S(partition_value(info, ix.partition_key, attrs)))
            .insert(ix.sort_key.field, ValueView::S(sort_value(info, ix.sort_key, attrs)))
    }
}

/// The `_entity` marker.
pub open spec fn entity_marker() -> Seq<char> {
    seq!['_', 'e', 'n', 't', 'i', 't', 'y']
}

/// The item an entity is stored as: the `_entity` marker, then every attribute
/// that has a value, then the key fields of every index.
pub open spec fn entity_item(
    info: EntityInfoView,
    indexes: Seq<(Seq<char>, IndexView)>,
    attrs: Map<Seq<char>, AttributeView>,
) -> Map<Seq<char>, ValueView> {
    let base = Map::<Seq<char>, ValueView>::empty().insert(entity_marker(), ValueView::S(info.entity));
    with_index_keys(base.union_prefer_right(attribute_item(attrs)), info, indexes, attrs)
}

impl Key {
    /// The composite segments of this key for the given attributes.
    pub fn join_composite(&self, attrs: &Table<String, Attribute>) -> (c: String)
        requires
            key_names_present(self@, attrs@),
        ensures
            c@ == joined_composite(self@.composite, attrs@),
    {
        let mut c = String::new();
        let mut i: usize = 0;
        while i < self.composite.len()
            invariant
                i <= self.composite@.len(),
                key_names_present(self@, attrs@),
                c@ == joined_composite(self@.composite.take(i as int), attrs@),
            decreases self.composite@.len() - i,
        {
            let name = &self.composite[i];
            assert(self@.composite[i as int] == name@);
            let attr = attrs.get(name).unwrap();
            if let Some(s) = attr.string_or_none() {
                let seg = concat3("#", name.as_str(), "_");
                proof { reveal_strlit("#"); reveal_strlit("_"); }
                c.append(seg.as_str());
                c.append(s.as_str());
            }
            proof {
                let t = self@.composite.take(i + 1);
                assert(t.drop_last() =~= self@.composite.take(i as int));
                assert(t.last() == name@);
                assert(c@ =~= joined_composite(t, attrs@));
            }
            i = i + 1;
        }
        assert(self@.composite.take(i as int) =~= self@.composite);
        c
    }

    /// A copy of this key.
    pub fn duplicate(&self) -> (k: Key)
        ensures
            k@ == self@,
    {
        let mut composite: Vec<String> = Vec::new();
        let mut i: usize = 0;
        while i < self.composite.len()
            invariant
                i <= self.composite@.len(),
                composite@.len() == i,
                composite.deep_view() =~= self.composite.deep_view().take(i as int),
            decreases self.composite@.len() - i,
        {
            let ghost before = composite@;
            let s = self.composite[i].clone();
            composite.push(s);
            proof {
                assert(composite@ == before.push(s));
                assert forall|j: int| 0 <= j < i + 1 implies #[trigger] composite.deep_view()[j] == self.composite.deep_view().take(i + 1)[j] by {
                    if j < i {
                        assert(composite@[j] == before[j]);
                    }
                }
            }
            i = i + 1;
        }
        assert(self.composite.deep_view().take(i as int) =~= self.composite.deep_view());
        Key { field: self.field.clone(), composite }
    }
}

impl Attribute {
    /// The text of the value, if there is one.
    pub fn string_or_none(&self) -> (r: Option<String>)
        ensures
            match r {
                Some(s) => attribute_text(self@) == Some(s@),
                None => attribute_text(self@) is None,
            },
    {
        match self {
            Attribute::DdbString(y) => match y {
                Some(s) => Some(s.clone()),
                None => None,
            },
            Attribute::DdbNumber(y) => match y {
                Some(n) => Some(i64_to_decimal(*n)),
                None => None,
            },
            Attribute::DdbBoolean(y) => match y {
                Some(b) => Some(bool_to_text(*b)),
                None => None,
            },
        }
    }

    /// The item value this attribute is stored as, if it has a value.
    pub fn to_value(&self) -> (r: Option<AttributeValue>)
        ensures
            match r {
                Some(v) => attribute_value(self@) == Some(v@),
                None => attribute_value(self@) is None,
            },
    {
        match self {
            Attribute::DdbString(y) => match y {
                Some(s) => Some(AttributeValue::S(s.clone())),
                None => None,
            },
            Attribute::DdbNumber(y) => match y {
                Some(n) => Some(AttributeValue::N(i64_to_decimal(*n))),
                None => None,
            },
            Attribute::DdbBoolean(y) => match y {
                Some(b) => Some(AttributeValue::Bool(*b)),
                None => None,
            },
        }
    }
}

impl Attribute {
    /// A copy of this attribute.
    pub fn duplicate(&self) -> (r: Attribute)
        ensures
            r@ == self@,
    {
        match self {
            Attribute::DdbString(y) => Attribute::DdbString(
                match y {
                    Some(s) => Some(s.clone()),
                    None => None,
                },
            ),
            Attribute::DdbNumber(y) => Attribute::DdbNumber(*y),
            Attribute::DdbBoolean(y) => Attribute::DdbBoolean(*y),
        }
    }
}

/// Whether an entity is written with its generated values.
#[derive(PartialEq, Eq, Structural)]
pub enum GeneratedValues {
    Use,
    Ignore,
}

/// An attribute named `name`, or, when it has no value, the attribute of the
/// same name in `defaults` if that one has a value.
pub open spec fn filled_attribute(a: AttributeView, defaults: Map<Seq<char>, AttributeView>, name: Seq<char>) -> AttributeView {
    if attribute_value(a) is None && defaults.contains_key(name) && attribute_value(defaults[name]) is Some {
        defaults[name]
    } else {
        a
    }
}

/// The attributes with every absent value filled from `defaults` where they
/// have one.
pub open spec fn filled_attributes(
    attrs: Map<Seq<char>, AttributeView>,
    defaults: Map<Seq<char>, AttributeView>,
) -> Map<Seq<char>, AttributeView> {
    Map::new(|k: Seq<char>| attrs.contains_key(k), |k: Seq<char>| filled_attribute(attrs[k], defaults, k))
}

/// The attributes with every absent value filled from `defaults`, where the
/// attribute of the same name there has a value.
pub fn fill_generated(attrs: &Table<String, Attribute>, defaults: &Table<String, Attribute>) -> (t: Table<String, Attribute>)
    ensures
        t@ == filled_attributes(attrs@, defaults@),
{
    let n = attrs.len();
    let ghost ev = attrs.entries_view();
    let mut t: Table<String, Attribute> = Table::new();
    assert(map_of(ev.take(0)) =~= Map::<Seq<char>, AttributeView>::empty());
    assert(t@ =~= filled_attributes(map_of(ev.take(0)), defaults@));
    let mut i: usize = 0;
    while i < n
        invariant
            n == ev.len(),
            i <= n,
            ev == attrs.entries_view(),
            attrs@ == map_of(ev),
            t@ == filled_attributes(map_of(ev.take(i as int)), defaults@),
        decreases n - i,
    {
        let (name, attr) = attrs.entry(i);
        let value = if attr.to_value().is_none() {
            match defaults.get(name) {
                Some(d) => if d.to_value().is_some() {
                    d.duplicate()
                } else {
                    attr.duplicate()
                },
                None => attr.duplicate(),
            }
        } else {
            attr.duplicate()
        };
        assert(value@ == filled_attribute(attr@, defaults@, name@));
        let ghost before = map_of(ev.take(i as int));
        t.insert(name.clone(), value);
        proof {
            assert(ev.take(i + 1).drop_last() =~= ev.take(i as int));
            assert(ev.take(i + 1).last() == ev[i as int]);
            assert(map_of(ev.take(i + 1)) == before.insert(name@, attr@));
            assert(t@ =~= filled_attributes(map_of(ev.take(i + 1)), defaults@));
        }
        i = i + 1;
    }
    assert(ev.take(n as int) =~= ev);
    t
}

proof fn lemma_attribute_item_step(m: Map<Seq<char>, AttributeView>, k: Seq<char>, a: AttributeView)
    requires
        !m.contains_key(k),
    ensures
        attribute_value(a) is Some ==> attribute_item(m.insert(k, a)) == attribute_item(m).insert(k, attribute_value(a)->0),
        attribute_value(a) is None ==> attribute_item(m.insert(k, a)) == attribute_item(m),
{
    if attribute_value(a) is Some {
        assert(attribute_item(m.insert(k, a)) =~= attribute_item(m).insert(k, attribute_value(a)->0));
    } else {
        assert(attribute_item(m.insert(k, a)) =~= attribute_item(m));
    }
}

/// Builds the item for an entity from its description, its indexes and its attributes.
pub fn entity_to_item(info: &EntityInfo, indexes: &Table<String, Index>, attrs: &Table<String, Attribute>) -> (m: Item)
    requires
        composites_present(indexes.entries_view(), attrs@),
    ensures
        m@ == entity_item(info@, indexes.entries_view(), attrs@),
{
    let mut m: Item = Table::new();
    let marker = "_entity";
    proof { reveal_strlit("_entity"); }
    m.insert(owned(marker), AttributeValue::S(info.entity.clone()));
    let ghost base = m@;
    assert(marker@ =~= entity_marker());
    assert(base =~= Map::<Seq<char>, ValueView>::empty().insert(entity_marker(), ValueView::S(info@.entity)));

    // attributes
    let ghost ev = attrs.entries_view();
    let n = attrs.len();
    proof {
        assert(map_of(ev.take(0)) =~= Map::<Seq<char>, AttributeView>::empty());
        assert(attribute_item(Map::<Seq<char>, AttributeView>::empty()) =~= Map::<Seq<char>, ValueView>::empty());
        assert(base.union_prefer_right(Map::<Seq<char>, ValueView>::empty()) =~= base);
    }
    let mut i: usize = 0;
    while i < n
        invariant
            n == ev.len(),
            i <= ev.len(),
            ev == attrs.entries_view(),
            attrs@ == map_of(ev),
            distinct_keys(ev),
            m@ == base.union_prefer_right(attribute_item(map_of(ev.take(i as int)))),
        decreases ev.len() - i,
    {
        let (name, attr) = attrs.entry(i);
        let ghost prev = map_of(ev.take(i as int));
        proof {
            assert(ev.take(i + 1).drop_last() =~= ev.take(i as int));
            assert(ev.take(i + 1).last() == ev[i as int]);
            lemma_map_of_domain(ev.take(i as int), name@);
            if prev.contains_key(name@) {
                let j = choose|j: int| 0 <= j < ev.take(i as int).len() && #[trigger] ev.take(i as int)[j].0 == name@;
                assert(ev[j].0 == ev[i as int].0);
            }
            lemma_attribute_item_step(prev, name@, attr@);
        }
        match attr.to_value() {
            Some(v) => {
                m.insert(name.clone(), v);
                assert(m@ =~= base.union_prefer_right(attribute_item(map_of(ev.take(i + 1)))));
            },
            None => {},
        }
        i = i + 1;
    }
    assert(ev.take(i as int) =~= ev);

    // indexes
    let ghost start = m@;
    let ghost ix = indexes.entries_view();
    let mut j: usize = 0;
    while j < indexes.len()
        invariant
            j <= ix.len(),
            ix == indexes.entries_view(),
            composites_present(ix, attrs@),
            m@ == with_index_keys(start, info@, ix.take(j as int), attrs@),
        decreases ix.len() - j,
    {
        let (_, index) = indexes.entry(j);
        assert(ix[j as int].1 == index@);
        assert(key_names_present(index@.partition_key, attrs@));
        assert(key_names_present(index@.sort_key, attrs@));
        // partition key
        let pc = index.partition_key.join_composite(attrs);
        let mut pk = concat3("$", info.service.as_str(), "#");
        pk.append(info.entity.as_str());
        pk.append(pc.as_str());
        proof { reveal_strlit("$"); reveal_strlit("#"); }
        assert(pk@ =~= partition_value(info@, index@.partition_key, attrs@));
        m.insert(index.partition_key.field.clone(), AttributeValue::S(pk));
        // sort key
        let sc = index.sort_key.join_composite(attrs);
        let mut sk = concat2("$", info.entity.as_str());
        sk.append(sc.as_str());
        assert(sk@ =~= sort_value(info@, index@.sort_key, attrs@));
        m.insert(index.sort_key.field.clone(), AttributeValue::S(sk));
        proof {
            assert(ix.take(j + 1).drop_last() =~= ix.take(j as int));
            assert(ix.take(j + 1).last() == ix[j as int]);
            assert(m@ =~= with_index_keys(start, info@, ix.take(j + 1), attrs@));
        }
        j = j + 1;
    }
    assert(ix.take(j as int) =~= ix);
    m
}

} // verus!

verus! {

/// An entity that can be written to and read from a table: it describes
/// where it lives, its indexes and its attributes, and is built back from an item.
pub trait DdbEntity: Sized {
    fn info(&self) -> EntityInfo;

    fn index_schema(&self) -> Table<String, Index>;

    fn attributes(&self) -> Table<String, Attribute>;

    fn generated_values() -> Self;

    /// The item this entity is stored as, built from what `info`,
    /// `index_schema` and `attributes` return.
    fn to_map(&self) -> (m: Item)
        requires
            forall|ix: Table<String, Index>, at: Table<String, Attribute>|
                #![trigger call_ensures(Self::index_schema, (self,), ix), call_ensures(Self::attributes, (self,), at)]
                call_ensures(Self::index_schema, (self,), ix) && call_ensures(Self::attributes, (self,), at)
                ==> composites_present(ix.entries_view(), at@),
        ensures
            exists|info: EntityInfo, ix: Table<String, Index>, at: Table<String, Attribute>|
                #[trigger] call_ensures(Self::info, (self,), info)
                && #[trigger] call_ensures(Self::index_schema, (self,), ix)
                && #[trigger] call_ensures(Self::attributes, (self,), at)
                && m@ == entity_item(info@, ix.entries_view(), at@),
    {
        let info = self.info();
        let indexes = self.index_schema();
        let attrs = self.attributes();
        assert(composites_present(indexes.entries_view(), attrs@));
        entity_to_item(&info, &indexes, &attrs)
    }

    /// The item this entity is stored as; with `Use`, every attribute
    /// without a value first takes the value of the same attribute of the
    /// entity's generated values, where that one has a value.
    fn entity_to_av_map(&self, generated: &GeneratedValues) -> (m: Item)
        requires
            forall|ix: Table<String, Index>, at: Table<String, Attribute>|
                #![trigger call_ensures(Self::index_schema, (self,), ix), call_ensures(Self::attributes, (self,), at)]
                call_ensures(Self::index_schema, (self,), ix) && call_ensures(Self::attributes, (self,), at)
                ==> composites_present(ix.entries_view(), at@),
        ensures
            *generated is Ignore ==> exists|info: EntityInfo, ix: Table<String, Index>, at: Table<String, Attribute>|
                #[trigger] call_ensures(Self::info, (self,), info)
                && #[trigger] call_ensures(Self::index_schema, (self,), ix)
                && #[trigger] call_ensures(Self::attributes, (self,), at)
                && m@ == entity_item(info@, ix.entries_view(), at@),
            *generated is Use ==> exists|info: EntityInfo, ix: Table<String, Index>, at: Table<String, Attribute>,
                g: Self, gat: Table<String, Attribute>|
                #![trigger call_ensures(Self::info, (self,), info), call_ensures(Self::index_schema, (self,), ix),
                    call_ensures(Self::attributes, (self,), at), call_ensures(Self::generated_values, (), g),
                    call_ensures(Self::attributes, (&g,), gat)]
                {
                    &&& call_ensures(Self::info, (self,), info)
                    &&& call_ensures(Self::index_schema, (self,), ix)
                    &&& call_ensures(Self::attributes, (self,), at)
                    &&& call_ensures(Self::generated_values, (), g)
                    &&& call_ensures(Self::attributes, (&g,), gat)
                    &&& m@ == entity_item(info@, ix.entries_view(), filled_attributes(at@, gat@))
                },
    {
        let info = self.info();
        let indexes = self.index_schema();
        let attrs = self.attributes();
        assert(composites_present(indexes.entries_view(), attrs@));
        match generated {
            GeneratedValues::Use => {
                let g = Self::generated_values();
                let gat = g.attributes();
                let filled = fill_generated(&attrs, &gat);
                assert(composites_present(indexes.entries_view(), filled@)) by {
                    assert forall|i: int| 0 <= i < indexes.entries_view().len() implies {
                        &&& key_names_present((#[trigger] indexes.entries_view()[i]).1.partition_key, filled@)
                        &&& key_names_present(indexes.entries_view()[i].1.sort_key, filled@)
                    } by {
                        let ix = indexes.entries_view()[i].1;
                        assert(key_names_present(ix.partition_key, attrs@));
                        assert(key_names_present(ix.sort_key, attrs@));
                        assert forall|j: int| 0 <= j < ix.partition_key.composite.len()
                            implies filled@.contains_key(#[trigger] ix.partition_key.composite[j]) by {
                            assert(attrs@.contains_key(ix.partition_key.composite[j]));
                        }
                        assert forall|j: int| 0 <= j < ix.sort_key.composite.len()
                            implies filled@.contains_key(#[trigger] ix.sort_key.composite[j]) by {
                            assert(attrs@.contains_key(ix.sort_key.composite[j]));
                        }
                    }
                }
                entity_to_item(&info, &indexes, &filled)
            },
            GeneratedValues::Ignore => entity_to_item(&info, &indexes, &attrs),
        }
    }

    fn from_map(m: &Item) -> Self;

    /// The entities the items describe, one for each item, in order.
    fn from_map_slice(ms: &[Item]) -> (v: Vec<Self>)
        ensures
            v@.len() == ms@.len(),
            forall|i: int| 0 <= i < ms@.len() ==> call_ensures(Self::from_map, (&ms@[i],), #[trigger] v@[i]),
    {
        let mut v: Vec<Self> = Vec::new();
        let mut i: usize = 0;
        while i < ms.len()
            invariant
                i <= ms@.len(),
                v@.len() == i,
                forall|j: int| 0 <= j < i ==> call_ensures(Self::from_map, (&ms@[j],), #[trigger] v@[j]),
            decreases ms@.len() - i,
        {
            let e = Self::from_map(&ms[i]);
            v.push(e);
            i = i + 1;
        }
        v
    }
}

} // verus!

verus! {

/// The key fields of every index are fields of the item.
pub proof fn lemma_index_fields_present(
    base: Map<Seq<char>, ValueView>,
    info: EntityInfoView,
    indexes: Seq<(Seq<char>, IndexView)>,
    attrs: Map<Seq<char>, AttributeView>,
    p: int,
)
    requires
        0 <= p < indexes.len(),
    ensures
        with_index_keys(base, info, indexes, attrs).contains_key(indexes[p].1.partition_key.field),
        with_index_keys(base, info, indexes, attrs).contains_key(indexes[p].1.sort_key.field),
        with_index_keys(base, info, indexes, attrs)[indexes[p].1.partition_key.field] is S,
        with_index_keys(base, info, indexes, attrs)[indexes[p].1.sort_key.field] is S,
    decreases indexes.len(),
{
    if p < indexes.len() - 1 {
        lemma_index_fields_present(base, info, indexes.drop_last(), attrs, p);
        assert(indexes.drop_last()[p] == indexes[p]);
    }
}

/// Under the key fields of an index, an item holds the key values composed
/// from the entity's attributes: the partition key `$service#entity` and the
/// sort key `$entity`, each followed by its composite segments. This holds
/// for every index whose key fields are written by no later index, and whose
/// partition key field differs from its sort key field.
pub proof fn lemma_item_key_values(
    info: EntityInfoView,
    indexes: Seq<(Seq<char>, IndexView)>,
    attrs: Map<Seq<char>, AttributeView>,
    p: int,
)
    requires
        0 <= p < indexes.len(),
        indexes[p].1.partition_key.field != indexes[p].1.sort_key.field,
        forall|q: int| p < q < indexes.len() ==> {
            let f = #[trigger] indexes[q].1;
            &&& f.partition_key.field != indexes[p].1.partition_key.field
            &&& f.sort_key.field != indexes[p].1.partition_key.field
            &&& f.partition_key.field != indexes[p].1.sort_key.field
            &&& f.sort_key.field != indexes[p].1.sort_key.field
        },
    ensures
        entity_item(info, indexes, attrs)[indexes[p].1.partition_key.field]
            == ValueView::S(partition_value(info, indexes[p].1.partition_key, attrs)),
        entity_item(info, indexes, attrs)[indexes[p].1.sort_key.field]
            == ValueView::S(sort_value(info, indexes[p].1.sort_key, attrs)),
    decreases indexes.len(),
{
    let base = Map::<Seq<char>, ValueView>::empty().insert(entity_marker(), ValueView::S(info.entity));
    let start = base.union_prefer_right(attribute_item(attrs));
    lemma_item_key_values_from(start, info, indexes, attrs, p);
}

proof fn lemma_item_key_values_from(
    start: Map<Seq<char>, ValueView>,
    info: EntityInfoView,
    indexes: Seq<(Seq<char>, IndexView)>,
    attrs: Map<Seq<char>, AttributeView>,
    p: int,
)
    requires
        0 <= p < indexes.len(),
        indexes[p].1.partition_key.field != indexes[p].1.sort_key.field,
        forall|q: int| p < q < indexes.len() ==> {
            let f = #[trigger] indexes[q].1;
            &&& f.partition_key.field != indexes[p].1.partition_key.field
            &&& f.sort_key.field != indexes[p].1.partition_key.field
            &&& f.partition_key.field != indexes[p].1.sort_key.field
            &&& f.sort_key.field != indexes[p].1.sort_key.field
        },
    ensures
        with_index_keys(start, info, indexes, attrs)[indexes[p].1.partition_key.field]
            == ValueView::S(partition_value(info, indexes[p].1.partition_key, attrs)),
        with_index_keys(start, info, indexes, attrs)[indexes[p].1.sort_key.field]
            == ValueView::S(sort_value(info, indexes[p].1.sort_key, attrs)),
    decreases indexes.len(),
{
    if p < indexes.len() - 1 {
        let t = indexes.drop_last();
        assert(t[p] == indexes[p]);
        assert forall|q: int| p < q < t.len() implies {
            let f = #[trigger] t[q].1;
            &&& f.partition_key.field != t[p].1.partition_key.field
            &&& f.sort_key.field != t[p].1.partition_key.field
            &&& f.partition_key.field != t[p].1.sort_key.field
            &&& f.sort_key.field != t[p].1.sort_key.field
        } by {
            assert(t[q] == indexes[q]);
        }
        lemma_item_key_values_from(start, info, t, attrs, p);
        let last = indexes[indexes.len() - 1].1;
        assert(last.partition_key.field != indexes[p].1.partition_key.field);
    }
}

/// Writing the key fields of the indexes leaves every other field of the
/// item as it was.
pub proof fn lemma_with_index_keys_other(
    base: Map<Seq<char>, ValueView>,
    info: EntityInfoView,
    indexes: Seq<(Seq<char>, IndexView)>,
    attrs: Map<Seq<char>, AttributeView>,
    k: Seq<char>,
)
    requires
        forall|i: int| 0 <= i < indexes.len() ==> {
            &&& (#[trigger] indexes[i]).1.partition_key.field != k
            &&& indexes[i].1.sort_key.field != k
        },
    ensures
        with_index_keys(base, info, indexes, attrs).contains_key(k) == base.contains_key(k),
        base.contains_key(k) ==> with_index_keys(base, info, indexes, attrs)[k] == base[k],
    decreases indexes.len(),
{
    if indexes.len() > 0 {
        let t = indexes.drop_last();
        assert forall|i: int| 0 <= i < t.len() implies {
            &&& (#[trigger] t[i]).1.partition_key.field != k
            &&& t[i].1.sort_key.field != k
        } by {
            assert(t[i] == indexes[i]);
        }
        lemma_with_index_keys_other(base, info, t, attrs, k);
        assert(indexes[indexes.len() - 1].1.partition_key.field != k);
    }
}

/// Under the name of an attribute that is neither the `_entity` marker nor
/// a key field of an index, an item holds the attribute's value, and nothing
/// when the attribute has none.
pub proof fn lemma_entity_item_attribute(
    info: EntityInfoView,
    indexes: Seq<(Seq<char>, IndexView)>,
    attrs: Map<Seq<char>, AttributeView>,
    k: Seq<char>,
)
    requires
        attrs.contains_key(k),
        k != entity_marker(),
        forall|i: int| 0 <= i < indexes.len() ==> {
            &&& (#[trigger] indexes[i]).1.partition_key.field != k
            &&& indexes[i].1.sort_key.field != k
        },
    ensures
        entity_item(info, indexes, attrs).contains_key(k) == attribute_value(attrs[k]) is Some,
        attribute_value(attrs[k]) is Some ==> entity_item(info, indexes, attrs)[k] == attribute_value(attrs[k])->0,
{
    let base = Map::<Seq<char>, ValueView>::empty().insert(entity_marker(), ValueView::S(info.entity));
    lemma_with_index_keys_other(base.union_prefer_right(attribute_item(attrs)), info, indexes, attrs, k);
}

/// The key query of an entity on the index named `index`: the partition key
/// must equal, and the sort key begin with, the values the entity's item
/// holds under the index's key fields.
pub fn query_plan<E: DdbEntity>(index: &str, e: &E) -> (plan: QueryPlan)
    requires
        forall|ix: Table<String, Index>, at: Table<String, Attribute>|
            #![trigger call_ensures(E::index_schema, (e,), ix), call_ensures(E::attributes, (e,), at)]
            call_ensures(E::index_schema, (e,), ix) && call_ensures(E::attributes, (e,), at)
            ==> ix@.contains_key(index@) && composites_present(ix.entries_view(), at@),
    ensures
        exists|info: EntityInfo, ix: Table<String, Index>, at: Table<String, Attribute>| {
            &&& #[trigger] call_ensures(E::info, (e,), info)
            &&& #[trigger] call_ensures(E::index_schema, (e,), ix)
            &&& #[trigger] call_ensures(E::attributes, (e,), at)
            &&& ix@.contains_key(index@)
            &&& {
                let item = entity_item(info@, ix.entries_view(), at@);
                let pkf = ix@[index@].partition_key.field;
                let skf = ix@[index@].sort_key.field;
                &&& item.contains_key(pkf)
                &&& item.contains_key(skf)
                &&& plan_matches(plan, info@.table, pkf, skf, item[pkf], item[skf], None)
                &&& query_matches(plan, item)
            }
        },
{
    let info = e.info();
    let is = e.index_schema();
    let attrs = e.attributes();
    assert(is@.contains_key(index@) && composites_present(is.entries_view(), attrs@));
    let key = owned(index);
    proof { is.lemma_view(index@); }
    let p = is.position(&key).unwrap();
    let (_, i) = is.entry(p);
    let pkf = i.partition_key.field.clone();
    let skf = i.sort_key.field.clone();
    let av = entity_to_item(&info, &is, &attrs);
    proof {
        let base = Map::<Seq<char>, ValueView>::empty().insert(entity_marker(), ValueView::S(info@.entity));
        lemma_index_fields_present(base.union_prefer_right(attribute_item(attrs@)), info@, is.entries_view(), attrs@, p as int);
    }
    let pv = av.get(&pkf).unwrap().duplicate();
    let sv = av.get(&skf).unwrap().duplicate();
    let plan = key_query(info.table.as_str(), pkf.as_str(), skf.as_str(), pv, sv, None);
    proof {
        let stored = av@[skf@]->S_0;
        assert(stored.is_prefix_of(stored)) by {
            assert(stored.subrange(0, stored.len() as int) =~= stored);
        }
    }
    plan
}

} // verus!

verus! {

/// Reading a run of items gives the entities of its parts, one after the
/// other: for items `a` followed by `b`, `from_map_slice` gives as many
/// entities as there are items, the first `a.len()` read from `a` and the
/// rest from `b`, each by `from_map`. With `a` and `b` empty, it gives none.
pub proof fn lemma_from_map_slice_concat<T: DdbEntity>(a: Seq<Item>, b: Seq<Item>, ms: &[Item], v: Vec<T>)
    requires
        ms@ == a + b,
        call_ensures(T::from_map_slice, (ms,), v),
    ensures
        v@.len() == a.len() + b.len(),
        forall|i: int| 0 <= i < a.len() ==> call_ensures(T::from_map, (&a[i],), #[trigger] v@[i]),
        forall|i: int| 0 <= i < b.len() ==> call_ensures(T::from_map, (&b[i],), #[trigger] v@[a.len() + i]),
{
    assert forall|i: int| 0 <= i < a.len() implies call_ensures(T::from_map, (&a[i],), #[trigger] v@[i]) by {
        assert(ms@[i] == a[i]);
    }
    assert forall|i: int| 0 <= i < b.len() implies call_ensures(T::from_map, (&b[i],), #[trigger] v@[a.len() + i]) by {
        assert(ms@[a.len() + i] == b[i]);
    }
}

} // verus!

verus! {

/// Storing an attribute keeps its value: an attribute without a value is
/// not stored; a string is stored as the same string, a boolean as the same
/// boolean, and a number as its usual decimal text (sign included, no
/// leading zeros), which reads back as the number.
pub proof fn lemma_to_value_keeps_value(a: Attribute, r: Option<AttributeValue>)
    requires
        call_ensures(Attribute::to_value, (&a,), r),
    ensures
        match a {
            Attribute::DdbString(o) => match o {
                Some(s) => r matches Some(v) && v@ == ValueView::S(s@),
                None => r is None,
            },
            Attribute::DdbBoolean(o) => match o {
                Some(b) => r matches Some(v) && v@ == ValueView::Bool(b),
                None => r is None,
            },
            Attribute::DdbNumber(o) => match o {
                Some(x) => r matches Some(v) && v@ matches ValueView::N(t) && is_canonical_decimal(t)
                    && decimal_value(t) == x,
                None => r is None,
            },
        },
{
    if let Attribute::DdbNumber(Some(x)) = a {
        lemma_int_decimal(x as int);
    }
}

/// An attribute is stored exactly when `string_or_none` gives its text; a
/// stored string or number holds that text, and a stored boolean is the one
/// the text writes as `true` or `false`.
pub proof fn lemma_to_value_matches_text(a: Attribute, r: Option<AttributeValue>, t: Option<String>)
    requires
        call_ensures(Attribute::to_value, (&a,), r),
        call_ensures(Attribute::string_or_none, (&a,), t),
    ensures
        r is Some <==> t is Some,
        r matches Some(v) ==> match v@ {
            ValueView::S(x) => x == t->0@,
            ValueView::N(x) => x == t->0@,
            ValueView::Bool(b) => t->0@ == if b { seq!['t', 'r', 'u', 'e'] } else { seq!['f', 'a', 'l', 's', 'e'] },
        },
{
}

/// Under the name of an attribute that is neither the `_entity` marker nor a
/// key field of an index, an item holds the attribute's own value (the same
/// string, the same boolean, or the number's usual decimal text), and
/// nothing when the attribute has no value.
pub proof fn lemma_stored_attribute(
    info: EntityInfoView,
    indexes: Seq<(Seq<char>, IndexView)>,
    attrs: Map<Seq<char>, AttributeView>,
    k: Seq<char>,
)
    requires
        attrs.contains_key(k),
        k != entity_marker(),
        forall|i: int| 0 <= i < indexes.len() ==> {
            &&& (#[trigger] indexes[i]).1.partition_key.field != k
            &&& indexes[i].1.sort_key.field != k
        },
    ensures
        match attrs[k] {
            AttributeView::DdbString(o) => match o {
                Some(s) => entity_item(info, indexes, attrs).contains_key(k)
                    && entity_item(info, indexes, attrs)[k] == ValueView::S(s),
                None => !entity_item(info, indexes, attrs).contains_key(k),
            },
            AttributeView::DdbBoolean(o) => match o {
                Some(b) => entity_item(info, indexes, attrs).contains_key(k)
                    && entity_item(info, indexes, attrs)[k] == ValueView::Bool(b),
                None => !entity_item(info, indexes, attrs).contains_key(k),
            },
            AttributeView::DdbNumber(o) => match o {
                Some(x) => entity_item(info, indexes, attrs).contains_key(k)
                    && (entity_item(info, indexes, attrs)[k] matches ValueView::N(t)
                    && is_canonical_decimal(t) && decimal_value(t) == x),
                None => !entity_item(info, indexes, attrs).contains_key(k),
            },
        },
{
    lemma_entity_item_attribute(info, indexes, attrs, k);
    if let AttributeView::DdbNumber(Some(x)) = attrs[k] {
        lemma_int_decimal(x as int);
    }
}

} // verus!
