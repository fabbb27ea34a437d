//! Entities whose attributes always have values, with indexes named by
//! position: the primary index and up to twenty global secondary indexes.
use vstd::prelude::*;
use crate::item::{AttributeValue, Item, ValueView};
use crate::request::{QueryPlan, key_query, plan_matches, query_matches};
use crate::table::{Table, KeyEq, map_of, distinct_keys, lemma_map_of_domain};
use crate::text::{int_decimal, bool_text, i64_to_decimal, bool_to_text, concat2, concat3, owned, str_equal,
    is_canonical_decimal, decimal_value, lemma_int_decimal};

pub use crate::dynamo::{EntityInfo, EntityInfoView};

verus! {

/// A key attribute of an index: the item field that holds it and the names of
/// the attributes whose values it is composed of, in order.
#[derive(Debug)]
pub struct Key {
    pub field: String,
    pub composite: Vec<String>,
}

pub struct KeyView {
    pub field: Seq<char>,
    pub composite: Seq<Seq<char>>,
}

impl View for Key {
    type V = KeyView;

    open spec fn view(&self) -> KeyView {
        KeyView { field: self.field@, composite: self.composite.deep_view() }
    }
}

/// The keys of an index.
#[derive(Debug)]
pub struct IndexSchema {
    pub partition_key: Key,
    pub sort_key: Key,
}

pub struct IndexSchemaView {
    pub partition_key: KeyView,
    pub sort_key: KeyView,
}

impl View for IndexSchema {
    type V = IndexSchemaView;

    open spec fn view(&self) -> IndexSchemaView {
        IndexSchemaView { partition_key: self.partition_key@, sort_key: self.sort_key@ }
    }
}

/// An attribute of an entity: a string, a number or a boolean.
#[derive(Debug, Clone)]
pub enum Attribute {
    DeezString(String),
    DeezNumber(isize),
    DeezBoolean(bool),
}

pub enum AttributeView {
    DeezString(Seq<char>),
    DeezNumber(isize),
    DeezBoolean(bool),
}

impl View for Attribute {
    type V = AttributeView;

    open spec fn view(&self) -> AttributeView {
        match self {
            Attribute::DeezString(s) => AttributeView::DeezString(s@),
            Attribute::DeezNumber(n) => AttributeView::DeezNumber(*n),
            Attribute::DeezBoolean(b) => AttributeView::DeezBoolean(*b),
        }
    }
}

/// The text of an attribute as `Display` writes it.
pub open spec fn attribute_text(a: AttributeView) -> Seq<char> {
    match a {
        AttributeView::DeezString(s) => s,
        AttributeView::DeezNumber(n) => int_decimal(n as int),
        AttributeView::DeezBoolean(b) => bool_text(b),
    }
}

/// The item value an attribute is stored as.
pub open spec fn attribute_value(a: AttributeView) -> ValueView {
    match a {
        AttributeView::DeezString(s) => ValueView::S(s),
        AttributeView::DeezNumber(n) => ValueView::N(int_decimal(n as int)),
        AttributeView::DeezBoolean(b) => ValueView::Bool(b),
    }
}

impl Attribute {
    /// The text of the attribute, as `Display` writes it.
    pub fn to_string(&self) -> (s: String)
        ensures
            s@ == attribute_text(self@),
    {
        match self {
            Attribute::DeezString(x) => x.clone(),
            Attribute::DeezNumber(x) => i64_to_decimal(*x as i64),
            Attribute::DeezBoolean(x) => bool_to_text(*x),
        }
    }

    /// The item value this attribute is stored as.
    pub fn to_value(&self) -> (v: AttributeValue)
        ensures
            v@ == attribute_value(self@),
    {
        match self {
            Attribute::DeezString(x) => AttributeValue::S(x.clone()),
            Attribute::DeezNumber(x) => AttributeValue::N(i64_to_decimal(*x as i64)),
            Attribute::DeezBoolean(x) => AttributeValue::Bool(*x),
        }
    }
}

/// Whether an entity is written with its generated values.
#[derive(PartialEq, Eq, Structural)]
pub enum GeneratedValues {
    Use,
    Ignore,
}

/// An index of a table: the primary index, or a global secondary index in
/// one of twenty slots, with its name.
#[derive(Debug, Clone, Copy)]
pub enum Index<'a> {
    Primary,
    Gsi1(&'a str),
    Gsi2(&'a str),
    Gsi3(&'a str),
    Gsi4(&'a str),
    Gsi5(&'a str),
    Gsi6(&'a str),
    Gsi7(&'a str),
    Gsi8(&'a str),
    Gsi9(&'a str),
    Gsi10(&'a str),
    Gsi11(&'a str),
    Gsi12(&'a str),
    Gsi13(&'a str),
    Gsi14(&'a str),
    Gsi15(&'a str),
    Gsi16(&'a str),
    Gsi17(&'a str),
    Gsi18(&'a str),
    Gsi19(&'a str),
    Gsi20(&'a str),
}

impl<'a> View for Index<'a> {
    /// The slot (0 for the primary index) and the name.
    type V = (int, Seq<char>);

    open spec fn view(&self) -> (int, Seq<char>) {
        match self {
            Index::Primary => (0, Seq::empty()),
            Index::Gsi1(x) => (1, x@),
            Index::Gsi2(x) => (2, x@),
            Index::Gsi3(x) => (3, x@),
            Index::Gsi4(x) => (4, x@),
            Index::Gsi5(x) => (5, x@),
            Index::Gsi6(x) => (6, x@),
            Index::Gsi7(x) => (7, x@),
            Index::Gsi8(x) => (8, x@),
            Index::Gsi9(x) => (9, x@),
            Index::Gsi10(x) => (10, x@),
            Index::Gsi11(x) => (11, x@),
            Index::Gsi12(x) => (12, x@),
            Index::Gsi13(x) => (13, x@),
            Index::Gsi14(x) => (14, x@),
            Index::Gsi15(x) => (15, x@),
            Index::Gsi16(x) => (16, x@),
            Index::Gsi17(x) => (17, x@),
            Index::Gsi18(x) => (18, x@),
            Index::Gsi19(x) => (19, x@),
            Index::Gsi20(x) => (20, x@),
        }
    }
}

impl<'a> Index<'a> {
    /// The slot of the index (0 for the primary index) and its name (empty
    /// for the primary index).
    pub fn slot(&self) -> (r: (u8, &'a str))
        ensures
            r.0 as int == self@.0,
            self@.0 == 0 ==> r.1@ == Seq::<char>::empty(),
            self@.0 != 0 ==> r.1@ == self@.1,
    {
        proof { reveal_strlit(""); }
        match self {
            Index::Primary => (0, ""),
            Index::Gsi1(x) => (1, *x),
            Index::Gsi2(x) => (2, *x),
            Index::Gsi3(x) => (3, *x),
            Index::Gsi4(x) => (4, *x),
            Index::Gsi5(x) => (5, *x),
            Index::Gsi6(x) => (6, *x),
            Index::Gsi7(x) => (7, *x),
            Index::Gsi8(x) => (8, *x),
            Index::Gsi9(x) => (9, *x),
            Index::Gsi10(x) => (10, *x),
            Index::Gsi11(x) => (11, *x),
            Index::Gsi12(x) => (12, *x),
            Index::Gsi13(x) => (13, *x),
            Index::Gsi14(x) => (14, *x),
            Index::Gsi15(x) => (15, *x),
            Index::Gsi16(x) => (16, *x),
            Index::Gsi17(x) => (17, *x),
            Index::Gsi18(x) => (18, *x),
            Index::Gsi19(x) => (19, *x),
            Index::Gsi20(x) => (20, *x),
        }
    }

    /// Whether this is the primary index.
    pub fn is_primary(&self) -> (r: bool)
        ensures
            r == (self@.0 == 0),
    {
        match self {
            Index::Primary => true,
            _ => false,
        }
    }

    /// The name of the index, as `Display` writes it: `primary` for the
    /// primary index, the given name for the others.
    pub fn to_string(&self) -> (s: String)
        ensures
            s@ == index_name(self@),
    {
        if self.is_primary() {
            proof { reveal_strlit("primary"); }
            owned("primary")
        } else {
            owned(self.slot().1)
        }
    }
}

/// The name of an index: `primary`, or the name of the secondary index.
pub open spec fn index_name(i: (int, Seq<char>)) -> Seq<char> {
    if i.0 == 0 { seq!['p', 'r', 'i', 'm', 'a', 'r', 'y'] } else { i.1 }
}

impl<'a> KeyEq for Index<'a> {
    fn same_key(&self, other: &Self) -> (r: bool) {
        let (a, x) = self.slot();
        let (b, y) = other.slot();
        a == b && str_equal(x, y)
    }
}

} // verus!

verus! {

/// The segment one composite attribute adds to a key: `#name_text`, or
/// nothing when the attribute's text is empty.
pub open spec fn composite_segment(name: Seq<char>, a: AttributeView) -> Seq<char> {
    if attribute_text(a).len() > 0 {
        seq!['#'] + name + seq!['_'] + attribute_text(a)
    } else {
        Seq::empty()
    }
}

/// The segments of the named composite attributes, in order.
pub open spec fn joined_composite(names: Seq<Seq<char>>, attrs: Map<Seq<char>, AttributeView>) -> Seq<char>
    decreases names.len(),
{
    if names.len() == 0 {
        Seq::empty()
    } else {
        joined_composite(names.drop_last(), attrs) + composite_segment(names.last(), attrs[names.last()])
    }
}

/// Every attribute that a key is composed of is one of the entity's attributes.
pub open spec fn key_names_present(k: KeyView, attrs: Map<Seq<char>, AttributeView>) -> bool {
    forall|i: int| 0 <= i < k.composite.len() ==> attrs.contains_key(#[trigger] k.composite[i])
}

/// Every key of every index is composed of the entity's attributes.
pub open spec fn composites_present(
    indexes: Seq<((int, Seq<char>), IndexSchemaView)>,
    attrs: Map<Seq<char>, AttributeView>,
) -> bool {
    forall|i: int| 0 <= i < indexes.len() ==> {
        &&& key_names_present((#[trigger] indexes[i]).1.partition_key, attrs)
        &&& key_names_present(indexes[i].1.sort_key, attrs)
    }
}

/// The partition key value: `$service#entity` followed by the composite segments.
pub open spec fn partition_value(info: EntityInfoView, k: KeyView, attrs: Map<Seq<char>, AttributeView>) -> Seq<char> {
    seq!['$'] + info.service + seq!['#'] + info.entity + joined_composite(k.composite, attrs)
}

/// The sort key value: `$entity` followed by the composite segments.
pub open spec fn sort_value(info: EntityInfoView, k: KeyView, attrs: Map<Seq<char>, AttributeView>) -> Seq<char> {
    seq!['$'] + info.entity + joined_composite(k.composite, attrs)
}

/// Every attribute as an item value.
pub open spec fn attribute_item(attrs: Map<Seq<char>, AttributeView>) -> Map<Seq<char>, ValueView> {
    Map::new(|k: Seq<char>| attrs.contains_key(k), |k: Seq<char>| attribute_value(attrs[k]))
}

/// `base` with the key fields of the given indexes written in order, the
/// partition key of each index before its sort key.
pub open spec fn with_index_keys(
    base: Map<Seq<char>, ValueView>,
    info: EntityInfoView,
    indexes: Seq<((int, Seq<char>), IndexSchemaView)>,
    attrs: Map<Seq<char>, AttributeView>,
) -> Map<Seq<char>, ValueView>
    decreases indexes.len(),
{
    if indexes.len() == 0 {
        base
    } else {
        let ix = indexes.last().1;
        with_index_keys(base, info, indexes.drop_last(), attrs)
            .insert(ix.partition_key.field, ValueView::S(partition_value(info, ix.partition_key, attrs)))
            .insert(ix.sort_key.field, ValueView::S(sort_value(info, ix.sort_key, attrs)))
    }
}

/// The item an entity is stored as: the `_entity` marker, then every
/// attribute, then the key fields of every index.
pub open spec fn entity_item(
    info: EntityInfoView,
    indexes: Seq<((int, Seq<char>), IndexSchemaView)>,
    attrs: Map<Seq<char>, AttributeView>,
) -> Map<Seq<char>, ValueView> {
    let base = Map::<Seq<char>, ValueView>::empty().insert(crate::dynamo::entity_marker(), ValueView::S(info.entity));
    with_index_keys(base.union_prefer_right(attribute_item(attrs)), info, indexes, attrs)
}

impl Key {
    /// The composite segments of this key for the given attributes.
    pub fn join_composite(&self, attrs: &Table<String, Attribute>) -> (c: String)
        requires
            key_names_present(self@, attrs@),
        ensures
            c@ == joined_composite(self@.composite, attrs@),
    {
        let mut c = String::new();
        let mut i: usize = 0;
        while i < self.composite.len()
            invariant
                i <= self.composite@.len(),
                key_names_present(self@, attrs@),
                c@ == joined_composite(self@.composite.take(i as int), attrs@),
            decreases self.composite@.len() - i,
        {
            let name = &self.composite[i];
            assert(self@.composite[i as int] == name@);
            let a = attrs.get(name).unwrap();
            let s = a.to_string();
            if s.unicode_len() > 0 {
                let seg = concat3("#", name.as_str(), "_");
                proof { reveal_strlit("#"); reveal_strlit("_"); }
                c.append(seg.as_str());
                c.append(s.as_str());
            }
            proof {
                let t = self@.composite.take(i + 1);
                assert(t.drop_last() =~= self@.composite.take(i as int));
                assert(t.last() == name@);
                assert(c@ =~= joined_composite(t, attrs@));
            }
            i = i + 1;
        }
        assert(self@.composite.take(i as int) =~= self@.composite);
        c
    }
}

proof fn lemma_attribute_item_step(m: Map<Seq<char>, AttributeView>, k: Seq<char>, a: AttributeView)
    requires
        !m.contains_key(k),
    ensures
        attribute_item(m.insert(k, a)) == attribute_item(m).insert(k, attribute_value(a)),
{
    assert(attribute_item(m.insert(k, a)) =~= attribute_item(m).insert(k, attribute_value(a)));
}

/// Builds the item for an entity from its description, its indexes and its attributes.
pub fn entity_to_item<'a>(
    info: &EntityInfo,
    indexes: &Table<Index<'a>, IndexSchema>,
    attrs: &Table<String, Attribute>,
) -> (m: Item)
    requires
        composites_present(indexes.entries_view(), attrs@),
    ensures
        m@ == entity_item(info@, indexes.entries_view(), attrs@),
{
    let mut m: Item = Table::new();
    let marker = "_entity";
    proof { reveal_strlit("_entity"); }
    m.insert(owned(marker), AttributeValue::S(info.entity.clone()));
    let ghost base = m@;
    assert(marker@ =~= crate::dynamo::entity_marker());
    assert(base =~= Map::<Seq<char>, ValueView>::empty().insert(crate::dynamo::entity_marker(), ValueView::S(info@.entity)));

    // attributes
    let ghost ev = attrs.entries_view();
    let n = attrs.len();
    proof {
        assert(map_of(ev.take(0)) =~= Map::<Seq<char>, AttributeView>::empty());
        assert(attribute_item(Map::<Seq<char>, AttributeView>::empty()) =~= Map::<Seq<char>, ValueView>::empty());
        assert(base.union_prefer_right(Map::<Seq<char>, ValueView>::empty()) =~= base);
    }
    let mut i: usize = 0;
    while i < n
        invariant
            n == ev.len(),
            i <= ev.len(),
            ev == attrs.entries_view(),
            attrs@ == map_of(ev),
            distinct_keys(ev),
            m@ == base.union_prefer_right(attribute_item(map_of(ev.take(i as int)))),
        decreases ev.len() - i,
    {
        let (name, attr) = attrs.entry(i);
        let ghost prev = map_of(ev.take(i as int));
        proof {
            assert(ev.take(i + 1).drop_last() =~= ev.take(i as int));
            assert(ev.take(i + 1).last() == ev[i as int]);
            lemma_map_of_domain(ev.take(i as int), name@);
            if prev.contains_key(name@) {
                let j = choose|j: int| 0 <= j < ev.take(i as int).len() && #[trigger] ev.take(i as int)[j].0 == name@;
                assert(ev[j].0 == ev[i as int].0);
            }
            lemma_attribute_item_step(prev, name@, attr@);
        }
        m.insert(name.clone(), attr.to_value());
        assert(m@ =~= base.union_prefer_right(attribute_item(map_of(ev.take(i + 1)))));
        i = i + 1;
    }
    assert(ev.take(i as int) =~= ev);

    // indexes
    let ghost start = m@;
    let ghost ix = indexes.entries_view();
    let mut j: usize = 0;
    while j < indexes.len()
        invariant
            j <= ix.len(),
            ix == indexes.entries_view(),
            composites_present(ix, attrs@),
            m@ == with_index_keys(start, info@, ix.take(j as int), attrs@),
        decreases ix.len() - j,
    {
        let (_, index) = indexes.entry(j);
        assert(ix[j as int].1 == index@);
        assert(key_names_present(index@.partition_key, attrs@));
        assert(key_names_present(index@.sort_key, attrs@));
        // partition key
        let pc = index.partition_key.join_composite(attrs);
        let mut pk = concat3("$", info.service.as_str(), "#");
        pk.append(info.entity.as_str());
        pk.append(pc.as_str());
        proof { reveal_strlit("$"); reveal_strlit("#"); }
        assert(pk@ =~= partition_value(info@, index@.partition_key, attrs@));
        m.insert(index.partition_key.field.clone(), AttributeValue::S(pk));
        // sort key
        let sc = index.sort_key.join_composite(attrs);
        let mut sk = concat2("$", info.entity.as_str());
        sk.append(sc.as_str());
        assert(sk@ =~= sort_value(info@, index@.sort_key, attrs@));
        m.insert(index.sort_key.field.clone(), AttributeValue::S(sk));
        proof {
            assert(ix.take(j + 1).drop_last() =~= ix.take(j as int));
            assert(ix.take(j + 1).last() == ix[j as int]);
            assert(m@ =~= with_index_keys(start, info@, ix.take(j + 1), attrs@));
        }
        j = j + 1;
    }
    assert(ix.take(j as int) =~= ix);
    m
}

} // verus!

verus! {

/// An entity that can be written to and read from a table: it describes
/// where it lives, its indexes and its attributes, and is built back from an item.
pub trait DeezEntity: Sized {
    fn info(&self) -> EntityInfo;

    fn index_schemas(&self) -> Table<Index<'_>, IndexSchema>;

    fn attributes(&self) -> Table<String, Attribute>;

    fn generated_values() -> Self;

    /// The item this entity is stored as, built from what `info`,
    /// `index_schemas` and `attributes` return.
    fn to_map(&self) -> (m: Item)
        requires
            forall|ix: Table<Index<'_>, IndexSchema>, at: Table<String, Attribute>|
                #![trigger call_ensures(Self::index_schemas, (self,), ix), call_ensures(Self::attributes, (self,), at)]
                call_ensures(Self::index_schemas, (self,), ix) && call_ensures(Self::attributes, (self,), at)
                ==> composites_present(ix.entries_view(), at@),
        ensures
            exists|info: EntityInfo, ix: Table<Index<'_>, IndexSchema>, at: Table<String, Attribute>|
                #[trigger] call_ensures(Self::info, (self,), info)
                && #[trigger] call_ensures(Self::index_schemas, (self,), ix)
                && #[trigger] call_ensures(Self::attributes, (self,), at)
                && m@ == entity_item(info@, ix.entries_view(), at@),
    {
        let info = self.info();
        let indexes = self.index_schemas();
        let attrs = self.attributes();
        entity_to_item(&info, &indexes, &attrs)
    }

    fn from_map(m: &Item) -> Self;

    /// The entities the items describe, one for each item, in order.
    fn from_map_slice(ms: &[Item]) -> (v: Vec<Self>)
        ensures
            v@.len() == ms@.len(),
            forall|i: int| 0 <= i < ms@.len() ==> call_ensures(Self::from_map, (&ms@[i],), #[trigger] v@[i]),
    {
        let mut v: Vec<Self> = Vec::new();
        let mut i: usize = 0;
        while i < ms.len()
            invariant
                i <= ms@.len(),
                v@.len() == i,
                forall|j: int| 0 <= j < i ==> call_ensures(Self::from_map, (&ms@[j],), #[trigger] v@[j]),
            decreases ms@.len() - i,
        {
            let e = Self::from_map(&ms[i]);
            v.push(e);
            i = i + 1;
        }
        v
    }
}

/// The key fields of every index are fields of the item.
pub proof fn lemma_index_fields_present(
    base: Map<Seq<char>, ValueView>,
    info: EntityInfoView,
    indexes: Seq<((int, Seq<char>), IndexSchemaView)>,
    attrs: Map<Seq<char>, AttributeView>,
    p: int,
)
    requires
        0 <= p < indexes.len(),
    ensures
        with_index_keys(base, info, indexes, attrs).contains_key(indexes[p].1.partition_key.field),
        with_index_keys(base, info, indexes, attrs).contains_key(indexes[p].1.sort_key.field),
        with_index_keys(base, info, indexes, attrs)[indexes[p].1.partition_key.field] is S,
        with_index_keys(base, info, indexes, attrs)[indexes[p].1.sort_key.field] is S,
    decreases indexes.len(),
{
    if p < indexes.len() - 1 {
        lemma_index_fields_present(base, info, indexes.drop_last(), attrs, p);
        assert(indexes.drop_last()[p] == indexes[p]);
    }
}

/// The key query of an entity on `index`: the partition key must equal, and
/// the sort key begin with, the values the entity's item holds under the
/// index's key fields; a query on a secondary index names it.
pub fn query_plan<E: DeezEntity>(index: &Index, e: &E) -> (plan: QueryPlan)
    requires
        forall|ix: Table<Index<'_>, IndexSchema>, at: Table<String, Attribute>|
            #![trigger call_ensures(E::index_schemas, (e,), ix), call_ensures(E::attributes, (e,), at)]
            call_ensures(E::index_schemas, (e,), ix) && call_ensures(E::attributes, (e,), at)
            ==> ix@.contains_key(index@) && composites_present(ix.entries_view(), at@),
    ensures
        exists|info: EntityInfo, ix: Table<Index<'_>, IndexSchema>, at: Table<String, Attribute>| {
            &&& #[trigger] call_ensures(E::info, (e,), info)
            &&& #[trigger] call_ensures(E::index_schemas, (e,), ix)
            &&& #[trigger] call_ensures(E::attributes, (e,), at)
            &&& ix@.contains_key(index@)
            &&& {
                let item = entity_item(info@, ix.entries_view(), at@);
                let pkf = ix@[index@].partition_key.field;
                let skf = ix@[index@].sort_key.field;
                &&& item.contains_key(pkf)
                &&& item.contains_key(skf)
                &&& plan_matches(
                    plan,
                    info@.table,
                    pkf,
                    skf,
                    item[pkf],
                    item[skf],
                    if index@.0 == 0 { None } else { Some(index_name(index@)) },
                )
                &&& query_matches(plan, item)
            }
        },
{
    let info = e.info();
    let is = e.index_schemas();
    let attrs = e.attributes();
    assert(is@.contains_key(index@) && composites_present(is.entries_view(), attrs@));
    proof { is.lemma_view(index@); }
    let p = is.position(index).unwrap();
    let (_, i) = is.entry(p);
    let pkf = i.partition_key.field.clone();
    let skf = i.sort_key.field.clone();
    let av = entity_to_item(&info, &is, &attrs);
    proof {
        let base = Map::<Seq<char>, ValueView>::empty().insert(crate::dynamo::entity_marker(), ValueView::S(info@.entity));
        lemma_index_fields_present(base.union_prefer_right(attribute_item(attrs@)), info@, is.entries_view(), attrs@, p as int);
    }
    let pv = av.get(&pkf).unwrap().duplicate();
    let sv = av.get(&skf).unwrap().duplicate();
    let index_name = if index.is_primary() { None } else { Some(index.to_string()) };
    let plan = key_query(info.table.as_str(), pkf.as_str(), skf.as_str(), pv, sv, index_name);
    proof {
        let stored = av@[skf@]->S_0;
        assert(stored.is_prefix_of(stored)) by {
            assert(stored.subrange(0, stored.len() as int) =~= stored);
        }
    }
    plan
}

} // verus!

verus! {

/// Under the key fields of an index, an item holds the key values composed
/// from the entity's attributes: the partition key `$service#entity` and the
/// sort key `$entity`, each followed by its composite segments. This holds
/// for every index whose key fields are written by no later index, and whose
/// partition key field differs from its sort key field.
pub proof fn lemma_item_key_values(
    info: EntityInfoView,
    indexes: Seq<((int, Seq<char>), IndexSchemaView)>,
    attrs: Map<Seq<char>, AttributeView>,
    p: int,
)
    requires
        0 <= p < indexes.len(),
        indexes[p].1.partition_key.field != indexes[p].1.sort_key.field,
        forall|q: int| p < q < indexes.len() ==> {
            let f = #[trigger] indexes[q].1;
            &&& f.partition_key.field != indexes[p].1.partition_key.field
            &&& f.sort_key.field != indexes[p].1.partition_key.field
            &&& f.partition_key.field != indexes[p].1.sort_key.field
            &&& f.sort_key.field != indexes[p].1.sort_key.field
        },
    ensures
        entity_item(info, indexes, attrs)[indexes[p].1.partition_key.field]
            == ValueView::S(partition_value(info, indexes[p].1.partition_key, attrs)),
        entity_item(info, indexes, attrs)[indexes[p].1.sort_key.field]
            == ValueView::S(sort_value(info, indexes[p].1.sort_key, attrs)),
{
    let base = Map::<Seq<char>, ValueView>::empty().insert(crate::dynamo::entity_marker(), ValueView::S(info.entity));
    lemma_item_key_values_from(base.union_prefer_right(attribute_item(attrs)), info, indexes, attrs, p);
}

proof fn lemma_item_key_values_from(
    start: Map<Seq<char>, ValueView>,
    info: EntityInfoView,
    indexes: Seq<((int, Seq<char>), IndexSchemaView)>,
    attrs: Map<Seq<char>, AttributeView>,
    p: int,
)
    requires
        0 <= p < indexes.len(),
        indexes[p].1.partition_key.field != indexes[p].1.sort_key.field,
        forall|q: int| p < q < indexes.len() ==> {
            let f = #[trigger] indexes[q].1;
            &&& f.partition_key.field != indexes[p].1.partition_key.field
            &&& f.sort_key.field != indexes[p].1.partition_key.field
            &&& f.partition_key.field != indexes[p].1.sort_key.field
            &&& f.sort_key.field != indexes[p].1.sort_key.field
        },
    ensures
        with_index_keys(start, info, indexes, attrs)[indexes[p].1.partition_key.field]
            == ValueView::S(partition_value(info, indexes[p].1.partition_key, attrs)),
        with_index_keys(start, info, indexes, attrs)[indexes[p].1.sort_key.field]
            == ValueView::S(sort_value(info, indexes[p].1.sort_key, attrs)),
    decreases indexes.len(),
{
    if p < indexes.len() - 1 {
        let t = indexes.drop_last();
        assert(t[p] == indexes[p]);
        assert forall|q: int| p < q < t.len() implies {
            let f = #[trigger] t[q].1;
            &&& f.partition_key.field != t[p].1.partition_key.field
            &&& f.sort_key.field != t[p].1.partition_key.field
            &&& f.partition_key.field != t[p].1.sort_key.field
            &&& f.sort_key.field != t[p].1.sort_key.field
        } by {
            assert(t[q] == indexes[q]);
        }
        lemma_item_key_values_from(start, info, t, attrs, p);
        let last = indexes[indexes.len() - 1].1;
        assert(last.partition_key.field != indexes[p].1.partition_key.field);
    }
}

} // verus!

verus! {

/// Reading a run of items gives the entities of its parts, one after the
/// other: for items `a` followed by `b`, `from_map_slice` gives as many
/// entities as there are items, the first `a.len()` read from `a` and the
/// rest from `b`, each by `from_map`. With `a` and `b` empty, it gives none.
pub proof fn lemma_from_map_slice_concat<T: DeezEntity>(a: Seq<Item>, b: Seq<Item>, ms: &[Item], v: Vec<T>)
    requires
        ms@ == a + b,
        call_ensures(T::from_map_slice, (ms,), v),
    ensures
        v@.len() == a.len() + b.len(),
        forall|i: int| 0 <= i < a.len() ==> call_ensures(T::from_map, (&a[i],), #[trigger] v@[i]),
        forall|i: int| 0 <= i < b.len() ==> call_ensures(T::from_map, (&b[i],), #[trigger] v@[a.len() + i]),
{
    assert forall|i: int| 0 <= i < a.len() implies call_ensures(T::from_map, (&a[i],), #[trigger] v@[i]) by {
        assert(ms@[i] == a[i]);
    }
    assert forall|i: int| 0 <= i < b.len() implies call_ensures(T::from_map, (&b[i],), #[trigger] v@[a.len() + i]) by {
        assert(ms@[a.len() + i] == b[i]);
    }
}

} // verus!

verus! {

/// Storing an attribute keeps its value: a string is stored as the same
/// string, a boolean as the same boolean, and a number as its usual decimal
/// text (sign included, no leading zeros), which reads back as the number.
pub proof fn lemma_to_value_keeps_value(a: Attribute, v: AttributeValue)
    requires
        call_ensures(Attribute::to_value, (&a,), v),
    ensures
        match a {
            Attribute::DeezString(s) => v@ == ValueView::S(s@),
            Attribute::DeezBoolean(b) => v@ == ValueView::Bool(b),
            Attribute::DeezNumber(x) => v@ matches ValueView::N(t) && is_canonical_decimal(t) && decimal_value(t) == x,
        },
{
    if let Attribute::DeezNumber(x) = a {
        lemma_int_decimal(x as int);
    }
}

/// A stored string or number holds the text `to_string` gives for the same
/// attribute, and a stored boolean is the one `to_string` writes as `true`
/// or `false`.
pub proof fn lemma_to_value_matches_text(a: Attribute, v: AttributeValue, s: String)
    requires
        call_ensures(Attribute::to_value, (&a,), v),
        call_ensures(Attribute::to_string, (&a,), s),
    ensures
        match v@ {
            ValueView::S(t) => t == s@,
            ValueView::N(t) => t == s@,
            ValueView::Bool(b) => s@ == if b { seq!['t', 'r', 'u', 'e'] } else { seq!['f', 'a', 'l', 's', 'e'] },
        },
{
}

proof fn lemma_with_index_keys_other(
    base: Map<Seq<char>, ValueView>,
    info: EntityInfoView,
    indexes: Seq<((int, Seq<char>), IndexSchemaView)>,
    attrs: Map<Seq<char>, AttributeView>,
    k: Seq<char>,
)
    requires
        forall|i: int| 0 <= i < indexes.len() ==> {
            &&& (#[trigger] indexes[i]).1.partition_key.field != k
            &&& indexes[i].1.sort_key.field != k
        },
    ensures
        with_index_keys(base, info, indexes, attrs).contains_key(k) == base.contains_key(k),
        base.contains_key(k) ==> with_index_keys(base, info, indexes, attrs)[k] == base[k],
    decreases indexes.len(),
{
    if indexes.len() > 0 {
        let t = indexes.drop_last();
        assert forall|i: int| 0 <= i < t.len() implies {
            &&& (#[trigger] t[i]).1.partition_key.field != k
            &&& t[i].1.sort_key.field != k
        } by {
            assert(t[i] == indexes[i]);
        }
        lemma_with_index_keys_other(base, info, t, attrs, k);
        assert(indexes[indexes.len() - 1].1.partition_key.field != k);
    }
}

/// Under the name of an attribute that is neither the `_entity` marker nor a
/// key field of an index, an item holds the attribute's own value: the same
/// string, the same boolean, or the number's usual decimal text.
pub proof fn lemma_stored_attribute(
    info: EntityInfoView,
    indexes: Seq<((int, Seq<char>), IndexSchemaView)>,
    attrs: Map<Seq<char>, AttributeView>,
    k: Seq<char>,
)
    requires
        attrs.contains_key(k),
        k != crate::dynamo::entity_marker(),
        forall|i: int| 0 <= i < indexes.len() ==> {
            &&& (#[trigger] indexes[i]).1.partition_key.field != k
            &&& indexes[i].1.sort_key.field != k
        },
    ensures
        entity_item(info, indexes, attrs).contains_key(k),
        match attrs[k] {
            AttributeView::DeezString(s) => entity_item(info, indexes, attrs)[k] == ValueView::S(s),
            AttributeView::DeezBoolean(b) => entity_item(info, indexes, attrs)[k] == ValueView::Bool(b),
            AttributeView::DeezNumber(x) => entity_item(info, indexes, attrs)[k] matches ValueView::N(t)
                && is_canonical_decimal(t) && decimal_value(t) == x,
        },
{
    let base = Map::<Seq<char>, ValueView>::empty().insert(crate::dynamo::entity_marker(), ValueView::S(info.entity));
    lemma_with_index_keys_other(base.union_prefer_right(attribute_item(attrs)), info, indexes, attrs, k);
    if let AttributeView::DeezNumber(x) = attrs[k] {
        lemma_int_decimal(x as int);
    }
}

} // verus!
