//! Entities that describe themselves by a schema of named indexes whose keys
//! carry their composite values directly.
use vstd::prelude::*;
use crate::item::{AttributeValue, Item, ValueView};
use crate::table::{Table, KeyEq, map_of, distinct_keys, lemma_map_of_domain};
use crate::text::{concat2, owned};

verus! {

/// The indexes an entity can have.
#[derive(Debug, Clone, Copy, Eq, PartialEq, Hash, Structural)]
pub enum IndexName {
    Primary,
    Gsi1,
    Gsi2,
}

impl View for IndexName {
    type V = IndexName;

    open spec fn view(&self) -> IndexName {
        *self
    }
}

impl KeyEq for IndexName {
    fn same_key(&self, other: &Self) -> (r: bool) {
        *self == *other
    }
}

/// One part of a key: an attribute name and its value.
#[derive(Debug)]
pub struct Composite {
    pub name: String,
    pub value: String,
}

/// A key of an index: the field that holds it and its parts, in order.
#[derive(Debug)]
pub struct Key {
    pub field: String,
    pub composite: Vec<Composite>,
}

pub struct KeyView {
    pub field: Seq<char>,
    pub composite: Seq<(Seq<char>, Seq<char>)>,
}

impl View for Key {
    type V = KeyView;

    open spec fn view(&self) -> KeyView {
        KeyView {
            field: self.field@,
            composite: self.composite@.map_values(|c: Composite| (c.name@, c.value@)),
        }
    }
}

/// An index: its partition key and its sort key.
#[derive(Debug)]
pub struct Index {
    pub partition_key: Key,
    pub sort_key: Key,
}

pub struct IndexView {
    pub partition_key: KeyView,
    pub sort_key: KeyView,
}

impl View for Index {
    type V = IndexView;

    open spec fn view(&self) -> IndexView {
        IndexView { partition_key: self.partition_key@, sort_key: self.sort_key@ }
    }
}

/// An attribute of an entity.
#[derive(Debug)]
pub enum Attribute {
    DdbString(String),
    DdbBoolean(bool),
    DdbNumber(i64),
}

pub enum AttributeView {
    DdbString(Seq<char>),
    DdbBoolean(bool),
    DdbNumber(i64),
}

impl View for Attribute {
    type V = AttributeView;

    open spec fn view(&self) -> AttributeView {
        match self {
            Attribute::DdbString(s) => AttributeView::DdbString(s@),
            Attribute::DdbBoolean(b) => AttributeView::DdbBoolean(*b),
            Attribute::DdbNumber(n) => AttributeView::DdbNumber(*n),
        }
    }
}

/// Everything an entity says about itself.
#[derive(Debug)]
pub struct EntitySchema {
    pub service: String,
    pub entity: String,
    pub indices: Table<IndexName, Index>,
    pub attributes: Table<String, Attribute>,
}

pub struct EntitySchemaView {
    pub service: Seq<char>,
    pub entity: Seq<char>,
    pub indices: Seq<(IndexName, IndexView)>,
    pub attributes: Map<Seq<char>, AttributeView>,
}

impl View for EntitySchema {
    type V = EntitySchemaView;

    open spec fn view(&self) -> EntitySchemaView {
        EntitySchemaView {
            service: self.service@,
            entity: self.entity@,
            indices: self.indices.entries_view(),
            attributes: self.attributes@,
        }
    }
}

/// The parts of a key written one after the other as `#name_value`.
pub open spec fn composite_text(parts: Seq<(Seq<char>, Seq<char>)>) -> Seq<char>
    decreases parts.len(),
{
    if parts.len() == 0 {
        Seq::empty()
    } else {
        composite_text(parts.drop_last()) + seq!['#'] + parts.last().0 + seq!['_'] + parts.last().1
    }
}

/// Appends the parts of `k` to `s` and gives the result as a string value.
fn key_to_av(s: &mut String, k: &Key) -> (v: AttributeValue)
    ensures
        final(s)@ == old(s)@ + composite_text(k@.composite),
        v@ == ValueView::S(final(s)@),
{
    let ghost start = s@;
    proof { reveal_strlit("#"); reveal_strlit("_"); }
    let mut i: usize = 0;
    while i < k.composite.len()
        invariant
            i <= k.composite@.len(),
            s@ == start + composite_text(k@.composite.take(i as int)),
        decreases k.composite@.len() - i,
    {
        let c = &k.composite[i];
        proof { reveal_strlit("#"); reveal_strlit("_"); }
        s.append("#");
        s.append(c.name.as_str());
        s.append("_");
        s.append(c.value.as_str());
        proof {
            let t = k@.composite.take(i + 1);
            assert(t.drop_last() =~= k@.composite.take(i as int));
            assert(t.last() == (c.name@, c.value@));
            assert(s@ =~= start + composite_text(t));
        }
        i = i + 1;
    }
    assert(k@.composite.take(i as int) =~= k@.composite);
    AttributeValue::S(s.clone())
}

/// The key value of a key: `$service` followed by its parts.
pub open spec fn key_value(service: Seq<char>, k: KeyView) -> Seq<char> {
    seq!['$'] + service + composite_text(k.composite)
}

/// `base` with the key fields of the given indexes written in order.
pub open spec fn with_index_keys(
    base: Map<Seq<char>, ValueView>,
    service: Seq<char>,
    indices: Seq<(IndexName, IndexView)>,
) -> Map<Seq<char>, ValueView>
    decreases indices.len(),
{
    if indices.len() == 0 {
        base
    } else {
        let ix = indices.last().1;
        with_index_keys(base, service, indices.drop_last())
            .insert(ix.partition_key.field, ValueView::S(key_value(service, ix.partition_key)))
            .insert(ix.sort_key.field, ValueView::S(key_value(service, ix.sort_key)))
    }
}

/// The string attributes as item values; other attributes are not stored.
pub open spec fn string_attributes(attrs: Map<Seq<char>, AttributeView>) -> Map<Seq<char>, ValueView> {
    Map::new(
        |k: Seq<char>| attrs.contains_key(k) && attrs[k] is DdbString,
        |k: Seq<char>| ValueView::S(attrs[k]->DdbString_0),
    )
}

/// The item an entity is stored as: the `_entity` marker, then the key
/// fields of every index, then the string attributes.
pub open spec fn schema_item(schema: EntitySchemaView) -> Map<Seq<char>, ValueView> {
    let base = Map::<Seq<char>, ValueView>::empty().insert(crate::dynamo::entity_marker(), ValueView::S(schema.entity));
    with_index_keys(base, schema.service, schema.indices).union_prefer_right(string_attributes(schema.attributes))
}

proof fn lemma_string_attributes_step(m: Map<Seq<char>, AttributeView>, k: Seq<char>, a: AttributeView)
    requires
        !m.contains_key(k),
    ensures
        a is DdbString ==> string_attributes(m.insert(k, a)) == string_attributes(m).insert(k, ValueView::S(a->DdbString_0)),
        !(a is DdbString) ==> string_attributes(m.insert(k, a)) == string_attributes(m),
{
    if a is DdbString {
        assert(string_attributes(m.insert(k, a)) =~= string_attributes(m).insert(k, ValueView::S(a->DdbString_0)));
    } else {
        assert(string_attributes(m.insert(k, a)) =~= string_attributes(m));
    }
}

/// Builds the item an entity is stored as from its schema.
pub fn schema_to_item(schema: EntitySchema) -> (m: Item)
    ensures
        m@ == schema_item(schema@),
{
    let ghost sv = schema@;
    let mut m: Item = Table::new();
    let marker = "_entity";
    proof { reveal_strlit("_entity"); reveal_strlit("$"); }
    assert(marker@ =~= crate::dynamo::entity_marker());
    m.insert(owned(marker), AttributeValue::S(schema.entity));
    let ghost base = m@;
    assert(base =~= Map::<Seq<char>, ValueView>::empty().insert(crate::dynamo::entity_marker(), ValueView::S(sv.entity)));

    // indexes
    let ghost ix = schema.indices.entries_view();
    let mut j: usize = 0;
    while j < schema.indices.len()
        invariant
            j <= ix.len(),
            ix == schema.indices.entries_view(),
            sv.service == schema.service@,
            m@ == with_index_keys(base, sv.service, ix.take(j as int)),
        decreases ix.len() - j,
    {
        let (_, index) = schema.indices.entry(j);
        assert(ix[j as int].1 == index@);
        // partition key
        proof { reveal_strlit("$"); }
        let mut pk = concat2("$", schema.service.as_str());
        let pv = key_to_av(&mut pk, &index.partition_key);
        assert(pk@ =~= key_value(sv.service, index@.partition_key));
        m.insert(index.partition_key.field.clone(), pv);
        // sort key
        let mut sk = concat2("$", schema.service.as_str());
        let sv2 = key_to_av(&mut sk, &index.sort_key);
        assert(sk@ =~= key_value(sv.service, index@.sort_key));
        m.insert(index.sort_key.field.clone(), sv2);
        proof {
            assert(ix.take(j + 1).drop_last() =~= ix.take(j as int));
            assert(ix.take(j + 1).last() == ix[j as int]);
            assert(m@ =~= with_index_keys(base, sv.service, ix.take(j + 1)));
        }
        j = j + 1;
    }
    assert(ix.take(j as int) =~= ix);
    let ghost start = m@;

    // attributes
    let ghost ev = schema.attributes.entries_view();
    let n = schema.attributes.len();
    proof {
        assert(map_of(ev.take(0)) =~= Map::<Seq<char>, AttributeView>::empty());
        assert(string_attributes(Map::<Seq<char>, AttributeView>::empty()) =~= Map::<Seq<char>, ValueView>::empty());
        assert(start.union_prefer_right(Map::<Seq<char>, ValueView>::empty()) =~= start);
    }
    let mut i: usize = 0;
    while i < n
        invariant
            n == ev.len(),
            i <= ev.len(),
            ev == schema.attributes.entries_view(),
            schema.attributes@ == map_of(ev),
            distinct_keys(ev),
            m@ == start.union_prefer_right(string_attributes(map_of(ev.take(i as int)))),
        decreases ev.len() - i,
    {
        let (name, attr) = schema.attributes.entry(i);
        let ghost prev = map_of(ev.take(i as int));
        proof {
            assert(ev.take(i + 1).drop_last() =~= ev.take(i as int));
            assert(ev.take(i + 1).last() == ev[i as int]);
            lemma_map_of_domain(ev.take(i as int), name@);
            if prev.contains_key(name@) {
                let j = choose|j: int| 0 <= j < ev.take(i as int).len() && #[trigger] ev.take(i as int)[j].0 == name@;
                assert(ev[j].0 == ev[i as int].0);
            }
            lemma_string_attributes_step(prev, name@, attr@);
        }
        match attr {
            Attribute::DdbString(a) => {
                m.insert(name.clone(), AttributeValue::S(a.clone()));
            },
            Attribute::DdbBoolean(_) => {},
            Attribute::DdbNumber(_) => {},
        }
        assert(m@ =~= start.union_prefer_right(string_attributes(map_of(ev.take(i + 1)))));
        i = i + 1;
    }
    assert(ev.take(i as int) =~= ev);
    m
}

/// An entity that describes itself by a schema.
pub trait DdbEntity: Sized {
    fn entity_schema(&self) -> EntitySchema;

    /// The item this entity is stored as, built from the schema it gives.
    fn entity_to_av_map(&self) -> (m: Item)
        ensures
            exists|schema: EntitySchema|
                #[trigger] call_ensures(Self::entity_schema, (self,), schema) && m@ == schema_item(schema@),
    {
        let schema = self.entity_schema();
        schema_to_item(schema)
    }
}

} // verus!

verus! {

/// The length a key's parts take when written: `#`, the name, `_` and the
/// value, for each part.
pub open spec fn parts_len(parts: Seq<(Seq<char>, Seq<char>)>) -> int
    decreases parts.len(),
{
    if parts.len() == 0 {
        0
    } else {
        parts_len(parts.drop_last()) + 2 + parts.last().0.len() + parts.last().1.len()
    }
}

/// Whether `t` holds, at position `o`, the part `#name_value` for name `n`
/// and value `v`.
#[verifier::opaque]
pub open spec fn part_at(t: Seq<char>, o: int, n: Seq<char>, v: Seq<char>) -> bool {
    &&& 0 <= o
    &&& o + 2 + n.len() + v.len() <= t.len()
    &&& t[o] == '#'
    &&& t.subrange(o + 1, o + 1 + n.len()) == n
    &&& t[o + 1 + n.len()] == '_'
    &&& t.subrange(o + 2 + n.len(), o + 2 + n.len() + v.len()) == v
}

/// Whether `t` holds, from position `start` on, every part as `#name_value`,
/// one after the other in order.
pub open spec fn holds_parts_from(t: Seq<char>, start: int, parts: Seq<(Seq<char>, Seq<char>)>) -> bool {
    forall|i: int| 0 <= i < parts.len() ==>
        part_at(t, start + parts_len(parts.take(i)), (#[trigger] parts[i]).0, parts[i].1)
}

proof fn lemma_part_at_extend(t: Seq<char>, w: Seq<char>, o: int, n: Seq<char>, v: Seq<char>)
    requires
        part_at(t, o, n, v),
    ensures
        part_at(t + w, o, n, v),
{
    reveal(part_at);
    let u = t + w;
    assert(u.subrange(o + 1, o + 1 + n.len()) =~= t.subrange(o + 1, o + 1 + n.len()));
    assert(u.subrange(o + 2 + n.len(), o + 2 + n.len() + v.len()) =~= t.subrange(o + 2 + n.len(), o + 2 + n.len() + v.len()));
}

proof fn lemma_part_at_shift(pre: Seq<char>, t: Seq<char>, o: int, n: Seq<char>, v: Seq<char>)
    requires
        part_at(t, o, n, v),
    ensures
        part_at(pre + t, pre.len() + o, n, v),
{
    reveal(part_at);
    let u = pre + t;
    let q = pre.len() + o;
    assert(u[q] == t[o]);
    assert(u[q + 1 + n.len()] == t[o + 1 + n.len()]);
    assert(u.subrange(q + 1, q + 1 + n.len()) =~= t.subrange(o + 1, o + 1 + n.len()));
    assert(u.subrange(q + 2 + n.len(), q + 2 + n.len() + v.len()) =~= t.subrange(o + 2 + n.len(), o + 2 + n.len() + v.len()));
}

proof fn lemma_part_at_end(t: Seq<char>, n: Seq<char>, v: Seq<char>)
    ensures
        part_at(t + seq!['#'] + n + seq!['_'] + v, t.len() as int, n, v),
{
    reveal(part_at);
    let u = t + seq!['#'] + n + seq!['_'] + v;
    let o = t.len() as int;
    assert(u.subrange(o + 1, o + 1 + n.len()) =~= n);
    assert(u.subrange(o + 2 + n.len(), o + 2 + n.len() + v.len()) =~= v);
}

proof fn lemma_composite_text_layout(parts: Seq<(Seq<char>, Seq<char>)>)
    ensures
        composite_text(parts).len() == parts_len(parts),
        holds_parts_from(composite_text(parts), 0, parts),
    decreases parts.len(),
{
    if parts.len() > 0 {
        let d = parts.drop_last();
        lemma_composite_text_layout(d);
        let cd = composite_text(d);
        let last = parts.last();
        let w = seq!['#'] + last.0 + seq!['_'] + last.1;
        assert(composite_text(parts) =~= cd + w);
        assert forall|i: int| 0 <= i < parts.len() implies
            part_at(composite_text(parts), parts_len(parts.take(i)), (#[trigger] parts[i]).0, parts[i].1) by {
            if i < parts.len() - 1 {
                assert(d[i] == parts[i]);
                assert(d.take(i) =~= parts.take(i));
                lemma_part_at_extend(cd, w, parts_len(d.take(i)), d[i].0, d[i].1);
            } else {
                assert(parts.take(i) =~= d);
                lemma_part_at_end(cd, last.0, last.1);
                assert(cd + seq!['#'] + last.0 + seq!['_'] + last.1 =~= cd + w);
            }
        }
    }
}

/// A key value is `$`, the service, then every part of the key as
/// `#name_value`, in order, and nothing more.
pub proof fn lemma_key_value_layout(service: Seq<char>, k: KeyView)
    ensures
        ({
            let t = key_value(service, k);
            &&& t.len() == 1 + service.len() as int + parts_len(k.composite)
            &&& t[0] == '$'
            &&& t.subrange(1, 1 + service.len() as int) == service
            &&& holds_parts_from(t, 1 + service.len() as int, k.composite)
        }),
{
    let parts = k.composite;
    lemma_composite_text_layout(parts);
    let c = composite_text(parts);
    let pre = seq!['$'] + service;
    let t = key_value(service, k);
    assert(t =~= pre + c);
    assert(t.subrange(1, 1 + service.len() as int) =~= service);
    assert forall|i: int| 0 <= i < parts.len() implies
        part_at(t, 1 + service.len() as int + parts_len(parts.take(i)), (#[trigger] parts[i]).0, parts[i].1) by {
        lemma_part_at_shift(pre, c, parts_len(parts.take(i)), parts[i].0, parts[i].1);
    }
}

proof fn lemma_key_field_written(
    base: Map<Seq<char>, ValueView>,
    service: Seq<char>,
    indices: Seq<(IndexName, IndexView)>,
    p: int,
    sort: bool,
)
    requires
        0 <= p < indices.len(),
        !sort ==> indices[p].1.partition_key.field != indices[p].1.sort_key.field,
        forall|q: int| p < q < indices.len() ==> {
            let f = if sort { indices[p].1.sort_key.field } else { indices[p].1.partition_key.field };
            &&& (#[trigger] indices[q]).1.partition_key.field != f
            &&& indices[q].1.sort_key.field != f
        },
    ensures
        ({
            let k = if sort { indices[p].1.sort_key } else { indices[p].1.partition_key };
            &&& with_index_keys(base, service, indices).contains_key(k.field)
            &&& with_index_keys(base, service, indices)[k.field] == ValueView::S(key_value(service, k))
        }),
    decreases indices.len(),
{
    if p < indices.len() - 1 {
        let t = indices.drop_last();
        assert(t[p] == indices[p]);
        assert forall|q: int| p < q < t.len() implies {
            let f = if sort { t[p].1.sort_key.field } else { t[p].1.partition_key.field };
            &&& (#[trigger] t[q]).1.partition_key.field != f
            &&& t[q].1.sort_key.field != f
        } by {
            assert(t[q] == indices[q]);
        }
        lemma_key_field_written(base, service, t, p, sort);
        assert(indices[indices.len() - 1].1.partition_key.field
            != (if sort { indices[p].1.sort_key.field } else { indices[p].1.partition_key.field }));
    }
}

/// The item an entity is stored as holds, under a key field of one of its
/// indexes (its partition key field when `sort` is false, its sort key field
/// otherwise), `$`, the service, and then every part of that key as
/// `#name_value` in order: its length is one more than the service's plus
/// that of all the parts. This holds when no later index writes that field,
/// the partition key field differs from the index's own sort key field, and
/// no string attribute has that name.
pub proof fn lemma_key_field_holds_every_part(schema: EntitySchema, m: Item, p: int, sort: bool)
    requires
        call_ensures(schema_to_item, (schema,), m),
        0 <= p < schema@.indices.len(),
        !sort ==> schema@.indices[p].1.partition_key.field != schema@.indices[p].1.sort_key.field,
        forall|q: int| p < q < schema@.indices.len() ==> {
            let f = if sort { schema@.indices[p].1.sort_key.field } else { schema@.indices[p].1.partition_key.field };
            &&& (#[trigger] schema@.indices[q]).1.partition_key.field != f
            &&& schema@.indices[q].1.sort_key.field != f
        },
        ({
            let f = if sort { schema@.indices[p].1.sort_key.field } else { schema@.indices[p].1.partition_key.field };
            !(schema@.attributes.contains_key(f) && schema@.attributes[f] is DdbString)
        }),
    ensures
        ({
            let k = if sort { schema@.indices[p].1.sort_key } else { schema@.indices[p].1.partition_key };
            let service = schema@.service;
            &&& m@.contains_key(k.field)
            &&& m@[k.field] matches ValueView::S(t) && {
                &&& t.len() == 1 + service.len() as int + parts_len(k.composite)
                &&& t[0] == '$'
                &&& t.subrange(1, 1 + service.len() as int) == service
                &&& holds_parts_from(t, 1 + service.len() as int, k.composite)
            }
        }),
{
    let sv = schema@;
    let k = if sort { sv.indices[p].1.sort_key } else { sv.indices[p].1.partition_key };
    let base = Map::<Seq<char>, ValueView>::empty().insert(crate::dynamo::entity_marker(), ValueView::S(sv.entity));
    lemma_key_field_written(base, sv.service, sv.indices, p, sort);
    lemma_key_value_layout(sv.service, k);
    assert(!string_attributes(sv.attributes).contains_key(k.field));
}

} // verus!
