use vstd::prelude::*;
use crate::dynamo::{Attribute, AttributeView, DdbEntity, EntityInfo, Index, IndexView};
use crate::item::Item;
use crate::table::Table;
use crate::text::{owned, concat3};
use crate::entity::{glsst_info, make_glsst_info, key_view, make_key, text_field, read_text, text_attribute, clone_text};
use crate::entity::generated::{random_bs_adjective, random_bs_noun, now_rfc3339, bs_adjectives, bs_nouns, is_rfc3339_utc};

verus! {

/// A prediction a user makes about the future.
#[derive(Debug, Clone)]
pub struct Prediction {
    pub predictionid: Option<String>,
    pub userid: Option<String>,
    pub condition: String,
    pub createdat: String,
}

/// The id a prediction is given from three words: `first-second-noun`.
pub fn prediction_id_from_words(first: &str, second: &str, noun: &str) -> (id: String)
    ensures
        id@ == first@ + seq!['-'] + second@ + seq!['-'] + noun@,
{
    proof { reveal_strlit("-"); }
    let mut id = concat3(first, "-", second);
    id.append("-");
    id.append(noun);
    id
}

/// Whether `id` is two business-speak adjectives and a business-speak noun
/// joined by hyphens, the form of a fresh prediction id.
pub open spec fn is_word_id(id: Seq<char>) -> bool {
    exists|a: Seq<char>, b: Seq<char>, n: Seq<char>|
        #![trigger bs_adjectives().contains(a), bs_adjectives().contains(b), bs_nouns().contains(n)]
        {
            &&& bs_adjectives().contains(a)
            &&& bs_adjectives().contains(b)
            &&& bs_nouns().contains(n)
            &&& id == a + seq!['-'] + b + seq!['-'] + n
        }
}

impl Default for Prediction {
    /// A prediction with a fresh id made of random words, the current time,
    /// an empty condition and an empty user id.
    fn default() -> (p: Self)
        ensures
            p.predictionid matches Some(id) && is_word_id(id@),
            is_rfc3339_utc(p.createdat@),
            p.userid matches Some(u) && u@ == Seq::<char>::empty(),
            p.condition@ == Seq::<char>::empty(),
    {
        let first = random_bs_adjective();
        let second = random_bs_adjective();
        let noun = random_bs_noun();
        proof { reveal_strlit(""); }
        Prediction {
            predictionid: Some(prediction_id_from_words(first.as_str(), second.as_str(), noun.as_str())),
            createdat: now_rfc3339(),
            condition: owned(""),
            userid: Some(owned("")),
        }
    }
}

/// The indexes of predictions: `primary` on the prediction id, `gsi1` on the
/// user id then the prediction id, and `gsi2` on the user id.
pub open spec fn prediction_indexes() -> Seq<(Seq<char>, IndexView)> {
    seq![
        ("primary"@, IndexView {
            partition_key: key_view("pk"@, seq!["predictionid"@]),
            sort_key: key_view("sk"@, seq![]),
        }),
        ("gsi1"@, IndexView {
            partition_key: key_view("gsi1pk"@, seq!["userid"@]),
            sort_key: key_view("gsi1sk"@, seq!["predictionid"@]),
        }),
        ("gsi2"@, IndexView {
            partition_key: key_view("gsi2pk"@, seq!["userid"@]),
            sort_key: key_view("gsi2sk"@, seq![]),
        }),
    ]
}

/// The attributes of a prediction, one for each of its fields.
pub open spec fn prediction_attributes(p: Prediction) -> Map<Seq<char>, AttributeView> {
    Map::empty()
        .insert("predictionid"@, text_attribute(p.predictionid))
        .insert("userid"@, text_attribute(p.userid))
        .insert("condition"@, AttributeView::DdbString(Some(p.condition@)))
        .insert("createdat"@, AttributeView::DdbString(Some(p.createdat@)))
}

impl DdbEntity for Prediction {
    fn info(&self) -> (r: EntityInfo)
        ensures
            r@ == glsst_info(),
    {
        make_glsst_info()
    }

    fn index_schema(&self) -> (r: Table<String, Index>)
        ensures
            r.entries_view() == prediction_indexes(),
    {
        proof {
            reveal_strlit("primary");
            reveal_strlit("gsi1");
            reveal_strlit("gsi2");
        }
        let mut t: Table<String, Index> = Table::new();
        let names = vec!["predictionid"];
        assert(names@.len() == 1);
        let k = make_key("pk", names);
        assert(k@ == key_view("pk"@, seq!["predictionid"@]));
        t.insert(owned("primary"), Index {
            partition_key: k,
            sort_key: make_key("sk", vec![]),
        });
        assert(t.entries_view() =~= prediction_indexes().take(1));
        assert("primary"@.len() == 7 && "gsi1"@.len() == 4);
        assert(!t@.contains_key("gsi1"@));
        t.insert(owned("gsi1"), Index {
            partition_key: make_key("gsi1pk", vec!["userid"]),
            sort_key: make_key("gsi1sk", vec!["predictionid"]),
        });
        assert(t.entries_view() =~= prediction_indexes().take(2));
        assert("gsi1"@[3] != "gsi2"@[3] && "gsi2"@.len() == 4);
        assert(!t@.contains_key("gsi2"@));
        t.insert(owned("gsi2"), Index {
            partition_key: make_key("gsi2pk", vec!["userid"]),
            sort_key: make_key("gsi2sk", vec![]),
        });
        assert(t.entries_view() =~= prediction_indexes());
        t
    }

    fn attributes(&self) -> (r: Table<String, Attribute>)
        ensures
            r@ == prediction_attributes(*self),
    {
        let mut t: Table<String, Attribute> = Table::new();
        t.insert(owned("predictionid"), Attribute::DdbString(clone_text(&self.predictionid)));
        t.insert(owned("userid"), Attribute::DdbString(clone_text(&self.userid)));
        t.insert(owned("condition"), Attribute::DdbString(Some(self.condition.clone())));
        t.insert(owned("createdat"), Attribute::DdbString(Some(self.createdat.clone())));
        t
    }

    /// The default prediction: a fresh id and the current time.
    fn generated_values() -> (p: Self)
        ensures
            p.predictionid matches Some(id) && is_word_id(id@),
            is_rfc3339_utc(p.createdat@),
            p.userid matches Some(u) && u@ == Seq::<char>::empty(),
            p.condition@ == Seq::<char>::empty(),
    {
        Prediction::default()
    }

    /// A prediction with the fields the item holds as strings; an absent
    /// condition or creation time reads as empty.
    fn from_map(m: &Item) -> (p: Self)
        ensures
            text_attribute(p.predictionid) == AttributeView::DdbString(text_field(m@, "predictionid"@)),
            text_attribute(p.userid) == AttributeView::DdbString(text_field(m@, "userid"@)),
            p.condition@ == match text_field(m@, "condition"@) { Some(s) => s, None => Seq::<char>::empty() },
            p.createdat@ == match text_field(m@, "createdat"@) { Some(s) => s, None => Seq::<char>::empty() },
    {
        proof { reveal_strlit(""); }
        Prediction {
            predictionid: read_text(m, "predictionid"),
            userid: read_text(m, "userid"),
            condition: match read_text(m, "condition") {
                Some(s) => s,
                None => owned(""),
            },
            createdat: match read_text(m, "createdat") {
                Some(s) => s,
                None => owned(""),
            },
        }
    }
}

} // verus!

verus! {

/// The item a prediction is stored as.
pub fn prediction_item(p: &Prediction) -> (m: crate::item::Item)
    ensures
        m@ == crate::dynamo::entity_item(glsst_info(), prediction_indexes(), prediction_attributes(*p)),
{
    assert forall|ix: Table<String, Index>, at: Table<String, Attribute>|
        #![trigger call_ensures(Prediction::index_schema, (p,), ix), call_ensures(Prediction::attributes, (p,), at)]
        call_ensures(Prediction::index_schema, (p,), ix) && call_ensures(Prediction::attributes, (p,), at)
        implies crate::dynamo::composites_present(ix.entries_view(), at@) by {
        assert(ix.entries_view() == prediction_indexes());
        assert(at@ == prediction_attributes(*p));
    }
    p.to_map()
}

} // verus!

verus! {

/// The query for the prediction with `p`'s id: the partition key `pk` must
/// equal `$Glsst#User#predictionid_<id>` (or `$Glsst#User` when `p` has no
/// id), and the sort key `sk` begin with `$User`.
pub fn prediction_lookup(p: &Prediction) -> (plan: crate::request::QueryPlan)
    ensures
        crate::request::plan_matches(
            plan,
            glsst_info().table,
            "pk"@,
            "sk"@,
            crate::item::ValueView::S(crate::dynamo::partition_value(glsst_info(), prediction_indexes()[0].1.partition_key, prediction_attributes(*p))),
            crate::item::ValueView::S(crate::dynamo::sort_value(glsst_info(), prediction_indexes()[0].1.sort_key, prediction_attributes(*p))),
            None,
        ),
        crate::request::query_matches(plan, crate::dynamo::entity_item(glsst_info(), prediction_indexes(), prediction_attributes(*p))),
{
    proof {
        reveal_strlit("primary");
        reveal_strlit("gsi1");
        reveal_strlit("gsi2");
        reveal_strlit("pk");
        reveal_strlit("sk");
        reveal_strlit("gsi1pk");
        reveal_strlit("gsi1sk");
        reveal_strlit("gsi2pk");
        reveal_strlit("gsi2sk");
    }
    let ghost ixs = prediction_indexes();
    proof {
        assert("primary"@.len() == 7 && "gsi1"@.len() == 4 && "gsi2"@.len() == 4);
        assert("gsi1"@[3] != "gsi2"@[3]);
        assert("pk"@[0] != "sk"@[0] && "pk"@.len() == 2 && "sk"@.len() == 2);
        assert("gsi1pk"@.len() == 6 && "gsi1sk"@.len() == 6 && "gsi2pk"@.len() == 6 && "gsi2sk"@.len() == 6);
        assert forall|i: int, j: int| 0 <= i < j < ixs.len() implies #[trigger] ixs[i].0 != #[trigger] ixs[j].0 by {
            if i == 1 {
                assert(ixs[i].0[3] != ixs[j].0[3]);
            }
        }
        crate::table::lemma_map_of_entry(ixs, 0);
        crate::dynamo::lemma_item_key_values(glsst_info(), ixs, prediction_attributes(*p), 0);
    }
    assert forall|ix: Table<String, Index>, at: Table<String, Attribute>|
        #![trigger call_ensures(Prediction::index_schema, (p,), ix), call_ensures(Prediction::attributes, (p,), at)]
        call_ensures(Prediction::index_schema, (p,), ix) && call_ensures(Prediction::attributes, (p,), at)
        implies ix@.contains_key("primary"@) && crate::dynamo::composites_present(ix.entries_view(), at@) by {
        assert(ix.entries_view() == prediction_indexes());
        assert(at@ == prediction_attributes(*p));
        ix.lemma_view_of_entries();
    }
    let plan = crate::dynamo::query_plan("primary", p);
    proof {
        let (info, ix, at) = choose|info: EntityInfo, ix: Table<String, Index>, at: Table<String, Attribute>| {
            &&& #[trigger] call_ensures(Prediction::info, (p,), info)
            &&& #[trigger] call_ensures(Prediction::index_schema, (p,), ix)
            &&& #[trigger] call_ensures(Prediction::attributes, (p,), at)
            &&& ix@.contains_key("primary"@)
            &&& {
                let item = crate::dynamo::entity_item(info@, ix.entries_view(), at@);
                let pkf = ix@["primary"@].partition_key.field;
                let skf = ix@["primary"@].sort_key.field;
                &&& item.contains_key(pkf)
                &&& item.contains_key(skf)
                &&& crate::request::plan_matches(plan, info@.table, pkf, skf, item[pkf], item[skf], None)
                &&& crate::request::query_matches(plan, item)
            }
        };
        assert(info@ == glsst_info());
        assert(ix.entries_view() == ixs);
        assert(at@ == prediction_attributes(*p));
        ix.lemma_view_of_entries();
        assert(ix@["primary"@] == ixs[0].1);
    }
    plan
}

} // verus!

verus! {

/// A prediction read back from the item it is stored as has the id, user id,
/// condition and creation time it was stored with.
pub proof fn lemma_prediction_read_back(p: Prediction, m: Item, q: Prediction)
    requires
        m@ == crate::dynamo::entity_item(glsst_info(), prediction_indexes(), prediction_attributes(p)),
        call_ensures(Prediction::from_map, (&m,), q),
    ensures
        text_attribute(q.predictionid) == text_attribute(p.predictionid),
        text_attribute(q.userid) == text_attribute(p.userid),
        q.condition@ == p.condition@,
        q.createdat@ == p.createdat@,
{
    reveal_strlit("predictionid");
    reveal_strlit("userid");
    reveal_strlit("condition");
    reveal_strlit("createdat");
    reveal_strlit("pk");
    reveal_strlit("sk");
    reveal_strlit("gsi1pk");
    reveal_strlit("gsi1sk");
    reveal_strlit("gsi2pk");
    reveal_strlit("gsi2sk");
    let ixs = prediction_indexes();
    let attrs = prediction_attributes(p);
    let names = seq!["predictionid"@, "userid"@, "condition"@, "createdat"@];
    assert forall|n: int| 0 <= n < names.len() implies {
        &&& attrs.contains_key(#[trigger] names[n])
        &&& names[n] != crate::dynamo::entity_marker()
        &&& forall|i: int| 0 <= i < ixs.len() ==> {
            &&& (#[trigger] ixs[i]).1.partition_key.field != names[n]
            &&& ixs[i].1.sort_key.field != names[n]
        }
    } by {
        assert(names[n].len() != 2 && names[n].len() != 7);
        assert(names[n][0] != 'g');
    }
    assert(names[0] == "predictionid"@ && names[1] == "userid"@ && names[2] == "condition"@ && names[3] == "createdat"@);
    crate::dynamo::lemma_entity_item_attribute(glsst_info(), ixs, attrs, "predictionid"@);
    crate::dynamo::lemma_entity_item_attribute(glsst_info(), ixs, attrs, "userid"@);
    crate::dynamo::lemma_entity_item_attribute(glsst_info(), ixs, attrs, "condition"@);
    crate::dynamo::lemma_entity_item_attribute(glsst_info(), ixs, attrs, "createdat"@);
    assert("condition"@[1] == 'o' && "createdat"@[1] == 'r');
    assert("predictionid"@.len() == 12 && "userid"@.len() == 6 && "condition"@.len() == 9);
    assert(attrs["predictionid"@] == text_attribute(p.predictionid));
    assert(attrs["userid"@] == text_attribute(p.userid));
    assert(attrs["condition"@] == AttributeView::DdbString(Some(p.condition@)));
    assert(attrs["createdat"@] == AttributeView::DdbString(Some(p.createdat@)));
}

} // verus!
