use vstd::prelude::*;
use crate::dynamo::{Attribute, AttributeView, DdbEntity, EntityInfo, Index, IndexView};
use crate::item::Item;
use crate::table::Table;
use crate::text::owned;
use crate::entity::{glsst_info, make_glsst_info, key_view, make_key, text_field, flag_field, read_text, read_flag,
    text_attribute, clone_text};
use crate::entity::generated::{random_uuid, is_v4_uuid};

verus! {

/// A user's vote on a prediction.
#[derive(Debug, Clone)]
pub struct Voter {
    pub voterid: Option<String>,
    pub predictionid: Option<String>,
    pub userid: Option<String>,
    pub vote: bool,
}

impl Default for Voter {
    /// A vote against, with a fresh random id and no prediction or user.
    fn default() -> (v: Self)
        ensures
            v.voterid matches Some(id) && is_v4_uuid(id@),
            v.predictionid is None,
            v.userid is None,
            !v.vote,
    {
        Voter { voterid: Some(random_uuid()), predictionid: None, userid: None, vote: false }
    }
}

/// The indexes of votes: `primary` on the vote id, `gsi1` on the user id then
/// the prediction id, and `gsi2` on the prediction id then the user id.
pub open spec fn voter_indexes() -> Seq<(Seq<char>, IndexView)> {
    seq![
        ("primary"@, IndexView {
            partition_key: key_view("pk"@, seq!["voterid"@]),
            sort_key: key_view("sk"@, seq![]),
        }),
        ("gsi1"@, IndexView {
            partition_key: key_view("gsi1pk"@, seq!["userid"@]),
            sort_key: key_view("gsi1sk"@, seq!["predictionid"@]),
        }),
        ("gsi2"@, IndexView {
            partition_key: key_view("gsi2pk"@, seq!["predictionid"@]),
            sort_key: key_view("gsi2sk"@, seq!["userid"@]),
        }),
    ]
}

/// The attributes of a vote, one for each of its fields.
pub open spec fn voter_attributes(v: Voter) -> Map<Seq<char>, AttributeView> {
    Map::empty()
        .insert("voterid"@, text_attribute(v.voterid))
        .insert("predictionid"@, text_attribute(v.predictionid))
        .insert("userid"@, text_attribute(v.userid))
        .insert("vote"@, AttributeView::DdbBoolean(Some(v.vote)))
}

impl DdbEntity for Voter {
    fn info(&self) -> (r: EntityInfo)
        ensures
            r@ == glsst_info(),
    {
        make_glsst_info()
    }

    fn index_schema(&self) -> (r: Table<String, Index>)
        ensures
            r.entries_view() == voter_indexes(),
    {
        proof {
            reveal_strlit("primary");
            reveal_strlit("gsi1");
            reveal_strlit("gsi2");
        }
        let mut t: Table<String, Index> = Table::new();
        t.insert(owned("primary"), Index {
            partition_key: make_key("pk", vec!["voterid"]),
            sort_key: make_key("sk", vec![]),
        });
        assert(t.entries_view() =~= voter_indexes().take(1));
        assert("primary"@.len() == 7 && "gsi1"@.len() == 4);
        t.insert(owned("gsi1"), Index {
            partition_key: make_key("gsi1pk", vec!["userid"]),
            sort_key: make_key("gsi1sk", vec!["predictionid"]),
        });
        assert(t.entries_view() =~= voter_indexes().take(2));
        assert("gsi1"@[3] != "gsi2"@[3] && "gsi2"@.len() == 4);
        t.insert(owned("gsi2"), Index {
            partition_key: make_key("gsi2pk", vec!["predictionid"]),
            sort_key: make_key("gsi2sk", vec!["userid"]),
        });
        assert(t.entries_view() =~= voter_indexes());
        t
    }

    fn attributes(&self) -> (r: Table<String, Attribute>)
        ensures
            r@ == voter_attributes(*self),
    {
        let mut t: Table<String, Attribute> = Table::new();
        t.insert(owned("voterid"), Attribute::DdbString(clone_text(&self.voterid)));
        t.insert(owned("predictionid"), Attribute::DdbString(clone_text(&self.predictionid)));
        t.insert(owned("userid"), Attribute::DdbString(clone_text(&self.userid)));
        t.insert(owned("vote"), Attribute::DdbBoolean(Some(self.vote)));
        t
    }

    /// The default vote: a fresh id, against, on no prediction by no user.
    fn generated_values() -> (v: Self)
        ensures
            v.voterid matches Some(id) && is_v4_uuid(id@),
            v.predictionid is None,
            v.userid is None,
            !v.vote,
    {
        Voter::default()
    }

    /// A vote with the fields the item holds; an absent vote reads as against.
    fn from_map(m: &Item) -> (v: Self)
        ensures
            text_attribute(v.voterid) == AttributeView::DdbString(text_field(m@, "voterid"@)),
            text_attribute(v.predictionid) == AttributeView::DdbString(text_field(m@, "predictionid"@)),
            text_attribute(v.userid) == AttributeView::DdbString(text_field(m@, "userid"@)),
            v.vote == (flag_field(m@, "vote"@) == Some(true)),
    {
        Voter {
            voterid: read_text(m, "voterid"),
            predictionid: read_text(m, "predictionid"),
            userid: read_text(m, "userid"),
            vote: match read_flag(m, "vote") {
                Some(b) => b,
                None => false,
            },
        }
    }
}

} // verus!

verus! {

/// The item a vote is stored as.
pub fn voter_item(v: &Voter) -> (m: Item)
    ensures
        m@ == crate::dynamo::entity_item(glsst_info(), voter_indexes(), voter_attributes(*v)),
{
    assert forall|ix: Table<String, Index>, at: Table<String, Attribute>|
        #![trigger call_ensures(Voter::index_schema, (v,), ix), call_ensures(Voter::attributes, (v,), at)]
        call_ensures(Voter::index_schema, (v,), ix) && call_ensures(Voter::attributes, (v,), at)
        implies crate::dynamo::composites_present(ix.entries_view(), at@) by {
        assert(ix.entries_view() == voter_indexes());
        assert(at@ == voter_attributes(*v));
    }
    v.to_map()
}

/// The query for the votes of `v`'s user on `v`'s prediction, on index
/// `gsi1`: the partition key `gsi1pk` must equal `$Glsst#User#userid_<user>`
/// and the sort key `gsi1sk` begin with `$User#predictionid_<prediction>`
/// (each segment left out when the id is absent).
pub fn voter_lookup(v: &Voter) -> (plan: crate::request::QueryPlan)
    ensures
        crate::request::plan_matches(
            plan,
            glsst_info().table,
            "gsi1pk"@,
            "gsi1sk"@,
            crate::item::ValueView::S(crate::dynamo::partition_value(glsst_info(), voter_indexes()[1].1.partition_key, voter_attributes(*v))),
            crate::item::ValueView::S(crate::dynamo::sort_value(glsst_info(), voter_indexes()[1].1.sort_key, voter_attributes(*v))),
            Some("gsi1"@),
        ),
        crate::request::query_matches(plan, crate::dynamo::entity_item(glsst_info(), voter_indexes(), voter_attributes(*v))),
{
    proof {
        reveal_strlit("primary");
        reveal_strlit("gsi1");
        reveal_strlit("gsi2");
        reveal_strlit("gsi1pk");
        reveal_strlit("gsi1sk");
        reveal_strlit("gsi2pk");
        reveal_strlit("gsi2sk");
    }
    let ghost ixs = voter_indexes();
    proof {
        assert("primary"@.len() == 7 && "gsi1"@.len() == 4 && "gsi2"@.len() == 4);
        assert("gsi1"@[3] != "gsi2"@[3]);
        assert("gsi1pk"@[4] != "gsi1sk"@[4]);
        assert("gsi1pk"@[3] != "gsi2pk"@[3] && "gsi1pk"@[3] != "gsi2sk"@[3]);
        assert("gsi1sk"@[3] != "gsi2pk"@[3] && "gsi1sk"@[3] != "gsi2sk"@[3]);
        assert forall|i: int, j: int| 0 <= i < j < ixs.len() implies #[trigger] ixs[i].0 != #[trigger] ixs[j].0 by {
            if i == 1 {
                assert(ixs[i].0[3] != ixs[j].0[3]);
            }
        }
        crate::table::lemma_map_of_entry(ixs, 1);
        crate::dynamo::lemma_item_key_values(glsst_info(), ixs, voter_attributes(*v), 1);
    }
    assert forall|ix: Table<String, Index>, at: Table<String, Attribute>|
        #![trigger call_ensures(Voter::index_schema, (v,), ix), call_ensures(Voter::attributes, (v,), at)]
        call_ensures(Voter::index_schema, (v,), ix) && call_ensures(Voter::attributes, (v,), at)
        implies ix@.contains_key("gsi1"@) && crate::dynamo::composites_present(ix.entries_view(), at@) by {
        assert(ix.entries_view() == voter_indexes());
        assert(at@ == voter_attributes(*v));
        ix.lemma_view_of_entries();
        crate::table::lemma_map_of_entry(ixs, 1);
    }
    let mut plan = crate::dynamo::query_plan("gsi1", v);
    proof {
        let (info, ix, at) = choose|info: EntityInfo, ix: Table<String, Index>, at: Table<String, Attribute>| {
            &&& #[trigger] call_ensures(Voter::info, (v,), info)
            &&& #[trigger] call_ensures(Voter::index_schema, (v,), ix)
            &&& #[trigger] call_ensures(Voter::attributes, (v,), at)
            &&& ix@.contains_key("gsi1"@)
            &&& {
                let item = crate::dynamo::entity_item(info@, ix.entries_view(), at@);
                let pkf = ix@["gsi1"@].partition_key.field;
                let skf = ix@["gsi1"@].sort_key.field;
                &&& item.contains_key(pkf)
                &&& item.contains_key(skf)
                &&& crate::request::plan_matches(plan, info@.table, pkf, skf, item[pkf], item[skf], None)
                &&& crate::request::query_matches(plan, item)
            }
        };
        assert(info@ == glsst_info());
        assert(ix.entries_view() == ixs);
        assert(at@ == voter_attributes(*v));
        ix.lemma_view_of_entries();
        assert(ix@["gsi1"@] == ixs[1].1);
    }
    plan.index_name = Some(owned("gsi1"));
    plan
}


/// The primary key of the item a vote is stored as: the field `pk` with
/// `$Glsst#User#voterid_<id>` and the field `sk` with `$User`, in this order.
pub fn voter_key(v: &Voter) -> (k: Vec<(String, crate::item::AttributeValue)>)
    ensures
        k@.len() == 2,
        k@[0].0@ == "pk"@,
        k@[0].1@ == crate::item::ValueView::S(
            crate::dynamo::partition_value(glsst_info(), voter_indexes()[0].1.partition_key, voter_attributes(*v)),
        ),
        k@[1].0@ == "sk"@,
        k@[1].1@ == crate::item::ValueView::S(
            crate::dynamo::sort_value(glsst_info(), voter_indexes()[0].1.sort_key, voter_attributes(*v)),
        ),
{
    proof {
        reveal_strlit("pk");
        reveal_strlit("sk");
        reveal_strlit("gsi1pk");
        reveal_strlit("gsi1sk");
        reveal_strlit("gsi2pk");
        reveal_strlit("gsi2sk");
    }
    let item = voter_item(v);
    let ghost ixs = voter_indexes();
    let ghost attrs = voter_attributes(*v);
    proof {
        assert("pk"@[0] != "sk"@[0] && "pk"@.len() == 2 && "sk"@.len() == 2);
        assert("gsi1pk"@.len() == 6 && "gsi1sk"@.len() == 6 && "gsi2pk"@.len() == 6 && "gsi2sk"@.len() == 6);
        crate::dynamo::lemma_item_key_values(glsst_info(), ixs, attrs, 0);
        let base = Map::<Seq<char>, crate::item::ValueView>::empty()
            .insert(crate::dynamo::entity_marker(), crate::item::ValueView::S(glsst_info().entity));
        crate::dynamo::lemma_index_fields_present(
            base.union_prefer_right(crate::dynamo::attribute_item(attrs)), glsst_info(), ixs, attrs, 0);
    }
    let pk = item.get_str("pk").unwrap().duplicate();
    let sk = item.get_str("sk").unwrap().duplicate();
    let mut k = Vec::new();
    k.push((owned("pk"), pk));
    k.push((owned("sk"), sk));
    k
}

} // verus!

verus! {

/// A vote read back from the item it is stored as has the id, prediction id,
/// user id and vote it was stored with.
pub proof fn lemma_voter_read_back(v: Voter, m: Item, r: Voter)
    requires
        m@ == crate::dynamo::entity_item(glsst_info(), voter_indexes(), voter_attributes(v)),
        call_ensures(Voter::from_map, (&m,), r),
    ensures
        text_attribute(r.voterid) == text_attribute(v.voterid),
        text_attribute(r.predictionid) == text_attribute(v.predictionid),
        text_attribute(r.userid) == text_attribute(v.userid),
        r.vote == v.vote,
{
    reveal_strlit("voterid");
    reveal_strlit("predictionid");
    reveal_strlit("userid");
    reveal_strlit("vote");
    reveal_strlit("pk");
    reveal_strlit("sk");
    reveal_strlit("gsi1pk");
    reveal_strlit("gsi1sk");
    reveal_strlit("gsi2pk");
    reveal_strlit("gsi2sk");
    let ixs = voter_indexes();
    let attrs = voter_attributes(v);
    let names = seq!["voterid"@, "predictionid"@, "userid"@, "vote"@];
    assert("voterid"@.len() == 7 && "predictionid"@.len() == 12 && "userid"@.len() == 6 && "vote"@.len() == 4);
    assert("voterid"@[0] == 'v' && "userid"@[0] == 'u');
    assert(attrs["voterid"@] == text_attribute(v.voterid));
    assert(attrs["predictionid"@] == text_attribute(v.predictionid));
    assert(attrs["userid"@] == text_attribute(v.userid));
    assert(attrs["vote"@] == AttributeView::DdbBoolean(Some(v.vote)));
    assert forall|n: int| 0 <= n < names.len() implies {
        &&& attrs.contains_key(#[trigger] names[n])
        &&& names[n] != crate::dynamo::entity_marker()
        &&& forall|i: int| 0 <= i < ixs.len() ==> {
            &&& (#[trigger] ixs[i]).1.partition_key.field != names[n]
            &&& ixs[i].1.sort_key.field != names[n]
        }
    } by {
        assert(names[n].len() != 2);
        assert(names[n][0] != 'g' && names[n][0] != '_');
    }
    assert(names[0] == "voterid"@ && names[1] == "predictionid"@ && names[2] == "userid"@ && names[3] == "vote"@);
    crate::dynamo::lemma_entity_item_attribute(glsst_info(), ixs, attrs, "voterid"@);
    crate::dynamo::lemma_entity_item_attribute(glsst_info(), ixs, attrs, "predictionid"@);
    crate::dynamo::lemma_entity_item_attribute(glsst_info(), ixs, attrs, "userid"@);
    crate::dynamo::lemma_entity_item_attribute(glsst_info(), ixs, attrs, "vote"@);
}

} // verus!
