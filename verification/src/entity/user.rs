use vstd::prelude::*;
use crate::dynamo::{Attribute, AttributeView, DdbEntity, EntityInfo, Index, IndexView};
use crate::item::Item;
use crate::table::Table;
use crate::text::owned;
use crate::entity::{glsst_info, make_glsst_info, key_view, make_key, text_field, read_text, text_attribute, clone_text};

verus! {

/// A Discord user as the bot stores it.
#[derive(Default, Debug, Clone)]
pub struct User {
    pub userid: Option<String>,
    pub username: String,
    pub discriminator: String,
    pub globalname: String,
    pub avatar: String,
}

/// The indexes of users: `primary` and `gsi1`, both on the user id.
pub open spec fn user_indexes() -> Seq<(Seq<char>, IndexView)> {
    seq![
        ("primary"@, IndexView {
            partition_key: key_view("pk"@, seq!["userid"@]),
            sort_key: key_view("sk"@, seq![]),
        }),
        ("gsi1"@, IndexView {
            partition_key: key_view("gsi1pk"@, seq!["userid"@]),
            sort_key: key_view("gsi1sk"@, seq![]),
        }),
    ]
}

/// The attributes of a user, one for each of its fields.
pub open spec fn user_attributes(u: User) -> Map<Seq<char>, AttributeView> {
    Map::empty()
        .insert("userid"@, text_attribute(u.userid))
        .insert("username"@, AttributeView::DdbString(Some(u.username@)))
        .insert("discriminator"@, AttributeView::DdbString(Some(u.discriminator@)))
        .insert("globalname"@, AttributeView::DdbString(Some(u.globalname@)))
        .insert("avatar"@, AttributeView::DdbString(Some(u.avatar@)))
}

/// A text field of an item, or the empty text when the item holds none.
pub open spec fn text_or_empty(m: Map<Seq<char>, crate::item::ValueView>, name: Seq<char>) -> Seq<char> {
    match text_field(m, name) {
        Some(s) => s,
        None => Seq::empty(),
    }
}

fn read_text_or_empty(m: &Item, name: &str) -> (r: String)
    ensures
        r@ == text_or_empty(m@, name@),
{
    proof { reveal_strlit(""); }
    match read_text(m, name) {
        Some(s) => s,
        None => owned(""),
    }
}

impl DdbEntity for User {
    fn info(&self) -> (r: EntityInfo)
        ensures
            r@ == glsst_info(),
    {
        make_glsst_info()
    }

    fn index_schema(&self) -> (r: Table<String, Index>)
        ensures
            r.entries_view() == user_indexes(),
    {
        proof {
            reveal_strlit("primary");
            reveal_strlit("gsi1");
        }
        let mut t: Table<String, Index> = Table::new();
        t.insert(owned("primary"), Index {
            partition_key: make_key("pk", vec!["userid"]),
            sort_key: make_key("sk", vec![]),
        });
        assert(t.entries_view() =~= user_indexes().take(1));
        assert("primary"@.len() == 7 && "gsi1"@.len() == 4);
        t.insert(owned("gsi1"), Index {
            partition_key: make_key("gsi1pk", vec!["userid"]),
            sort_key: make_key("gsi1sk", vec![]),
        });
        assert(t.entries_view() =~= user_indexes());
        t
    }

    fn attributes(&self) -> (r: Table<String, Attribute>)
        ensures
            r@ == user_attributes(*self),
    {
        let mut t: Table<String, Attribute> = Table::new();
        t.insert(owned("userid"), Attribute::DdbString(clone_text(&self.userid)));
        t.insert(owned("username"), Attribute::DdbString(Some(self.username.clone())));
        t.insert(owned("discriminator"), Attribute::DdbString(Some(self.discriminator.clone())));
        t.insert(owned("globalname"), Attribute::DdbString(Some(self.globalname.clone())));
        t.insert(owned("avatar"), Attribute::DdbString(Some(self.avatar.clone())));
        t
    }

    /// A user with no id and empty names.
    fn generated_values() -> (u: Self)
        ensures
            u.userid is None,
            u.username@ == Seq::<char>::empty(),
            u.discriminator@ == Seq::<char>::empty(),
            u.globalname@ == Seq::<char>::empty(),
            u.avatar@ == Seq::<char>::empty(),
    {
        proof { reveal_strlit(""); }
        User {
            userid: None,
            username: owned(""),
            discriminator: owned(""),
            globalname: owned(""),
            avatar: owned(""),
        }
    }

    /// A user with the fields the item holds as strings; an absent text
    /// field reads as empty.
    fn from_map(m: &Item) -> (u: Self)
        ensures
            text_attribute(u.userid) == AttributeView::DdbString(text_field(m@, "userid"@)),
            u.username@ == text_or_empty(m@, "username"@),
            u.discriminator@ == text_or_empty(m@, "discriminator"@),
            u.globalname@ == text_or_empty(m@, "globalname"@),
            u.avatar@ == text_or_empty(m@, "avatar"@),
    {
        User {
            userid: read_text(m, "userid"),
            username: read_text_or_empty(m, "username"),
            discriminator: read_text_or_empty(m, "discriminator"),
            globalname: read_text_or_empty(m, "globalname"),
            avatar: read_text_or_empty(m, "avatar"),
        }
    }
}

} // verus!

verus! {

/// The item a user is stored as.
pub fn user_item(u: &User) -> (m: Item)
    ensures
        m@ == crate::dynamo::entity_item(glsst_info(), user_indexes(), user_attributes(*u)),
{
    assert forall|ix: Table<String, Index>, at: Table<String, Attribute>|
        #![trigger call_ensures(User::index_schema, (u,), ix), call_ensures(User::attributes, (u,), at)]
        call_ensures(User::index_schema, (u,), ix) && call_ensures(User::attributes, (u,), at)
        implies crate::dynamo::composites_present(ix.entries_view(), at@) by {
        assert(ix.entries_view() == user_indexes());
        assert(at@ == user_attributes(*u));
    }
    u.to_map()
}

/// The query for the user with `u`'s id: the partition key `pk` must equal
/// `$Glsst#User#userid_<id>` (or `$Glsst#User` when `u` has no id), and the
/// sort key `sk` begin with `$User`.
pub fn user_lookup(u: &User) -> (plan: crate::request::QueryPlan)
    ensures
        crate::request::plan_matches(
            plan,
            glsst_info().table,
            "pk"@,
            "sk"@,
            crate::item::ValueView::S(crate::dynamo::partition_value(glsst_info(), user_indexes()[0].1.partition_key, user_attributes(*u))),
            crate::item::ValueView::S(crate::dynamo::sort_value(glsst_info(), user_indexes()[0].1.sort_key, user_attributes(*u))),
            None,
        ),
        crate::request::query_matches(plan, crate::dynamo::entity_item(glsst_info(), user_indexes(), user_attributes(*u))),
{
    proof {
        reveal_strlit("primary");
        reveal_strlit("gsi1");
        reveal_strlit("pk");
        reveal_strlit("sk");
        reveal_strlit("gsi1pk");
        reveal_strlit("gsi1sk");
    }
    let ghost ixs = user_indexes();
    proof {
        assert("primary"@.len() == 7 && "gsi1"@.len() == 4);
        assert("pk"@[0] != "sk"@[0] && "pk"@.len() == 2 && "sk"@.len() == 2);
        assert("gsi1pk"@.len() == 6 && "gsi1sk"@.len() == 6);
        assert forall|i: int, j: int| 0 <= i < j < ixs.len() implies #[trigger] ixs[i].0 != #[trigger] ixs[j].0 by {}
        crate::table::lemma_map_of_entry(ixs, 0);
        crate::dynamo::lemma_item_key_values(glsst_info(), ixs, user_attributes(*u), 0);
    }
    assert forall|ix: Table<String, Index>, at: Table<String, Attribute>|
        #![trigger call_ensures(User::index_schema, (u,), ix), call_ensures(User::attributes, (u,), at)]
        call_ensures(User::index_schema, (u,), ix) && call_ensures(User::attributes, (u,), at)
        implies ix@.contains_key("primary"@) && crate::dynamo::composites_present(ix.entries_view(), at@) by {
        assert(ix.entries_view() == user_indexes());
        assert(at@ == user_attributes(*u));
        ix.lemma_view_of_entries();
    }
    let plan = crate::dynamo::query_plan("primary", u);
    proof {
        let (info, ix, at) = choose|info: EntityInfo, ix: Table<String, Index>, at: Table<String, Attribute>| {
            &&& #[trigger] call_ensures(User::info, (u,), info)
            &&& #[trigger] call_ensures(User::index_schema, (u,), ix)
            &&& #[trigger] call_ensures(User::attributes, (u,), at)
            &&& ix@.contains_key("primary"@)
            &&& {
                let item = crate::dynamo::entity_item(info@, ix.entries_view(), at@);
                let pkf = ix@["primary"@].partition_key.field;
                let skf = ix@["primary"@].sort_key.field;
                &&& item.contains_key(pkf)
                &&& item.contains_key(skf)
                &&& crate::request::plan_matches(plan, info@.table, pkf, skf, item[pkf], item[skf], None)
                &&& crate::request::query_matches(plan, item)
            }
        };
        assert(info@ == glsst_info());
        assert(ix.entries_view() == ixs);
        assert(at@ == user_attributes(*u));
        ix.lemma_view_of_entries();
        assert(ix@["primary"@] == ixs[0].1);
    }
    plan
}

/// The primary key of the item a user is stored as: the field `pk` with
/// `$Glsst#User#userid_<id>` and the field `sk` with `$User`, in this order.
pub fn user_key(u: &User) -> (k: Vec<(String, crate::item::AttributeValue)>)
    ensures
        k@.len() == 2,
        k@[0].0@ == "pk"@,
        k@[0].1@ == crate::item::ValueView::S(
            crate::dynamo::partition_value(glsst_info(), user_indexes()[0].1.partition_key, user_attributes(*u)),
        ),
        k@[1].0@ == "sk"@,
        k@[1].1@ == crate::item::ValueView::S(
            crate::dynamo::sort_value(glsst_info(), user_indexes()[0].1.sort_key, user_attributes(*u)),
        ),
{
    proof {
        reveal_strlit("pk");
        reveal_strlit("sk");
        reveal_strlit("gsi1pk");
        reveal_strlit("gsi1sk");
    }
    let item = user_item(u);
    let ghost ixs = user_indexes();
    let ghost attrs = user_attributes(*u);
    proof {
        assert("pk"@[0] != "sk"@[0] && "pk"@.len() == 2 && "sk"@.len() == 2);
        assert("gsi1pk"@.len() == 6 && "gsi1sk"@.len() == 6);
        crate::dynamo::lemma_item_key_values(glsst_info(), ixs, attrs, 0);
        let base = Map::<Seq<char>, crate::item::ValueView>::empty()
            .insert(crate::dynamo::entity_marker(), crate::item::ValueView::S(glsst_info().entity));
        crate::dynamo::lemma_index_fields_present(
            base.union_prefer_right(crate::dynamo::attribute_item(attrs)), glsst_info(), ixs, attrs, 0);
    }
    let pk = item.get_str("pk").unwrap().duplicate();
    let sk = item.get_str("sk").unwrap().duplicate();
    let mut k = Vec::new();
    k.push((owned("pk"), pk));
    k.push((owned("sk"), sk));
    k
}

} // verus!

verus! {

/// A user read back from the item it is stored as has the id, user name,
/// discriminator, global name and avatar it was stored with.
pub proof fn lemma_user_read_back(u: User, m: Item, r: User)
    requires
        m@ == crate::dynamo::entity_item(glsst_info(), user_indexes(), user_attributes(u)),
        call_ensures(User::from_map, (&m,), r),
    ensures
        text_attribute(r.userid) == text_attribute(u.userid),
        r.username@ == u.username@,
        r.discriminator@ == u.discriminator@,
        r.globalname@ == u.globalname@,
        r.avatar@ == u.avatar@,
{
    reveal_strlit("userid");
    reveal_strlit("username");
    reveal_strlit("discriminator");
    reveal_strlit("globalname");
    reveal_strlit("avatar");
    reveal_strlit("pk");
    reveal_strlit("sk");
    reveal_strlit("gsi1pk");
    reveal_strlit("gsi1sk");
    let ixs = user_indexes();
    let attrs = user_attributes(u);
    let names = seq!["userid"@, "username"@, "discriminator"@, "globalname"@, "avatar"@];
    assert("userid"@.len() == 6 && "username"@.len() == 8 && "discriminator"@.len() == 13);
    assert("globalname"@.len() == 10 && "avatar"@.len() == 6 && "userid"@[0] == 'u' && "avatar"@[0] == 'a');
    assert(attrs["userid"@] == text_attribute(u.userid));
    assert(attrs["username"@] == AttributeView::DdbString(Some(u.username@)));
    assert(attrs["discriminator"@] == AttributeView::DdbString(Some(u.discriminator@)));
    assert(attrs["globalname"@] == AttributeView::DdbString(Some(u.globalname@)));
    assert(attrs["avatar"@] == AttributeView::DdbString(Some(u.avatar@)));
    assert forall|n: int| 0 <= n < names.len() implies {
        &&& attrs.contains_key(#[trigger] names[n])
        &&& names[n] != crate::dynamo::entity_marker()
        &&& forall|i: int| 0 <= i < ixs.len() ==> {
            &&& (#[trigger] ixs[i]).1.partition_key.field != names[n]
            &&& ixs[i].1.sort_key.field != names[n]
        }
    } by {
        assert(names[n].len() != 2 && names[n].len() != 7);
        if names[n].len() == 6 {
            assert(names[n][0] != 'g');
        }
    }
    assert(names[0] == "userid"@ && names[1] == "username"@ && names[2] == "discriminator"@);
    assert(names[3] == "globalname"@ && names[4] == "avatar"@);
    crate::dynamo::lemma_entity_item_attribute(glsst_info(), ixs, attrs, "userid"@);
    crate::dynamo::lemma_entity_item_attribute(glsst_info(), ixs, attrs, "username"@);
    crate::dynamo::lemma_entity_item_attribute(glsst_info(), ixs, attrs, "discriminator"@);
    crate::dynamo::lemma_entity_item_attribute(glsst_info(), ixs, attrs, "globalname"@);
    crate::dynamo::lemma_entity_item_attribute(glsst_info(), ixs, attrs, "avatar"@);
}

} // verus!
