//! The handler's own decisions: bringing the stored user up to date, picking
//! the command, and where to post the answer.
use vstd::prelude::*;
use crate::entity::user::User;
use crate::item::{AttributeValue, ValueView};
use crate::text::{concat2, concat3, owned, str_equal};

verus! {

/// The changes that bring a stored user up to date: an update expression
/// and the names and values it refers to.
#[derive(Debug)]
pub struct UserUpdate {
    pub update_expression: String,
    pub names: Vec<(String, String)>,
    pub values: Vec<(String, AttributeValue)>,
}

/// What to do with the invoking user.
#[derive(Debug)]
pub enum Onboarding {
    /// No user is stored yet: store this one.
    Create,
    /// The stored user differs: apply the update.
    Update(UserUpdate),
    /// The stored user is up to date.
    Unchanged,
}

/// The fields, and their new values, on which the invoking user differs from
/// the stored one, in the order global name, user name, avatar.
pub open spec fn changed_fields(stored: User, user: User) -> Seq<(Seq<char>, Seq<char>)> {
    (if stored.globalname@ != user.globalname@ { seq![("globalname"@, user.globalname@)] } else { Seq::empty() })
    + (if stored.username@ != user.username@ { seq![("username"@, user.username@)] } else { Seq::empty() })
    + (if stored.avatar@ != user.avatar@ { seq![("avatar"@, user.avatar@)] } else { Seq::empty() })
}

/// `SET` followed by ` #field = :field` for each changed field.
pub open spec fn set_expression(fields: Seq<(Seq<char>, Seq<char>)>) -> Seq<char>
    decreases fields.len(),
{
    if fields.len() == 0 {
        "SET"@
    } else {
        set_expression(fields.drop_last()) + " #"@ + fields.last().0 + " = :"@ + fields.last().0
    }
}

/// An update that sets exactly the given fields to the given values.
pub open spec fn is_update_of(u: UserUpdate, fields: Seq<(Seq<char>, Seq<char>)>) -> bool {
    &&& u.update_expression@ == set_expression(fields)
    &&& u.names@.len() == fields.len()
    &&& u.values@.len() == fields.len()
    &&& forall|i: int| 0 <= i < fields.len() ==> {
        &&& (#[trigger] u.names@[i]).0@ == "#"@ + fields[i].0
        &&& u.names@[i].1@ == fields[i].0
        &&& u.values@[i].0@ == ":"@ + fields[i].0
        &&& u.values@[i].1@ == ValueView::S(fields[i].1)
    }
}

fn add_change(u: &mut UserUpdate, field: &str, value: &String, Ghost(done): Ghost<Seq<(Seq<char>, Seq<char>)>>)
    requires
        is_update_of(*old(u), done),
    ensures
        is_update_of(*final(u), done.push((field@, value@))),
{
    let ghost fields = done.push((field@, value@));
    u.update_expression.append(" #");
    u.update_expression.append(field);
    u.update_expression.append(" = :");
    u.update_expression.append(field);
    assert(fields.drop_last() =~= done);
    assert(u.update_expression@ =~= set_expression(fields));
    u.names.push((concat2("#", field), owned(field)));
    u.values.push((concat2(":", field), AttributeValue::S(value.clone())));
    assert forall|i: int| 0 <= i < fields.len() implies {
        &&& (#[trigger] u.names@[i]).0@ == "#"@ + fields[i].0
        &&& u.names@[i].1@ == fields[i].0
        &&& u.values@[i].0@ == ":"@ + fields[i].0
        &&& u.values@[i].1@ == ValueView::S(fields[i].1)
    } by {
        if i < done.len() {
            assert(u.names@[i] == old(u).names@[i]);
            assert(u.values@[i] == old(u).values@[i]);
        }
    }
}

/// What to do with the invoking user given the users stored under its key:
/// store it when none is stored; otherwise compare it with the first stored
/// user and update the global name, user name and avatar that differ.
pub fn onboarding(existing: &Vec<User>, user: &User) -> (o: Onboarding)
    ensures
        existing@.len() == 0 ==> o is Create,
        existing@.len() > 0 ==> {
            let fields = changed_fields(existing@[0], *user);
            &&& fields.len() == 0 ==> o is Unchanged
            &&& fields.len() > 0 ==> (o matches Onboarding::Update(u) && is_update_of(u, fields))
        },
{
    if existing.len() < 1 {
        return Onboarding::Create;
    }
    let first = &existing[0];
    let mut update = UserUpdate { update_expression: owned("SET"), names: Vec::new(), values: Vec::new() };
    let ghost mut done: Seq<(Seq<char>, Seq<char>)> = Seq::empty();
    let mut send_flag = false;
    if first.globalname != user.globalname {
        send_flag = true;
        add_change(&mut update, "globalname", &user.globalname, Ghost(done));
        proof { done = done.push(("globalname"@, user.globalname@)); }
    }
    if first.username != user.username {
        send_flag = true;
        add_change(&mut update, "username", &user.username, Ghost(done));
        proof { done = done.push(("username"@, user.username@)); }
    }
    if first.avatar != user.avatar {
        send_flag = true;
        add_change(&mut update, "avatar", &user.avatar, Ghost(done));
        proof { done = done.push(("avatar"@, user.avatar@)); }
    }
    assert(done =~= changed_fields(*first, *user));
    if send_flag {
        Onboarding::Update(update)
    } else {
        Onboarding::Unchanged
    }
}

/// The commands the bot knows.
#[derive(Debug, Clone, Copy, PartialEq, Eq, Structural)]
pub enum Command {
    Foo,
    Create,
    Vote,
}

impl Command {
    /// The command called `name`, if the bot knows one.
    pub fn from_name(name: &str) -> (c: Option<Command>)
        ensures
            name@ == "foo"@ ==> c == Some(Command::Foo),
            name@ == "create"@ ==> c == Some(Command::Create),
            name@ == "vote"@ ==> c == Some(Command::Vote),
            name@ != "foo"@ && name@ != "create"@ && name@ != "vote"@ ==> c is None,
    {
        proof {
            reveal_strlit("foo");
            reveal_strlit("create");
            reveal_strlit("vote");
            assert("foo"@.len() == 3 && "create"@.len() == 6 && "vote"@.len() == 4);
        }
        if str_equal(name, "foo") {
            Some(Command::Foo)
        } else if str_equal(name, "create") {
            Some(Command::Create)
        } else if str_equal(name, "vote") {
            Some(Command::Vote)
        } else {
            None
        }
    }
}

/// Where the answer to an interaction is posted:
/// `https://discord.com/api/v10/webhooks/<application id>/<token>`.
pub fn webhook_url(application_id: &str, token: &str) -> (url: String)
    ensures
        url@ == "https://discord.com/api/v10/webhooks/"@ + application_id@ + "/"@ + token@,
{
    let mut url = concat3("https://discord.com/api/v10/webhooks/", application_id, "/");
    url.append(token);
    url
}

} // verus!

verus! {

/// The text `SET` gets for one field: ` #field = :field`.
pub open spec fn set_clause(field: Seq<char>) -> Seq<char> {
    seq![' ', '#'] + field + seq![' ', '=', ' ', ':'] + field
}

/// Whether `text` holds `part` somewhere.
pub open spec fn has_part(text: Seq<char>, part: Seq<char>) -> bool {
    exists|p: int| 0 <= p && p + part.len() <= text.len() && #[trigger] text.subrange(p, p + part.len()) == part
}

proof fn lemma_set_expression_has(fields: Seq<(Seq<char>, Seq<char>)>, k: int)
    requires
        0 <= k < fields.len(),
    ensures
        has_part(set_expression(fields), set_clause(fields[k].0)),
    decreases fields.len(),
{
    reveal_strlit(" #");
    reveal_strlit(" = :");
    let e = set_expression(fields);
    let prev = set_expression(fields.drop_last());
    let part = set_clause(fields[k].0);
    if k == fields.len() - 1 {
        let p = prev.len() as int;
        assert(e =~= prev + set_clause(fields.last().0));
        assert(e.subrange(p, p + part.len()) =~= part);
    } else {
        assert(fields.drop_last()[k] == fields[k]);
        lemma_set_expression_has(fields.drop_last(), k);
        let p = choose|p: int| 0 <= p && p + part.len() <= prev.len() && #[trigger] prev.subrange(p, p + part.len()) == part;
        assert(e =~= prev + set_clause(fields.last().0));
        assert(e.subrange(p, p + part.len()) =~= prev.subrange(p, p + part.len()));
    }
}

proof fn lemma_changed_fields(stored: User, user: User)
    ensures
        ({
            let f = changed_fields(stored, user);
            &&& forall|k: int| 0 <= k < f.len() ==> {
                ||| (#[trigger] f[k]) == ("globalname"@, user.globalname@) && stored.globalname@ != user.globalname@
                ||| f[k] == ("username"@, user.username@) && stored.username@ != user.username@
                ||| f[k] == ("avatar"@, user.avatar@) && stored.avatar@ != user.avatar@
            }
            &&& stored.globalname@ != user.globalname@ ==> exists|k: int| 0 <= k < f.len() && #[trigger] f[k] == ("globalname"@, user.globalname@)
            &&& stored.username@ != user.username@ ==> exists|k: int| 0 <= k < f.len() && #[trigger] f[k] == ("username"@, user.username@)
            &&& stored.avatar@ != user.avatar@ ==> exists|k: int| 0 <= k < f.len() && #[trigger] f[k] == ("avatar"@, user.avatar@)
            &&& (f.len() == 0 <==> (stored.globalname@ == user.globalname@ && stored.username@ == user.username@
                && stored.avatar@ == user.avatar@))
        }),
{
    let g: Seq<(Seq<char>, Seq<char>)> = if stored.globalname@ != user.globalname@ { seq![("globalname"@, user.globalname@)] } else { Seq::empty() };
    let u: Seq<(Seq<char>, Seq<char>)> = if stored.username@ != user.username@ { seq![("username"@, user.username@)] } else { Seq::empty() };
    let a: Seq<(Seq<char>, Seq<char>)> = if stored.avatar@ != user.avatar@ { seq![("avatar"@, user.avatar@)] } else { Seq::empty() };
    let f = changed_fields(stored, user);
    assert(f == g + u + a);
    assert forall|k: int| 0 <= k < f.len() implies {
        ||| (#[trigger] f[k]) == ("globalname"@, user.globalname@) && stored.globalname@ != user.globalname@
        ||| f[k] == ("username"@, user.username@) && stored.username@ != user.username@
        ||| f[k] == ("avatar"@, user.avatar@) && stored.avatar@ != user.avatar@
    } by {
        if k < g.len() {
            assert(f[k] == g[k]);
        } else if k < g.len() + u.len() {
            assert(f[k] == u[k - g.len()]);
        } else {
            assert(f[k] == a[k - g.len() - u.len()]);
        }
    }
    if stored.globalname@ != user.globalname@ {
        assert(f[0] == g[0]);
    }
    if stored.username@ != user.username@ {
        assert(f[g.len() as int] == u[0]);
    }
    if stored.avatar@ != user.avatar@ {
        assert(f[(g.len() + u.len()) as int] == a[0]);
    }
}

/// What onboarding does with a stored user, field by field, for one field:
/// the field differs exactly when the update names it, sets it to the
/// invoking user's value and says so in its expression.
pub open spec fn sets_field(o: Onboarding, field: Seq<char>, value: Seq<char>) -> bool {
    o matches Onboarding::Update(up) && exists|k: int| {
        &&& 0 <= k < up.names@.len()
        &&& k < up.values@.len()
        &&& (#[trigger] up.names@[k]).0@ == seq!['#'] + field
        &&& up.names@[k].1@ == field
        &&& up.values@[k].0@ == seq![':'] + field
        &&& up.values@[k].1@ == ValueView::S(value)
        &&& has_part(up.update_expression@, set_clause(field))
    }
}

/// Whether the update touches `field` at all.
pub open spec fn names_field(o: Onboarding, field: Seq<char>) -> bool {
    o matches Onboarding::Update(up) && exists|k: int| 0 <= k < up.names@.len() && (#[trigger] up.names@[k]).1@ == field
}

/// Onboarding stores a user when none is stored yet. Otherwise it leaves the
/// stored user alone exactly when its global name, user name and avatar all
/// equal the invoking user's, and updates, to the invoking user's value,
/// exactly those of the three fields that differ.
pub proof fn lemma_onboarding_updates_changed_fields(existing: Vec<User>, user: User, o: Onboarding)
    requires
        call_ensures(onboarding, (&existing, &user), o),
    ensures
        existing@.len() == 0 ==> o is Create,
        existing@.len() > 0 ==> {
            let s = existing@[0];
            &&& !(o is Create)
            &&& (o is Unchanged <==> (s.globalname@ == user.globalname@ && s.username@ == user.username@
                && s.avatar@ == user.avatar@))
            &&& (s.globalname@ != user.globalname@ ==> sets_field(o, "globalname"@, user.globalname@))
            &&& (s.username@ != user.username@ ==> sets_field(o, "username"@, user.username@))
            &&& (s.avatar@ != user.avatar@ ==> sets_field(o, "avatar"@, user.avatar@))
            &&& (s.globalname@ == user.globalname@ ==> !names_field(o, "globalname"@))
            &&& (s.username@ == user.username@ ==> !names_field(o, "username"@))
            &&& (s.avatar@ == user.avatar@ ==> !names_field(o, "avatar"@))
        },
{
    reveal_strlit("globalname");
    reveal_strlit("username");
    reveal_strlit("avatar");
    reveal_strlit("#");
    reveal_strlit(":");
    if existing@.len() > 0 {
        let s = existing@[0];
        let f = changed_fields(s, user);
        lemma_changed_fields(s, user);
        assert("globalname"@.len() == 10 && "username"@.len() == 8 && "avatar"@.len() == 6);
        if f.len() > 0 {
            let up = o->Update_0;
            assert(is_update_of(up, f));
            assert forall|k: int| 0 <= k < f.len() implies sets_field(o, (#[trigger] f[k]).0, f[k].1) by {
                lemma_set_expression_has(f, k);
                assert(up.names@[k].0@ =~= seq!['#'] + f[k].0);
                assert(up.values@[k].0@ =~= seq![':'] + f[k].0);
            }
            assert forall|name: Seq<char>| names_field(o, name) implies
                exists|k: int| 0 <= k < f.len() && #[trigger] f[k].0 == name by {
                let k = choose|k: int| 0 <= k < up.names@.len() && (#[trigger] up.names@[k]).1@ == name;
                assert(f[k].0 == name);
            }
            if s.globalname@ == user.globalname@ && names_field(o, "globalname"@) {
                let k = choose|k: int| 0 <= k < f.len() && #[trigger] f[k].0 == "globalname"@;
                assert(f[k].0 == "globalname"@);
            }
            if s.username@ == user.username@ && names_field(o, "username"@) {
                let k = choose|k: int| 0 <= k < f.len() && #[trigger] f[k].0 == "username"@;
                assert(f[k].0 == "username"@);
            }
            if s.avatar@ == user.avatar@ && names_field(o, "avatar"@) {
                let k = choose|k: int| 0 <= k < f.len() && #[trigger] f[k].0 == "avatar"@;
                assert(f[k].0 == "avatar"@);
            }
        }
    }
}

} // verus!
