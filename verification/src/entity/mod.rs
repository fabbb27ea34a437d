//! The bot's entities: users, predictions and votes, and how each of them is
//! stored in the shared table.

pub mod user;
pub mod prediction;
pub mod voter;
pub mod generated;

use vstd::prelude::*;
use crate::dynamo::{AttributeView, EntityInfo, EntityInfoView, Key, KeyView};
use crate::item::{Item, ValueView};
use crate::text::owned;

verus! {

/// Where every entity of the bot is stored: table `prod-glsst-table`,
/// service `Glsst`, entity `User`.
pub open spec fn glsst_info() -> EntityInfoView {
    EntityInfoView { table: "prod-glsst-table"@, service: "Glsst"@, entity: "User"@ }
}

pub(crate) fn make_glsst_info() -> (r: EntityInfo)
    ensures
        r@ == glsst_info(),
{
    EntityInfo { table: owned("prod-glsst-table"), service: owned("Glsst"), entity: owned("User") }
}

/// A key stored in `field` and composed of the attributes `names`.
pub open spec fn key_view(field: Seq<char>, names: Seq<Seq<char>>) -> KeyView {
    KeyView { field, composite: names }
}

pub(crate) fn make_key(field: &str, names: Vec<&str>) -> (k: Key)
    ensures
        k@.field == field@,
        k@.composite == names@.map_values(|s: &str| s@),
        names@.len() == 0 ==> k@ == key_view(field@, seq![]),
        names@.len() == 1 ==> k@ == key_view(field@, seq![names@[0]@]),
{
    let mut composite: Vec<String> = Vec::new();
    let mut i: usize = 0;
    while i < names.len()
        invariant
            i <= names@.len(),
            composite@.len() == i,
            composite.deep_view() =~= names@.map_values(|s: &str| s@).take(i as int),
        decreases names@.len() - i,
    {
        let ghost before = composite@;
        let s = owned(names[i]);
        composite.push(s);
        proof {
            assert(composite@ == before.push(s));
            assert forall|j: int| 0 <= j < i + 1 implies #[trigger] composite.deep_view()[j]
                == names@.map_values(|s: &str| s@).take(i + 1)[j] by {
                if j < i {
                    assert(composite@[j] == before[j]);
                }
            }
        }
        i = i + 1;
    }
    assert(names@.map_values(|s: &str| s@).take(i as int) =~= names@.map_values(|s: &str| s@));
    if names.len() == 1 {
        assert(names@.map_values(|s: &str| s@) =~= seq![names@[0]@]);
    } else if names.len() == 0 {
        assert(names@.map_values(|s: &str| s@) =~= Seq::<Seq<char>>::empty());
    }
    Key { field: owned(field), composite }
}

/// The text an item holds under `name`, if it holds a string there.
pub open spec fn text_field(m: Map<Seq<char>, ValueView>, name: Seq<char>) -> Option<Seq<char>> {
    if m.contains_key(name) {
        match m[name] {
            ValueView::S(s) => Some(s),
            _ => None,
        }
    } else {
        None
    }
}

/// The flag an item holds under `name`, if it holds a boolean there.
pub open spec fn flag_field(m: Map<Seq<char>, ValueView>, name: Seq<char>) -> Option<bool> {
    if m.contains_key(name) {
        match m[name] {
            ValueView::Bool(b) => Some(b),
            _ => None,
        }
    } else {
        None
    }
}

pub(crate) fn read_text(m: &Item, name: &str) -> (r: Option<String>)
    ensures
        match r {
            Some(s) => text_field(m@, name@) == Some(s@),
            None => text_field(m@, name@) is None,
        },
{
    match m.get_str(name) {
        Some(v) => match v.as_s() {
            Ok(s) => Some(s.clone()),
            Err(_) => None,
        },
        None => None,
    }
}

pub(crate) fn read_flag(m: &Item, name: &str) -> (r: Option<bool>)
    ensures
        r == flag_field(m@, name@),
{
    match m.get_str(name) {
        Some(v) => match v.as_bool() {
            Ok(b) => Some(*b),
            Err(_) => None,
        },
        None => None,
    }
}

/// An optional text as a string attribute.
pub open spec fn text_attribute(s: Option<String>) -> AttributeView {
    AttributeView::DdbString(
        match s {
            Some(x) => Some(x@),
            None => None,
        },
    )
}

pub(crate) fn clone_text(s: &Option<String>) -> (r: Option<String>)
    ensures
        text_attribute(r) == text_attribute(*s),
        match r {
            Some(x) => s matches Some(y) && x@ == y@,
            None => s is None,
        },
{
    match s {
        Some(x) => Some(x.clone()),
        None => None,
    }
}

} // verus!
