//! The commands the bot answers: `foo`, `create` and `vote`.

pub mod foo;
pub mod create;
pub mod vote;

use vstd::prelude::*;
use crate::discord::{Embed, Field};
use crate::text::{concat3, owned};

verus! {

/// A mention of a user: `<@id>`.
pub open spec fn mention(id: Seq<char>) -> Seq<char> {
    seq!['<', '@'] + id + seq!['>']
}

pub(crate) fn make_mention(id: &str) -> (s: String)
    ensures
        s@ == mention(id@),
{
    proof { reveal_strlit("<@"); reveal_strlit(">"); }
    let s = concat3("<@", id, ">");
    assert(s@ =~= mention(id@));
    s
}

/// A field that is not shown inline.
pub open spec fn is_block_field(f: Field, name: Seq<char>, value: Seq<char>) -> bool {
    &&& f.name matches Some(n) && n@ == name
    &&& f.value matches Some(v) && v@ == value
    &&& f.inline == Some(false)
}

pub(crate) fn block_field(name: &str, value: String) -> (f: Field)
    ensures
        is_block_field(f, name@, value@),
{
    Field { name: Some(owned(name)), value: Some(value), inline: Some(false) }
}

/// An embed with just a title, a description, a colour and fields.
pub open spec fn embed_parts(e: Embed, title: Seq<char>, description: Seq<char>, color: Option<usize>) -> bool {
    &&& e.title matches Some(t) && t@ == title
    &&& e.description matches Some(d) && d@ == description
    &&& e.color == color
    &&& e.url is None
}

} // verus!
