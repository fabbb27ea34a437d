use vstd::prelude::*;
use crate::consumer::common::CommandError;
use crate::discord::{InteractionBody, ResponseData};
use crate::text::owned;

verus! {

/// The answer to `foo`: the message `bar`.
pub fn foo(_b: &InteractionBody) -> (r: Result<ResponseData, CommandError>)
    ensures
        r matches Ok(d) && d.content matches Some(c) && c@ == "bar"@ && d.flags is None && d.embeds is None,
{
    Ok(ResponseData { flags: None, content: Some(owned("bar")), embeds: None })
}

} // verus!
