//! The reply of the hello-world function.
use vstd::prelude::*;
use crate::text::concat3;

verus! {

/// `Hello {who}, this is an AWS Lambda HTTP request.`
pub fn greeting(who: &str) -> (s: String)
    ensures
        s@ == "Hello "@ + who@ + ", this is an AWS Lambda HTTP request."@,
{
    concat3("Hello ", who, ", this is an AWS Lambda HTTP request.")
}

/// The name to greet: the given one, or `world`.
pub fn greeted_name<'a>(name: Option<&'a str>) -> (s: &'a str)
    ensures
        match name {
            Some(n) => s == n,
            None => s@ == "world"@,
        },
{
    match name {
        Some(n) => n,
        None => "world",
    }
}

} // verus!
