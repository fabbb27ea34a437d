//! The values an item carries, as DynamoDB types them, and the item itself.
use vstd::prelude::*;
use crate::table::Table;

verus! {

/// A typed attribute value of an item: a string, a number (in its decimal
/// text form), or a boolean.
#[derive(Debug, Clone, PartialEq)]
pub enum AttributeValue {
    S(String),
    N(String),
    Bool(bool),
}

/// What an attribute value holds.
pub enum ValueView {
    S(Seq<char>),
    N(Seq<char>),
    Bool(bool),
}

impl View for AttributeValue {
    type V = ValueView;

    open spec fn view(&self) -> ValueView {
        match self {
            AttributeValue::S(s) => ValueView::S(s@),
            AttributeValue::N(s) => ValueView::N(s@),
            AttributeValue::Bool(b) => ValueView::Bool(*b),
        }
    }
}

impl AttributeValue {
    /// The string, if this is a string value; the value itself otherwise.
    pub fn as_s(&self) -> (r: Result<&String, &AttributeValue>)
        ensures
            match self@ {
                ValueView::S(s) => r matches Ok(x) && x@ == s,
                _ => r matches Err(x) && x@ == self@,
            },
    {
        match self {
            AttributeValue::S(s) => Ok(s),
            _ => Err(self),
        }
    }

    /// The decimal text, if this is a number value; the value itself otherwise.
    pub fn as_n(&self) -> (r: Result<&String, &AttributeValue>)
        ensures
            match self@ {
                ValueView::N(s) => r matches Ok(x) && x@ == s,
                _ => r matches Err(x) && x@ == self@,
            },
    {
        match self {
            AttributeValue::N(s) => Ok(s),
            _ => Err(self),
        }
    }

    /// The boolean, if this is a boolean value; the value itself otherwise.
    pub fn as_bool(&self) -> (r: Result<&bool, &AttributeValue>)
        ensures
            match self@ {
                ValueView::Bool(b) => r matches Ok(x) && *x == b,
                _ => r matches Err(x) && x@ == self@,
            },
    {
        match self {
            AttributeValue::Bool(b) => Ok(b),
            _ => Err(self),
        }
    }

    /// A copy of this value.
    pub fn duplicate(&self) -> (r: AttributeValue)
        ensures
            r@ == self@,
    {
        match self {
            AttributeValue::S(s) => AttributeValue::S(s.clone()),
            AttributeValue::N(s) => AttributeValue::N(s.clone()),
            AttributeValue::Bool(b) => AttributeValue::Bool(*b),
        }
    }
}

/// An item: attribute names mapped to their values.
pub type Item = Table<String, AttributeValue>;

} // verus!
