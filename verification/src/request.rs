//! What a key query asks the table for: the key condition, the names and
//! values it refers to, and the index it runs on.
use vstd::prelude::*;
use crate::item::AttributeValue;
use crate::text::{concat2, concat3};

verus! {

/// A query on one index for the items whose partition key equals a value and
/// whose sort key begins with a value.
#[derive(Debug)]
pub struct QueryPlan {
    pub table_name: String,
    pub key_condition_expression: String,
    pub expression_attribute_names: Vec<(String, String)>,
    pub expression_attribute_values: Vec<(String, AttributeValue)>,
    pub index_name: Option<String>,
}

/// `#pk = :pk and begins_with(#sk, :sk)` for partition key field `pk` and sort key field `sk`.
pub open spec fn key_condition(pk: Seq<char>, sk: Seq<char>) -> Seq<char> {
    seq!['#'] + pk + seq![' ', '=', ' ', ':'] + pk
        + seq![' ', 'a', 'n', 'd', ' ', 'b', 'e', 'g', 'i', 'n', 's', '_', 'w', 'i', 't', 'h', '(', '#'] + sk
        + seq![',', ' ', ':'] + sk + seq![')']
}

/// The placeholder `#field` that stands for a field name.
pub open spec fn name_placeholder(field: Seq<char>) -> Seq<char> {
    seq!['#'] + field
}

/// The placeholder `:field` that stands for a field's value.
pub open spec fn value_placeholder(field: Seq<char>) -> Seq<char> {
    seq![':'] + field
}

/// The query plan for the given table, key fields, key values and index.
pub open spec fn plan_matches(
    plan: QueryPlan,
    table: Seq<char>,
    pk: Seq<char>,
    sk: Seq<char>,
    pk_value: crate::item::ValueView,
    sk_value: crate::item::ValueView,
    index_name: Option<Seq<char>>,
) -> bool {
    &&& plan.table_name@ == table
    &&& plan.key_condition_expression@ == key_condition(pk, sk)
    &&& plan.expression_attribute_names@.len() == 2
    &&& plan.expression_attribute_names@[0].0@ == name_placeholder(pk)
    &&& plan.expression_attribute_names@[0].1@ == pk
    &&& plan.expression_attribute_names@[1].0@ == name_placeholder(sk)
    &&& plan.expression_attribute_names@[1].1@ == sk
    &&& plan.expression_attribute_values@.len() == 2
    &&& plan.expression_attribute_values@[0].0@ == value_placeholder(pk)
    &&& plan.expression_attribute_values@[0].1@ == pk_value
    &&& plan.expression_attribute_values@[1].0@ == value_placeholder(sk)
    &&& plan.expression_attribute_values@[1].1@ == sk_value
    &&& match plan.index_name {
        Some(n) => index_name == Some(n@),
        None => index_name is None,
    }
}

/// Whether a key query finds `item`: the item holds, under the partition
/// key field, exactly the value the query asks for, and under the sort key
/// field a string that begins with the value the query asks for.
pub open spec fn query_matches(plan: QueryPlan, item: Map<Seq<char>, crate::item::ValueView>) -> bool {
    &&& plan.expression_attribute_names@.len() == 2
    &&& plan.expression_attribute_values@.len() == 2
    &&& item.contains_key(plan.expression_attribute_names@[0].1@)
    &&& item[plan.expression_attribute_names@[0].1@] == plan.expression_attribute_values@[0].1@
    &&& item.contains_key(plan.expression_attribute_names@[1].1@)
    &&& item[plan.expression_attribute_names@[1].1@] matches crate::item::ValueView::S(stored)
    &&& plan.expression_attribute_values@[1].1@ matches crate::item::ValueView::S(wanted)
    &&& wanted.is_prefix_of(stored)
}

/// Builds the key query plan.
pub fn key_query(
    table: &str,
    pk: &str,
    sk: &str,
    pk_value: AttributeValue,
    sk_value: AttributeValue,
    index_name: Option<String>,
) -> (plan: QueryPlan)
    ensures
        plan_matches(
            plan,
            table@,
            pk@,
            sk@,
            pk_value@,
            sk_value@,
            match index_name {
                Some(n) => Some(n@),
                None => None,
            },
        ),
{
    proof {
        reveal_strlit("#");
        reveal_strlit(":");
        reveal_strlit(" = :");
        reveal_strlit(" and begins_with(#");
        reveal_strlit(", :");
        reveal_strlit(")");
    }
    let mut kce = concat3("#", pk, " = :");
    kce.append(pk);
    kce.append(" and begins_with(#");
    kce.append(sk);
    kce.append(", :");
    kce.append(sk);
    kce.append(")");
    assert(kce@ =~= key_condition(pk@, sk@));
    let mut names: Vec<(String, String)> = Vec::new();
    let pkn = concat2("#", pk);
    let skn = concat2("#", sk);
    assert(pkn@ =~= name_placeholder(pk@));
    assert(skn@ =~= name_placeholder(sk@));
    names.push((pkn, pk.to_owned()));
    names.push((skn, sk.to_owned()));
    let mut values: Vec<(String, AttributeValue)> = Vec::new();
    let pkv = concat2(":", pk);
    let skv = concat2(":", sk);
    assert(pkv@ =~= value_placeholder(pk@));
    assert(skv@ =~= value_placeholder(sk@));
    values.push((pkv, pk_value));
    values.push((skv, sk_value));
    QueryPlan {
        table_name: table.to_owned(),
        key_condition_expression: kce,
        expression_attribute_names: names,
        expression_attribute_values: values,
        index_name,
    }
}

} // verus!
