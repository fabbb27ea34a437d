use vstd::prelude::*;
use crate::hw::ddb::{Attribute, AttributeView, Composite, DdbEntity, EntitySchema, EntitySchemaView, Index, IndexName,
    IndexView, Key, KeyView};
use crate::table::Table;
use crate::text::owned;

verus! {

/// A prediction, with all of its fields present.
#[derive(Debug)]
pub struct Prediction {
    pub prediction_id: String,
    pub user_id: String,
    pub condition: String,
    pub created_at: String,
}

/// The schema of a prediction: service `Cdkrs`, entity `Prediction`, a
/// primary index whose partition key `pk` is composed of the prediction id
/// and whose sort key `sk` has no parts, and its four fields as string attributes.
pub open spec fn prediction_schema(p: Prediction) -> EntitySchemaView {
    EntitySchemaView {
        service: "Cdkrs"@,
        entity: "Prediction"@,
        indices: seq![(IndexName::Primary, IndexView {
            partition_key: KeyView { field: "pk"@, composite: seq![("prediction_id"@, p.prediction_id@)] },
            sort_key: KeyView { field: "sk"@, composite: seq![] },
        })],
        attributes: Map::empty()
            .insert("prediction_id"@, AttributeView::DdbString(p.prediction_id@))
            .insert("user_id"@, AttributeView::DdbString(p.user_id@))
            .insert("condition"@, AttributeView::DdbString(p.condition@))
            .insert("created_at"@, AttributeView::DdbString(p.created_at@)),
    }
}

impl DdbEntity for Prediction {
    fn entity_schema(&self) -> (s: EntitySchema)
        ensures
            s@ == prediction_schema(*self),
    {
        let mut indices: Table<IndexName, Index> = Table::new();
        let mut composite: Vec<Composite> = Vec::new();
        composite.push(Composite { name: owned("prediction_id"), value: self.prediction_id.clone() });
        let pk = Key { field: owned("pk"), composite };
        let sk = Key { field: owned("sk"), composite: Vec::new() };
        assert(pk@.composite =~= seq![("prediction_id"@, self.prediction_id@)]);
        assert(sk@.composite =~= Seq::<(Seq<char>, Seq<char>)>::empty());
        indices.insert(IndexName::Primary, Index { partition_key: pk, sort_key: sk });

        let mut attributes: Table<String, Attribute> = Table::new();
        attributes.insert(owned("prediction_id"), Attribute::DdbString(self.prediction_id.clone()));
        attributes.insert(owned("user_id"), Attribute::DdbString(self.user_id.clone()));
        attributes.insert(owned("condition"), Attribute::DdbString(self.condition.clone()));
        attributes.insert(owned("created_at"), Attribute::DdbString(self.created_at.clone()));

        let s = EntitySchema { service: owned("Cdkrs"), entity: owned("Prediction"), indices, attributes };
        assert(s@.indices =~= prediction_schema(*self).indices);
        s
    }
}

} // verus!
