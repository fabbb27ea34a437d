use chrono::Utc;
use glsst::dynamo::{Attribute, DdbEntity, EntityInfo, GeneratedValues, Index, Key};
use glsst::item::Item;
use glsst::table::Table;
use uuid::Uuid;

#[derive(Default, Debug)]
struct TestStruct {
    primary_id: Option<String>,
    foreign_id: Option<String>,
    created_at: Option<String>,
}

impl DdbEntity for TestStruct {
    fn info(&self) -> EntityInfo {
        EntityInfo {
            table: format!("test_table"),
            service: format!("TestService"),
            entity: format!("TestEntity"),
        }
    }

    fn index_schema(&self) -> Table<String, Index> {
        let mut t = Table::new();
        t.insert(
            format!("primary"),
            Index {
                partition_key: Key { field: format!("pk"), composite: vec![format!("primaryid")] },
                sort_key: Key { field: format!("sk"), composite: vec![] },
            },
        );
        t.insert(
            format!("gsi1"),
            Index {
                partition_key: Key { field: format!("gsi1pk"), composite: vec![format!("foreignid")] },
                sort_key: Key { field: format!("gsi1sk"), composite: vec![format!("primaryid")] },
            },
        );
        t.insert(
            format!("gsi2"),
            Index {
                partition_key: Key {
                    field: format!("gsi2pk"),
                    composite: vec![format!("primaryid"), format!("foreignid")],
                },
                sort_key: Key { field: format!("gsi2sk"), composite: vec![format!("createdat")] },
            },
        );
        t
    }

    fn attributes(&self) -> Table<String, Attribute> {
        let mut t = Table::new();
        t.insert(format!("primaryid"), Attribute::DdbString(self.primary_id.clone()));
        t.insert(format!("foreignid"), Attribute::DdbString(self.foreign_id.clone()));
        t.insert(format!("createdat"), Attribute::DdbString(self.created_at.clone()));
        t
    }

    fn generated_values() -> Self {
        TestStruct {
            primary_id: Some(Uuid::new_v4().to_string()),
            created_at: Some(Utc::now().to_rfc3339()),
            ..Default::default()
        }
    }

    fn from_map(m: &Item) -> Self {
        let mut d = TestStruct { ..Default::default() };
        if let Some(v) = m.get_str("primaryid") {
            d.primary_id = Some(v.as_s().unwrap().clone());
        }
        if let Some(v) = m.get_str("foreignid") {
            d.foreign_id = Some(v.as_s().unwrap().clone());
        }
        if let Some(v) = m.get_str("createdat") {
            d.created_at = Some(v.as_s().unwrap().clone());
        }
        d
    }
}

fn deez(a: &Item, b: &str) -> String {
    a.get_str(b).unwrap().as_s().unwrap().to_string()
}

fn sugon(a: &Item) {
    println!("");
    for i in 0..a.len() {
        let (k, v) = a.entry(i);
        println!("{}: {:?}", k, v);
    }
}

#[test]
fn dynamo_test_e2m1() {
    let fid = Uuid::new_v4().to_string();
    let a = TestStruct { foreign_id: Some(fid.clone()), ..Default::default() };
    let avm = a.entity_to_av_map(&GeneratedValues::Use);
    let pid = Uuid::parse_str(&deez(&avm, "primaryid")).unwrap().to_string();
    let ca = deez(&avm, "createdat");

    sugon(&avm);

    assert_eq!(deez(&avm, "pk"), format!("$TestService#TestEntity#primaryid_{pid}"));
    assert_eq!(deez(&avm, "sk"), format!("$TestEntity"));

    assert_eq!(deez(&avm, "gsi1pk"), format!("$TestService#TestEntity#foreignid_{fid}"));
    assert_eq!(deez(&avm, "gsi1sk"), format!("$TestEntity#primaryid_{pid}"));

    assert_eq!(deez(&avm, "gsi2pk"), format!("$TestService#TestEntity#primaryid_{pid}#foreignid_{fid}"));
    assert_eq!(deez(&avm, "gsi2sk"), format!("$TestEntity#createdat_{ca}"));
}

#[test]
fn dynamo_test_e2m2() {
    let a = TestStruct { ..Default::default() };
    let avm = a.entity_to_av_map(&GeneratedValues::Ignore);

    sugon(&avm);

    assert_eq!(deez(&avm, "pk"), format!("$TestService#TestEntity"));
    assert_eq!(deez(&avm, "sk"), format!("$TestEntity"));
    assert_eq!(deez(&avm, "gsi1pk"), format!("$TestService#TestEntity"));
    assert_eq!(deez(&avm, "gsi1sk"), format!("$TestEntity"));
    assert_eq!(deez(&avm, "gsi2pk"), format!("$TestService#TestEntity"));
    assert_eq!(deez(&avm, "gsi2sk"), format!("$TestEntity"));
}

#[test]
fn e2m3() {
    let a = TestStruct { primary_id: Some(format!("AAA")), ..Default::default() };
    let avm = a.entity_to_av_map(&GeneratedValues::Ignore);
    sugon(&avm);
}
