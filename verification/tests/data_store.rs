use initiative::storage::{DataStore, MemoryDataStore, Thing, ThingData, ThingKind};

const ODYSSEUS: u128 = 10;
const PENELOPE: u128 = 11;
const POLYPHEMUS: u128 = 12;
const PHOENICIA: u128 = 13;

fn thing(uuid: u128, kind: ThingKind, name: &str) -> Thing {
    Thing {
        uuid,
        data: ThingData {
            kind,
            name: Some(name.to_string()),
        },
    }
}

fn odysseus() -> Thing {
    thing(ODYSSEUS, ThingKind::Npc, "Odysseus")
}

fn penelope() -> Thing {
    thing(PENELOPE, ThingKind::Npc, "Penelope")
}

fn polyphemus() -> Thing {
    thing(POLYPHEMUS, ThingKind::Npc, "Polyphemus")
}

/// A store with some saved things; Odysseus is not among them.
fn with_test_data() -> MemoryDataStore {
    let mut ds = MemoryDataStore::default();
    ds.save_thing(&penelope()).unwrap();
    ds.save_thing(&polyphemus()).unwrap();
    ds.save_thing(&thing(PHOENICIA, ThingKind::Place, "Phoenicia"))
        .unwrap();
    ds
}

fn thing_count(ds: &MemoryDataStore) -> usize {
    ds.snapshot().0.len()
}

#[test]
fn memory_delete_thing_by_uuid_test() {
    let mut ds = with_test_data();
    let len = thing_count(&ds);

    assert_eq!(Err(()), ds.delete_thing_by_uuid(&ODYSSEUS));
    assert_eq!(len, thing_count(&ds));
    assert_eq!(Ok(()), ds.delete_thing_by_uuid(&PENELOPE));
    assert_eq!(len - 1, thing_count(&ds));
}

#[test]
fn memory_get_thing_by_uuid_test() {
    let ds = with_test_data();

    assert_eq!(Ok(None), ds.get_thing_by_uuid(&ODYSSEUS));
    assert_eq!(Ok(Some(penelope())), ds.get_thing_by_uuid(&PENELOPE));
}

#[test]
fn memory_get_thing_by_name_test() {
    let ds = with_test_data();

    assert_eq!(Ok(None), ds.get_thing_by_name("odysseus"));
    assert_eq!(Ok(Some(penelope())), ds.get_thing_by_name("penelope"));
}

#[test]
fn memory_get_things_by_name_start_test() {
    let ds = with_test_data();

    let mut results = ds.get_things_by_name_start("p", None).unwrap();
    results.sort_by_key(|thing| thing.uuid);
    assert_eq!(
        vec![
            penelope(),
            polyphemus(),
            thing(PHOENICIA, ThingKind::Place, "Phoenicia")
        ],
        results
    );

    assert_eq!(1, ds.get_things_by_name_start("p", Some(1)).unwrap().len());
}

#[test]
fn memory_edit_thing_test() {
    let mut ds = MemoryDataStore::default();

    let nobody = thing(ODYSSEUS, ThingKind::Npc, "Nobody");

    assert_eq!(Ok(()), ds.edit_thing(&odysseus()));
    assert_eq!(1, thing_count(&ds));
    assert_eq!(Ok(()), ds.edit_thing(&nobody));
    assert_eq!(1, thing_count(&ds));
    assert_eq!(Ok(Some(nobody)), ds.get_thing_by_uuid(&ODYSSEUS));
}

#[test]
fn memory_get_all_the_things_test() {
    let mut ds = MemoryDataStore::default();
    ds.save_thing(&odysseus()).unwrap();
    ds.save_thing(&penelope()).unwrap();

    let all_the_things = ds.get_all_the_things().unwrap();
    assert_eq!(2, all_the_things.len(), "{all_the_things:?}");
}

#[test]
fn memory_save_thing_test() {
    let mut ds = MemoryDataStore::default();

    assert_eq!(Ok(()), ds.save_thing(&odysseus()));
    assert_eq!(
        Err(()),
        ds.save_thing(&Thing {
            uuid: ODYSSEUS,
            data: ThingData {
                kind: ThingKind::Npc,
                name: None,
            },
        }),
    );

    assert_eq!(Ok(1), ds.get_all_the_things().map(|v| v.len()));
}

#[test]
fn memory_key_value_test() {
    let mut ds = MemoryDataStore::default();

    assert_eq!(Ok(()), ds.set_value("somekey", "abc"));
    assert_eq!(Ok(()), ds.set_value("otherkey", "def"));
    assert_eq!(Ok(()), ds.set_value("somekey", "xyz"));
    assert_eq!(Ok(None), ds.get_value("notakey"));
    assert_eq!(Ok(Some("xyz".to_string())), ds.get_value("somekey"));
    assert_eq!(Ok(()), ds.delete_value("somekey"));
    assert_eq!(Ok(None), ds.get_value("somekey"));
}

#[test]
fn memory_get_things_by_name_start_limit_test() {
    let ds = with_test_data();
    let all = ds.get_things_by_name_start("P", None).unwrap();
    let mut uuids: Vec<u128> = all.iter().map(|t| t.uuid).collect();
    uuids.sort();
    assert_eq!(vec![PENELOPE, POLYPHEMUS, PHOENICIA], uuids);
    assert_eq!(2, ds.get_things_by_name_start("p", Some(2)).unwrap().len());
    assert_eq!(3, ds.get_things_by_name_start("p", Some(5)).unwrap().len());
    assert!(ds.get_things_by_name_start("p", Some(0)).unwrap().is_empty());
    assert!(ds.get_things_by_name_start("x", None).unwrap().is_empty());
}

#[test]
fn memory_delete_value_missing_test() {
    let mut ds = MemoryDataStore::default();
    assert_eq!(Ok(()), ds.delete_value("nothing"));
    assert_eq!(Ok(None), ds.get_value("nothing"));
}
