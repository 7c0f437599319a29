use initiative::storage::{
    Change, DataStore, Error, FallbackStore, KeyValue, MemoryDataStore, NullDataStore, Record,
    RecordStatus, Repository, Thing, ThingData, ThingKind,
};
use initiative::time::Time;

const OLYMPUS_UUID: u128 = 1;
const THESSALY_UUID: u128 = 2;
const GREECE_UUID: u128 = 3;
const STYX_UUID: u128 = 4;
const ODYSSEUS_UUID: u128 = 5;
const RECENT_MAX_LEN: usize = 100;

type Snapshot = (Vec<Thing>, Vec<(String, String)>);

fn thing(uuid: u128, kind: ThingKind, name: &str) -> Thing {
    Thing {
        uuid,
        data: data(kind, name),
    }
}

fn data(kind: ThingKind, name: &str) -> ThingData {
    ThingData {
        kind,
        name: Some(name.to_string()),
    }
}

fn npc_default() -> ThingData {
    ThingData {
        kind: ThingKind::Npc,
        name: None,
    }
}

fn name_of(thing: &Thing) -> String {
    thing.data.name.clone().unwrap_or_default()
}

/// The places of the journal: Olympus in Thessaly in Greece, and the River Styx.
fn populate_data_store<D: DataStore>(data_store: &mut D) {
    data_store
        .save_thing(&thing(OLYMPUS_UUID, ThingKind::Place, "Olympus"))
        .unwrap();
    data_store
        .save_thing(&thing(THESSALY_UUID, ThingKind::Place, "Thessaly"))
        .unwrap();
    data_store
        .save_thing(&thing(GREECE_UUID, ThingKind::Place, "Greece"))
        .unwrap();
    data_store
        .save_thing(&thing(STYX_UUID, ThingKind::Place, "River Styx"))
        .unwrap();
}

fn populate_repo<D: DataStore>(data_store: D) -> Repository<D> {
    let mut repo = Repository::new(data_store);
    repo.push_recent(thing(ODYSSEUS_UUID, ThingKind::Npc, "Odysseus"));
    repo.init();
    repo
}

fn repo() -> Repository<MemoryDataStore> {
    let mut data_store = MemoryDataStore::default();
    populate_data_store(&mut data_store);
    populate_repo(data_store)
}

fn empty_repo() -> Repository<MemoryDataStore> {
    Repository::new(MemoryDataStore::default())
}

fn null_repo() -> Repository<NullDataStore> {
    Repository::new(NullDataStore)
}

fn snapshot(repo: &Repository<MemoryDataStore>) -> Snapshot {
    let (mut things, mut values) = match repo.data_store() {
        FallbackStore::Given(m) => m.snapshot(),
        FallbackStore::Memory(m) => m.snapshot(),
    };
    things.sort_by_key(|t| t.uuid);
    values.sort();
    (things, values)
}

fn stored_name<D: DataStore>(repo: &Repository<D>, uuid: u128) -> Result<Option<String>, ()> {
    repo.data_store()
        .get_thing_by_uuid(&uuid)
        .map(|opt_t| opt_t.map(|t| name_of(&t)))
}

fn recent_has(repo: &Repository<MemoryDataStore>, f: impl Fn(&Thing) -> bool) -> bool {
    repo.recent().iter().any(f)
}

fn assert_change_success(
    change: Change,
    is_changed: impl Fn(&Repository<MemoryDataStore>) -> bool,
    redo_message: &str,
    undo_message: &str,
) {
    let mut repo = repo();
    assert_eq!(redo_message, change.display_redo().to_string(), "change.display_redo()");

    let (original_recent, original_data_store) = (repo.recent().to_vec(), snapshot(&repo));

    let (modified_recent, modified_data_store) = {
        repo.modify(change).unwrap();
        assert!(is_changed(&repo), "is_changed() after modify: {:?}", repo.recent());
        assert!(
            original_recent != repo.recent() || original_data_store != snapshot(&repo),
            "the recent things or the data store should have changed",
        );
        assert_eq!(
            undo_message,
            repo.undo_history()[0].display_undo().to_string(),
            "undo_history().display_undo()",
        );
        (repo.recent().to_vec(), snapshot(&repo))
    };

    repo.undo().unwrap().unwrap();
    assert!(!is_changed(&repo), "is_changed() after undo");
    assert_eq!(original_recent, repo.recent());
    assert_eq!(original_data_store, snapshot(&repo));

    let _ = repo.redo();
    assert!(is_changed(&repo), "is_changed() after redo");
    assert_eq!(modified_recent, repo.recent());
    assert_eq!(modified_data_store, snapshot(&repo));
}

fn assert_change_error(make_change: impl Fn() -> Change, error: Error) {
    let mut repo = repo();
    let (original_recent, original_data_store) = (repo.recent().to_vec(), snapshot(&repo));

    let result = repo.modify(make_change());

    assert_eq!(Err((make_change(), error)), result);
    assert_eq!(original_recent, repo.recent());
    assert_eq!(original_data_store, snapshot(&repo));
}

fn assert_change_data_store_failed(make_change: impl Fn() -> Change) {
    let mut repo = null_repo();
    let original_recent = repo.recent().to_vec();

    let result = repo.modify(make_change());

    assert_eq!(Err((make_change(), Error::DataStoreFailed)), result);
    assert_eq!(original_recent, repo.recent());
}

#[test]
fn recent_test() {
    let mut repository = empty_repo();

    (0..RECENT_MAX_LEN).for_each(|i| {
        repository.push_recent(thing(i as u128, ThingKind::Npc, &format!("Thing {}", i)));
        assert_eq!(i + 1, repository.recent().len());
    });

    assert_eq!(
        Some("Thing 0".to_string()),
        repository.recent().first().map(name_of)
    );

    repository.push_recent(thing(u128::MAX, ThingKind::Npc, "The Cat in the Hat"));
    assert_eq!(RECENT_MAX_LEN, repository.recent().len());

    assert_eq!(
        Some("Thing 1".to_string()),
        repository.recent().first().map(name_of)
    );
    assert_eq!(
        Some("The Cat in the Hat".to_string()),
        repository.recent().last().map(name_of)
    );
}

#[test]
fn journal_recent_test() {
    let repo = repo();
    assert_eq!(4, repo.journal().unwrap().len());
    assert_eq!(1, repo.recent().len());
}

#[test]
fn get_by_name_test_from_recent() {
    let result = repo().get_by_name("ODYSSEUS").unwrap();

    assert_eq!(RecordStatus::Unsaved, result.status);
    assert_eq!("Odysseus", name_of(&result.thing));
}

#[test]
fn get_by_name_test_from_journal() {
    let result = repo().get_by_name("OLYMPUS").unwrap();

    assert_eq!(RecordStatus::Saved, result.status);
    assert_eq!("Olympus", name_of(&result.thing));
}

#[test]
fn get_by_name_test_not_found() {
    assert_eq!(Err(Error::NotFound), repo().get_by_name("NOBODY"));
}

#[test]
fn get_by_uuid_test_from_recent() {
    let result = repo().get_by_uuid(&ODYSSEUS_UUID).unwrap();

    assert_eq!(RecordStatus::Unsaved, result.status);
    assert_eq!("Odysseus", name_of(&result.thing));
}

#[test]
fn get_by_uuid_test_from_journal() {
    let result = repo().get_by_uuid(&OLYMPUS_UUID).unwrap();

    assert_eq!(RecordStatus::Saved, result.status);
    assert_eq!("Olympus", name_of(&result.thing));
}

#[test]
fn change_test_delete_from_journal_success() {
    assert_change_success(
        Change::Delete {
            uuid: OLYMPUS_UUID,
            name: "blah".to_string(),
        },
        |repo| repo.get_by_name("Olympus") == Err(Error::NotFound),
        "deleting blah",
        "deleting Olympus",
    );
}

#[test]
fn change_test_delete_from_recent_success() {
    assert_change_success(
        Change::Delete {
            uuid: ODYSSEUS_UUID,
            name: "blah".to_string(),
        },
        |repo| repo.get_by_name("Odysseus") == Err(Error::NotFound),
        "deleting blah",
        "deleting Odysseus",
    );
}

#[test]
fn change_test_delete_not_found() {
    assert_change_error(
        || Change::Delete {
            uuid: 0,
            name: "Nobody".to_string(),
        },
        Error::NotFound,
    );
}

#[test]
fn change_test_delete_data_store_failed() {
    assert_change_data_store_failed(|| Change::Delete {
        uuid: OLYMPUS_UUID,
        name: "Olympus".to_string(),
    });
}

#[test]
fn change_test_edit_by_name_from_recent_success() {
    assert_change_success(
        Change::Edit {
            name: "ODYSSEUS".into(),
            uuid: None,
            diff: data(ThingKind::Npc, "Nobody"),
        },
        |repo| stored_name(repo, ODYSSEUS_UUID) == Ok(Some("Nobody".to_string())),
        "editing ODYSSEUS",
        "editing Nobody",
    );
}

#[test]
fn change_test_edit_by_name_from_recent_wrong_type() {
    assert_change_error(
        || Change::Edit {
            name: "Odysseus".into(),
            uuid: None,
            diff: ThingData {
                kind: ThingKind::Place,
                name: None,
            },
        },
        Error::NotFound,
    );
}

#[test]
fn change_test_edit_by_name_from_recent_data_store_failed() {
    // A repository whose data store always fails, with Odysseus among the recent things.
    let mut repo = Repository::new(NullDataStore);
    repo.push_recent(thing(ODYSSEUS_UUID, ThingKind::Npc, "Odysseus"));
    let change = Change::Edit {
        name: "Odysseus".into(),
        uuid: None,
        diff: data(ThingKind::Npc, "Nobody"),
    };

    {
        let result = repo.modify(change);

        assert_eq!(
            Ok(Some("Nobody".to_string())),
            result.map(|opt_r| opt_r.map(|r: Record| name_of(&r.thing))),
        );
        assert!(repo.recent().iter().any(|t| name_of(t) == "Nobody"));
    }

    {
        let undo_result = repo.undo();

        assert_eq!(
            Ok(Some("Odysseus".to_string())),
            undo_result
                .unwrap()
                .map(|opt_r| opt_r.map(|r: Record| name_of(&r.thing))),
        );
        assert!(repo.recent().iter().any(|t| name_of(t) == "Odysseus"));
    }

    {
        let redo_result = repo.redo();

        assert_eq!(
            Ok(Some("Nobody".to_string())),
            redo_result
                .unwrap()
                .map(|opt_r| opt_r.map(|r: Record| name_of(&r.thing))),
        );
        assert!(repo.recent().iter().any(|t| name_of(t) == "Nobody"));
    }
}

#[test]
fn change_test_edit_by_name_from_journal_success() {
    assert_change_success(
        Change::Edit {
            name: "OLYMPUS".into(),
            uuid: None,
            diff: data(ThingKind::Place, "Hades"),
        },
        |repo| stored_name(repo, OLYMPUS_UUID) == Ok(Some("Hades".to_string())),
        "editing OLYMPUS",
        "editing Hades",
    );
}

#[test]
fn change_test_edit_by_name_from_journal_wrong_type() {
    assert_change_error(
        || Change::Edit {
            name: "Olympus".into(),
            uuid: None,
            diff: npc_default(),
        },
        Error::NotFound,
    );
}

#[test]
fn change_test_edit_by_name_from_journal_data_store_failed() {
    assert_change_data_store_failed(|| Change::Edit {
        name: "Olympus".into(),
        uuid: None,
        diff: data(ThingKind::Place, "Hades"),
    });
}

#[test]
fn change_test_edit_by_name_not_found() {
    assert_change_error(
        || Change::Edit {
            name: "Nobody".into(),
            uuid: None,
            diff: npc_default(),
        },
        Error::NotFound,
    );
}

#[test]
fn change_test_edit_by_uuid_from_recent_success() {
    assert_change_success(
        Change::Edit {
            name: "blah".into(),
            uuid: Some(ODYSSEUS_UUID),
            diff: data(ThingKind::Npc, "Nobody"),
        },
        |repo| {
            stored_name(repo, ODYSSEUS_UUID) == Ok(Some("Nobody".to_string()))
                && !recent_has(repo, |t| t.uuid == ODYSSEUS_UUID)
        },
        "editing blah",
        "editing Nobody",
    );
}

#[test]
fn change_test_edit_by_uuid_from_journal_success() {
    assert_change_success(
        Change::Edit {
            name: "blah".into(),
            uuid: Some(OLYMPUS_UUID),
            diff: data(ThingKind::Place, "Hades"),
        },
        |repo| stored_name(repo, OLYMPUS_UUID) == Ok(Some("Hades".to_string())),
        "editing blah",
        "editing Hades",
    );
}

#[test]
fn change_test_edit_by_uuid_wrong_type() {
    assert_change_error(
        || Change::Edit {
            name: "Olympus".into(),
            uuid: Some(OLYMPUS_UUID),
            diff: npc_default(),
        },
        Error::NotFound,
    );
}

#[test]
fn change_test_edit_by_uuid_not_found() {
    assert_change_error(
        || Change::Edit {
            name: "Nobody".into(),
            uuid: Some(0),
            diff: npc_default(),
        },
        Error::NotFound,
    );
}

#[test]
fn change_test_edit_by_uuid_from_journal_data_store_failed() {
    assert_change_data_store_failed(|| Change::Edit {
        name: "Olympus".into(),
        uuid: Some(OLYMPUS_UUID),
        diff: data(ThingKind::Place, "Hades"),
    });
}

#[test]
fn change_test_edit_and_unsave_success() {
    assert_change_success(
        Change::EditAndUnsave {
            uuid: OLYMPUS_UUID,
            name: "blah".into(),
            diff: data(ThingKind::Place, "Hades"),
        },
        |repo| {
            recent_has(repo, |t| name_of(t) == "Hades") && stored_name(repo, OLYMPUS_UUID) == Ok(None)
        },
        "editing blah",
        "editing Hades",
    );
}

#[test]
fn change_test_edit_and_unsave_not_found() {
    assert_change_error(
        || Change::EditAndUnsave {
            name: "Nobody".into(),
            uuid: 0,
            diff: npc_default(),
        },
        Error::NotFound,
    );
}

#[test]
fn change_test_create_success() {
    assert_change_success(
        Change::Create {
            thing_data: data(ThingKind::Npc, "Penelope"),
            uuid: None,
        },
        |repo| recent_has(repo, |t| name_of(t) == "Penelope"),
        "creating Penelope",
        "creating Penelope",
    );
}

#[test]
fn change_test_create_name_already_exists_in_journal() {
    let existing_thing = thing(OLYMPUS_UUID, ThingKind::Place, "Olympus");

    assert_change_error(
        || Change::Create {
            thing_data: data(ThingKind::Npc, "OLYMPUS"),
            uuid: None,
        },
        Error::NameAlreadyExists(existing_thing),
    );
}

#[test]
fn change_test_create_name_already_exists_in_recent() {
    let existing_thing = repo()
        .recent()
        .iter()
        .find(|t| t.uuid == ODYSSEUS_UUID)
        .unwrap()
        .clone();

    assert_change_error(
        || Change::Create {
            thing_data: data(ThingKind::Npc, "ODYSSEUS"),
            uuid: None,
        },
        Error::NameAlreadyExists(existing_thing.clone()),
    );
}

#[test]
fn change_test_save_by_name_success() {
    assert_change_success(
        Change::Save {
            name: "ODYSSEUS".to_string(),
            uuid: None,
        },
        |repo| {
            stored_name(repo, ODYSSEUS_UUID) == Ok(Some("Odysseus".to_string()))
                && !recent_has(repo, |t| t.uuid == ODYSSEUS_UUID)
        },
        "saving ODYSSEUS to journal",
        "saving Odysseus to journal",
    );
}

#[test]
fn change_test_save_data_store_failed() {
    let mut repo = null_repo();

    repo.modify(Change::Create {
        thing_data: data(ThingKind::Place, "Odysseus"),
        uuid: None,
    })
    .unwrap();

    let original_recent = repo.recent().to_vec();

    let change = || Change::Save {
        name: "ODYSSEUS".to_string(),
        uuid: None,
    };
    assert_eq!(
        repo.modify(change()),
        Err((change(), Error::DataStoreFailed)),
    );

    assert_eq!(original_recent, repo.recent());
}

#[test]
fn change_test_save_already_saved() {
    assert_change_error(
        || Change::Save {
            name: "OLYMPUS".to_string(),
            uuid: None,
        },
        Error::NotFound,
    );
}

#[test]
fn change_test_save_not_found() {
    assert_change_error(
        || Change::Save {
            name: "NOBODY".to_string(),
            uuid: None,
        },
        Error::NotFound,
    );
}

#[test]
fn change_test_unsave_success() {
    assert_change_success(
        Change::Unsave {
            uuid: OLYMPUS_UUID,
            name: "blah".to_string(),
        },
        |repo| {
            stored_name(repo, OLYMPUS_UUID) == Ok(None)
                && recent_has(repo, |t| t.uuid == OLYMPUS_UUID)
        },
        "removing blah from journal",
        "removing Olympus from journal",
    );
}

#[test]
fn change_test_create_and_save_success() {
    assert_change_success(
        Change::CreateAndSave {
            thing_data: data(ThingKind::Npc, "Penelope"),
            uuid: None,
        },
        |repo| repo.data_store().get_thing_by_name("Penelope").unwrap().is_some(),
        "creating Penelope",
        "creating Penelope",
    );
}

#[test]
fn change_test_create_and_save_name_already_exists_in_journal() {
    let existing_thing = thing(OLYMPUS_UUID, ThingKind::Place, "Olympus");

    assert_change_error(
        || Change::CreateAndSave {
            thing_data: data(ThingKind::Npc, "OLYMPUS"),
            uuid: None,
        },
        Error::NameAlreadyExists(existing_thing),
    );
}

#[test]
fn change_test_create_and_save_name_already_exists_in_recent() {
    let existing_thing = thing(ODYSSEUS_UUID, ThingKind::Npc, "Odysseus");

    assert_change_error(
        || Change::CreateAndSave {
            thing_data: data(ThingKind::Npc, "ODYSSEUS"),
            uuid: None,
        },
        Error::NameAlreadyExists(existing_thing.clone()),
    );
}

#[test]
fn change_test_create_and_save_data_store_failed() {
    let mut repo = null_repo();

    let change = || Change::CreateAndSave {
        thing_data: data(ThingKind::Npc, "Odysseus"),
        uuid: None,
    };

    assert_eq!(
        repo.modify(change()),
        Err((change(), Error::DataStoreFailed)),
    );
}

#[test]
fn change_test_set_key_value_success() {
    let mut repo = repo();

    let one = Time::try_new(1, 0, 0, 0).unwrap();
    let two = Time::try_new(2, 0, 0, 0).unwrap();

    assert_eq!(
        Ok(KeyValue::Time(None)),
        repo.get_key_value(&KeyValue::Time(None))
    );

    assert_eq!(
        Ok(None),
        repo.modify(Change::SetKeyValue {
            key_value: KeyValue::Time(Some(Time::try_new(1, 0, 0, 0).unwrap())),
        }),
    );

    {
        let undo_result = repo.undo_history()[0];

        assert_eq!(
            &Change::SetKeyValue {
                key_value: KeyValue::Time(None),
            },
            undo_result,
        );
        assert_eq!("changing the time", undo_result.display_undo().to_string());
        assert_eq!("changing the time", undo_result.display_redo().to_string());
    }

    repo.modify(Change::SetKeyValue {
        key_value: KeyValue::Time(Some(Time::try_new(2, 0, 0, 0).unwrap())),
    })
    .unwrap();

    repo.modify(Change::SetKeyValue {
        key_value: KeyValue::Time(None),
    })
    .unwrap();

    assert_eq!(
        Ok(KeyValue::Time(None)),
        repo.get_key_value(&KeyValue::Time(None))
    );

    assert_eq!(Some(Ok(None)), repo.undo());

    assert_eq!(
        Ok(KeyValue::Time(Some(two))),
        repo.get_key_value(&KeyValue::Time(None))
    );

    let _ = repo.undo();

    assert_eq!(
        Ok(KeyValue::Time(Some(one))),
        repo.get_key_value(&KeyValue::Time(None))
    );

    let _ = repo.undo();

    assert_eq!(
        Ok(KeyValue::Time(None)),
        repo.get_key_value(&KeyValue::Time(None))
    );
}

#[test]
fn change_test_set_key_value_data_store_failed() {
    let change = || Change::SetKeyValue {
        key_value: KeyValue::Time(Some(Time::default())),
    };

    assert_eq!(
        null_repo().modify(change()),
        Err((change(), Error::DataStoreFailed)),
    );
}

#[test]
fn repository_debug_test() {
    assert_eq!(
        "Repository { data_store_enabled: false, recent: [] }",
        empty_repo().debug_text(),
    );
}

#[test]
fn data_store_enabled_test_success() {
    let mut repo = repo();
    repo.init();
    assert!(repo.data_store_enabled());
}

#[test]
fn data_store_enabled_test_failure() {
    let mut repo = null_repo();
    repo.init();
    assert!(!repo.data_store_enabled());
}
