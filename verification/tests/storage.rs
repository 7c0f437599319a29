use initiative::storage::BackupData;
use initiative::storage::backup::{export, import, ImportStat};
use initiative::storage::{
    Change, DataStore, Error, FallbackStore, ImportStats, KeyValue, MemoryDataStore,
    NullDataStore, Record, RecordStatus, Repository, StorageCommand, Thing, ThingData, ThingKind,
};
use initiative::app::CommandMatches;
use initiative::time::Time;

fn thing(uuid: u128, kind: ThingKind, name: &str) -> Thing {
    Thing {
        uuid,
        data: ThingData {
            kind,
            name: Some(name.to_string()),
        },
    }
}

fn data(kind: ThingKind, name: &str) -> ThingData {
    ThingData {
        kind,
        name: Some(name.to_string()),
    }
}

fn memory_with_odysseus() -> MemoryDataStore {
    let mut store = MemoryDataStore::default();
    store.save_thing(&thing(5, ThingKind::Npc, "Odysseus")).unwrap();
    store.save_thing(&thing(1, ThingKind::Place, "Olympus")).unwrap();
    store
}

fn repo() -> Repository<MemoryDataStore> {
    let mut repo = Repository::new(memory_with_odysseus());
    repo.init();
    repo
}

fn null_repo() -> Repository<NullDataStore> {
    let mut repo = Repository::new(NullDataStore);
    repo.init();
    repo
}

fn journal_names<D: DataStore>(repo: &Repository<D>) -> Vec<String> {
    let mut names: Vec<String> = repo
        .journal()
        .unwrap()
        .into_iter()
        .map(|t| t.data.name.unwrap_or_default())
        .collect();
    names.sort();
    names
}

fn recent_names<D: DataStore>(repo: &Repository<D>) -> Vec<String> {
    repo.recent()
        .iter()
        .map(|t| t.data.name.clone().unwrap_or_default())
        .collect()
}

#[test]
fn debug_text_of_unchecked_null_store_test() {
    assert_eq!(
        "Repository { data_store_enabled: false, recent: [] }",
        Repository::new(NullDataStore).debug_text(),
    );
}

#[test]
fn repository_debug_with_recent_test() {
    let mut repo = repo();
    repo.modify(Change::Create {
        thing_data: data(ThingKind::Npc, "Penelope"),
        uuid: Some(7),
    })
    .unwrap();
    assert_eq!(
        "Repository { data_store_enabled: true, recent: [\"Penelope\"] }",
        repo.debug_text(),
    );
}

#[test]
fn data_store_enabled_test_success_with_saved_odysseus() {
    let repo = repo();
    assert!(repo.data_store_enabled());
}

#[test]
fn data_store_enabled_test_failure_with_saved_odysseus() {
    let repo = null_repo();
    assert!(!repo.data_store_enabled());
    assert!(matches!(repo.data_store(), FallbackStore::Memory(_)));
}

#[test]
fn recent_test_with_saved_odysseus() {
    let mut repo = repo();
    for i in 0..101u128 {
        repo.modify_without_undo(Change::Create {
            thing_data: data(ThingKind::Npc, &format!("Thing {}", i)),
            uuid: Some(100 + i),
        })
        .unwrap();
    }
    let names = recent_names(&repo);
    assert_eq!(100, names.len());
    assert_eq!("Thing 1", names[0]);
    assert_eq!("Thing 100", names[99]);
}

#[test]
fn get_by_name_test_from_journal_with_saved_odysseus() {
    let repo = repo();
    let record = repo.get_by_name("ODYSSEUS").unwrap();
    assert_eq!(RecordStatus::Saved, record.status);
    assert_eq!(5, record.thing.uuid);
    assert!(record.is_saved());
}

#[test]
fn get_by_name_test_not_found_with_saved_odysseus() {
    assert_eq!(Err(Error::NotFound), repo().get_by_name("Nobody"));
    assert_eq!(
        Err(Error::DataStoreFailed),
        Repository::new(NullDataStore).get_by_name("Nobody")
    );
}

#[test]
fn get_by_uuid_test_from_recent_with_saved_odysseus() {
    let mut repo = repo();
    repo.modify(Change::Create {
        thing_data: data(ThingKind::Npc, "Penelope"),
        uuid: Some(7),
    })
    .unwrap();
    let record = repo.get_by_uuid(&7).unwrap();
    assert!(record.is_unsaved());
    assert_eq!(Some("Penelope".to_string()), record.thing.data.name);
}

#[test]
fn change_test_create_success_with_saved_odysseus() {
    let mut repo = repo();
    let change = Change::Create {
        thing_data: data(ThingKind::Npc, "Penelope"),
        uuid: Some(7),
    };
    assert_eq!("creating Penelope", change.display_redo().to_string());

    let record = repo.modify(change).unwrap().unwrap();
    assert_eq!(RecordStatus::Unsaved, record.status);
    assert_eq!(vec!["Penelope"], recent_names(&repo));
    assert_eq!(
        "deleting Penelope",
        repo.undo_history()[0].display_redo().to_string()
    );
    assert_eq!(
        "creating Penelope",
        repo.undo_history()[0].display_undo().to_string()
    );

    repo.undo().unwrap().unwrap();
    assert!(recent_names(&repo).is_empty());
    assert!(repo.undo_history().is_empty());
    assert_eq!(
        "creating Penelope",
        repo.get_redo().unwrap().display_redo().to_string()
    );

    repo.redo().unwrap().unwrap();
    assert_eq!(vec!["Penelope"], recent_names(&repo));
    assert!(repo.get_redo().is_none());
}

#[test]
fn change_test_create_name_already_exists_in_journal_with_saved_odysseus() {
    let mut repo = repo();
    let result = repo.modify(Change::Create {
        thing_data: data(ThingKind::Npc, "odysseus"),
        uuid: None,
    });
    match result {
        Err((Change::Create { .. }, Error::NameAlreadyExists(thing))) => assert_eq!(5, thing.uuid),
        other => panic!("{:?}", other),
    }
    assert!(recent_names(&repo).is_empty());
}

#[test]
fn change_test_create_missing_name() {
    let mut repo = repo();
    let result = repo.modify(Change::Create {
        thing_data: ThingData {
            kind: ThingKind::Npc,
            name: None,
        },
        uuid: Some(9),
    });
    assert!(matches!(result, Err((_, Error::MissingName))));
}

#[test]
fn change_test_create_and_save_success_with_saved_odysseus() {
    let mut repo = repo();
    repo.modify(Change::CreateAndSave {
        thing_data: data(ThingKind::Place, "Ithaca"),
        uuid: Some(8),
    })
    .unwrap();
    assert_eq!(vec!["Ithaca", "Odysseus", "Olympus"], journal_names(&repo));

    repo.undo().unwrap().unwrap();
    assert_eq!(vec!["Odysseus", "Olympus"], journal_names(&repo));
}

#[test]
fn change_test_delete_from_journal_success_with_saved_odysseus() {
    let mut repo = repo();
    let record = repo
        .modify(Change::Delete {
            uuid: 5,
            name: "Odysseus".to_string(),
        })
        .unwrap()
        .unwrap();
    assert!(record.is_deleted());
    assert_eq!(vec!["Olympus"], journal_names(&repo));
    assert_eq!(
        "creating Odysseus",
        repo.undo_history()[0].display_redo().to_string()
    );

    repo.undo().unwrap().unwrap();
    assert_eq!(vec!["Odysseus", "Olympus"], journal_names(&repo));
}

#[test]
fn change_test_delete_not_found_with_saved_odysseus() {
    let mut repo = repo();
    let change = Change::Delete {
        uuid: 42,
        name: "Nobody".to_string(),
    };
    assert_eq!(
        Err((
            Change::Delete {
                uuid: 42,
                name: "Nobody".to_string()
            },
            Error::NotFound
        )),
        repo.modify(change),
    );
}

#[test]
fn change_test_save_by_name_success_with_saved_odysseus() {
    let mut repo = repo();
    repo.modify(Change::Create {
        thing_data: data(ThingKind::Npc, "Penelope"),
        uuid: Some(7),
    })
    .unwrap();
    repo.modify(Change::Save {
        name: "PENELOPE".to_string(),
        uuid: None,
    })
    .unwrap();
    assert!(recent_names(&repo).is_empty());
    assert_eq!(vec!["Odysseus", "Olympus", "Penelope"], journal_names(&repo));
    assert_eq!(
        "saving Penelope to journal",
        repo.undo_history()[0].display_undo().to_string()
    );

    repo.undo().unwrap().unwrap();
    assert_eq!(vec!["Penelope"], recent_names(&repo));
    assert_eq!(vec!["Odysseus", "Olympus"], journal_names(&repo));
}

#[test]
fn change_test_save_not_found_with_saved_odysseus() {
    let mut repo = repo();
    assert!(matches!(
        repo.modify(Change::Save {
            name: "Nobody".to_string(),
            uuid: None,
        }),
        Err((_, Error::NotFound))
    ));
}

#[test]
fn change_test_save_data_store_failed_with_saved_odysseus() {
    let mut repo = Repository::new(NullDataStore);
    repo.modify(Change::Create {
        thing_data: data(ThingKind::Npc, "Penelope"),
        uuid: Some(7),
    })
    .unwrap();
    repo.modify(Change::Create {
        thing_data: data(ThingKind::Npc, "Telemachus"),
        uuid: Some(8),
    })
    .unwrap();
    assert_eq!(
        Err((
            Change::Save {
                name: "Penelope".to_string(),
                uuid: Some(7)
            },
            Error::DataStoreFailed
        )),
        repo.modify(Change::Save {
            name: "Penelope".to_string(),
            uuid: Some(7),
        }),
    );
    // The thing goes back among the recent things, as the newest.
    assert_eq!(vec!["Telemachus", "Penelope"], recent_names(&repo));
}

#[test]
fn change_test_unsave_success_with_saved_odysseus() {
    let mut repo = repo();
    repo.modify(Change::Unsave {
        uuid: 5,
        name: "Odysseus".to_string(),
    })
    .unwrap();
    assert_eq!(vec!["Odysseus"], recent_names(&repo));
    assert_eq!(vec!["Olympus"], journal_names(&repo));

    repo.undo().unwrap().unwrap();
    assert!(recent_names(&repo).is_empty());
    assert_eq!(vec!["Odysseus", "Olympus"], journal_names(&repo));
}

#[test]
fn change_test_edit_by_name_from_journal_success_with_saved_odysseus() {
    let mut repo = repo();
    repo.modify(Change::Edit {
        name: "Odysseus".to_string(),
        uuid: None,
        diff: data(ThingKind::Npc, "Nobody"),
    })
    .unwrap();
    assert_eq!(vec!["Nobody", "Olympus"], journal_names(&repo));
    assert_eq!(
        "editing Nobody",
        repo.undo_history()[0].display_undo().to_string()
    );

    repo.undo().unwrap().unwrap();
    assert_eq!(vec!["Odysseus", "Olympus"], journal_names(&repo));
}

#[test]
fn change_test_edit_by_name_from_journal_wrong_type_with_saved_odysseus() {
    let mut repo = repo();
    assert!(matches!(
        repo.modify(Change::Edit {
            name: "Odysseus".to_string(),
            uuid: None,
            diff: data(ThingKind::Place, "Ithaca"),
        }),
        Err((_, Error::NotFound))
    ));
}

#[test]
fn change_test_edit_by_uuid_from_recent_success_with_saved_odysseus() {
    let mut repo = repo();
    repo.modify(Change::Create {
        thing_data: data(ThingKind::Npc, "Penelope"),
        uuid: Some(7),
    })
    .unwrap();
    repo.modify(Change::Edit {
        name: "Penelope".to_string(),
        uuid: Some(7),
        diff: data(ThingKind::Npc, "Penny"),
    })
    .unwrap();
    // Editing a recent thing saves it to the journal.
    assert!(recent_names(&repo).is_empty());
    assert_eq!(vec!["Odysseus", "Olympus", "Penny"], journal_names(&repo));

    repo.undo().unwrap().unwrap();
    assert_eq!(vec!["Penelope"], recent_names(&repo));
    assert_eq!(vec!["Odysseus", "Olympus"], journal_names(&repo));
}

#[test]
fn change_test_set_key_value_success_with_saved_odysseus() {
    let mut repo = repo();
    let time = Time::try_new(2, 3, 4, 5).unwrap();
    let change = Change::SetKeyValue {
        key_value: KeyValue::Time(Some(time)),
    };
    assert_eq!("changing the time", change.display_redo().to_string());
    repo.modify(change).unwrap();
    assert_eq!(
        KeyValue::Time(Some(Time::try_new(2, 3, 4, 5).unwrap())),
        repo.get_key_value(&KeyValue::Time(None)).unwrap()
    );

    repo.undo().unwrap().unwrap();
    assert_eq!(
        KeyValue::Time(None),
        repo.get_key_value(&KeyValue::Time(None)).unwrap()
    );
}

#[test]
fn change_test_set_key_value_data_store_failed_with_saved_odysseus() {
    let mut repo = Repository::new(NullDataStore);
    let result = repo.modify(Change::SetKeyValue {
        key_value: KeyValue::Time(None),
    });
    assert_eq!(
        Err((
            Change::SetKeyValue {
                key_value: KeyValue::Time(None)
            },
            Error::DataStoreFailed
        )),
        result
    );
}

#[test]
fn undo_redo_empty_test() {
    let mut repo = repo();
    assert!(repo.undo().is_none());
    assert!(repo.redo().is_none());
}

#[test]
fn undo_history_length_test() {
    let mut repo = repo();
    for i in 0..12u128 {
        repo.modify(Change::Create {
            thing_data: data(ThingKind::Npc, &format!("Thing {}", i)),
            uuid: Some(100 + i),
        })
        .unwrap();
    }
    assert_eq!(10, repo.undo_history().len());
}

#[test]
fn key_value_test() {
    let kv = KeyValue::Time(Some(Time::try_new(1, 2, 3, 4).unwrap()));
    assert_eq!("time", kv.key_raw());
    assert_eq!(("time", Some("1:02:03:04".to_string())), kv.key_value_raw());
    assert_eq!(("time", None), KeyValue::Time(None).key_value_raw());
    assert_eq!(None, KeyValue::Time(None).time());
}

#[test]
fn record_status_test() {
    let record = Record {
        status: RecordStatus::Deleted,
        thing: thing(1, ThingKind::Npc, "A"),
    };
    assert!(record.is_deleted());
    assert!(!record.is_saved());
    assert!(!record.is_unsaved());
}

#[test]
fn memory_data_store_test() {
    let mut store = memory_with_odysseus();
    assert_eq!(Err(()), store.save_thing(&thing(5, ThingKind::Npc, "Again")));
    assert_eq!(Ok(()), store.delete_thing_by_uuid(&5));
    assert_eq!(Err(()), store.delete_thing_by_uuid(&5));
    assert_eq!(Ok(None), store.get_thing_by_uuid(&5));
    assert_eq!(Ok(()), store.set_value("time", "1:00:00:00"));
    assert_eq!(Ok(Some("1:00:00:00".to_string())), store.get_value("time"));
    assert_eq!(Ok(()), store.delete_value("time"));
    assert_eq!(Ok(None), store.get_value("time"));
    let (things, values) = store.snapshot();
    assert_eq!(1, things.len());
    assert!(values.is_empty());
    assert_eq!(
        1,
        store.get_things_by_name_start("ol", None).unwrap().len()
    );
}

#[test]
fn null_data_store_test() {
    let mut store = NullDataStore;
    assert_eq!(Err(()), store.health_check());
    assert_eq!(Err(()), store.save_thing(&thing(1, ThingKind::Npc, "A")));
    assert_eq!(Err(()), store.get_value("time"));
}

#[test]
fn get_by_name_start_test() {
    let mut repo = repo();
    repo.modify(Change::Create {
        thing_data: data(ThingKind::Npc, "Oedipus"),
        uuid: Some(9),
    })
    .unwrap();
    let records = repo.get_by_name_start("o", Some(10)).unwrap();
    assert_eq!(3, records.len());
    assert!(records[2].is_unsaved());
    assert_eq!(1, repo.get_by_name_start("o", Some(1)).unwrap().len());
}

#[test]
fn import_export_test() {
    let mut repo = repo();
    repo.modify(Change::SetKeyValue {
        key_value: KeyValue::Time(Some(Time::try_new(3, 0, 0, 0).unwrap())),
    })
    .unwrap();
    let backup = export(&repo);
    assert_eq!(2, backup.things.len());
    assert_eq!(Some("3:00:00:00".to_string()), backup.key_value.time);

    let mut other = Repository::new(MemoryDataStore::default());
    other.init();
    other
        .modify(Change::CreateAndSave {
            thing_data: data(ThingKind::Npc, "Odysseus"),
            uuid: Some(77),
        })
        .unwrap();
    let stats = import(&mut other, backup).unwrap();
    assert_eq!(
        "Places: 1 created \\\nCharacters: 1 updated \\\nKey/values: 1 created",
        stats.to_string()
    );
}

#[test]
fn import_stats_display_test() {
    assert_eq!("Nothing to import.", ImportStats::default().to_string());
    let stat = ImportStat {
        created: 2,
        updated: 0,
        failed: 3,
    };
    assert_eq!("2 created, 3 failed", stat.to_string());
}

#[test]
fn storage_parse_input_test() {
    let repo = repo();

    assert_eq!(
        CommandMatches::new_fuzzy(StorageCommand::Load {
            name: "Odysseus".to_string()
        }),
        StorageCommand::parse_input("Odysseus", &repo),
    );

    assert_eq!(
        CommandMatches::new_canonical(StorageCommand::Delete {
            name: "Nobody".to_string(),
        }),
        StorageCommand::parse_input("delete Nobody", &repo),
    );

    assert_eq!(
        StorageCommand::parse_input("delete Nobody", &repo),
        StorageCommand::parse_input("DELETE Nobody", &repo),
    );

    assert_eq!(
        CommandMatches::new_canonical(StorageCommand::Journal),
        StorageCommand::parse_input("JOURNAL", &repo),
    );

    assert_eq!(
        CommandMatches::default(),
        StorageCommand::parse_input("potato", &repo),
    );
}

#[test]
fn storage_display_test() {
    for command in [
        StorageCommand::Delete {
            name: "Odysseus".to_string(),
        },
        StorageCommand::Export,
        StorageCommand::Import,
        StorageCommand::Journal,
        StorageCommand::Load {
            name: "Odysseus".to_string(),
        },
        StorageCommand::Redo,
        StorageCommand::Save {
            name: "Odysseus".to_string(),
        },
        StorageCommand::Undo,
    ] {
        let text = command.to_string();
        assert_eq!(
            Some(command),
            StorageCommand::parse_input_with(&text, false).canonical_match,
        );
    }
    assert_eq!("load Odysseus", StorageCommand::Load { name: "Odysseus".to_string() }.to_string());
}

#[test]
fn storage_autocomplete_test() {
    let mut repo = repo();
    let suggestions: Vec<(String, String)> = StorageCommand::command_suggestions("", &repo)
        .into_iter()
        .map(|s| (s.term, s.summary))
        .collect();
    assert_eq!(8, suggestions.len());
    assert_eq!(
        ("undo".to_string(), "Nothing to undo.".to_string()),
        suggestions[6]
    );

    repo.modify(Change::Create {
        thing_data: data(ThingKind::Npc, "Penelope"),
        uuid: Some(7),
    })
    .unwrap();
    let suggestions = StorageCommand::autocomplete("u", &repo);
    assert_eq!(1, suggestions.len());
    assert_eq!("undo creating Penelope", suggestions[0].summary);

    let suggestions = StorageCommand::autocomplete("l", &repo);
    assert_eq!("load [name]", suggestions[0].term);
}

fn empty_app_repo() -> Repository<MemoryDataStore> {
    let mut repo = Repository::new(MemoryDataStore::default());
    repo.init();
    repo
}

#[test]
fn storage_command_parse_input_test() {
    let repo = empty_app_repo();

    assert_eq!(
        CommandMatches::default(),
        StorageCommand::parse_input("Odysseus", &repo),
    );

    assert_eq!(
        CommandMatches::new_canonical(StorageCommand::Delete {
            name: "Odysseus".to_string(),
        }),
        StorageCommand::parse_input("delete Odysseus", &repo),
    );

    assert_eq!(
        StorageCommand::parse_input("delete Odysseus", &repo),
        StorageCommand::parse_input("DELETE Odysseus", &repo),
    );

    assert_eq!(
        CommandMatches::new_canonical(StorageCommand::Save {
            name: "Odysseus".to_string(),
        }),
        StorageCommand::parse_input("save Odysseus", &repo),
    );

    assert_eq!(
        StorageCommand::parse_input("save Odysseus", &repo),
        StorageCommand::parse_input("SAVE Odysseus", &repo),
    );

    assert_eq!(
        CommandMatches::new_canonical(StorageCommand::Load {
            name: "Odysseus".to_string()
        }),
        StorageCommand::parse_input("load Odysseus", &repo),
    );

    assert_eq!(
        StorageCommand::parse_input("load Odysseus", &repo),
        StorageCommand::parse_input("LOAD Odysseus", &repo),
    );

    assert_eq!(
        CommandMatches::new_canonical(StorageCommand::Journal),
        StorageCommand::parse_input("journal", &repo),
    );

    assert_eq!(
        CommandMatches::new_canonical(StorageCommand::Journal),
        StorageCommand::parse_input("JOURNAL", &repo),
    );

    assert_eq!(
        CommandMatches::default(),
        StorageCommand::parse_input("potato", &repo),
    );
}

#[test]
fn storage_command_display_test() {
    let repo = empty_app_repo();

    for command in [
        StorageCommand::Delete {
            name: "Odysseus".to_string(),
        },
        StorageCommand::Save {
            name: "Odysseus".to_string(),
        },
        StorageCommand::Export,
        StorageCommand::Import,
        StorageCommand::Journal,
        StorageCommand::Load {
            name: "Odysseus".to_string(),
        },
    ] {
        let command_string = command.to_string();
        assert_ne!("", command_string);
        assert_eq!(
            CommandMatches::new_canonical(command),
            StorageCommand::parse_input(&command_string, &repo),
            "{}",
            command_string,
        );
    }
}

fn suggestions(input: &str, repo: &Repository<MemoryDataStore>) -> Vec<(String, String)> {
    StorageCommand::autocomplete(input, repo)
        .into_iter()
        .map(|s| (s.term, s.summary))
        .collect()
}

fn pairs(list: &[(&str, &str)]) -> Vec<(String, String)> {
    list.iter()
        .map(|(a, b)| (a.to_string(), b.to_string()))
        .collect()
}

#[test]
fn storage_command_autocomplete_keywords_test() {
    let mut repo = empty_app_repo();
    repo.modify(Change::Create {
        thing_data: data(ThingKind::Npc, "Odysseus"),
        uuid: Some(5),
    })
    .unwrap();

    for (input, expected) in [
        ("delete", ("delete [name]", "remove an entry from journal")),
        ("DELete", ("delete [name]", "remove an entry from journal")),
        ("load", ("load [name]", "load an entry")),
        ("LOad", ("load [name]", "load an entry")),
        ("sa", ("save [name]", "save an entry to journal")),
        ("SA", ("save [name]", "save an entry to journal")),
        ("j", ("journal", "list journal contents")),
        ("J", ("journal", "list journal contents")),
        ("e", ("export", "export the journal contents")),
        ("E", ("export", "export the journal contents")),
        ("im", ("import", "import a journal backup")),
        ("IM", ("import", "import a journal backup")),
        ("undo", ("undo", "undo creating Odysseus")),
        ("redo", ("redo", "Nothing to redo.")),
    ] {
        assert_eq!(pairs(&[expected]), suggestions(input, &repo), "{}", input);
    }

    repo.undo().unwrap().unwrap();

    assert_eq!(
        pairs(&[("redo", "redo creating Odysseus")]),
        suggestions("redo", &repo)
    );
    assert_eq!(
        pairs(&[("undo", "Nothing to undo.")]),
        suggestions("undo", &repo)
    );
}

#[test]
fn get_by_name_start_saved_before_recent_test() {
    let mut repo = repo();
    repo.modify(Change::Create {
        thing_data: data(ThingKind::Npc, "Orpheus"),
        uuid: Some(20),
    })
    .unwrap();
    repo.modify(Change::Create {
        thing_data: data(ThingKind::Npc, "Oedipus"),
        uuid: Some(21),
    })
    .unwrap();
    let records = repo.get_by_name_start("O", None).unwrap();
    assert_eq!(4, records.len());
    assert!(records[0].is_saved());
    assert!(records[1].is_saved());
    assert!(records[2].is_unsaved());
    assert!(records[3].is_unsaved());
    assert_eq!(20, records[2].thing.uuid);
    assert_eq!(21, records[3].thing.uuid);

    let records = repo.get_by_name_start("o", Some(3)).unwrap();
    assert_eq!(3, records.len());
    assert_eq!(20, records[2].thing.uuid);
}

#[test]
fn init_with_health_test() {
    let mut healthy = Repository::new(memory_with_odysseus());
    healthy.init_with(Ok(()));
    assert!(healthy.data_store_enabled());
    assert_eq!(2, healthy.journal().unwrap().len());

    let mut failed = Repository::new(memory_with_odysseus());
    failed.init_with(Err(()));
    assert!(!failed.data_store_enabled());
    assert!(failed.journal().unwrap().is_empty());
}

#[test]
fn create_errors_test() {
    let mut repo = repo();
    let unnamed = ThingData {
        kind: ThingKind::Npc,
        name: None,
    };
    match repo.modify(Change::Create { thing_data: unnamed, uuid: Some(30) }) {
        Err((_, Error::MissingName)) => {}
        _ => panic!("expected MissingName"),
    }
    match repo.modify(Change::Create { thing_data: data(ThingKind::Npc, "odysseus"), uuid: Some(31) }) {
        Err((_, Error::NameAlreadyExists(t))) => assert_eq!(5, t.uuid),
        _ => panic!("expected NameAlreadyExists"),
    }
    match repo.modify(Change::CreateAndSave { thing_data: data(ThingKind::Npc, "Nestor"), uuid: Some(5) }) {
        Err((_, Error::UuidAlreadyExists(t))) => assert_eq!(5, t.uuid),
        _ => panic!("expected UuidAlreadyExists"),
    }
    assert!(repo
        .modify(Change::Create { thing_data: data(ThingKind::Npc, "Nestor"), uuid: Some(32) })
        .is_ok());
}

#[test]
fn import_outcomes_test() {
    let mut repo = repo();
    let backup = BackupData {
        comment: "",
        things: vec![
            thing(40, ThingKind::Npc, "Nestor"),
            thing(41, ThingKind::Npc, "odysseus"),
            thing(42, ThingKind::Place, "Ithaca"),
        ],
        key_value: initiative::storage::KeyValueBackup {
            time: Some("not a time".to_string()),
        },
    };
    let stats = import(&mut repo, backup).unwrap();
    assert_eq!(
        "Places: 1 created \\\nCharacters: 1 created, 1 updated",
        stats.to_string()
    );
    assert_eq!(4, repo.journal().unwrap().len());
}

fn suggestion_pairs(input: &str, repo: &Repository<MemoryDataStore>) -> Vec<(String, String)> {
    StorageCommand::autocomplete(input, repo)
        .into_iter()
        .map(|s| (s.term, s.summary))
        .collect()
}

fn pair(a: &str, b: &str) -> (String, String) {
    (a.to_string(), b.to_string())
}

#[test]
fn storage_autocomplete_names_test() {
    let mut repo = repo();
    repo.modify(Change::Create {
        thing_data: data(ThingKind::Npc, "Penelope"),
        uuid: Some(7),
    })
    .unwrap();

    assert!(suggestion_pairs("delete z", &repo).is_empty());
    assert_eq!(
        vec![pair("save Penelope", "save character to journal")],
        suggestion_pairs("save ", &repo)
    );
    assert_eq!(suggestion_pairs("save ", &repo), suggestion_pairs("SAve ", &repo));
    assert_eq!(
        vec![pair("load Odysseus", "character"), pair("load Olympus", "place")],
        {
            let mut v = suggestion_pairs("load O", &repo);
            v.sort();
            v
        }
    );
    assert_eq!(
        vec![pair("load Penelope", "character (unsaved)")],
        suggestion_pairs("load P", &repo)
    );
    assert!(suggestion_pairs("delete P", &repo).is_empty());
    assert_eq!(
        vec![pair("delete Odysseus", "remove character from journal")],
        suggestion_pairs("delete Od", &repo)
    );
    assert_eq!(
        vec![pair("Penelope", "character (unsaved)")],
        suggestion_pairs("Pen", &repo)
    );
}

#[test]
fn save_by_name_takes_latest_recent_test() {
    let mut repo = repo();
    repo.modify(Change::Create { thing_data: data(ThingKind::Npc, "Nestor"), uuid: Some(50) })
        .unwrap();
    repo.modify(Change::Create { thing_data: data(ThingKind::Place, "Pylos"), uuid: Some(51) })
        .unwrap();
    repo.modify(Change::Save { name: "pylos".to_string(), uuid: None }).unwrap();
    assert_eq!(1, repo.recent().len());
    assert_eq!(50, repo.recent()[0].uuid);
}

#[test]
fn save_by_name_takes_latest_of_same_name_test() {
    let mut repo = repo();
    repo.push_recent(thing(60, ThingKind::Npc, "Xeno"));
    repo.push_recent(thing(61, ThingKind::Npc, "Xeno"));
    repo.modify(Change::Save { name: "Xeno".to_string(), uuid: None }).unwrap();
    assert_eq!(1, repo.recent().len());
    assert_eq!(60, repo.recent()[0].uuid);
    assert_eq!(61, repo.get_by_uuid(&61).unwrap().thing.uuid);
    assert!(repo.get_by_uuid(&61).unwrap().is_saved());
}
