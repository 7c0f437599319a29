use initiative::storage::run::StorageReply;
use initiative::storage::{
    Change, MemoryDataStore, NullDataStore, Repository, StorageCommand, Thing, ThingData,
    ThingKind,
};

fn thing(uuid: u128, kind: ThingKind, name: &str) -> Thing {
    Thing {
        uuid,
        data: ThingData {
            kind,
            name: Some(name.to_string()),
        },
    }
}

fn repo() -> Repository<MemoryDataStore> {
    let mut repo = Repository::new(MemoryDataStore::default());
    repo.push_recent(thing(5, ThingKind::Npc, "Odysseus"));
    repo.init();
    repo.modify(Change::CreateAndSave {
        thing_data: ThingData {
            kind: ThingKind::Place,
            name: Some("Olympus".to_string()),
        },
        uuid: Some(1),
    })
    .unwrap();
    repo
}

fn text(reply: StorageReply) -> Result<String, String> {
    match reply {
        StorageReply::Text(r) => r,
        _ => panic!("expected a reply in text"),
    }
}

#[test]
fn run_delete_test() {
    let mut repo = repo();
    assert_eq!(
        Ok("Odysseus was successfully deleted. Use `undo` to reverse this.".to_string()),
        text(
            StorageCommand::Delete {
                name: "ODYSSEUS".to_string()
            }
            .run(&mut repo)
        ),
    );
    assert!(repo.recent().is_empty());
    assert_eq!(
        Err("There is no entity named \"Odysseus\".".to_string()),
        text(
            StorageCommand::Delete {
                name: "Odysseus".to_string()
            }
            .run(&mut repo)
        ),
    );
}

#[test]
fn run_save_test() {
    let mut repo = repo();
    assert_eq!(
        Ok("odysseus was successfully saved. Use `undo` to reverse this.".to_string()),
        text(
            StorageCommand::Save {
                name: "odysseus".to_string()
            }
            .run(&mut repo)
        ),
    );
    assert_eq!(
        Err("There is no entity named \"Nobody\".".to_string()),
        text(
            StorageCommand::Save {
                name: "Nobody".to_string()
            }
            .run(&mut repo)
        ),
    );
}

#[test]
fn run_undo_redo_test() {
    let mut repo = repo();
    StorageCommand::Delete {
        name: "Olympus".to_string(),
    }
    .run(&mut repo);

    match StorageCommand::Undo.run(&mut repo) {
        StorageReply::Thing { thing, note } => {
            assert_eq!(Some("Olympus".to_string()), thing.data.name);
            assert_eq!(
                "_Successfully undid deleting Olympus. Use `redo` to reverse this._",
                note
            );
        }
        _ => panic!("expected a thing to show"),
    }

    assert_eq!(
        Ok("Successfully redid deleting Olympus. Use `undo` to reverse this.".to_string()),
        text(StorageCommand::Redo.run(&mut repo)),
    );
    assert_eq!(
        Err("Nothing to redo.".to_string()),
        text(StorageCommand::Redo.run(&mut repo)),
    );
}

#[test]
fn run_nothing_to_undo_test() {
    let mut repo = Repository::new(MemoryDataStore::default());
    repo.init();
    assert_eq!(
        Err("Nothing to undo.".to_string()),
        text(StorageCommand::Undo.run(&mut repo)),
    );
}

#[test]
fn run_journal_and_load_test() {
    let mut repo = repo();
    match StorageCommand::Journal.run(&mut repo) {
        StorageReply::Journal(things) => assert_eq!(1, things.len()),
        _ => panic!("expected the journal"),
    }
    match (StorageCommand::Load {
        name: "odysseus".to_string(),
    })
    .run(&mut repo)
    {
        StorageReply::Loaded(record) => assert!(record.is_unsaved()),
        _ => panic!("expected a record"),
    }
    assert_eq!(
        Err("No matches for \"Nobody\"".to_string()),
        text(
            StorageCommand::Load {
                name: "Nobody".to_string()
            }
            .run(&mut repo)
        ),
    );
}

#[test]
fn run_without_local_storage_test() {
    let mut repo = Repository::new(NullDataStore);
    repo.init();
    match StorageCommand::Export.run(&mut repo) {
        StorageReply::Export { text, .. } => assert_eq!(
            "The journal is exporting. Your download should begin shortly.\n\n! Your browser does not support local storage. Any changes will not persist beyond this session.",
            text
        ),
        _ => panic!("expected an export"),
    }
}

#[test]
fn journal_reply_text_before_init_test() {
    let mut repo = Repository::new(MemoryDataStore::default());
    let reply = StorageCommand::Journal.run(&mut repo);
    assert_eq!(
        Ok("# Journal\n\n*Your journal is currently empty.*\n\n! Your browser does not support local storage. Any changes will not persist beyond this session.".to_string()),
        initiative::storage::render::reply_text(&reply, repo.data_store_enabled()),
    );
}
