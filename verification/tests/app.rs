use initiative::app::command::Plan;
use initiative::app::{App, AppCommand, CommandType};
use initiative::storage::{BackupData, KeyValueBackup, MemoryDataStore, NullDataStore, Thing, ThingData, ThingKind};
use initiative::time::TimeCommand;
use initiative::storage::StorageCommand;
use initiative::storage::run::StorageReply;

fn app() -> App<MemoryDataStore> {
    let mut app = App::new(MemoryDataStore::default());
    app.init();
    app
}

fn terms(app: &App<MemoryDataStore>, input: &str) -> Vec<String> {
    app.autocomplete(input).into_iter().map(|s| s.term).collect()
}

#[test]
fn app_autocomplete_sorted_test() {
    let app = app();
    assert_eq!(vec!["redo", "roll [dice]"], terms(&app, "r"));
    assert_eq!(
        vec![
            "delete [name]",
            "export",
            "import",
            "journal",
            "load [name]",
            "redo",
            "save [name]",
            "undo"
        ],
        terms(&app, "")
    );
}

#[test]
fn app_autocomplete_at_most_ten_test() {
    let app = app();
    for input in ["", "+", "-", "+1", "n", "e", "s", "d", "h", "c"] {
        assert!(app.autocomplete(input).len() <= 10, "{}", input);
    }
}

#[test]
fn app_plan_test() {
    let app = app();
    match app.plan("roll d6") {
        Plan::Run { command, note } => {
            assert_eq!(CommandType::App(AppCommand::Roll("d6".to_string())), command);
            assert_eq!(None, note);
        }
        _ => panic!("expected a command to run"),
    }
}

#[test]
fn app_run_time_test() {
    let mut app = app();
    assert_eq!(
        Ok("It is currently day 0 at 12:00:00 am.".to_string()),
        app.run_time(&TimeCommand::Now)
    );
}

#[test]
fn app_bulk_import_test() {
    let mut app = App::new(NullDataStore);
    app.init();
    let data = BackupData {
        comment: "backup",
        things: vec![Thing {
            uuid: 3,
            data: ThingData {
                kind: ThingKind::Place,
                name: Some("Ithaca".to_string()),
            },
        }],
        key_value: KeyValueBackup { time: None },
    };
    assert_eq!(Ok("Places: 1 created".to_string()), app.bulk_import(data));
    assert_eq!(1, app.repository().journal().unwrap().len());
}

#[test]
fn no_save_alias_after_loading_saved_test() {
    let mut app = App::new(NullDataStore);
    app.init();
    let data = BackupData {
        comment: "backup",
        things: vec![Thing {
            uuid: 7,
            data: ThingData {
                kind: ThingKind::Npc,
                name: Some("Penelope".to_string()),
            },
        }],
        key_value: KeyValueBackup { time: None },
    };
    app.bulk_import(data).unwrap();
    app.start_run("load Penelope");
    let reply = app.run_storage(&StorageCommand::Load {
        name: "Penelope".to_string(),
    });
    assert!(matches!(reply, StorageReply::Loaded(_)));
    assert_eq!(None, app.alias());
    assert!(app.autocomplete("sav").iter().all(|s| s.term != "save"));
}
