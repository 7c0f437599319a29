use initiative::app::command::{noted, Plan};
use initiative::app::{AppCommand, Command, CommandMatches, CommandType};
use initiative::storage::{
    Change, MemoryDataStore, Repository, StorageCommand, ThingData, ThingKind,
};
use initiative::time::{Interval, TimeCommand};

fn app_repo() -> Repository<MemoryDataStore> {
    let mut repo = Repository::new(MemoryDataStore::default());
    repo.init();
    repo
}

fn repo_with(name: &str) -> Repository<MemoryDataStore> {
    let mut repo = app_repo();
    repo.modify(Change::Create {
        thing_data: ThingData {
            kind: ThingKind::Npc,
            name: Some(name.to_string()),
        },
        uuid: Some(1),
    })
    .unwrap();
    repo
}

#[test]
fn mod_parse_input_test() {
    let repo = app_repo();

    assert_eq!(
        Command::from(CommandMatches::new_canonical(CommandType::App(
            AppCommand::Changelog
        ))),
        Command::parse_input("changelog", &repo)
            .take_best_match()
            .unwrap(),
    );

    assert_eq!(
        Command::from(CommandMatches::default()),
        Command::parse_input("Odysseus", &repo)
            .take_best_match()
            .unwrap(),
    );
}

#[test]
fn into_command_test() {
    assert_eq!(
        CommandType::App(AppCommand::Debug),
        AppCommand::Debug.into(),
    );

    assert_eq!(
        CommandType::Storage(StorageCommand::Load {
            name: "Odysseus".to_string(),
        }),
        StorageCommand::Load {
            name: "Odysseus".to_string(),
        }
        .into(),
    );
}

#[test]
fn get_type_test() {
    let repo = repo_with("Odysseus");

    let command = Command::parse_input_irrefutable("now", &repo);
    assert_eq!(Some(&CommandType::Time(TimeCommand::Now)), command.get_type());

    let command = Command::parse_input_irrefutable("odysseus", &repo);
    assert_eq!(
        Some(&CommandType::Storage(StorageCommand::Load {
            name: "odysseus".to_string()
        })),
        command.get_type()
    );

    let command = Command::parse_input_irrefutable("potato", &repo);
    assert_eq!(None, command.get_type());
}

#[test]
fn plan_unknown_command_test() {
    let repo = app_repo();
    match Command::parse_input_irrefutable("potato", &repo).plan("potato") {
        Plan::Reply(reply) => assert_eq!(Err("Unknown command: 'potato'".to_string()), reply),
        _ => panic!("expected a reply"),
    }
}

#[test]
fn plan_single_fuzzy_match_test() {
    let repo = app_repo();
    match Command::parse_input_irrefutable("TIME", &repo).plan("TIME") {
        Plan::Run { command, note } => {
            assert_eq!(CommandType::Time(TimeCommand::Now), command);
            assert_eq!(None, note);
        }
        _ => panic!("expected a command to run"),
    }
}

#[test]
fn plan_several_fuzzy_matches_test() {
    let repo = repo_with("date");
    match Command::parse_input_irrefutable("date", &repo).plan("date") {
        Plan::Reply(reply) => assert_eq!(
            Err("There are several possible interpretations of this command. Did you mean:\n\n* `load date`\n* `now`".to_string()),
            reply
        ),
        _ => panic!("expected a reply"),
    }
}

#[test]
fn plan_canonical_with_other_interpretations_test() {
    let repo = repo_with("now");
    match Command::parse_input_irrefutable("now", &repo).plan("now") {
        Plan::Run { command, note } => {
            assert_eq!(CommandType::Time(TimeCommand::Now), command);
            assert_eq!(
                Some("\n\n! There are other possible interpretations of this command. Did you mean:\n\n* `load now`".to_string()),
                note
            );
        }
        _ => panic!("expected a command to run"),
    }
}

#[test]
fn plan_dice_roll_test() {
    let repo = app_repo();
    match Command::parse_input_irrefutable("d20", &repo).plan("d20") {
        Plan::Run { command, note } => {
            assert_eq!(CommandType::App(AppCommand::Roll("d20".to_string())), command);
            assert_eq!(None, note);
        }
        _ => panic!("expected a command to run"),
    }
}

#[test]
fn noted_test() {
    assert_eq!(
        Ok("It is day 1.\n\nnote".to_string()),
        noted(Ok("It is day 1.".to_string()), Some("\n\nnote".to_string()))
    );
    assert_eq!(
        Err("Failed.\n\nnote".to_string()),
        noted(Err("Failed.".to_string()), Some("\n\nnote".to_string()))
    );
    assert_eq!(Ok("x".to_string()), noted(Ok("x".to_string()), None));
}

#[test]
fn command_type_display_test() {
    assert_eq!("now", CommandType::Time(TimeCommand::Now).to_string());
    assert_eq!(
        "load Odysseus",
        CommandType::Storage(StorageCommand::Load {
            name: "Odysseus".to_string()
        })
        .to_string()
    );
    assert_eq!(
        "roll d20",
        CommandType::App(AppCommand::Roll("d20".to_string())).to_string()
    );
}

#[test]
fn command_union_autocomplete_test() {
    let repo = app_repo();
    let suggestions: Vec<(String, String)> = Command::autocomplete("h", &repo)
        .into_iter()
        .map(|s| (s.term, s.summary))
        .collect();
    assert_eq!(
        vec![("help".to_string(), "how to use initiative.sh".to_string())],
        suggestions
    );

    let terms: Vec<String> = Command::autocomplete("r", &repo)
        .into_iter()
        .map(|s| s.term)
        .collect();
    assert_eq!(vec!["roll [dice]".to_string(), "redo".to_string()], terms);
}

#[test]
fn command_text_parses_back_test() {
    let repo = repo_with("Odysseus");
    for command in [
        CommandType::App(AppCommand::Changelog),
        CommandType::App(AppCommand::Roll("2d6+1".to_string())),
        CommandType::Storage(StorageCommand::Delete {
            name: "Odysseus".to_string(),
        }),
        CommandType::Storage(StorageCommand::Journal),
        CommandType::Time(TimeCommand::Now),
        CommandType::Time(TimeCommand::Add {
            interval: Interval::new_hours(3),
        }),
    ] {
        let text = command.to_string();
        assert_eq!(
            Some(command),
            Command::parse_input_irrefutable(&text, &repo)
                .matches()
                .canonical_match
                .clone(),
            "{}",
            text
        );
    }
}
