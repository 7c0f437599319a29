use initiative::app::{AutocompleteSuggestion, CommandMatches};
use initiative::time::command::TimeStep;
use initiative::storage::{MemoryDataStore, NullDataStore, Repository};
use initiative::time::{Interval, Time, TimeCommand};

fn assert_autocomplete(
    expected_suggestions: &[(&'static str, &'static str)],
    actual_suggestions: Vec<AutocompleteSuggestion>,
) {
    let mut expected: Vec<(String, String)> = expected_suggestions
        .iter()
        .map(|(a, b)| (a.to_string(), b.to_string()))
        .collect();
    expected.sort();

    let mut actual: Vec<(String, String)> = actual_suggestions
        .into_iter()
        .map(|suggestion| (suggestion.term, suggestion.summary))
        .collect();
    actual.sort();

    assert_eq!(expected, actual);
}

#[test]
fn command_parse_input_test() {
    assert_eq!(
        CommandMatches::new_canonical(TimeCommand::Add {
            interval: Interval::new(0, 0, 1, 0, 0),
        }),
        TimeCommand::parse_input("+1m"),
    );

    assert_eq!(
        CommandMatches::new_canonical(TimeCommand::Add {
            interval: Interval::new(1, 0, 0, 0, 0),
        }),
        TimeCommand::parse_input("+d"),
    );

    assert_eq!(
        CommandMatches::new_canonical(TimeCommand::Sub {
            interval: Interval::new(0, 10, 0, 0, 0),
        }),
        TimeCommand::parse_input("-10h"),
    );

    assert_eq!(
        CommandMatches::default(),
        TimeCommand::parse_input("1d2h"),
    );
}

#[test]
fn command_parse_input_words_test() {
    assert_eq!(
        CommandMatches::new_canonical(TimeCommand::Now),
        TimeCommand::parse_input("NoW"),
    );
    assert_eq!(
        CommandMatches::new_fuzzy(TimeCommand::Now),
        TimeCommand::parse_input("time"),
    );
    assert_eq!(
        CommandMatches::new_fuzzy(TimeCommand::Now),
        TimeCommand::parse_input("DATE"),
    );
    assert_eq!(
        CommandMatches::<TimeCommand>::default(),
        TimeCommand::parse_input("+"),
    );
}

#[test]
fn command_autocomplete_test() {
    assert_eq!(
        Vec::<AutocompleteSuggestion>::new(),
        TimeCommand::autocomplete(""),
    );

    assert_autocomplete(
        &[
            ("+[number]", "advance time"),
            ("+d", "advance time by 1 day"),
            ("+h", "advance time by 1 hour"),
            ("+m", "advance time by 1 minute"),
            ("+s", "advance time by 1 second"),
            ("+r", "advance time by 1 round"),
        ][..],
        TimeCommand::autocomplete("+"),
    );

    assert_autocomplete(
        &[
            ("-[number]", "rewind time"),
            ("-d", "rewind time by 1 day"),
            ("-h", "rewind time by 1 hour"),
            ("-m", "rewind time by 1 minute"),
            ("-s", "rewind time by 1 second"),
            ("-r", "rewind time by 1 round"),
        ][..],
        TimeCommand::autocomplete("-"),
    );

    assert_autocomplete(
        &[
            ("+1d", "advance time by 1 day"),
            ("+1h", "advance time by 1 hour"),
            ("+1m", "advance time by 1 minute"),
            ("+1s", "advance time by 1 second"),
            ("+1r", "advance time by 1 round"),
        ][..],
        TimeCommand::autocomplete("+1"),
    );

    assert_autocomplete(
        &[
            ("+10d", "advance time by 10 days"),
            ("+10h", "advance time by 10 hours"),
            ("+10m", "advance time by 10 minutes"),
            ("+10s", "advance time by 10 seconds"),
            ("+10r", "advance time by 10 rounds"),
        ][..],
        TimeCommand::autocomplete("+10"),
    );

    assert_autocomplete(
        &[
            ("+10d5h", "advance time by 10 days, 5 hours"),
            ("+10d5m", "advance time by 10 days, 5 minutes"),
            ("+10d5s", "advance time by 10 days, 5 seconds"),
            ("+10d5r", "advance time by 10 days, 5 rounds"),
        ][..],
        TimeCommand::autocomplete("+10d5"),
    );

    assert_autocomplete(
        &[
            ("+10D5h", "advance time by 10 days, 5 hours"),
            ("+10D5m", "advance time by 10 days, 5 minutes"),
            ("+10D5s", "advance time by 10 days, 5 seconds"),
            ("+10D5r", "advance time by 10 days, 5 rounds"),
        ][..],
        TimeCommand::autocomplete("+10D5"),
    );

    assert_autocomplete(
        &[("+1d", "advance time by 1 day")][..],
        TimeCommand::autocomplete("+1d"),
    );
    assert_autocomplete(
        &[("+1D", "advance time by 1 day")][..],
        TimeCommand::autocomplete("+1D"),
    );
    assert_autocomplete(
        &[("+1h", "advance time by 1 hour")][..],
        TimeCommand::autocomplete("+1h"),
    );
    assert_autocomplete(
        &[("+1H", "advance time by 1 hour")][..],
        TimeCommand::autocomplete("+1H"),
    );
    assert_autocomplete(
        &[("+1m", "advance time by 1 minute")][..],
        TimeCommand::autocomplete("+1m"),
    );
    assert_autocomplete(
        &[("+1M", "advance time by 1 minute")][..],
        TimeCommand::autocomplete("+1M"),
    );
    assert_autocomplete(
        &[("+1s", "advance time by 1 second")][..],
        TimeCommand::autocomplete("+1s"),
    );
    assert_autocomplete(
        &[("+1S", "advance time by 1 second")][..],
        TimeCommand::autocomplete("+1S"),
    );
    assert_autocomplete(
        &[("+1r", "advance time by 1 round")][..],
        TimeCommand::autocomplete("+1r"),
    );
    assert_autocomplete(
        &[("+1R", "advance time by 1 round")][..],
        TimeCommand::autocomplete("+1R"),
    );
}

#[test]
fn command_autocomplete_words_test() {
    assert_autocomplete(
        &[("time", "get the current time")][..],
        TimeCommand::autocomplete("T"),
    );
    assert_autocomplete(
        &[("now", "get the current time")][..],
        TimeCommand::autocomplete("no"),
    );
    assert_autocomplete(&[][..], TimeCommand::autocomplete("nowadays"));
}

#[test]
fn command_display_test() {
    [
        TimeCommand::Add {
            interval: Interval::new(2, 3, 4, 5, 6),
        },
        TimeCommand::Now,
        TimeCommand::Sub {
            interval: Interval::new(2, 3, 4, 5, 6),
        },
    ]
    .into_iter()
    .for_each(|command| {
        let command_string = command.to_string();
        assert_ne!("", command_string);

        assert_eq!(
            CommandMatches::new_canonical(command.clone()),
            TimeCommand::parse_input(&command_string),
            "{}",
            command_string,
        );

        assert_eq!(
            CommandMatches::new_canonical(command),
            TimeCommand::parse_input(&command_string.to_uppercase()),
            "{}",
            command_string.to_uppercase(),
        );
    });
}

#[test]
fn command_step_test() {
    let current = Time::try_new(1, 23, 0, 0).unwrap();

    match TimeCommand::Now.step(&current) {
        TimeStep::Reply(Ok(s)) => assert_eq!("It is currently day 1 at 11:00:00 pm.", s),
        _ => panic!("unexpected step"),
    }

    match (TimeCommand::Add {
        interval: Interval::new_hours(2),
    })
    .step(&current)
    {
        TimeStep::Store {
            time,
            success,
            failure,
        } => {
            assert_eq!(Time::try_new(2, 1, 0, 0).unwrap(), time);
            assert_eq!("It is now day 2 at 1:00:00 am. Use `undo` to reverse.", success);
            assert_eq!("Unable to advance time by 2 hours.", failure);
        }
        _ => panic!("unexpected step"),
    }

    match (TimeCommand::Sub {
        interval: Interval::new_days(i32::MIN),
    })
    .step(&current)
    {
        TimeStep::Reply(Err(s)) => assert_eq!("Unable to rewind time by nuthin'.", s),
        _ => panic!("unexpected step"),
    }
}

fn time_repo() -> Repository<MemoryDataStore> {
    let mut repo = Repository::new(MemoryDataStore::default());
    repo.init();
    repo
}

#[test]
fn command_run_test() {
    let mut repo = time_repo();

    assert_eq!(
        Ok("It is currently day 0 at 12:00:00 am.".to_string()),
        TimeCommand::Now.run(&mut repo),
    );

    assert_eq!(
        Ok("It is now day 1 at 2:00:00 am. Use `undo` to reverse.".to_string()),
        TimeCommand::Add {
            interval: Interval::new_hours(26),
        }
        .run(&mut repo),
    );
    assert_eq!(
        Ok("It is currently day 1 at 2:00:00 am.".to_string()),
        TimeCommand::Now.run(&mut repo),
    );

    assert_eq!(
        Ok("It is now day 0 at 11:00:00 pm. Use `undo` to reverse.".to_string()),
        TimeCommand::Sub {
            interval: Interval::new_hours(3),
        }
        .run(&mut repo),
    );

    repo.undo().unwrap().unwrap();
    assert_eq!(
        Ok("It is currently day 1 at 2:00:00 am.".to_string()),
        TimeCommand::Now.run(&mut repo),
    );
}

#[test]
fn command_run_out_of_range_test() {
    let mut repo = time_repo();

    assert_eq!(
        Err("Unable to rewind time by nuthin'.".to_string()),
        TimeCommand::Sub {
            interval: Interval::new_days(i32::MIN),
        }
        .run(&mut repo),
    );
    assert!(repo.undo_history().is_empty());
}

#[test]
fn command_run_storage_error_test() {
    let mut repo = Repository::new(NullDataStore);

    assert_eq!(
        Err("Storage error.".to_string()),
        TimeCommand::Now.run(&mut repo),
    );
}
