use initiative::app::command::app::{numbers_fit_check, roll_safe_check};
use initiative::account::{AccountCommand, AccountManager, NullAccountManager};
use initiative::app::command::{autocomplete_phrase, AppCommand, WorldCommand};
use initiative::app::{AutocompleteSuggestion, CommandMatches};
use initiative::world::{BuildingType, LocationType, Species};

fn assert_autocomplete(
    expected_suggestions: &[(&'static str, &'static str)],
    actual_suggestions: Vec<AutocompleteSuggestion>,
) {
    let mut expected: Vec<(String, String)> = expected_suggestions
        .iter()
        .map(|(a, b)| (a.to_string(), b.to_string()))
        .collect();
    expected.sort();

    let mut actual: Vec<(String, String)> = actual_suggestions
        .into_iter()
        .map(|suggestion| (suggestion.term, suggestion.summary))
        .collect();
    actual.sort();

    assert_eq!(expected, actual);
}

#[test]
fn command_matches_new_test() {
    {
        let command_matches = CommandMatches::new_canonical(true);
        assert_eq!(Some(true), command_matches.canonical_match);
        assert!(command_matches.fuzzy_matches.is_empty());
    }

    {
        let command_matches = CommandMatches::new_fuzzy(true);
        assert_eq!(Option::<bool>::None, command_matches.canonical_match);
        assert_eq!([true][..], command_matches.fuzzy_matches[..]);
    }

    {
        let command_matches = CommandMatches::default();
        assert_eq!(Option::<bool>::None, command_matches.canonical_match);
        assert!(command_matches.fuzzy_matches.is_empty());
    }
}

#[test]
fn command_matches_push_test() {
    {
        let mut command_matches = CommandMatches::default();
        command_matches.push_canonical(true);
        assert_eq!(Some(true), command_matches.canonical_match);
        assert!(command_matches.fuzzy_matches.is_empty());
    }

    {
        let mut command_matches = CommandMatches::default();
        command_matches.push_fuzzy(1u8);
        command_matches.push_fuzzy(2);
        assert_eq!(Option::<u8>::None, command_matches.canonical_match);
        assert_eq!([1u8, 2][..], command_matches.fuzzy_matches[..]);
    }
}

#[test]
fn command_matches_union_test() {
    let command_matches_1 = {
        let mut command_matches = CommandMatches::new_canonical(1u16);
        command_matches.push_fuzzy(2);
        command_matches.push_fuzzy(3);
        command_matches
    };
    let command_matches_2 = CommandMatches::new_fuzzy(4u8);

    let command_matches_result = command_matches_1.union(command_matches_2);

    assert_eq!(Some(1u16), command_matches_result.canonical_match);
    assert_eq!([2u16, 3, 4][..], command_matches_result.fuzzy_matches[..]);
}

#[test]
fn command_matches_union_with_overwrite_test() {
    assert_eq!(
        Some(2u16),
        CommandMatches::new_canonical(1u16)
            .union_with_overwrite(CommandMatches::new_canonical(2u8))
            .canonical_match,
    );
}

#[test]
fn command_matches_take_best_match_test() {
    assert_eq!(
        Some(true),
        CommandMatches::new_canonical(true).take_best_match(),
    );
    assert_eq!(
        Some(true),
        CommandMatches::new_fuzzy(true).take_best_match(),
    );

    {
        let mut command_matches = CommandMatches::new_canonical(true);
        command_matches.push_fuzzy(false);
        assert_eq!(Some(true), command_matches.take_best_match());
    }

    assert_eq!(
        Option::<bool>::None,
        CommandMatches::<bool>::default().take_best_match(),
    );
}

#[test]
fn command_matches_into_subtype_test() {
    let mut matches = CommandMatches::new_canonical(1u8);
    matches.push_fuzzy(2u8);
    let converted: CommandMatches<u32> = matches.into_subtype();
    assert_eq!(Some(1u32), converted.canonical_match);
    assert_eq!(vec![2u32], converted.fuzzy_matches);
}

#[test]
fn autocomplete_phrase_test() {
    let words = [
        "Solanum aethiopicum",
        "Solanum betaceum",
        "Solanum cheesmanii",
        "Solanum chilense",
        "Solanum galapagense",
        "Solanum lycocarpum",
        "Solanum lycopersicum",
        "Solanum melongena",
        "Solanum muricatum",
        "Solanum peruvianum",
        "Solanum pimpinellifolium",
        "Solanum quitoense",
        "Solanum scabrum",
        "Solanum torvum",
        "Solanum tuberosum",
        "Tamarillo",
        "Turkey berry",
        "bush tomato",
        "desert raisin",
        "eggplant",
        "garden huckleberry",
        "gilo",
        "kangaroo apple",
        "naranjilla",
        "pepino melon",
        "potato bush",
        "potato",
        "tomato",
        "wild tomato",
        "wolf apple",
    ];
    let empty_vec: Vec<String> = Vec::new();

    assert_eq!(
        vec!["potato bush", "potato"],
        autocomplete_phrase("pot", &words),
    );

    assert_eq!(vec!["potato bush"], autocomplete_phrase("potato ", &words));

    assert_eq!(empty_vec, autocomplete_phrase("my tasty potato", &words));

    assert_eq!(
        vec!["Tamarillo", "Turkey berry"],
        autocomplete_phrase("T", &words),
    );

    assert_eq!(
        vec![
            "Solanum aethiopicum",
            "Solanum betaceum",
            "Solanum cheesmanii",
            "Solanum chilense",
            "Solanum galapagense",
            "Solanum lycocarpum",
            "Solanum lycopersicum",
            "Solanum melongena",
            "Solanum muricatum",
            "Solanum peruvianum",
        ],
        autocomplete_phrase("Solanum", &words),
    );

    assert_eq!(empty_vec, autocomplete_phrase("", &words));
    assert_eq!(empty_vec, autocomplete_phrase("carrot", &words));
    assert_eq!(
        empty_vec,
        autocomplete_phrase("\u{1f954}\u{2003}\u{1f954}", &words),
    );
}

#[test]
fn world_from_str_test() {
    let parsed_command = "building".parse();
    assert!(
        matches!(
            parsed_command,
            Ok(WorldCommand::Location {
                location_type: LocationType::Building(None)
            }),
        ),
        "{:?}",
        parsed_command,
    );

    let parsed_command = "npc".parse();
    assert!(
        matches!(parsed_command, Ok(WorldCommand::Npc { species: None })),
        "{:?}",
        parsed_command,
    );

    let parsed_command = "elf".parse();
    assert!(
        matches!(
            parsed_command,
            Ok(WorldCommand::Npc {
                species: Some(Species::Elf)
            }),
        ),
        "{:?}",
        parsed_command,
    );

    let parsed_command = "potato".parse::<WorldCommand>();
    assert!(matches!(parsed_command, Err(())), "{:?}", parsed_command);
}

#[test]
fn world_autocomplete_test() {
    [
        "building",
        "npc",
        // Species
        "dragonborn",
        "dwarf",
        "elf",
        "gnome",
        "half-elf",
        "half-orc",
        "halfling",
        "human",
        "tiefling",
        "warforged",
        // BuildingType
        "inn",
        "residence",
        "shop",
        "temple",
        "warehouse",
    ]
    .iter()
    .for_each(|word| assert_eq!(vec![word.to_string()], WorldCommand::autocomplete(word)));
}

#[test]
fn world_building_type_test() {
    assert_eq!(
        Some(WorldCommand::Location {
            location_type: LocationType::Building(Some(BuildingType::Temple))
        }),
        WorldCommand::parse("temple"),
    );
    assert_eq!(vec!["half-elf", "half-orc", "halfling"], WorldCommand::autocomplete("hal"));
    assert!(WorldCommand::autocomplete("").is_empty());
}

#[test]
fn app_parse_input_test() {
    assert_eq!(
        CommandMatches::new_canonical(AppCommand::Debug),
        AppCommand::parse_input("debug"),
    );

    assert_eq!(
        CommandMatches::new_canonical(AppCommand::Roll("d20".to_string())),
        AppCommand::parse_input("roll d20"),
    );

    assert_eq!(
        CommandMatches::new_fuzzy(AppCommand::Roll("d20".to_string())),
        AppCommand::parse_input("d20"),
    );

    assert_eq!(
        CommandMatches::default(),
        AppCommand::parse_input("potato"),
    );

    assert_eq!(CommandMatches::default(), AppCommand::parse_input("20"));
}

#[test]
fn app_parse_input_with_test() {
    assert_eq!(
        CommandMatches::new_fuzzy(AppCommand::Roll("2d6".to_string())),
        AppCommand::parse_input_with("2d6", true),
    );
    assert_eq!(
        CommandMatches::default(),
        AppCommand::parse_input_with("2d6", false),
    );
    assert_eq!(
        CommandMatches::default(),
        AppCommand::parse_input_with("12", true),
    );
    assert_eq!(
        CommandMatches::new_canonical(AppCommand::Help),
        AppCommand::parse_input_with("HeLp", false),
    );
}

#[test]
fn app_autocomplete_test() {
    for (term, summary) in [
        ("changelog", "show latest updates"),
        ("help", "how to use initiative.sh"),
    ] {
        assert_autocomplete(&[(term, summary)], AppCommand::autocomplete(term));

        assert_autocomplete(
            &[(term, summary)],
            AppCommand::autocomplete(&term.to_uppercase()),
        );
    }

    assert_autocomplete(
        &[("roll [dice]", "roll eg. 8d6 or d20+3")],
        AppCommand::autocomplete("roll"),
    );

    // Debug should be excluded from the autocomplete results.
    assert_eq!(
        Vec::<AutocompleteSuggestion>::new(),
        AppCommand::autocomplete("debug"),
    );
}

#[test]
fn app_display_test() {
    for command in [AppCommand::Changelog, AppCommand::Debug, AppCommand::Help] {
        let command_string = command.to_string();
        assert_ne!("", command_string);

        assert_eq!(
            CommandMatches::new_canonical(command.clone()),
            AppCommand::parse_input(&command_string),
            "{}",
            command_string,
        );

        assert_eq!(
            CommandMatches::new_canonical(command),
            AppCommand::parse_input(&command_string.to_uppercase()),
            "{}",
            command_string.to_uppercase(),
        );
    }

    assert_eq!("roll d20", AppCommand::Roll("d20".to_string()).to_string());

    assert_eq!(
        CommandMatches::new_canonical(AppCommand::Roll("d20".to_string())),
        AppCommand::parse_input("roll d20"),
    );

    assert_eq!(
        CommandMatches::new_canonical(AppCommand::Roll("D20".to_string())),
        AppCommand::parse_input("ROLL D20"),
    );
}

#[test]
fn app_roll_reply_test() {
    assert_eq!(
        Ok("a\\\nb".to_string()),
        AppCommand::roll_reply("d6", Some("`a`\nb \n".to_string())),
    );
    assert_eq!(
        Err("\"potato\" is not a valid dice formula. See `help` for some examples.".to_string()),
        AppCommand::roll_reply("potato", None),
    );
    assert!(AppCommand::run_roll("2d6").is_ok());
    assert_eq!(
        Err("\"potato\" is not a valid dice formula. See `help` for some examples.".to_string()),
        AppCommand::run_roll("potato"),
    );
}

#[test]
fn summarize_test() {
    assert_eq!("log in to your account", AccountCommand::Login.summarize());
    assert_eq!("end your session", AccountCommand::Logout.summarize());
    assert_eq!("create a new account", AccountCommand::Signup.summarize());
}

#[test]
fn account_parse_input_test() {
    assert_eq!(
        vec![AccountCommand::Signup],
        AccountCommand::parse_input("signup"),
    );

    assert_eq!(
        Vec::<AccountCommand>::new(),
        AccountCommand::parse_input("potato"),
    );
}

#[test]
fn account_autocomplete_test() {
    [
        ("login", "log in to your account"),
        ("logout", "end your session"),
        ("signup", "create a new account"),
    ]
    .iter()
    .for_each(|(word, summary)| {
        assert_eq!(
            vec![(word.to_string(), summary.to_string())],
            AccountCommand::autocomplete(word),
        )
    });

    assert_eq!(2, AccountCommand::autocomplete("log").len());
}

#[test]
fn null_account_manager_test() {
    let manager = NullAccountManager;
    assert!(!manager.is_enabled());
    assert_eq!(None, manager.signup());
    assert_eq!(None, manager.login(Some("odysseus")));
    manager.logout();
}

#[test]
fn roll_with_unreadable_number_test() {
    let huge: Vec<char> = "99999999999999999999d6".chars().collect();
    assert!(!numbers_fit_check(&huge));
    let fits: Vec<char> = "9223372036854775807d6".chars().collect();
    assert!(numbers_fit_check(&fits));
    let over: Vec<char> = "9223372036854775808".chars().collect();
    assert!(!numbers_fit_check(&over));
    assert_eq!(
        Err("\"99999999999999999999d6\" is not a valid dice formula. See `help` for some examples.".to_string()),
        AppCommand::run_roll("99999999999999999999d6"),
    );
    let parsed = AppCommand::parse_input("99999999999999999999d6");
    assert_eq!(None, parsed.canonical_match);
    assert!(parsed.fuzzy_matches.is_empty());
}

#[test]
fn roll_safe_formulas_test() {
    let check = |f: &str| roll_safe_check(&f.chars().collect::<Vec<char>>());
    assert!(check("2d6+3"));
    assert!(check("4d6K3"));
    assert!(check("d20: fire damage"));
    assert!(!check("d6!"));
    assert!(!check("d6ir6"));
    assert!(check("(d6)^3"));
    assert!(check("(d6)^+3"));
    assert!(!check("(d6)^101"));
    assert!(check("d6!3"));
    assert!(check("d6ie2"));
    assert!(!check("d6!1"));
    assert!(!check("d6ie"));
    let deep = format!("{}d6{}", "(".repeat(101), ")".repeat(101));
    assert!(!check(&deep));
    assert!(!check("123456789*123456789"));
    assert_eq!(
        Err("\"d1!\" is not a valid dice formula. See `help` for some examples.".to_string()),
        AppCommand::run_roll("d1!"),
    );
}
