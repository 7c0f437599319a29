use initiative::app::parser::command::{AppCommand, Command, StorageCommand, WorldCommand};
use initiative::app::parser::{Noun, RawCommand, Verb, Word};
use initiative::world::Species;

#[test]
fn mod_from_str_test() {
    assert_eq!(Ok(Word::Verb(Verb::Tutorial)), "tutorial".parse::<Word>());
    assert_eq!(Ok(Word::Noun(Noun::Inn)), "inn".parse::<Word>());
    assert_eq!(
        Ok(Word::ProperNoun("The Prancing Pony".to_string())),
        "The Prancing Pony".parse::<Word>()
    );
    assert_eq!(Err(()), "potato".parse::<Word>());
    assert_eq!(Err(()), "Carrot potato".parse::<Word>());
    assert_eq!(Err(()), "".parse::<Word>());
    assert_eq!(Err(()), " ".parse::<Word>());
}

#[test]
fn mod_into_string_test() {
    assert_eq!(
        "tutorial",
        String::from(Word::Verb(Verb::Tutorial)).as_str(),
    );
    assert_eq!("inn", String::from(Word::Noun(Noun::Inn)).as_str());
    assert_eq!(
        "potato",
        String::from(Word::Unknown("potato".to_string())).as_str(),
    );
}

#[test]
fn verb_from_str_test() {
    assert_eq!(Ok(Verb::Help), "help".parse::<Verb>());
    assert_eq!(Err(()), "potato".parse::<Verb>());
}

#[test]
fn verb_into_string_test() {
    assert_eq!("help", String::from(Verb::Help).as_str());
}

#[test]
fn word_salad_test() {
    let input = "tutorial Potato Carrot inn Turnip half elf parsnip";
    let command: RawCommand = input.parse().unwrap();

    assert_eq!(
        vec![
            Word::Verb(Verb::Tutorial),
            Word::ProperNoun("Potato Carrot".to_string()),
            Word::Noun(Noun::Inn),
            Word::ProperNoun("Turnip".to_string()),
            Word::Noun(Noun::HalfElf),
            Word::Unknown("parsnip".to_string()),
        ],
        command.words()
    );
    assert_eq!(input, command.text());
}

#[test]
fn get_word_test() {
    let command: RawCommand = "blah inn shop blah".parse().unwrap();
    assert_eq!(Some(&Noun::Inn), command.get_noun());
    assert_eq!(None, command.get_verb());

    let command: RawCommand = "blah help tutorial blah".parse().unwrap();
    assert_eq!(None, command.get_noun());
    assert_eq!(Some(&Verb::Help), command.get_verb());
}

#[test]
fn noun_word_test() {
    assert_eq!(Some(Noun::HalfOrc), Noun::parse("half orc"));
    assert_eq!("half elf", String::from(Noun::HalfElf));
    assert_eq!(Some(Species::HalfElf), Noun::HalfElf.species());
    assert_eq!(None, Noun::Inn.species());
}

#[test]
fn proper_noun_test() {
    let command: RawCommand = "load Odysseus".parse().unwrap();
    assert_eq!(Some(&"Odysseus".to_string()), command.get_proper_noun());
    assert_eq!(
        vec![Word::Unknown("load".to_string()), Word::ProperNoun("Odysseus".to_string())],
        command.words()
    );

    let command: RawCommand = "  trailing  spaces  ".parse().unwrap();
    assert_eq!(
        vec![Word::Unknown("".to_string()), Word::Unknown("trailing".to_string()), Word::Unknown("spaces".to_string())],
        command.words()
    );
}

#[test]
fn recognise_command_test() {
    assert!(matches!(Command::parse("help me"), Command::App(AppCommand::Help(_))));
    assert!(matches!(Command::parse("quit"), Command::App(AppCommand::Quit(_))));
    match Command::parse("load Odysseus") {
        Command::Storage(c) => assert_eq!("load Odysseus", c.raw().text()),
        other => panic!("{:?}", other),
    }
    assert!(matches!(Command::parse("an inn"), Command::World(WorldCommand::Location(_))));
    assert!(matches!(
        Command::parse("a dwarf"),
        Command::World(WorldCommand::Npc { species: Some(Species::Dwarf) })
    ));
    assert!(matches!(
        Command::parse("npc"),
        Command::World(WorldCommand::Npc { species: None })
    ));
    assert!(matches!(Command::parse("potato"), Command::Unknown(_)));
    assert!(StorageCommand::try_from_raw(RawCommand::parse("potato")).is_err());
}
