use initiative::cli::{wrap, Input, Key};

fn input(history: &[&str], index: usize, cursor: usize) -> Input {
    Input::from_parts(
        history.iter().map(|s| s.to_string()).collect(),
        index,
        cursor,
        None,
    )
}

fn check_key_left() {
    let mut input = input(&["foo bar"], 0, 2);

    input.key(Key::Left, false);
    assert_eq!(1, input.cursor());

    input.key(Key::Left, false);
    assert_eq!(0, input.cursor());

    input.key(Key::Left, false);
    assert_eq!(0, input.cursor());
}

fn check_key_ctrl_left() {
    let mut input = input(&["foo bar"], 0, 7);

    input.key(Key::Left, true);
    assert_eq!(4, input.cursor());

    input.key(Key::Left, true);
    assert_eq!(0, input.cursor());

    input.key(Key::Left, true);
    assert_eq!(0, input.cursor());
}

fn check_key_right() {
    let mut input = input(&["foo bar"], 0, 5);

    input.key(Key::Right, false);
    assert_eq!(6, input.cursor());

    input.key(Key::Right, false);
    assert_eq!(7, input.cursor());

    input.key(Key::Right, false);
    assert_eq!(7, input.cursor());
}

fn check_key_ctrl_right() {
    let mut input = input(&["foo bar"], 0, 0);

    input.key(Key::Right, true);
    assert_eq!(3, input.cursor());

    input.key(Key::Right, true);
    assert_eq!(7, input.cursor());

    input.key(Key::Right, true);
    assert_eq!(7, input.cursor());
}

fn check_key_up() {
    let mut input = input(&["foo bar", "baz"], 1, 0);

    assert_eq!("baz", input.get_text());

    input.key(Key::Up, false);
    assert_eq!("foo bar", input.get_text());
    assert_eq!(0, input.index());
    assert_eq!(7, input.cursor());

    input.key(Key::Up, false);
    assert_eq!("foo bar", input.get_text());
}

fn check_key_down() {
    let mut input = input(&["foo", "bar baz"], 0, 0);

    assert_eq!("foo", input.get_text());

    input.key(Key::Down, false);
    assert_eq!("bar baz", input.get_text());
    assert_eq!(1, input.index());
    assert_eq!(7, input.cursor());

    input.key(Key::Down, false);
    assert_eq!("bar baz", input.get_text());
}

fn check_key_enter() {
    let mut input = input(&["foo", "bar"], 1, 3);

    input.key(Key::Char('\n'), false);
    assert_eq!(vec!["foo", "bar", ""], input.history());
    assert_eq!(2, input.index());
    assert_eq!(0, input.cursor());

    input.key(Key::Char('\n'), false);
    assert_eq!(vec!["foo", "bar", ""], input.history());
    assert_eq!(2, input.index());
    assert_eq!(0, input.cursor());
}

fn check_key_enter_with_history() {
    let mut input = input(&["foo", "bar"], 0, 3);

    input.key(Key::Char('\n'), false);
    assert_eq!(vec!["foo", "bar", "foo", ""], input.history());
    assert_eq!(3, input.index());
    assert_eq!(0, input.cursor());

    input.push_str("foo");
    input.set_cursor(3);
    assert_eq!(vec!["foo", "bar", "foo", "foo"], input.history());

    input.key(Key::Char('\n'), false);
    assert_eq!(vec!["foo", "bar", "foo", ""], input.history());
    assert_eq!(3, input.index());
    assert_eq!(0, input.cursor());
}

fn check_key_ctrl_r() {
    let mut input = input(&["foobar", "barbaz", "foobaz", ""], 3, 0);

    input.key(Key::Char('r'), true);
    assert_eq!(Some(String::new()), input.search_query());
    assert_eq!(3, input.index());

    input.key(Key::Char('b'), false);
    input.key(Key::Char('a'), false);
    assert_eq!(Some("ba".to_string()), input.search_query());
    assert!(input.history().last().map_or(false, |s| s.is_empty()));
    assert_eq!(2, input.index());

    input.key(Key::Char('r'), false);
    assert_eq!(Some("bar".to_string()), input.search_query());
    assert_eq!(1, input.index());

    input.key(Key::Char('r'), true);
    assert_eq!(0, input.index());
}

fn check_key_esc() {
    let mut input = Input::from_parts(vec![String::new()], 0, 0, Some(String::new()));

    input.key(Key::Esc, false);
    assert_eq!(None, input.search_query());

    input.key(Key::Esc, false);
    assert_eq!(None, input.search_query());
}

fn check_key_backspace() {
    let mut input = input(&["bar baz"], 0, 2);

    input.key(Key::Backspace, false);
    assert_eq!("br baz", input.get_text());
    assert_eq!(1, input.cursor());

    input.key(Key::Backspace, false);
    assert_eq!("r baz", input.get_text());
    assert_eq!(0, input.cursor());

    input.key(Key::Backspace, false);
    assert_eq!("r baz", input.get_text());
    assert_eq!(0, input.cursor());
}

fn check_key_ctrl_backspace() {
    let mut input = input(&["foo bar"], 0, 5);

    input.key(Key::Backspace, true);
    assert_eq!("foo ar", input.get_text());
    assert_eq!(4, input.cursor());

    input.key(Key::Backspace, true);
    assert_eq!("ar", input.get_text());
    assert_eq!(0, input.cursor());

    input.key(Key::Backspace, true);
    assert_eq!("ar", input.get_text());
    assert_eq!(0, input.cursor());
}

fn check_key_home_end() {
    let mut input = input(&["foo bar"], 0, 4);

    input.key(Key::Home, false);
    assert_eq!(0, input.cursor());

    input.key(Key::End, false);
    assert_eq!(7, input.cursor());
}

fn check_key_delete() {
    let mut input = input(&["foo bar"], 0, 5);

    input.key(Key::Delete, false);
    assert_eq!("foo br", input.get_text());
    assert_eq!(5, input.cursor());

    input.key(Key::Delete, false);
    assert_eq!("foo b", input.get_text());
    assert_eq!(5, input.cursor());

    input.key(Key::Delete, false);
    assert_eq!("foo b", input.get_text());
    assert_eq!(5, input.cursor());
}

fn check_key_ctrl_delete() {
    let mut input = input(&["bar baz"], 0, 2);

    input.key(Key::Delete, true);
    assert_eq!("ba baz", input.get_text());
    assert_eq!(2, input.cursor());

    input.key(Key::Delete, true);
    assert_eq!("ba", input.get_text());
    assert_eq!(2, input.cursor());

    input.key(Key::Delete, true);
    assert_eq!("ba", input.get_text());
    assert_eq!(2, input.cursor());
}

fn check_key_char() {
    let mut input = Input::default();

    input.key(Key::Char('A'), false);
    input.key(Key::Char('B'), false);
    input.key(Key::Char('X'), true);
    assert_eq!("AB", input.get_text());
    assert_eq!(2, input.cursor());

    input.set_cursor(0);
    input.key(Key::Char('C'), false);
    assert_eq!("CAB", input.get_text());
    assert_eq!(1, input.cursor());
}

fn check_is_at_start_end() {
    let mut input = Input::default();
    assert!(input.is_at_start());
    assert!(input.is_at_end());

    input.push_str("ab");
    assert!(input.is_at_start());
    assert!(!input.is_at_end());

    input.set_cursor(input.cursor() + 1);
    assert!(!input.is_at_start());
    assert!(!input.is_at_end());

    input.set_cursor(input.cursor() + 1);
    assert!(!input.is_at_start());
    assert!(input.is_at_end());
}

fn check_find_boundary_left() {
    let text = "A test-string with words, punctuation - and a dash!  ";
    let mut input = input(&[text], 0, 0);
    input.set_cursor(input.get_text().len());

    let mut stops = Vec::new();

    while input.cursor() > 0 && stops.len() < 100 {
        let stop = input.find_boundary_left();
        input.set_cursor(stop);
        stops.push(input.cursor());
    }

    assert_eq!(vec![46, 44, 40, 26, 19, 14, 7, 2, 0], stops);
    assert_eq!(0, input.find_boundary_left());
}

fn check_find_boundary_right() {
    let text = "A test-string with words, punctuation - and a dash!  ";
    let mut input = input(&[text], 0, 0);

    let mut stops = Vec::new();

    while input.cursor() < input.get_text().len() && stops.len() < 100 {
        let stop = input.find_boundary_right();
        input.set_cursor(stop);
        stops.push(input.cursor());
    }

    assert_eq!(vec![1, 7, 13, 18, 25, 37, 43, 45, 51, 53], stops);
    assert_eq!(input.get_text().len(), input.find_boundary_right());
}

fn check_wrap_short() {
    assert_eq!(
        "A word\n\
         wrappe\n\
         d\n\
         senten\n\
         ce\n\
         with\n\
         a\n\
         line\n\
         break.",
        wrap("A word wrapped sentence with\na\nline break.", 6).as_str()
    );
}

fn check_wrap_long() {
    let input = "\
CHAPTER 1
Loomings

Call me Ishmael. Some years ago- never mind how long precisely- having little or no money in my purse, and nothing particular to interest me on shore, I thought I would sail about a little and see the watery part of the world. It is a way I have of driving off the spleen and regulating the circulation. Whenever I find myself growing grim about the mouth; whenever it is a damp, drizzly November in my soul; whenever I find myself involuntarily pausing before coffin warehouses, and bringing up the rear of every funeral I meet; and especially whenever my hypos get such an upper hand of me, that it requires a strong moral principle to prevent me from deliberately stepping into the street, and methodically knocking people's hats off- then, I account it high time to get to sea as soon as I can. This is my substitute for pistol and ball. With a philosophical flourish Cato throws himself upon his sword; I quietly take to the ship. There is nothing surprising in this. If they but knew it, almost all men in their degree, some time or other, cherish very nearly the same feelings towards the ocean with me.

There now is your insular city of the Manhattoes, belted round by wharves as Indian isles by coral reefs- commerce surrounds it with her surf. Right and left, the streets take you waterward. Its extreme downtown is the battery, where that noble mole is washed by waves, and cooled by breezes, which a few hours previous were out of sight of land. Look at the crowds of water-gazers there.

Circumambulate the city of a dreamy Sabbath afternoon. Go from Corlears Hook to Coenties Slip, and from thence, by Whitehall, northward. What do you see?- Posted like silent sentinels all around the town, stand thousands upon thousands of mortal men fixed in ocean reveries. Some leaning against the spiles; some seated upon the pier-heads; some looking over the bulwarks of ships from China; some high aloft in the rigging, as if striving to get a still better seaward peep. But these are all landsmen; of week days pent up in lath and plaster- tied to counters, nailed to benches, clinched to desks. How then is this? Are the green fields gone? What do they here?";

    let output_expected = "\
CHAPTER 1
Loomings

Call me Ishmael. Some years ago- never mind how long precisely- having little or
no money in my purse, and nothing particular to interest me on shore, I thought
I would sail about a little and see the watery part of the world. It is a way I
have of driving off the spleen and regulating the circulation. Whenever I find
myself growing grim about the mouth; whenever it is a damp, drizzly November in
my soul; whenever I find myself involuntarily pausing before coffin warehouses,
and bringing up the rear of every funeral I meet; and especially whenever my
hypos get such an upper hand of me, that it requires a strong moral principle to
prevent me from deliberately stepping into the street, and methodically knocking
people's hats off- then, I account it high time to get to sea as soon as I can.
This is my substitute for pistol and ball. With a philosophical flourish Cato
throws himself upon his sword; I quietly take to the ship. There is nothing
surprising in this. If they but knew it, almost all men in their degree, some
time or other, cherish very nearly the same feelings towards the ocean with me.

There now is your insular city of the Manhattoes, belted round by wharves as
Indian isles by coral reefs- commerce surrounds it with her surf. Right and
left, the streets take you waterward. Its extreme downtown is the battery, where
that noble mole is washed by waves, and cooled by breezes, which a few hours
previous were out of sight of land. Look at the crowds of water-gazers there.

Circumambulate the city of a dreamy Sabbath afternoon. Go from Corlears Hook to
Coenties Slip, and from thence, by Whitehall, northward. What do you see?-
Posted like silent sentinels all around the town, stand thousands upon thousands
of mortal men fixed in ocean reveries. Some leaning against the spiles; some
seated upon the pier-heads; some looking over the bulwarks of ships from China;
some high aloft in the rigging, as if striving to get a still better seaward
peep. But these are all landsmen; of week days pent up in lath and plaster- tied
to counters, nailed to benches, clinched to desks. How then is this? Are the
green fields gone? What do they here?";

    let output_actual = wrap(input, 80);

    assert_eq!(output_expected, output_actual.as_str());
    assert!(output_actual.lines().all(|line| line.len() <= 80));
    assert!(output_actual.lines().any(|line| line.len() == 80));
}

#[test]
fn rich_key_left_test() {
    check_key_left();
}

#[test]
fn mod_key_left_test() {
    check_key_left();
}

#[test]
fn rich_key_ctrl_left_test() {
    check_key_ctrl_left();
}

#[test]
fn mod_key_ctrl_left_test() {
    check_key_ctrl_left();
}

#[test]
fn rich_key_right_test() {
    check_key_right();
}

#[test]
fn mod_key_right_test() {
    check_key_right();
}

#[test]
fn rich_key_ctrl_right_test() {
    check_key_ctrl_right();
}

#[test]
fn mod_key_ctrl_right_test() {
    check_key_ctrl_right();
}

#[test]
fn rich_key_up_test() {
    check_key_up();
}

#[test]
fn mod_key_up_test() {
    check_key_up();
}

#[test]
fn rich_key_down_test() {
    check_key_down();
}

#[test]
fn mod_key_down_test() {
    check_key_down();
}

#[test]
fn rich_key_enter_test() {
    check_key_enter();
}

#[test]
fn mod_key_enter_test() {
    check_key_enter();
}

#[test]
fn rich_key_enter_with_history_test() {
    check_key_enter_with_history();
}

#[test]
fn mod_key_enter_with_history_test() {
    check_key_enter_with_history();
}

#[test]
fn rich_key_ctrl_r_test() {
    check_key_ctrl_r();
}

#[test]
fn mod_key_ctrl_r_test() {
    check_key_ctrl_r();
}

#[test]
fn rich_key_esc_test() {
    check_key_esc();
}

#[test]
fn mod_key_esc_test() {
    check_key_esc();
}

#[test]
fn rich_key_backspace_test() {
    check_key_backspace();
}

#[test]
fn mod_key_backspace_test() {
    check_key_backspace();
}

#[test]
fn rich_key_ctrl_backspace_test() {
    check_key_ctrl_backspace();
}

#[test]
fn mod_key_ctrl_backspace_test() {
    check_key_ctrl_backspace();
}

#[test]
fn rich_key_home_end_test() {
    check_key_home_end();
}

#[test]
fn mod_key_home_end_test() {
    check_key_home_end();
}

#[test]
fn rich_key_delete_test() {
    check_key_delete();
}

#[test]
fn mod_key_delete_test() {
    check_key_delete();
}

#[test]
fn rich_key_ctrl_delete_test() {
    check_key_ctrl_delete();
}

#[test]
fn mod_key_ctrl_delete_test() {
    check_key_ctrl_delete();
}

#[test]
fn rich_key_char_test() {
    check_key_char();
}

#[test]
fn mod_key_char_test() {
    check_key_char();
}

#[test]
fn rich_is_at_start_end_test() {
    check_is_at_start_end();
}

#[test]
fn mod_is_at_start_end_test() {
    check_is_at_start_end();
}

#[test]
fn rich_find_boundary_left_test() {
    check_find_boundary_left();
}

#[test]
fn mod_find_boundary_left_test() {
    check_find_boundary_left();
}

#[test]
fn rich_find_boundary_right_test() {
    check_find_boundary_right();
}

#[test]
fn mod_find_boundary_right_test() {
    check_find_boundary_right();
}

#[test]
fn rich_wrap_short_test() {
    check_wrap_short();
}

#[test]
fn wrap_wrap_short_test() {
    check_wrap_short();
}

#[test]
fn rich_wrap_long_test() {
    check_wrap_long();
}

#[test]
fn wrap_wrap_long_test() {
    check_wrap_long();
}

#[test]
fn wrap_breaks_a_long_word_test() {
    assert_eq!("\nabc\ndef\ngh", wrap("abcdefgh", 3));
    assert_eq!("", wrap("", 5));
    assert_eq!("\n ", wrap("   ", 0));
}

#[test]
fn key_enter_copies_recalled_command_test() {
    let mut input = input(&["foo", "bar", ""], 0, 0);
    input.key(Key::Char('\n'), false);
    assert_eq!(vec!["foo", "bar", "foo", ""], input.history());
}

#[test]
fn search_history_test() {
    let input = Input::from_parts(
        vec!["apple".to_string(), "banana".to_string(), "cherry".to_string()],
        2,
        0,
        Some("an".to_string()),
    );
    assert_eq!(Some((1, 1)), input.search_history(2));
    assert_eq!(None, input.search_history(0));

    let no_search = input_without_search();
    assert_eq!(None, no_search.search_history(0));
}

fn input_without_search() -> Input {
    input(&["apple"], 0, 0)
}

use initiative::app::AutocompleteSuggestion;
use initiative::cli::Autocomplete;

fn suggestion(term: &str, summary: &str) -> AutocompleteSuggestion {
    AutocompleteSuggestion::new(term, summary)
}

#[test]
fn expand_single_match() {
    let autocomplete = Autocomplete {
        suggestions: vec![suggestion("shield", "a shield from the SRD")],
        selected: None,
        query: "s".into(),
    };

    let expanded = autocomplete.expand_match();
    assert_eq!(expanded.query, "shield");
}

#[test]
fn expand_autocomplete() {
    let autocomplete = Autocomplete {
        suggestions: vec![
            suggestion("shield", "a shield from the SRD"),
            suggestion("shiny bauble", "so shiny!"),
        ],
        selected: None,
        query: "s".into(),
    };

    let expanded = autocomplete.expand_match();
    assert_eq!(expanded.query, "shi");
}

#[test]
fn expand_ignores_case_test() {
    let autocomplete = Autocomplete {
        suggestions: vec![suggestion("Shield", "a"), suggestion("SHIELDS", "b")],
        selected: None,
        query: "s".into(),
    };
    assert_eq!("shield", autocomplete.expand_match().query);

    let empty = Autocomplete {
        suggestions: Vec::new(),
        selected: None,
        query: "s".into(),
    };
    assert_eq!("s", empty.expand_match().query);
}

#[test]
fn autocomplete_returns_single_suggestion() {
    let single = Autocomplete {
        suggestions: vec![suggestion("shield", "a shield from the SRD")],
        selected: None,
        query: "sh".into(),
    };
    assert_eq!(single.get_only_suggestion(), single.suggestions.get(0));

    let multiple = Autocomplete {
        suggestions: vec![
            suggestion("shield", "a shield from the SRD"),
            suggestion("shrine", "create a new shrine"),
        ],
        selected: None,
        query: "sh".into(),
    };
    assert_eq!(multiple.get_only_suggestion(), None);
}

#[test]
fn autocomplete_up_test() {
    let mut autocomplete = Autocomplete {
        suggestions: vec![suggestion("shield", "a shield"), suggestion("shrine", "a shrine")],
        selected: None,
        query: "sh".into(),
    };

    assert_eq!(autocomplete.len(), 2);
    assert_eq!(autocomplete.get_selected_suggestion(), None);

    autocomplete = autocomplete.up();
    assert_eq!(
        autocomplete.get_selected_suggestion(),
        autocomplete.suggestions.get(1)
    );

    autocomplete = autocomplete.up();
    assert_eq!(
        autocomplete.get_selected_suggestion(),
        autocomplete.suggestions.get(0)
    );

    autocomplete = autocomplete.up();
    assert_eq!(
        autocomplete.get_selected_suggestion(),
        autocomplete.suggestions.get(1)
    );
}

#[test]
fn autocomplete_down_test() {
    let mut autocomplete = Autocomplete {
        suggestions: vec![
            suggestion("shield", "a shield from the SRD"),
            suggestion("shrine", "create a new shrine"),
        ],
        selected: None,
        query: "sh".into(),
    };

    assert_eq!(autocomplete.len(), 2);
    assert_eq!(autocomplete.get_selected_suggestion(), None);

    autocomplete = autocomplete.down();
    assert_eq!(
        autocomplete.get_selected_suggestion(),
        autocomplete.suggestions.get(0)
    );

    autocomplete = autocomplete.down();
    assert_eq!(
        autocomplete.get_selected_suggestion(),
        autocomplete.suggestions.get(1)
    );

    autocomplete = autocomplete.down();
    assert_eq!(
        autocomplete.get_selected_suggestion(),
        autocomplete.suggestions.get(0)
    );
}
