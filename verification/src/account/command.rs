//! The `login`, `logout` and `signup` commands.

use crate::app::command::autocomplete::{
    autocomplete_phrase, autocomplete_phrase_spec, strings_view,
};
use crate::text::{chars_of, eq_lit, strs_view};
use vstd::prelude::*;

verus! {

/// A command that manages the user's account.
#[derive(Clone, Copy, Debug, Eq, PartialEq, Structural)]
pub enum AccountCommand {
    Login,
    Logout,
    Signup,
}

/// The word of a command.
pub open spec fn account_word(c: AccountCommand) -> Seq<char> {
    match c {
        AccountCommand::Login => "login"@,
        AccountCommand::Logout => "logout"@,
        AccountCommand::Signup => "signup"@,
    }
}

/// The summary of a command, shown beside its suggestion.
pub open spec fn account_summary(c: AccountCommand) -> Seq<char> {
    match c {
        AccountCommand::Login => "log in to your account"@,
        AccountCommand::Logout => "end your session"@,
        AccountCommand::Signup => "create a new account"@,
    }
}

/// The words of the commands, in order.
pub open spec fn account_words() -> Seq<Seq<char>> {
    seq![
        account_word(AccountCommand::Login),
        account_word(AccountCommand::Logout),
        account_word(AccountCommand::Signup),
    ]
}

/// The command whose word is exactly `s`, if any.
pub open spec fn account_parse_spec(s: Seq<char>) -> Option<AccountCommand> {
    if s == account_word(AccountCommand::Login) {
        Some(AccountCommand::Login)
    } else if s == account_word(AccountCommand::Logout) {
        Some(AccountCommand::Logout)
    } else if s == account_word(AccountCommand::Signup) {
        Some(AccountCommand::Signup)
    } else {
        None
    }
}

/// The suggestion for a completed word: the word and the summary of its command.
pub open spec fn account_suggestion(w: Seq<char>) -> (Seq<char>, Seq<char>) {
    (w, account_summary(account_parse_spec(w)->0))
}

/// The word of each command parses back to it.
pub proof fn lemma_account_word_parses(c: AccountCommand)
    ensures
        account_parse_spec(account_word(c)) == Some(c),
{
    reveal_strlit("login");
    reveal_strlit("logout");
    reveal_strlit("signup");
    assert(account_word(AccountCommand::Login).len() != account_word(AccountCommand::Logout).len());
    assert(account_word(AccountCommand::Login)[0] != account_word(AccountCommand::Signup)[0]);
    assert(account_word(AccountCommand::Logout)[0] != account_word(AccountCommand::Signup)[0]);
}

impl AccountCommand {
    /// The words of all account commands.
    pub fn get_words() -> (r: Vec<&'static str>)
        ensures
            strs_view(r@) == account_words(),
    {
        let mut r: Vec<&'static str> = Vec::new();
        r.push("login");
        r.push("logout");
        r.push("signup");
        assert(strs_view(r@) =~= account_words());
        r
    }

    /// The summary of the command.
    pub fn summarize(&self) -> (r: &'static str)
        ensures
            r@ == account_summary(*self),
    {
        match self {
            AccountCommand::Login => "log in to your account",
            AccountCommand::Logout => "end your session",
            AccountCommand::Signup => "create a new account",
        }
    }

    /// The command whose word is `raw`, if any.
    pub fn parse(raw: &str) -> (r: Option<AccountCommand>)
        ensures
            r == account_parse_spec(raw@),
    {
        let s = chars_of(raw);
        if eq_lit(&s, "login") {
            Some(AccountCommand::Login)
        } else if eq_lit(&s, "logout") {
            Some(AccountCommand::Logout)
        } else if eq_lit(&s, "signup") {
            Some(AccountCommand::Signup)
        } else {
            None
        }
    }

    /// The commands that `input` names: the one whose word it is, or none.
    pub fn parse_input(input: &str) -> (r: Vec<AccountCommand>)
        ensures
            r@ == match account_parse_spec(input@) {
                Some(c) => seq![c],
                None => Seq::empty(),
            },
    {
        let mut r: Vec<AccountCommand> = Vec::new();
        if let Some(c) = Self::parse(input) {
            r.push(c);
        }
        assert(r@ =~= match account_parse_spec(input@) {
            Some(c) => seq![c],
            None => Seq::<AccountCommand>::empty(),
        });
        r
    }

    /// The completions of `input`, each with the summary of its command.
    pub fn autocomplete(input: &str) -> (r: Vec<(String, String)>)
        ensures
            r@.len() == autocomplete_phrase_spec(input@, account_words()).len(),
            forall|k: int|
                0 <= k < r@.len() ==> (#[trigger] r@[k].0@, r@[k].1@) == account_suggestion(
                    autocomplete_phrase_spec(input@, account_words())[k],
                ),
    {
        let words = Self::get_words();
        let completions = autocomplete_phrase(input, words.as_slice());
        let ghost cv = strings_view(completions@);
        proof {
            lemma_completions_are_words(input@);
        }
        let mut r: Vec<(String, String)> = Vec::new();
        let mut i: usize = 0;
        while i < completions.len()
            invariant
                i <= completions@.len(),
                cv == strings_view(completions@),
                cv == autocomplete_phrase_spec(input@, account_words()),
                forall|k: int| 0 <= k < cv.len() ==> account_parse_spec(#[trigger] cv[k]) is Some,
                r@.len() == i,
                forall|k: int|
                    0 <= k < i ==> (#[trigger] r@[k].0@, r@[k].1@) == account_suggestion(cv[k]),
            decreases completions.len() - i,
        {
            let w = completions[i].clone();
            assert(cv[i as int] == completions@[i as int]@);
            let c = Self::parse(w.as_str());
            match c {
                Some(c) => {
                    let summary = c.summarize().to_owned();
                    r.push((w, summary));
                },
                None => {
                    assert(false);
                },
            }
            i = i + 1;
        }
        r
    }
}

/// Every completion from the account words is the word of a command.
proof fn lemma_completions_are_words(input: Seq<char>)
    ensures
        forall|k: int|
            0 <= k < autocomplete_phrase_spec(input, account_words()).len()
                ==> account_parse_spec(
                #[trigger] autocomplete_phrase_spec(input, account_words())[k],
            ) is Some,
{
    crate::app::command::autocomplete::lemma_matching_words_match(account_words(), input);
    let m = crate::app::command::autocomplete::matching_words(account_words(), input);
    assert forall|k: int|
        0 <= k < autocomplete_phrase_spec(input, account_words()).len() implies account_parse_spec(
        #[trigger] autocomplete_phrase_spec(input, account_words())[k],
    ) is Some by {
        let w = autocomplete_phrase_spec(input, account_words())[k];
        assert(w == m[k]);
        assert(account_words().contains(w));
        let j = choose|j: int| 0 <= j < account_words().len() && account_words()[j] == w;
        if j == 0 {
            lemma_account_word_parses(AccountCommand::Login);
        } else if j == 1 {
            lemma_account_word_parses(AccountCommand::Logout);
        } else {
            lemma_account_word_parses(AccountCommand::Signup);
        }
    }
}

impl std::str::FromStr for AccountCommand {
    type Err = ();

    fn from_str(raw: &str) -> (r: Result<Self, ()>)
        ensures
            r == match account_parse_spec(raw@) {
                Some(c) => Ok::<AccountCommand, ()>(c),
                None => Err(()),
            },
    {
        match AccountCommand::parse(raw) {
            Some(c) => Ok(c),
            None => Err(()),
        }
    }
}

} // verus!
