use vstd::prelude::*;

verus! {

/// The words of `s`, as `str::split_whitespace` cuts them.
pub uninterp spec fn words_of(s: Seq<char>) -> Seq<Seq<char>>;

/// `s` in lower case, as `str::to_lowercase` writes it.
pub uninterp spec fn lower_of(s: Seq<char>) -> Seq<char>;

/// Relies on `str::split_whitespace`: the words of `s`, in order.
#[verifier::external_body]
fn split_words(s: &str) -> (r: Vec<String>)
    ensures
        r@.map_values(|w: String| w@) == words_of(s@),
{
    s.split_whitespace().map(String::from).collect()
}

/// Relies on `str::to_lowercase`, which depends on the characters alone.
#[verifier::external_body]
fn lowercase(s: &str) -> (r: String)
    ensures
        r@ == lower_of(s@),
{
    s.to_lowercase()
}

/// The value of a string of decimal digits.
pub open spec fn digits_value(d: Seq<char>) -> int
    decreases d.len(),
{
    if d.len() == 0 {
        0
    } else {
        digits_value(d.drop_last()) * 10 + (d.last() as int - '0' as int)
    }
}

/// `s` without a leading `+`.
pub open spec fn unsigned_part(s: Seq<char>) -> Seq<char> {
    if s.len() > 0 && s[0] == '+' {
        s.skip(1)
    } else {
        s
    }
}

/// The number that `s` writes: an optional `+`, then one or more decimal
/// digits, of a value that fits in `usize`; nothing for any other text.
pub open spec fn usize_text(s: Seq<char>) -> Option<usize> {
    let d = unsigned_part(s);
    if d.len() > 0 && (forall|i: int| 0 <= i < d.len() ==> '0' <= #[trigger] d[i] <= '9')
        && digits_value(d) <= usize::MAX {
        Some(digits_value(d) as usize)
    } else {
        None
    }
}

/// Relies on `<usize as FromStr>::from_str`: an optional `+` sign followed by
/// decimal digits, and an error for anything else or a value too large.
#[verifier::external_body]
fn parse_usize(s: &str) -> (r: Option<usize>)
    ensures
        r == usize_text(s@),
{
    s.parse::<usize>().ok()
}

/// A command of the player.
#[derive(Debug, Clone, Copy, PartialEq, Eq, Structural)]
pub enum Action {
    Move(usize),
    Shoot(usize),
    Quit,
    Help,
}

/// Why a line is no command.
#[derive(Debug, Clone, Copy, PartialEq, Eq, Structural)]
pub enum ActionError {
    EmptyCommand,
    InvalidNumber,
    InvalidCommand,
    NoNumber,
}

/// The room number that follows the command word in `w`.
pub open spec fn room_word(w: Seq<Seq<char>>) -> Result<usize, ActionError> {
    if w.len() < 2 {
        Err(ActionError::NoNumber)
    } else {
        match usize_text(w[1]) {
            Some(n) => Ok(n),
            None => Err(ActionError::InvalidNumber),
        }
    }
}

/// The command that the line `s` asks for: the first word, in any case,
/// names it (`shoot`/`s`, `move`/`m`, `quit`/`q`, `help`/`h`), and a shot
/// or a move takes the second word as the room number.
pub open spec fn action_of(s: Seq<char>) -> Result<Action, ActionError> {
    let w = words_of(s);
    if w.len() == 0 {
        Err(ActionError::EmptyCommand)
    } else {
        let c = lower_of(w[0]);
        if c == "shoot"@ || c == "s"@ {
            match room_word(w) {
                Ok(n) => Ok(Action::Shoot(n)),
                Err(e) => Err(e),
            }
        } else if c == "move"@ || c == "m"@ {
            match room_word(w) {
                Ok(n) => Ok(Action::Move(n)),
                Err(e) => Err(e),
            }
        } else if c == "quit"@ || c == "q"@ {
            Ok(Action::Quit)
        } else if c == "help"@ || c == "h"@ {
            Ok(Action::Help)
        } else {
            Err(ActionError::InvalidCommand)
        }
    }
}

/// The short reply that `Action::from` gives for each error.
pub open spec fn reply_text(e: ActionError) -> Seq<char> {
    match e {
        ActionError::EmptyCommand => "please type in a command"@,
        ActionError::NoNumber => "Please also type a room number."@,
        ActionError::InvalidNumber => "Please type a valid number."@,
        ActionError::InvalidCommand => "Please enter a valid command."@,
    }
}

/// The short reply for error `e`.
fn reply(e: ActionError) -> (r: String)
    ensures
        r@ == reply_text(e),
{
    match e {
        ActionError::EmptyCommand => String::from_str("please type in a command"),
        ActionError::NoNumber => String::from_str("Please also type a room number."),
        ActionError::InvalidNumber => String::from_str("Please type a valid number."),
        ActionError::InvalidCommand => String::from_str("Please enter a valid command."),
    }
}

/// The room number after the command word, or why there is none.
fn room_number(words: &Vec<String>) -> (r: Result<usize, ActionError>)
    ensures
        r == room_word(words@.map_values(|w: String| w@)),
{
    if words.len() < 2 {
        return Err(ActionError::NoNumber);
    }
    match parse_usize(words[1].as_str()) {
        Some(n) => Ok(n),
        None => Err(ActionError::InvalidNumber),
    }
}

impl Action {
    /// Reads a command from the line `s`.
    pub fn chad_from(s: String) -> (r: Result<Action, ActionError>)
        ensures
            r == action_of(s@),
    {
        let words = split_words(s.as_str());
        let ghost w = words@.map_values(|w: String| w@);
        if words.len() == 0 {
            return Err(ActionError::EmptyCommand);
        }
        let first = lowercase(words[0].as_str());
        assert(first@ == lower_of(w[0]));
        if first == String::from_str("shoot") || first == String::from_str("s") {
            match room_number(&words) {
                Ok(n) => Ok(Action::Shoot(n)),
                Err(e) => Err(e),
            }
        } else if first == String::from_str("move") || first == String::from_str("m") {
            match room_number(&words) {
                Ok(n) => Ok(Action::Move(n)),
                Err(e) => Err(e),
            }
        } else if first == String::from_str("quit") || first == String::from_str("q") {
            Ok(Action::Quit)
        } else if first == String::from_str("help") || first == String::from_str("h") {
            Ok(Action::Help)
        } else {
            Err(ActionError::InvalidCommand)
        }
    }

    /// Reads a command from the line `s`; what is wrong with a line that
    /// holds none is told in a short reply.
    pub fn from(s: String) -> (r: Result<Action, String>)
        ensures
            action_of(s@) is Ok ==> r == Ok::<Action, String>(action_of(s@)->Ok_0),
            action_of(s@) is Err ==> r is Err && r->Err_0@ == reply_text(action_of(s@)->Err_0),
    {
        match Action::chad_from(s) {
            Ok(a) => Ok(a),
            Err(e) => Err(reply(e)),
        }
    }
}

impl ActionError {
    /// A sentence that tells the user what is wrong with the line.
    pub fn message(&self) -> (r: String)
        ensures
            *self == ActionError::EmptyCommand ==> r@ == "Please enter a command."@,
            *self == ActionError::InvalidCommand ==> r@ == "That command does not exist."@,
            *self == ActionError::NoNumber ==> r@ == "Please enter a room number after command."@,
            *self == ActionError::InvalidNumber ==> r@ == "Please enter a valid positive integer."@,
    {
        match self {
            ActionError::EmptyCommand => String::from_str("Please enter a command."),
            ActionError::InvalidCommand => String::from_str("That command does not exist."),
            ActionError::NoNumber => String::from_str("Please enter a room number after command."),
            ActionError::InvalidNumber => String::from_str("Please enter a valid positive integer."),
        }
    }
}

} // verus!
