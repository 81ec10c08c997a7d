use wumpus::{Action, ActionError};

#[test]
fn reads_move_and_shoot() {
    assert_eq!(Action::chad_from("move 4".to_string()), Ok(Action::Move(4)));
    assert_eq!(Action::chad_from("m 0".to_string()), Ok(Action::Move(0)));
    assert_eq!(Action::chad_from("shoot 9".to_string()), Ok(Action::Shoot(9)));
    assert_eq!(Action::chad_from("  s\t7  \n".to_string()), Ok(Action::Shoot(7)));
}

#[test]
fn command_word_in_any_case() {
    assert_eq!(Action::chad_from("MOVE 3".to_string()), Ok(Action::Move(3)));
    assert_eq!(Action::chad_from("Shoot 12".to_string()), Ok(Action::Shoot(12)));
    assert_eq!(Action::chad_from("QUIT".to_string()), Ok(Action::Quit));
    assert_eq!(Action::chad_from("H".to_string()), Ok(Action::Help));
}

#[test]
fn reads_quit_and_help() {
    assert_eq!(Action::chad_from("quit".to_string()), Ok(Action::Quit));
    assert_eq!(Action::chad_from("q now".to_string()), Ok(Action::Quit));
    assert_eq!(Action::chad_from("help".to_string()), Ok(Action::Help));
}

#[test]
fn room_number_forms() {
    assert_eq!(Action::chad_from("move +5".to_string()), Ok(Action::Move(5)));
    assert_eq!(Action::chad_from("move 007".to_string()), Ok(Action::Move(7)));
    assert_eq!(
        Action::chad_from("move 18446744073709551615".to_string()),
        Ok(Action::Move(18446744073709551615))
    );
}

#[test]
fn each_parse_error() {
    assert_eq!(Action::chad_from("".to_string()), Err(ActionError::EmptyCommand));
    assert_eq!(Action::chad_from("   ".to_string()), Err(ActionError::EmptyCommand));
    assert_eq!(Action::chad_from("move".to_string()), Err(ActionError::NoNumber));
    assert_eq!(Action::chad_from("s".to_string()), Err(ActionError::NoNumber));
    assert_eq!(Action::chad_from("move x".to_string()), Err(ActionError::InvalidNumber));
    assert_eq!(Action::chad_from("shoot -1".to_string()), Err(ActionError::InvalidNumber));
    assert_eq!(Action::chad_from("shoot +".to_string()), Err(ActionError::InvalidNumber));
    assert_eq!(
        Action::chad_from("move 18446744073709551616".to_string()),
        Err(ActionError::InvalidNumber)
    );
    assert_eq!(Action::chad_from("jump 3".to_string()), Err(ActionError::InvalidCommand));
}

#[test]
fn from_gives_short_replies() {
    assert_eq!(Action::from("m 2".to_string()), Ok(Action::Move(2)));
    assert_eq!(Action::from("".to_string()), Err("please type in a command".to_string()));
    assert_eq!(Action::from("shoot".to_string()), Err("Please also type a room number.".to_string()));
    assert_eq!(Action::from("move two".to_string()), Err("Please type a valid number.".to_string()));
    assert_eq!(Action::from("dance".to_string()), Err("Please enter a valid command.".to_string()));
}

#[test]
fn action_error_messages() {
    assert_eq!(ActionError::EmptyCommand.message(), "Please enter a command.");
    assert_eq!(ActionError::InvalidCommand.message(), "That command does not exist.");
    assert_eq!(ActionError::NoNumber.message(), "Please enter a room number after command.");
    assert_eq!(ActionError::InvalidNumber.message(), "Please enter a valid positive integer.");
}
