use wumpus::Player;

#[test]
fn new_player_is_alive_where_placed() {
    match Player::new(3, 0) {
        Player::Alive { arrows, location } => {
            assert_eq!(arrows, 3);
            assert_eq!(location, 0);
        }
        _ => panic!("a new player is alive"),
    }
}

#[test]
fn get_loc_of_each_state() {
    assert_eq!(Player::new(2, 7).get_loc(), Ok(7));
    assert_eq!(Player::Dead("x".to_string()).get_loc(), Err("Player is dead!".to_string()));
    assert_eq!(Player::Win.get_loc(), Err("The player has won!".to_string()));
}

#[test]
fn shoot_spends_an_arrow() {
    match Player::new(3, 4).shoot() {
        Player::Alive { arrows, location } => {
            assert_eq!(arrows, 2);
            assert_eq!(location, 4);
        }
        _ => panic!("two arrows are left"),
    }
}

#[test]
fn shoot_last_arrow_kills() {
    match Player::new(1, 4).shoot() {
        Player::Dead(msg) => {
            assert_eq!(msg, "You have ran out of arrows. A grue comes to eat you.")
        }
        _ => panic!("the last arrow kills"),
    }
}

#[test]
fn shoot_when_game_over_changes_nothing() {
    assert!(matches!(Player::Win.shoot(), Player::Win));
    match Player::Dead("gone".to_string()).shoot() {
        Player::Dead(msg) => assert_eq!(msg, "gone"),
        _ => panic!("a dead player stays dead"),
    }
}

#[test]
fn move_to_keeps_arrows() {
    match Player::new(2, 1).move_to(6) {
        Player::Alive { arrows, location } => {
            assert_eq!(arrows, 2);
            assert_eq!(location, 6);
        }
        _ => panic!("a moved player is alive"),
    }
    assert!(matches!(Player::Win.move_to(3), Player::Win));
}

#[test]
fn kill_and_praise() {
    match Player::new(3, 0).kill("bye".to_string()) {
        Player::Dead(msg) => assert_eq!(msg, "bye"),
        _ => panic!("a killed player is dead"),
    }
    assert!(matches!(Player::new(3, 0).praise(), Player::Win));
}
