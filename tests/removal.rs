use event_horizon::{is_terminal, Controls, Heading, Player};

#[test]
fn new_places_player_last() {
    let mut bodies = vec![10, 20, 30];
    let p = Player::new(&mut bodies, 99);
    assert_eq!(p.id, 3);
    assert_eq!(bodies, vec![10, 20, 30, 99]);
}

#[test]
fn removal_without_contacts_changes_nothing() {
    let mut bodies = vec![1, 2, 3];
    let mut p = Player::at(2);
    let removed = p.remove_eaten(&mut bodies, &vec![false, false, false]);
    assert!(removed.is_empty());
    assert_eq!(bodies, vec![1, 2, 3]);
    assert_eq!(p.id, 2);
}

#[test]
fn player_moves_into_emptied_slot() {
    // The player is last; removing index 1 moves it into slot 1.
    let mut bodies = vec![1, 2, 3, 4];
    let mut p = Player::at(3);
    let removed = p.remove_eaten(&mut bodies, &vec![false, true, false, false]);
    assert_eq!(removed, vec![2]);
    assert_eq!(bodies, vec![1, 4, 3]);
    assert_eq!(p.id, 1);
    assert_eq!(bodies[p.id], 4);
}

#[test]
fn removing_the_last_body_pops_it() {
    let mut bodies = vec![1, 2, 3];
    let mut p = Player::at(0);
    let removed = p.remove_eaten(&mut bodies, &vec![false, false, true]);
    assert_eq!(removed, vec![3]);
    assert_eq!(bodies, vec![1, 2]);
    assert_eq!(p.id, 0);
}

#[test]
fn several_removals_keep_player_identity() {
    // Player body 50 at index 5; bodies 0, 2 and 4 are eaten.
    let mut bodies = vec![0, 10, 20, 30, 40, 50];
    let mut p = Player::at(5);
    let removed = p.remove_eaten(&mut bodies, &vec![true, false, true, false, true, false]);
    // Removed highest index first.
    assert_eq!(removed, vec![40, 20, 0]);
    assert_eq!(bodies.len(), 3);
    assert_eq!(bodies[p.id], 50);
    let mut all: Vec<i32> = bodies.clone();
    all.extend(removed.iter().copied());
    all.sort();
    assert_eq!(all, vec![0, 10, 20, 30, 40, 50]);
    assert_eq!(bodies, vec![30, 10, 50]);
    assert_eq!(p.id, 2);
}

#[test]
fn everything_but_the_player_eaten() {
    let mut bodies = vec![7, 8, 9];
    let mut p = Player::at(1);
    let removed = p.remove_eaten(&mut bodies, &vec![true, false, true]);
    assert_eq!(removed, vec![9, 7]);
    assert_eq!(bodies, vec![8]);
    assert_eq!(p.id, 0);
    assert!(is_terminal(bodies.len()));
}

#[test]
fn terminal_only_at_one_or_fewer() {
    assert!(is_terminal(0));
    assert!(is_terminal(1));
    assert!(!is_terminal(2));
    assert!(!is_terminal(300));
}

#[test]
fn headings_push_along_one_axis() {
    assert_eq!(Controls::heading_axis(Heading::Up), (0, -1));
    assert_eq!(Controls::heading_axis(Heading::Down), (0, 1));
    assert_eq!(Controls::heading_axis(Heading::Left), (-1, 0));
    assert_eq!(Controls::heading_axis(Heading::Right), (1, 0));
}
