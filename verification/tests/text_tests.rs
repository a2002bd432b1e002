use roguelike::text::{
    damage_message, death_message, nothing_here_message, pickup_message, player_death_message,
    unable_message,
};

#[test]
fn damage_message_names_both_and_the_amount() {
    assert_eq!(damage_message("Player", 2, "Goblin"), "Player deals 2 hp damage to Goblin.");
}

#[test]
fn damage_message_writes_the_amount_in_decimal() {
    assert_eq!(damage_message("A", 0, "B"), "A deals 0 hp damage to B.");
    assert_eq!(damage_message("A", 10, "B"), "A deals 10 hp damage to B.");
    assert_eq!(damage_message("A", 2147483647, "B"), "A deals 2147483647 hp damage to B.");
    assert_eq!(damage_message("A", -15, "B"), "A deals -15 hp damage to B.");
}

#[test]
fn unable_message_names_both() {
    assert_eq!(unable_message("Goblin", "Player"), "Goblin is unable to hurt Player.");
}

#[test]
fn death_messages_read_as_expected() {
    assert_eq!(death_message("Goblin"), "Goblin is dead!");
    assert_eq!(player_death_message(), "You are dead!");
}

#[test]
fn pickup_messages_read_as_expected() {
    assert_eq!(pickup_message("Health Potion"), "You pick up the Health Potion.");
    assert_eq!(nothing_here_message(), "There is nothing here to pick up.");
}

#[test]
fn messages_keep_text_beyond_ascii() {
    assert_eq!(death_message("Grünkobold"), "Grünkobold is dead!");
}
