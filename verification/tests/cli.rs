use pabitell::cli::{
    controls_screens, event_line, main_menu_screens, next_screen, selection_line, Outcome, Screen,
};

#[test]
fn menu_leads_to_chosen_screen_or_ends() {
    assert_eq!(next_screen(Screen::Menu, Outcome::Picked(Some(Screen::Events))), Some(Screen::Events));
    assert_eq!(next_screen(Screen::Menu, Outcome::Picked(Some(Screen::Controls))), Some(Screen::Controls));
    assert_eq!(next_screen(Screen::Menu, Outcome::Picked(Some(Screen::Exit))), None);
    assert_eq!(next_screen(Screen::Menu, Outcome::Picked(None)), None);
}

#[test]
fn lists_go_back_to_menu() {
    for s in [Screen::Items, Screen::Characters, Screen::Scenes, Screen::Back, Screen::Reset] {
        assert_eq!(next_screen(s, Outcome::Done), Some(Screen::Menu));
    }
}

#[test]
fn events_repeat_after_a_trigger() {
    assert_eq!(next_screen(Screen::Events, Outcome::Triggered), Some(Screen::Events));
    assert_eq!(next_screen(Screen::Events, Outcome::Done), Some(Screen::Menu));
}

#[test]
fn controls_and_storage() {
    assert_eq!(next_screen(Screen::Controls, Outcome::Picked(Some(Screen::Load))), Some(Screen::Load));
    assert_eq!(next_screen(Screen::Controls, Outcome::Picked(None)), Some(Screen::Controls));
    assert_eq!(next_screen(Screen::Load, Outcome::WorldChosen(true)), Some(Screen::Menu));
    assert_eq!(next_screen(Screen::Load, Outcome::WorldChosen(false)), Some(Screen::Controls));
    assert_eq!(next_screen(Screen::Delete, Outcome::WorldChosen(true)), Some(Screen::Controls));
    assert_eq!(next_screen(Screen::Exit, Outcome::Done), None);
}

#[test]
fn menus_and_texts() {
    let names: Vec<&str> = main_menu_screens().iter().map(|s| s.text()).collect();
    assert_eq!(names, vec!["items", "characters", "scenes", "events", "controls", "exit"]);
    let names: Vec<&str> = controls_screens().iter().map(|s| s.text()).collect();
    assert_eq!(names, vec!["reset", "load", "delete", "back"]);
    assert_eq!(Screen::Menu.text(), "menu");
}

#[test]
fn lines() {
    assert_eq!(selection_line("Selected Items", &vec![]), "Selected Items: ");
    assert_eq!(selection_line("Selected Items", &vec!["cake".to_string()]), "Selected Items: cake");
    assert_eq!(
        selection_line("Selected Scenes", &vec!["garden".to_string(), "kitchen".to_string(), "attic".to_string()]),
        "Selected Scenes: garden, kitchen, attic"
    );
    assert_eq!(event_line(0, "The dog eats."), "1. The dog eats.");
    assert_eq!(event_line(41, "x"), "42. x");
}
