use vstd::prelude::*;

use crate::text::{decimal, decimal_string, texts};

verus! {

broadcast use vstd::std_specs::vec::group_vec_axioms;

/// The screens of the game on the command line.
#[derive(Clone, Copy, Debug, PartialEq, Eq, Structural)]
pub enum Screen {
    Menu,
    Items,
    Characters,
    Scenes,
    Events,
    Controls,
    Reset,
    Load,
    Delete,
    Back,
    Exit,
}

/// What came of a screen.
#[derive(Clone, Copy, Debug, PartialEq, Eq, Structural)]
pub enum Outcome {
    /// A menu was answered with a screen, or closed without an answer.
    Picked(Option<Screen>),
    /// An event was chosen and triggered.
    Triggered,
    /// A stored world was chosen, or none was.
    WorldChosen(bool),
    /// The screen did its work, and nothing that was chosen decides what
    /// comes next.
    Done,
}

/// The screen that comes after a screen and what came of it; `None` where
/// the game ends.
pub open spec fn next_screen_spec(screen: Screen, outcome: Outcome) -> Option<Screen> {
    match screen {
        Screen::Menu => match outcome {
            Outcome::Picked(Some(Screen::Items)) => Some(Screen::Items),
            Outcome::Picked(Some(Screen::Characters)) => Some(Screen::Characters),
            Outcome::Picked(Some(Screen::Scenes)) => Some(Screen::Scenes),
            Outcome::Picked(Some(Screen::Events)) => Some(Screen::Events),
            Outcome::Picked(Some(Screen::Controls)) => Some(Screen::Controls),
            _ => None,
        },
        Screen::Items | Screen::Characters | Screen::Scenes => Some(Screen::Menu),
        Screen::Events => match outcome {
            Outcome::Triggered => Some(Screen::Events),
            _ => Some(Screen::Menu),
        },
        Screen::Controls => match outcome {
            Outcome::Picked(Some(s)) => Some(s),
            _ => Some(Screen::Controls),
        },
        Screen::Back | Screen::Reset => Some(Screen::Menu),
        Screen::Exit => None,
        Screen::Delete => Some(Screen::Controls),
        Screen::Load => match outcome {
            Outcome::WorldChosen(true) => Some(Screen::Menu),
            _ => Some(Screen::Controls),
        },
    }
}

/// The screen that comes after a screen and what came of it; `None` where
/// the game ends.
pub fn next_screen(screen: Screen, outcome: Outcome) -> (r: Option<Screen>)
    ensures
        r == next_screen_spec(screen, outcome),
{
    match screen {
        Screen::Menu => match outcome {
            Outcome::Picked(Some(Screen::Items)) => Some(Screen::Items),
            Outcome::Picked(Some(Screen::Characters)) => Some(Screen::Characters),
            Outcome::Picked(Some(Screen::Scenes)) => Some(Screen::Scenes),
            Outcome::Picked(Some(Screen::Events)) => Some(Screen::Events),
            Outcome::Picked(Some(Screen::Controls)) => Some(Screen::Controls),
            _ => None,
        },
        Screen::Items | Screen::Characters | Screen::Scenes => Some(Screen::Menu),
        Screen::Events => match outcome {
            Outcome::Triggered => Some(Screen::Events),
            _ => Some(Screen::Menu),
        },
        Screen::Controls => match outcome {
            Outcome::Picked(Some(s)) => Some(s),
            _ => Some(Screen::Controls),
        },
        Screen::Back | Screen::Reset => Some(Screen::Menu),
        Screen::Exit => None,
        Screen::Delete => Some(Screen::Controls),
        Screen::Load => match outcome {
            Outcome::WorldChosen(true) => Some(Screen::Menu),
            _ => Some(Screen::Controls),
        },
    }
}

/// The name of a screen.
pub open spec fn screen_text(screen: Screen) -> Seq<char> {
    match screen {
        Screen::Menu => "menu"@,
        Screen::Items => "items"@,
        Screen::Characters => "characters"@,
        Screen::Scenes => "scenes"@,
        Screen::Events => "events"@,
        Screen::Controls => "controls"@,
        Screen::Reset => "reset"@,
        Screen::Load => "load"@,
        Screen::Delete => "delete"@,
        Screen::Back => "back"@,
        Screen::Exit => "exit"@,
    }
}

impl Screen {
    /// The name of the screen, as a menu shows it.
    pub fn text(&self) -> (r: &'static str)
        ensures
            r@ == screen_text(*self),
    {
        match self {
            Screen::Menu => "menu",
            Screen::Items => "items",
            Screen::Characters => "characters",
            Screen::Scenes => "scenes",
            Screen::Events => "events",
            Screen::Controls => "controls",
            Screen::Reset => "reset",
            Screen::Load => "load",
            Screen::Delete => "delete",
            Screen::Back => "back",
            Screen::Exit => "exit",
        }
    }
}

/// The choices of the main menu, in their order.
pub fn main_menu_screens() -> (r: Vec<Screen>)
    ensures
        r@ == seq![Screen::Items, Screen::Characters, Screen::Scenes, Screen::Events, Screen::Controls, Screen::Exit],
{
    let mut r: Vec<Screen> = Vec::new();
    r.push(Screen::Items);
    r.push(Screen::Characters);
    r.push(Screen::Scenes);
    r.push(Screen::Events);
    r.push(Screen::Controls);
    r.push(Screen::Exit);
    assert(r@ =~= seq![Screen::Items, Screen::Characters, Screen::Scenes, Screen::Events, Screen::Controls, Screen::Exit]);
    r
}

/// The choices of the controls menu, in their order.
pub fn controls_screens() -> (r: Vec<Screen>)
    ensures
        r@ == seq![Screen::Reset, Screen::Load, Screen::Delete, Screen::Back],
{
    let mut r: Vec<Screen> = Vec::new();
    r.push(Screen::Reset);
    r.push(Screen::Load);
    r.push(Screen::Delete);
    r.push(Screen::Back);
    assert(r@ =~= seq![Screen::Reset, Screen::Load, Screen::Delete, Screen::Back]);
    r
}

/// The texts joined with a comma and a space between each two.
pub open spec fn joined(s: Seq<Seq<char>>) -> Seq<char>
    decreases s.len(),
{
    if s.len() == 0 {
        Seq::empty()
    } else if s.len() == 1 {
        s[0]
    } else {
        joined(s.drop_last()) + ", "@ + s.last()
    }
}

/// A line that names what is selected: the label, a colon, and the texts
/// joined with commas.
pub fn selection_line(label: &str, shorts: &Vec<String>) -> (r: String)
    ensures
        r@ == label@ + ": "@ + joined(texts(shorts@)),
{
    let mut list = String::new();
    let mut i: usize = 0;
    while i < shorts.len()
        invariant
            i <= shorts.len(),
            list@ == joined(texts(shorts@).subrange(0, i as int)),
        decreases shorts.len() - i,
    {
        let ghost prev = texts(shorts@).subrange(0, i as int);
        if i > 0 {
            list.append(", ");
        }
        list.append(shorts[i].as_str());
        proof {
            let next = texts(shorts@).subrange(0, i + 1);
            assert(next.drop_last() =~= prev);
            assert(next.last() == shorts@[i as int]@);
            if i == 0 {
                assert(next.len() == 1);
            }
        }
        i += 1;
    }
    assert(texts(shorts@).subrange(0, shorts.len() as int) =~= texts(shorts@));
    let mut r = String::from_str(label);
    r.append(": ");
    r.append(list.as_str());
    r
}

/// The line that tells of a triggered event: its number, counted from one,
/// and its text.
pub fn event_line(event_count: usize, text: &str) -> (r: String)
    requires
        event_count < usize::MAX,
    ensures
        r@ == decimal((event_count + 1) as nat) + ". "@ + text@,
{
    let mut r = decimal_string(event_count + 1);
    r.append(". ");
    r.append(text);
    r
}

} // verus!
