use uuid::Uuid;
use vstd::prelude::*;

use crate::json::Json;
use crate::webapp::characters::CharacterQRJson;

verus! {

/// Why a world could not be loaded from a file: the file held JSON that is
/// no world, or no JSON at all.
#[derive(Clone, Copy, Debug, PartialEq, Eq, Structural)]
pub enum FailedLoadState {
    WrongJson,
    NotJson,
}

/// The character a player plays after picking one from a stored world: the
/// narrator stands for playing no character.
pub fn picked_character(character: String) -> (r: Option<String>)
    ensures
        character@ == "narrator"@ ==> r is None,
        character@ != "narrator"@ ==> r == Some(character),
{
    let narrator = String::from_str("narrator");
    proof {
        reveal_strlit("narrator");
    }
    if character.eq(&narrator) {
        None
    } else {
        Some(character)
    }
}

/// Joining a world from a scanned code: the character to play, whether the
/// player is held to it (exactly when the code names one), and the world.
pub fn scanned_join(qr: CharacterQRJson) -> (r: (Option<String>, bool, Uuid))
    ensures
        r.0 == qr.character,
        r.1 == (qr.character is Some),
        r.2 == qr.world_id,
{
    let CharacterQRJson { character, world_id } = qr;
    let fixed = character.is_some();
    (character, fixed, world_id)
}

/// What came of reading a scanned code: it was no data address, its content
/// was not proper base64, it held no character code, or it named a world to
/// join.
pub enum ScanOutcome {
    NotDataUrl,
    NotBase64,
    NotCharacter,
    Join(CharacterQRJson),
}

/// What happens on the start page. The messages that read or write the
/// stored worlds or files are handled around this step.
pub enum IntroMsg {
    ShowPrint,
    NewWorld,
    QRCodeScanShow,
    QRCodeScanned(ScanOutcome),
    WorldPicked(Uuid, String, bool),
    SetLanguage(String),
    LoadWorld(Json),
    FileReadFailed,
}

/// What the start page asks of the application around it.
pub enum IntroAction {
    ShowPrint(bool),
    NewWorld,
    ActivateScanner,
    CharacterScanned(Option<String>, bool, Uuid),
    SetLanguage(String),
    TryLoadWorld(Json),
    LoadFailed(FailedLoadState),
}

/// The step of the start page: the actions a message asks for, and whether
/// the page is drawn again. A scanned code that names a world joins it; one
/// whose content is not proper base64 turns the scanner on again.
pub fn intro_step(msg: IntroMsg) -> (r: (Vec<IntroAction>, bool))
    ensures
        match msg {
            IntroMsg::ShowPrint => r.0@ == seq![IntroAction::ShowPrint(true)] && !r.1,
            IntroMsg::NewWorld => r.0@ == seq![IntroAction::NewWorld] && r.1,
            IntroMsg::QRCodeScanShow => r.0@ == seq![IntroAction::ActivateScanner] && !r.1,
            IntroMsg::QRCodeScanned(outcome) => !r.1 && match outcome {
                ScanOutcome::Join(qr) => r.0@ == seq![
                    IntroAction::CharacterScanned(qr.character, qr.character is Some, qr.world_id),
                ],
                ScanOutcome::NotBase64 => r.0@ == seq![IntroAction::ActivateScanner],
                _ => r.0@.len() == 0,
            },
            IntroMsg::WorldPicked(id, character, fixed) => r.1 && r.0@.len() == 1 && (
            r.0@[0] matches IntroAction::CharacterScanned(c, f, i) && f == fixed && i == id && (
            character@ == "narrator"@ ==> c is None) && (character@ != "narrator"@ ==> c == Some(
                character,
            ))),
            IntroMsg::SetLanguage(lang) => r.0@ == seq![IntroAction::SetLanguage(lang)] && r.1,
            IntroMsg::LoadWorld(v) => r.0@ == seq![IntroAction::TryLoadWorld(v)] && r.1,
            IntroMsg::FileReadFailed => r.0@ == seq![IntroAction::LoadFailed(FailedLoadState::NotJson)]
                && r.1,
        },
{
    let mut actions: Vec<IntroAction> = Vec::new();
    let render = match msg {
        IntroMsg::ShowPrint => {
            actions.push(IntroAction::ShowPrint(true));
            false
        },
        IntroMsg::NewWorld => {
            actions.push(IntroAction::NewWorld);
            true
        },
        IntroMsg::QRCodeScanShow => {
            actions.push(IntroAction::ActivateScanner);
            false
        },
        IntroMsg::QRCodeScanned(outcome) => {
            match outcome {
                ScanOutcome::Join(qr) => {
                    let (character, fixed, world_id) = scanned_join(qr);
                    actions.push(IntroAction::CharacterScanned(character, fixed, world_id));
                },
                ScanOutcome::NotBase64 => {
                    actions.push(IntroAction::ActivateScanner);
                },
                _ => {},
            }
            false
        },
        IntroMsg::WorldPicked(id, character, fixed) => {
            let c = picked_character(character);
            actions.push(IntroAction::CharacterScanned(c, fixed, id));
            true
        },
        IntroMsg::SetLanguage(lang) => {
            actions.push(IntroAction::SetLanguage(lang));
            true
        },
        IntroMsg::LoadWorld(v) => {
            actions.push(IntroAction::TryLoadWorld(v));
            true
        },
        IntroMsg::FileReadFailed => {
            actions.push(IntroAction::LoadFailed(FailedLoadState::NotJson));
            true
        },
    };
    (actions, render)
}

/// The camera to turn on: the one used before where it is still there, else
/// the first one; none where there is no camera.
pub fn pick_camera(stored: Option<String>, devices: &Vec<String>) -> (r: Option<String>)
    ensures
        devices@.len() == 0 ==> r is None,
        devices@.len() > 0 ==> match stored {
            Some(s) => if crate::text::texts(devices@).contains(s@) {
                r == Some(s)
            } else {
                r is Some && r->0@ == devices@[0]@
            },
            None => r is Some && r->0@ == devices@[0]@,
        },
{
    if devices.len() == 0 {
        return None;
    }
    match stored {
        Some(s) => {
            if crate::text::contains_string(devices, &s) {
                Some(s)
            } else {
                Some(devices[0].clone())
            }
        },
        None => Some(devices[0].clone()),
    }
}

} // verus!
