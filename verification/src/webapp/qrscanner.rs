use vstd::prelude::*;

use crate::text::texts;
use crate::webapp::intro::pick_camera;

verus! {

/// The state of the code scanner: whether the cameras were listed and which
/// there are (by device id), whether the scanner is open, the camera in use,
/// whether pictures are being taken, whether a camera could be turned on,
/// and whether the code is typed in instead.
pub struct ScannerState {
    pub cameras_loaded: bool,
    pub cameras: Vec<String>,
    pub active: bool,
    pub current_device_id: Option<String>,
    pub scanning: bool,
    pub camera_available: bool,
    pub show_text_input: bool,
}

/// What happens to the scanner: it is opened or closed, the cameras were
/// listed (with the camera used before, if any), a picture was read (with
/// the code found in it, if any), a code was typed in, another camera is
/// picked, the camera started or could not, or the typing field is shown
/// or hidden.
pub enum ScannerMsg {
    Active(bool),
    CamerasLoaded(Vec<String>, Option<String>),
    Picture(Option<String>),
    TextInput(String),
    SwitchCamera(Option<String>),
    CameraSwitched,
    CameraNotAvailable,
    ToggleTextInput,
}

/// What the scanner asks of the browser: to stop taking pictures, to turn
/// the camera off, to switch to a camera, to hand on a code that was found,
/// to remember (or forget) the camera, to turn a camera on, to start taking
/// pictures, and to empty the typing field.
pub enum ScannerAction {
    StopScanning,
    TurnOffCamera,
    SwitchCamera(Option<String>),
    Found(String),
    StoreDevice(Option<String>),
    TurnOnCamera(String),
    StartScanning,
    ClearInput,
}

/// One step of the scanner: its next state, its actions, and whether it is
/// drawn again. Closing it stops the pictures and the camera; opening it
/// again turns the camera used before back on. Once the cameras are listed
/// the one used before is turned on where it is still there, else the
/// first. A code found in a picture, or typed in, is handed on and closes
/// the scanner.
pub fn scanner_step(s: ScannerState, msg: ScannerMsg) -> (r: (ScannerState, Vec<ScannerAction>, bool))
    ensures
        match msg {
            ScannerMsg::Active(a) => {
                &&& r.2
                &&& r.0.active == a
                &&& r.0.cameras == s.cameras && r.0.cameras_loaded == s.cameras_loaded
                &&& r.0.current_device_id == s.current_device_id
                &&& r.0.camera_available == s.camera_available && r.0.show_text_input == s.show_text_input
                &&& if !a {
                    &&& !r.0.scanning
                    &&& r.1@ =~= (if s.scanning {
                        seq![ScannerAction::StopScanning, ScannerAction::TurnOffCamera]
                    } else {
                        Seq::empty()
                    })
                } else {
                    &&& r.0.scanning == s.scanning
                    &&& match s.current_device_id {
                        Some(d) => r.1@.len() == 1 && r.1@[0] == ScannerAction::SwitchCamera(Some(d)),
                        None => r.1@.len() == 0,
                    }
                }
            },
            ScannerMsg::CamerasLoaded(cams, stored) => {
                &&& r.2
                &&& r.0.cameras == cams
                &&& r.0.cameras_loaded == (s.cameras_loaded || cams@.len() > 0)
                &&& r.0.active == s.active && r.0.scanning == s.scanning
                &&& r.0.current_device_id == s.current_device_id
                &&& r.0.camera_available == s.camera_available && r.0.show_text_input == s.show_text_input
                &&& if cams@.len() == 0 {
                    r.1@.len() == 0
                } else {
                    &&& r.1@.len() == 1
                    &&& r.1@[0] matches ScannerAction::SwitchCamera(Some(d)) && match stored {
                        Some(st) => if texts(cams@).contains(st@) {
                            d == st
                        } else {
                            d@ == cams@[0]@
                        },
                        None => d@ == cams@[0]@,
                    }
                }
            },
            ScannerMsg::Picture(found) => match found {
                Some(code) => {
                    &&& r.2
                    &&& !r.0.active && !r.0.scanning
                    &&& r.0.cameras == s.cameras && r.0.cameras_loaded == s.cameras_loaded
                    &&& r.0.current_device_id == s.current_device_id
                    &&& r.0.camera_available == s.camera_available && r.0.show_text_input == s.show_text_input
                    &&& r.1@ =~= (if s.scanning {
                        seq![ScannerAction::Found(code), ScannerAction::StopScanning]
                    } else {
                        seq![ScannerAction::Found(code)]
                    })
                },
                None => r.0 == s && r.1@.len() == 0 && !r.2,
            },
            ScannerMsg::TextInput(code) => {
                &&& r.2
                &&& !r.0.active && !r.0.scanning && !r.0.show_text_input
                &&& r.0.cameras == s.cameras && r.0.cameras_loaded == s.cameras_loaded
                &&& r.0.current_device_id == s.current_device_id
                &&& r.0.camera_available == s.camera_available
                &&& r.1@ =~= (if s.scanning {
                    seq![ScannerAction::Found(code), ScannerAction::StopScanning, ScannerAction::ClearInput]
                } else {
                    seq![ScannerAction::Found(code), ScannerAction::ClearInput]
                })
            },
            ScannerMsg::SwitchCamera(device) => {
                &&& r.2
                &&& r.0.camera_available
                &&& r.0.current_device_id == device
                &&& r.0.cameras == s.cameras && r.0.cameras_loaded == s.cameras_loaded
                &&& r.0.active == s.active && r.0.scanning == s.scanning
                &&& r.0.show_text_input == s.show_text_input
                &&& r.1@[0] matches ScannerAction::StoreDevice(st) && crate::world::opt_text(st)
                    == crate::world::opt_text(device)
                &&& r.1@[1] is TurnOffCamera
                &&& match device {
                    Some(d) => r.1@.len() == 3 && (r.1@[2] matches ScannerAction::TurnOnCamera(x) && x@ == d@),
                    None => r.1@.len() == 2,
                }
            },
            ScannerMsg::CameraSwitched => {
                &&& !r.2
                &&& r.0.scanning
                &&& r.1@ =~= seq![ScannerAction::StartScanning]
                &&& r.0.cameras == s.cameras && r.0.cameras_loaded == s.cameras_loaded
                &&& r.0.active == s.active && r.0.current_device_id == s.current_device_id
                &&& r.0.camera_available == s.camera_available && r.0.show_text_input == s.show_text_input
            },
            ScannerMsg::CameraNotAvailable => {
                &&& r.2
                &&& !r.0.camera_available
                &&& r.1@.len() == 0
                &&& r.0.cameras == s.cameras && r.0.cameras_loaded == s.cameras_loaded
                &&& r.0.active == s.active && r.0.scanning == s.scanning
                &&& r.0.current_device_id == s.current_device_id && r.0.show_text_input == s.show_text_input
            },
            ScannerMsg::ToggleTextInput => {
                &&& r.2
                &&& r.0.show_text_input == !s.show_text_input
                &&& r.1@.len() == 0
                &&& r.0.cameras == s.cameras && r.0.cameras_loaded == s.cameras_loaded
                &&& r.0.active == s.active && r.0.scanning == s.scanning
                &&& r.0.current_device_id == s.current_device_id && r.0.camera_available == s.camera_available
            },
        },
{
    let ScannerState {
        cameras_loaded,
        cameras,
        active,
        current_device_id,
        scanning,
        camera_available,
        show_text_input,
    } = s;
    let mut acts: Vec<ScannerAction> = Vec::new();
    match msg {
        ScannerMsg::Active(a) => {
            let mut scanning = scanning;
            if !a {
                if scanning {
                    acts.push(ScannerAction::StopScanning);
                    acts.push(ScannerAction::TurnOffCamera);
                    scanning = false;
                }
            } else {
                match &current_device_id {
                    Some(d) => acts.push(ScannerAction::SwitchCamera(Some(d.clone()))),
                    None => {},
                }
            }
            (
                ScannerState {
                    cameras_loaded,
                    cameras,
                    active: a,
                    current_device_id,
                    scanning,
                    camera_available,
                    show_text_input,
                },
                acts,
                true,
            )
        },
        ScannerMsg::CamerasLoaded(cams, stored) => {
            let mut loaded = cameras_loaded;
            if cams.len() > 0 {
                loaded = true;
                let d = pick_camera(stored, &cams);
                acts.push(ScannerAction::SwitchCamera(d));
            }
            (
                ScannerState {
                    cameras_loaded: loaded,
                    cameras: cams,
                    active,
                    current_device_id,
                    scanning,
                    camera_available,
                    show_text_input,
                },
                acts,
                true,
            )
        },
        ScannerMsg::Picture(found) => match found {
            Some(code) => {
                acts.push(ScannerAction::Found(code));
                if scanning {
                    acts.push(ScannerAction::StopScanning);
                }
                (
                    ScannerState {
                        cameras_loaded,
                        cameras,
                        active: false,
                        current_device_id,
                        scanning: false,
                        camera_available,
                        show_text_input,
                    },
                    acts,
                    true,
                )
            },
            None => (
                ScannerState {
                    cameras_loaded,
                    cameras,
                    active,
                    current_device_id,
                    scanning,
                    camera_available,
                    show_text_input,
                },
                acts,
                false,
            ),
        },
        ScannerMsg::TextInput(code) => {
            acts.push(ScannerAction::Found(code));
            if scanning {
                acts.push(ScannerAction::StopScanning);
            }
            acts.push(ScannerAction::ClearInput);
            (
                ScannerState {
                    cameras_loaded,
                    cameras,
                    active: false,
                    current_device_id,
                    scanning: false,
                    camera_available,
                    show_text_input: false,
                },
                acts,
                true,
            )
        },
        ScannerMsg::SwitchCamera(device) => {
            acts.push(ScannerAction::StoreDevice(crate::world::clone_opt(&device)));
            acts.push(ScannerAction::TurnOffCamera);
            match &device {
                Some(d) => acts.push(ScannerAction::TurnOnCamera(d.clone())),
                None => {},
            }
            (
                ScannerState {
                    cameras_loaded,
                    cameras,
                    active,
                    current_device_id: device,
                    scanning,
                    camera_available: true,
                    show_text_input,
                },
                acts,
                true,
            )
        },
        ScannerMsg::CameraSwitched => {
            acts.push(ScannerAction::StartScanning);
            (
                ScannerState {
                    cameras_loaded,
                    cameras,
                    active,
                    current_device_id,
                    scanning: true,
                    camera_available,
                    show_text_input,
                },
                acts,
                false,
            )
        },
        ScannerMsg::CameraNotAvailable => (
            ScannerState {
                cameras_loaded,
                cameras,
                active,
                current_device_id,
                scanning,
                camera_available: false,
                show_text_input,
            },
            acts,
            true,
        ),
        ScannerMsg::ToggleTextInput => (
            ScannerState {
                cameras_loaded,
                cameras,
                active,
                current_device_id,
                scanning,
                camera_available,
                show_text_input: !show_text_input,
            },
            acts,
            true,
        ),
    }
}

} // verus!
