//! The state behind the editor's panels.
//!
//! The panels are drawn elsewhere, and the clock that paces the playback is
//! read elsewhere. What the user does with a panel comes in as an event, and
//! what the editor is to do about it goes out as a command, which `check`
//! hands over once.

pub mod main_menu;

pub use self::main_menu::{MainMenuCommand, MainMenuInterface};

use crate::number::Single;
use vstd::prelude::*;

verus! {

/// What the main panel asks the editor to do.
#[derive(Clone, Copy, Debug, PartialEq, Eq, Structural)]
pub enum MainInterfaceCommand {
    /// Nothing to do.
    Nothing,
    /// Give the active doodad this scale.
    Scale(Single),
    /// Give the active doodad this rotation in the current frame.
    Rotate(Single),
    /// Show this frame.
    Frame(i32),
}

/// What the user did with the main panel.
#[derive(Clone, Copy, Debug, PartialEq, Eq, Structural)]
pub enum PanelEvent {
    /// The slider for the scale was moved to this value.
    Scale(Single),
    /// The slider for the rotation was moved to this value.
    Rotation(Single),
    /// The slider for the frame was moved to this frame.
    Frame(i32),
    /// The field for the framerate was edited and holds this now.
    Framerate(i32),
    /// The box for the playback was clicked and is in this state now.
    Play(bool),
}

/// The main panel: the scale and the rotation of the active doodad, the frame
/// that is shown, and the playback.
#[derive(Clone, Copy, Debug, PartialEq, Eq, Structural)]
pub struct MainInterface {
    pub scale: Single,
    pub rotation: Single,
    pub current_frame: i32,
    pub play: bool,
    pub frames_per_anim: i32,
    /// The time that a frame is shown during playback, in milliseconds.
    pub framerate: i32,
    pub did_change: bool,
    pub command: MainInterfaceCommand,
}

impl MainInterface {
    /// The animation has a frame, and the frame shown is one of its frames.
    pub open spec fn wf(self) -> bool {
        0 <= self.current_frame < self.frames_per_anim
    }

    /// A panel for an animation of 6 frames, each shown for 1000 milliseconds,
    /// at frame 0, not playing, with scale 1 and rotation 0.
    pub fn new() -> (panel: MainInterface)
        ensures
            panel.wf(),
            panel == (MainInterface {
                scale: Single::spec_one(),
                rotation: Single::spec_zero(),
                current_frame: 0,
                play: false,
                frames_per_anim: 6,
                framerate: 1000,
                did_change: false,
                command: MainInterfaceCommand::Nothing,
            }),
    {
        MainInterface {
            scale: Single::one(),
            rotation: Single::zero(),
            current_frame: 0,
            play: false,
            frames_per_anim: 6,
            framerate: 1000,
            did_change: false,
            command: MainInterfaceCommand::Nothing,
        }
    }

    /// The frame after `frame` in an animation of `frames` frames: the first
    /// frame comes after the last.
    pub open spec fn next_frame(frame: i32, frames: i32) -> i32 {
        ((frame + 1) % (frames as int)) as i32
    }

    /// One tick of the editor. `passed` says whether the time of a frame has
    /// gone by since the clock was started. While the playback runs, the panel
    /// goes on to the next frame whenever that time has gone by, and asks the
    /// editor for its frame at every tick. Says whether the clock is to be
    /// started again.
    pub fn update(&mut self, passed: bool) -> (restart: bool)
        requires
            old(self).wf(),
        ensures
            final(self).wf(),
            restart == (old(self).play && passed),
            *final(self) == if old(self).play {
                MainInterface {
                    current_frame: if passed {
                        MainInterface::next_frame(old(self).current_frame, old(self).frames_per_anim)
                    } else {
                        old(self).current_frame
                    },
                    command: MainInterfaceCommand::Frame(
                        if passed {
                            MainInterface::next_frame(
                                old(self).current_frame,
                                old(self).frames_per_anim,
                            )
                        } else {
                            old(self).current_frame
                        },
                    ),
                    ..*old(self)
                }
            } else {
                *old(self)
            },
    {
        if self.play {
            if passed {
                self.current_frame = (self.current_frame + 1) % self.frames_per_anim;
            }
            self.command = MainInterfaceCommand::Frame(self.current_frame);
            passed
        } else {
            false
        }
    }

    /// Shows the scale and the rotation of a doodad that was picked.
    pub fn change_settings(&mut self, scale: Single, rotation: Single)
        ensures
            *final(self) == (MainInterface { scale, rotation, ..*old(self) }),
    {
        self.scale = scale;
        self.rotation = rotation;
    }

    /// Gets ready for an animation of `frames` frames: at frame 0, not
    /// playing.
    pub fn reset(&mut self, frames: i32)
        requires
            frames > 0,
        ensures
            final(self).wf(),
            *final(self) == (MainInterface {
                play: false,
                current_frame: 0,
                frames_per_anim: frames,
                ..*old(self)
            }),
    {
        self.play = false;
        self.current_frame = 0;
        self.frames_per_anim = frames;
    }

    pub fn set_rotation(&mut self, rotation: Single)
        ensures
            *final(self) == (MainInterface { rotation, ..*old(self) }),
    {
        self.rotation = rotation;
    }

    pub fn set_framerate(&mut self, framerate: i32)
        ensures
            *final(self) == (MainInterface { framerate, ..*old(self) }),
    {
        self.framerate = framerate;
    }

    pub fn get_framerate(&self) -> (framerate: i32)
        ensures
            framerate == self.framerate,
    {
        self.framerate
    }

    /// Hands over the command that is waiting, and waits for the next.
    pub fn check(&mut self) -> (command: MainInterfaceCommand)
        ensures
            command == old(self).command,
            *final(self) == (MainInterface { command: MainInterfaceCommand::Nothing, ..*old(self) }),
    {
        let command = self.command;
        self.command = MainInterfaceCommand::Nothing;
        command
    }

    /// The panel after the user did `event`.
    pub open spec fn after(self, event: PanelEvent) -> MainInterface {
        match event {
            PanelEvent::Scale(scale) => MainInterface {
                scale,
                did_change: true,
                command: MainInterfaceCommand::Scale(scale),
                ..self
            },
            PanelEvent::Rotation(rotation) => MainInterface {
                rotation,
                did_change: true,
                command: MainInterfaceCommand::Rotate(rotation),
                ..self
            },
            PanelEvent::Frame(frame) => MainInterface {
                current_frame: frame,
                did_change: true,
                play: false,
                command: MainInterfaceCommand::Frame(frame),
                ..self
            },
            PanelEvent::Framerate(framerate) => MainInterface { framerate, ..self },
            PanelEvent::Play(play) => MainInterface {
                play,
                current_frame: 0,
                command: MainInterfaceCommand::Frame(0),
                ..self
            },
        }
    }

    /// Takes in what the user did: see `after`. A frame that the slider gives
    /// is a frame of the animation. Says whether the clock is to be started
    /// again: it is after a change of frame, of framerate and of playback.
    pub fn handle(&mut self, event: PanelEvent) -> (restart: bool)
        requires
            old(self).wf(),
            event matches PanelEvent::Frame(frame) ==> 0 <= frame < old(self).frames_per_anim,
        ensures
            final(self).wf(),
            *final(self) == old(self).after(event),
            restart == (event is Frame || event is Framerate || event is Play),
    {
        match event {
            PanelEvent::Scale(scale) => {
                self.scale = scale;
                self.did_change = true;
                self.command = MainInterfaceCommand::Scale(scale);
                false
            },
            PanelEvent::Rotation(rotation) => {
                self.rotation = rotation;
                self.did_change = true;
                self.command = MainInterfaceCommand::Rotate(rotation);
                false
            },
            PanelEvent::Frame(frame) => {
                self.current_frame = frame;
                self.did_change = true;
                self.play = false;
                self.command = MainInterfaceCommand::Frame(frame);
                true
            },
            PanelEvent::Framerate(framerate) => {
                self.framerate = framerate;
                true
            },
            PanelEvent::Play(play) => {
                self.play = play;
                self.current_frame = 0;
                self.command = MainInterfaceCommand::Frame(0);
                true
            },
        }
    }
}

} // verus!
