//! The decisions of the main loop: what each input does to the display
//! settings, and the numbers taken from the command line.
use crate::config::Configuration;
use crate::geometry::delay_fps;
use vstd::prelude::*;

verus! {

/// The inputs the main loop reacts to.
#[derive(Clone, Copy, PartialEq, Eq, Structural, Debug)]
pub enum Input {
    /// The window is closed.
    Quit,
    /// The Escape key.
    KeyEscape,
    /// The R key: revert the colors.
    KeyR,
    /// The A key: switch between 24 and 12 hours.
    KeyA,
    /// The Q key: read the configuration file again.
    KeyQ,
    /// The window changed size.
    Resized,
    /// Anything else.
    Other,
}

/// What the main loop does after an input.
#[derive(Clone, Copy, PartialEq, Eq, Structural, Debug)]
pub enum Command {
    /// Go on drawing.
    Continue,
    /// Leave the loop, save the configuration and end.
    Stop,
    /// Read the configuration file again, take its settings and lay out the
    /// faces anew.
    Reload,
    /// Lay out the faces anew for the new window size, in the colors of the
    /// configuration.
    Relayout,
}

/// The display settings that the keys switch.
#[derive(Clone, Copy, PartialEq, Eq, Structural, Debug)]
pub struct Settings {
    pub am_pm: bool,
    pub revert: bool,
}

/// The effect of an input on the settings and on the loop.
pub open spec fn input_effect(s: Settings, input: Input) -> (Settings, Command) {
    match input {
        Input::Quit | Input::KeyEscape => (s, Command::Stop),
        Input::KeyR => (Settings { am_pm: s.am_pm, revert: !s.revert }, Command::Continue),
        Input::KeyA => (Settings { am_pm: !s.am_pm, revert: s.revert }, Command::Continue),
        Input::KeyQ => (s, Command::Reload),
        Input::Resized => (s, Command::Relayout),
        Input::Other => (s, Command::Continue),
    }
}

/// Pressing R or A twice gives back the settings one started with, and
/// each of them changes only its own setting.
pub proof fn lemma_switches_undo_themselves(s: Settings)
    ensures
        input_effect(input_effect(s, Input::KeyR).0, Input::KeyR).0 == s,
        input_effect(input_effect(s, Input::KeyA).0, Input::KeyA).0 == s,
        input_effect(s, Input::KeyR).0.am_pm == s.am_pm,
        input_effect(s, Input::KeyR).0.revert != s.revert,
        input_effect(s, Input::KeyA).0.revert == s.revert,
        input_effect(s, Input::KeyA).0.am_pm != s.am_pm,
{
}

/// Only R and A change the settings: every other input leaves them as they
/// were.  R and A themselves never stop or reload anything, and only closing
/// the window or Escape stops the loop.
pub proof fn lemma_other_inputs_keep_settings(s: Settings, i: Input)
    ensures
        i != Input::KeyR && i != Input::KeyA ==> input_effect(s, i).0 == s,
        i == Input::KeyR || i == Input::KeyA ==> input_effect(s, i).1 == Command::Continue,
        input_effect(s, i).1 == Command::Stop <==> (i == Input::Quit || i == Input::KeyEscape),
{
}

/// Reacts to one input: R and A switch their setting, Q asks for the
/// configuration to be read again, a new window size for the faces to be
/// laid out again, closing the window or Escape ends the loop.
pub fn handle_input(settings: Settings, input: Input) -> (r: (Settings, Command))
    ensures
        r == input_effect(settings, input),
{
    match input {
        Input::Quit | Input::KeyEscape => (settings, Command::Stop),
        Input::KeyR => (Settings { am_pm: settings.am_pm, revert: !settings.revert }, Command::Continue),
        Input::KeyA => (Settings { am_pm: !settings.am_pm, revert: settings.revert }, Command::Continue),
        Input::KeyQ => (settings, Command::Reload),
        Input::Resized => (settings, Command::Relayout),
        Input::Other => (settings, Command::Continue),
    }
}

/// The settings a (re)loaded configuration starts with.
pub fn settings_of(config: &Configuration) -> (s: Settings)
    ensures
        s == (Settings { am_pm: config.am_pm, revert: config.revert }),
{
    Settings { am_pm: config.am_pm, revert: config.revert }
}

/// The pause between frames for the `--fps` option: no option means no
/// limit; the value is taken as an `i32`.
pub fn frame_delay(fps: Option<i64>) -> (ms: u32)
    ensures
        ms == match fps {
            None => 0,
            Some(f) => if (f as i32) <= 0 { 0 } else { (1000int / ((f as i32) as int)) as u32 },
        },
{
    let fl: i64 = match fps {
        Some(f) => f,
        None => -1,
    };
    delay_fps(fl as i32)
}

/// The renderer index for the `--selected-gpu-renderer` option, which counts
/// from 1.
pub fn renderer_index(selected: usize) -> (i: u32)
    requires
        selected >= 1,
    ensures
        i == ((selected - 1) as u32),
{
    (selected - 1) as u32
}

} // verus!
