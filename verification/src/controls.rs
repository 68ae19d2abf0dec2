//! Keyboard control of the focused channel.

use crate::graph::shared::{ChannelModel, GraphShared};
use vstd::prelude::*;

verus! {

/// A key press, as far as the controls tell keys apart.
#[derive(Clone, Copy, Debug, PartialEq, Eq)]
pub enum Key {
    Char(char),
    Tab,
    Other,
}

/// What a key press asks for.
#[derive(Clone, Copy, Debug, PartialEq, Eq, Structural)]
pub enum KeyCommand {
    /// Leave the program.
    Quit,
    /// Move the focus to the next channel.
    FocusNext,
    /// Flip autoscale of the focused channel.
    ToggleAutoscale,
    /// Move the focused channel on to the next smoothing preset.
    CycleSmoothing,
    /// Lock or unlock the bounds of the focused channel.
    ToggleLock,
}

/// The command of a key: `q` quits, tab moves the focus, `a` flips
/// autoscale, `s` cycles smoothing, `l` locks or unlocks. Other keys have
/// none.
pub open spec fn command_of(key: Key) -> Option<KeyCommand> {
    match key {
        Key::Tab => Some(KeyCommand::FocusNext),
        Key::Char(c) => if c == 'q' {
            Some(KeyCommand::Quit)
        } else if c == 'a' {
            Some(KeyCommand::ToggleAutoscale)
        } else if c == 's' {
            Some(KeyCommand::CycleSmoothing)
        } else if c == 'l' {
            Some(KeyCommand::ToggleLock)
        } else {
            None
        },
        Key::Other => None,
    }
}

/// The channel after a key command; `Quit` and `FocusNext` leave every
/// channel as it is.
pub open spec fn after_key(channel: ChannelModel, command: KeyCommand) -> ChannelModel {
    match command {
        KeyCommand::ToggleAutoscale => channel.toggle_autoscale(),
        KeyCommand::CycleSmoothing => channel.cycle_smoothing(),
        KeyCommand::ToggleLock => channel.toggle_lock(),
        _ => channel,
    }
}

/// The command of a key press, if it has one.
pub fn key_command(key: Key) -> (r: Option<KeyCommand>)
    ensures
        r == command_of(key),
{
    match key {
        Key::Tab => Some(KeyCommand::FocusNext),
        Key::Char(c) => if c == 'q' {
            Some(KeyCommand::Quit)
        } else if c == 'a' {
            Some(KeyCommand::ToggleAutoscale)
        } else if c == 's' {
            Some(KeyCommand::CycleSmoothing)
        } else if c == 'l' {
            Some(KeyCommand::ToggleLock)
        } else {
            None
        },
        Key::Other => None,
    }
}

/// The focus after a move to the next of `count` channels: one further,
/// and from the last back to the first.
pub fn next_focus(focused: usize, count: usize) -> (r: usize)
    requires
        count > 0,
    ensures
        r == (focused + 1) % (count as int),
{
    let at: usize = focused % count;
    proof {
        vstd::arithmetic::div_mod::lemma_add_mod_noop(focused as int, 1, count as int);
        vstd::arithmetic::div_mod::lemma_small_mod(at as nat, count as nat);
        if at + 1 < count {
            vstd::arithmetic::div_mod::lemma_small_mod((at + 1) as nat, count as nat);
        } else {
            vstd::arithmetic::div_mod::lemma_mod_self_0(count as int);
        }
        if count > 1 {
            vstd::arithmetic::div_mod::lemma_small_mod(1, count as nat);
        } else {
            vstd::arithmetic::div_mod::lemma_mod_self_0(1);
        }
    }
    if at + 1 == count {
        0
    } else {
        at + 1
    }
}

/// Apply a key command to the focused channel.
pub fn apply_key(channel: &mut GraphShared, command: KeyCommand)
    ensures
        final(channel)@ == after_key(old(channel)@, command),
        final(channel).data == old(channel).data,
        old(channel).wf() ==> final(channel).wf(),
{
    match command {
        KeyCommand::ToggleAutoscale => channel.toggle_autoscale(),
        KeyCommand::CycleSmoothing => channel.cycle_smoothing(),
        KeyCommand::ToggleLock => channel.toggle_lock(),
        _ => {},
    }
}

} // verus!
