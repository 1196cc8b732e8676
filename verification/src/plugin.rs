//! The small states around the terrain: the stages of start-up and the lock
//! of the cursor.

use vstd::prelude::*;

verus! {

/// The stages of start-up: assets are loading, the pipeline is being set
/// up, terrain is streaming.
#[derive(Clone, Copy, Debug, PartialEq, Eq, Structural)]
pub enum PluginState {
    PreInit,
    Init,
    Finished,
}

/// The stage after a look at the assets: loading ends once all assets are
/// loaded, and no other stage is left by it.
pub open spec fn spec_check_assets(state: PluginState, all_loaded: bool) -> PluginState {
    if state == PluginState::PreInit && all_loaded {
        PluginState::Init
    } else {
        state
    }
}

pub fn check_assets(state: PluginState, all_loaded: bool) -> (next: PluginState)
    ensures
        next == spec_check_assets(state, all_loaded),
{
    match state {
        PluginState::PreInit => if all_loaded {
            PluginState::Init
        } else {
            PluginState::PreInit
        },
        other => other,
    }
}

/// The stage after the pipeline is set up: streaming begins, and no other
/// stage is left by it.
pub open spec fn spec_setup_finished(state: PluginState) -> PluginState {
    if state == PluginState::Init {
        PluginState::Finished
    } else {
        state
    }
}

pub fn setup_finished(state: PluginState) -> (next: PluginState)
    ensures
        next == spec_setup_finished(state),
{
    match state {
        PluginState::Init => PluginState::Finished,
        other => other,
    }
}

/// What the window is to do with the cursor.
#[derive(Clone, Copy, Debug, PartialEq, Eq, Structural)]
pub struct CursorMode {
    pub locked: bool,
    pub visible: bool,
}

/// Whether the cursor is locked to the window. It starts free.
pub struct CursorState {
    cursor_locked: bool,
}

impl CursorState {
    pub closed spec fn locked(&self) -> bool {
        self.cursor_locked
    }

    pub fn new() -> (state: CursorState)
        ensures
            !state.locked(),
    {
        CursorState { cursor_locked: false }
    }

    pub fn is_locked(&self) -> (locked: bool)
        ensures
            locked == self.locked(),
    {
        self.cursor_locked
    }

    /// Takes note of the escape key: a press turns the lock around, and the
    /// cursor is to be shown exactly while it is free. Without a press
    /// nothing changes and nothing is to be done.
    pub fn toggle(&mut self, escape_pressed: bool) -> (mode: Option<CursorMode>)
        ensures
            final(self).locked() == (old(self).locked() != escape_pressed),
            mode == (if escape_pressed {
                Some(CursorMode { locked: !old(self).locked(), visible: old(self).locked() })
            } else {
                None
            }),
    {
        if escape_pressed {
            self.cursor_locked = !self.cursor_locked;
            Some(CursorMode { locked: self.cursor_locked, visible: !self.cursor_locked })
        } else {
            None
        }
    }
}

/// Whether the cursor is locked while the player is steered. It starts
/// locked.
pub struct FPPlayerControllerState {
    cursor_locked: bool,
}

impl FPPlayerControllerState {
    pub closed spec fn locked(&self) -> bool {
        self.cursor_locked
    }

    pub fn new() -> (state: FPPlayerControllerState)
        ensures
            state.locked(),
    {
        FPPlayerControllerState { cursor_locked: true }
    }

    pub fn is_locked(&self) -> (locked: bool)
        ensures
            locked == self.locked(),
    {
        self.cursor_locked
    }

    /// Takes note of the escape key, as `CursorState::toggle` does.
    pub fn toggle(&mut self, escape_pressed: bool) -> (mode: Option<CursorMode>)
        ensures
            final(self).locked() == (old(self).locked() != escape_pressed),
            mode == (if escape_pressed {
                Some(CursorMode { locked: !old(self).locked(), visible: old(self).locked() })
            } else {
                None
            }),
    {
        if escape_pressed {
            self.cursor_locked = !self.cursor_locked;
            Some(CursorMode { locked: self.cursor_locked, visible: !self.cursor_locked })
        } else {
            None
        }
    }
}

} // verus!
