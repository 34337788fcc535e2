//! The pause menu: Escape toggles it unless something else uses the key.

use vstd::prelude::*;

verus! {

/// Whether the game is paused.
#[derive(Debug, Clone, Copy, PartialEq, Eq, Structural)]
pub struct PauseState {
    pub paused: bool,
}

impl PauseState {
    /// Not paused.
    pub fn new() -> (s: PauseState)
        ensures
            !s.paused,
    {
        PauseState { paused: false }
    }
}

/// Gameplay runs while the game is not paused.
pub fn game_not_paused(state: &PauseState) -> (r: bool)
    ensures
        r == !state.paused,
{
    !state.paused
}

/// What else may claim the Escape key this frame.
#[derive(Debug, Clone, Copy)]
pub struct EscapeClaims {
    pub npc_panel_open: bool,
    pub prop_panel_open: bool,
    pub text_input_active: bool,
    pub escape_consumed: bool,
}

/// Escape belongs to the pause menu when nothing else claims it.
pub open spec fn escape_is_free(c: EscapeClaims) -> bool {
    !c.npc_panel_open && !c.prop_panel_open && !c.text_input_active && !c.escape_consumed
}

/// The pause state after an Escape press.
pub open spec fn paused_after_escape(paused: bool, claims: EscapeClaims) -> bool {
    if escape_is_free(claims) { !paused } else { paused }
}

/// Escape was pressed: the pause menu opens or closes, unless a panel, the
/// text input or an earlier handler has the key. Returns whether it toggled.
pub fn toggle_pause(state: &mut PauseState, claims: EscapeClaims) -> (toggled: bool)
    ensures
        toggled == escape_is_free(claims),
        final(state).paused == paused_after_escape(old(state).paused, claims),
{
    if claims.npc_panel_open || claims.prop_panel_open || claims.text_input_active || claims.escape_consumed {
        return false;
    }
    state.paused = !state.paused;
    true
}

/// The buttons of the pause menu.
#[derive(Debug, Clone, Copy, PartialEq, Eq, Structural)]
pub enum PauseAction {
    Resume,
    Save,
    Settings,
    Quit,
}

/// What a pause-menu button asks of the game.
#[derive(Debug, Clone, Copy, PartialEq, Eq, Structural)]
pub enum PauseEffect {
    /// Unpaused: hide the menu and grab the cursor again.
    Resumed,
    /// Saving is not available.
    SaveUnavailable,
    /// Mute or unmute the master volume.
    ToggleMute,
    /// Leave the game.
    Exit,
}

/// A pause-menu button was pressed.
pub fn pause_button(state: &mut PauseState, action: PauseAction) -> (e: PauseEffect)
    ensures
        action == PauseAction::Resume ==> e == PauseEffect::Resumed && !final(state).paused,
        action == PauseAction::Save ==> e == PauseEffect::SaveUnavailable && *final(state) == *old(state),
        action == PauseAction::Settings ==> e == PauseEffect::ToggleMute && *final(state) == *old(state),
        action == PauseAction::Quit ==> e == PauseEffect::Exit && *final(state) == *old(state),
{
    match action {
        PauseAction::Resume => {
            state.paused = false;
            PauseEffect::Resumed
        },
        PauseAction::Save => PauseEffect::SaveUnavailable,
        PauseAction::Settings => PauseEffect::ToggleMute,
        PauseAction::Quit => PauseEffect::Exit,
    }
}

/// Pressing Escape twice, with the same claims on the key, leaves the pause
/// state as it was; while something else claims the key, Escape never pauses.
pub proof fn lemma_escape_twice_restores(paused: bool, claims: EscapeClaims)
    ensures
        paused_after_escape(paused_after_escape(paused, claims), claims) == paused,
        !escape_is_free(claims) ==> paused_after_escape(paused, claims) == paused,
{
}

} // verus!
