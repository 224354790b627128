//! The per-frame interaction reducer: maps a button's pointer status and
//! its role to a style update, a transition request, and a one-shot sound
//! cue. It runs only on a change of status, so styles are not rewritten and
//! sounds not retriggered frame after frame.

use vstd::prelude::*;
use crate::state::AppState;
use crate::element::ButtonRole;
use crate::element::InteractionStatus;
use crate::element::Palette;

verus! {

/// Everything one reduction step asks of the engine: an optional style
/// write, an optional transition request, and whether to fire the one-shot
/// hover sound (no handle is retained; playback is the audio layer's
/// business).
#[derive(Clone, Copy, Debug)]
pub struct ReducerOutput {
    pub style: Option<Palette>,
    pub transition: Option<AppState>,
    pub sound: bool,
}

/// The mode a button of role `r` navigates to when pressed.
pub open spec fn role_target(r: ButtonRole) -> AppState {
    match r {
        ButtonRole::ToMainMenu => AppState::MainMenu,
        ButtonRole::ToInGame => AppState::InGame,
    }
}

/// What the reducer decides for one status change: a press requests the
/// role's transition and leaves the style alone; a hover switches to the
/// hovered palette and fires the sound cue; a return to idle restores the
/// normal palette. Hovering alone never requests a transition.
pub open spec fn spec_reduce(status: InteractionStatus, role: ButtonRole) -> ReducerOutput {
    match status {
        InteractionStatus::Pressed => ReducerOutput {
            style: None,
            transition: Some(role_target(role)),
            sound: false,
        },
        InteractionStatus::Hovered => ReducerOutput {
            style: Some(Palette::Hovered),
            transition: None,
            sound: true,
        },
        InteractionStatus::Idle => ReducerOutput {
            style: Some(Palette::Normal),
            transition: None,
            sound: false,
        },
    }
}

/// The mode a button of role `role` navigates to.
pub fn target_of(role: ButtonRole) -> (r: AppState)
    ensures
        r == role_target(role),
{
    match role {
        ButtonRole::ToMainMenu => AppState::MainMenu,
        ButtonRole::ToInGame => AppState::InGame,
    }
}

/// Reduce one interaction-status change on a button of role `role`.
pub fn reduce_interaction(status: InteractionStatus, role: ButtonRole) -> (out: ReducerOutput)
    ensures
        out == spec_reduce(status, role),
{
    match status {
        InteractionStatus::Pressed => ReducerOutput {
            style: None,
            transition: Some(target_of(role)),
            sound: false,
        },
        InteractionStatus::Hovered => ReducerOutput {
            style: Some(Palette::Hovered),
            transition: None,
            sound: true,
        },
        InteractionStatus::Idle => ReducerOutput {
            style: Some(Palette::Normal),
            transition: None,
            sound: false,
        },
    }
}

} // verus!
