//! The flow of a game: waiting to start, playing, and the screen after it ends.
use vstd::prelude::*;

use crate::geometry::Point2;

verus! {

/// The phase the game is in.
#[derive(Clone, Copy, Debug, PartialEq, Eq, Hash, Structural)]
pub enum AppState {
    PreGame,
    InGame,
    PostGame,
}

/// The phase after a frame in `state`, given whether the left button was just pressed and
/// whether the player is out of the window.
pub open spec fn next_state_spec(state: AppState, clicked: bool, out_of_bounds: bool) -> AppState {
    match state {
        AppState::PreGame => if clicked {
            AppState::InGame
        } else {
            AppState::PreGame
        },
        AppState::InGame => if out_of_bounds {
            AppState::PostGame
        } else {
            AppState::InGame
        },
        AppState::PostGame => if clicked {
            AppState::PreGame
        } else {
            AppState::PostGame
        },
    }
}

/// The game-flow rules: a click starts a game, leaving the window ends it, and a click on
/// the end screen goes back to the start.
pub struct StateControlPlugin;

impl StateControlPlugin {
    /// The phase after a frame in `state`.
    pub fn next_state(state: AppState, clicked: bool, out_of_bounds: bool) -> (r: AppState)
        ensures
            r == next_state_spec(state, clicked, out_of_bounds),
    {
        match state {
            AppState::PreGame => if clicked {
                AppState::InGame
            } else {
                AppState::PreGame
            },
            AppState::InGame => if out_of_bounds {
                AppState::PostGame
            } else {
                AppState::InGame
            },
            AppState::PostGame => if clicked {
                AppState::PreGame
            } else {
                AppState::PostGame
            },
        }
    }
}

/// Whether the player at `player_pos` (relative to the window's centre) is outside a
/// window of the given size: beyond half the width or half the height on either side.
pub fn check_out_of_bounds(player_pos: Point2, width: u32, height: u32) -> (r: bool)
    ensures
        r == (2 * player_pos.x > width || 2 * player_pos.x < -width || 2 * player_pos.y > height
            || 2 * player_pos.y < -height),
{
    let x = 2 * (player_pos.x as i64);
    let y = 2 * (player_pos.y as i64);
    let w = width as i64;
    let h = height as i64;
    x > w || x < -w || y > h || y < -h
}

/// The end screen: a veil of the window's size centred on the camera.
#[derive(Clone, Copy, Debug, PartialEq, Eq, Structural)]
pub struct GameOverScreen {
    pub center: Point2,
    pub width: u32,
    pub height: u32,
}

/// The end screen for a camera at `camera_pos` and a window of the given size.
pub fn post_game_screen(camera_pos: Point2, width: u32, height: u32) -> (s: GameOverScreen)
    ensures
        s == (GameOverScreen { center: camera_pos, width, height }),
{
    GameOverScreen { center: camera_pos, width, height }
}

} // verus!
