use curve_runner::geometry::Point2;
use curve_runner::handles::{place_handle_at_cursor, setup_handles, HandleLine};
use curve_runner::lifetime::{remove_dead, remove_remaining, Lifetime};
use curve_runner::state_control::{
    check_out_of_bounds, post_game_screen, AppState, GameOverScreen, StateControlPlugin,
};

#[test]
fn dead_entities_are_those_past_their_span() {
    let ls = vec![
        Lifetime { creation: 0, lifespan: 2_000 },
        Lifetime { creation: 500, lifespan: 2_000 },
        Lifetime { creation: 900, lifespan: 100 },
        Lifetime { creation: 1_000, lifespan: 2_000 },
    ];
    assert_eq!(remove_dead(&ls, 2_500), vec![0, 2]);
    assert_eq!(remove_dead(&ls, 2_000), vec![2]);
    assert_eq!(remove_dead(&ls, 1_000), Vec::<usize>::new());
    assert!(ls[0].is_expired(2_001));
    assert!(!ls[0].is_expired(2_000));
}

#[test]
fn remaining_entities_all_go() {
    let ls = vec![Lifetime { creation: 0, lifespan: 1 }; 3];
    assert_eq!(remove_remaining(&ls), vec![0, 1, 2]);
    assert_eq!(remove_remaining(&Vec::new()), Vec::<usize>::new());
}

#[test]
fn handles_start_at_origin() {
    let h = setup_handles();
    let o = Point2 { x: 0, y: 0 };
    assert_eq!(h.cursor, HandleLine { base: o, head: o });
    assert_eq!(h.mirrored, HandleLine { base: o, head: o });
}

#[test]
fn ghost_handle_mirrors_unless_held() {
    let anchor = Point2 { x: 10, y: 20 };
    let cursor = Point2 { x: 40, y: -5 };
    let h = place_handle_at_cursor(anchor, cursor, false, false);
    assert_eq!(h.cursor, HandleLine { base: anchor, head: cursor });
    assert_eq!(h.mirrored, HandleLine { base: anchor, head: Point2 { x: -20, y: 45 } });
    let h = place_handle_at_cursor(anchor, cursor, true, false);
    assert_eq!(h.mirrored.head, Point2 { x: 40, y: 45 });
    let h = place_handle_at_cursor(anchor, cursor, false, true);
    assert_eq!(h.mirrored.head, Point2 { x: -20, y: -5 });
}

#[test]
fn game_flow_transitions() {
    assert_eq!(StateControlPlugin::next_state(AppState::PreGame, false, true), AppState::PreGame);
    assert_eq!(StateControlPlugin::next_state(AppState::PreGame, true, false), AppState::InGame);
    assert_eq!(StateControlPlugin::next_state(AppState::InGame, true, false), AppState::InGame);
    assert_eq!(StateControlPlugin::next_state(AppState::InGame, false, true), AppState::PostGame);
    assert_eq!(StateControlPlugin::next_state(AppState::PostGame, false, true), AppState::PostGame);
    assert_eq!(StateControlPlugin::next_state(AppState::PostGame, true, false), AppState::PreGame);
}

#[test]
fn out_of_bounds_beyond_half_window() {
    assert!(!check_out_of_bounds(Point2 { x: 400, y: 300 }, 800, 600));
    assert!(check_out_of_bounds(Point2 { x: 401, y: 0 }, 800, 600));
    assert!(check_out_of_bounds(Point2 { x: -401, y: 0 }, 800, 600));
    assert!(check_out_of_bounds(Point2 { x: 0, y: 301 }, 800, 600));
    assert!(check_out_of_bounds(Point2 { x: 0, y: -301 }, 800, 600));
    assert!(!check_out_of_bounds(Point2 { x: -400, y: -300 }, 800, 600));
}

#[test]
fn end_screen_covers_window_at_camera() {
    let s = post_game_screen(Point2 { x: 12, y: -7 }, 1280, 720);
    assert_eq!(s, GameOverScreen { center: Point2 { x: 12, y: -7 }, width: 1280, height: 720 });
}
