//! Behavior of the snapshot store, the interpolator and the selector
//! on concrete frames.

use client_core::frame::{Frame, KBot, KinematicProjectile, Player, Vec3};
use client_core::game_state::State;
use client_core::selection::{Mat4, Vec4};
use client_core::utils::Id;

fn kbot(id: u32, px: i64, life: i64) -> KBot {
    KBot {
        id,
        position: Vec3::new(px, 2 * px, 3 * px),
        dir: Vec3::new(0, 1, -1),
        life,
    }
}

fn frame_with_kbot(number: u64, k: KBot) -> Frame {
    let mut f = Frame::new();
    f.number = number;
    f.kbots.insert(k.id, k);
    f
}

#[test]
fn two_frame_ring_shifts_and_evicts() {
    let mut st = State::new();
    st.handle_new_frame(frame_with_kbot(1, kbot(10, 100, 50)));
    st.handle_new_frame(frame_with_kbot(2, kbot(10, 200, 40)));
    assert_eq!(st.frame_zero.number, 2);
    assert_eq!(st.frame_minus_one.number, 1);
    st.handle_new_frame(frame_with_kbot(3, kbot(10, 300, 30)));
    assert_eq!(st.frame_zero.number, 3);
    assert_eq!(st.frame_minus_one.number, 2);
}

#[test]
fn selection_pruned_by_dead_set_before_interpolate() {
    let mut st = State::new();
    st.selected.insert(42);
    st.selected.insert(43);
    let mut f = Frame::new();
    f.number = 1;
    f.kbots_dead.insert(42);
    st.handle_new_frame(f);
    assert!(!st.selected.contains(42));
    assert!(st.selected.contains(43));
}

#[test]
fn interpolation_identity_at_zero_elapsed() {
    let mut st = State::new();
    st.handle_new_frame(frame_with_kbot(1, kbot(10, 100, 50)));
    st.handle_new_frame(frame_with_kbot(2, kbot(10, 200, 40)));
    st.interpolate_at(0);
    let live = st.kbots.get(10).unwrap();
    assert_eq!(live.position, Vec3::new(100, 200, 300));
    assert_eq!(live.life, 50);
    assert_eq!(live.id, 10);
}

#[test]
fn interpolation_full_step_gives_newest_frame() {
    let mut st = State::new();
    st.handle_new_frame(frame_with_kbot(1, kbot(10, 100, 50)));
    st.handle_new_frame(frame_with_kbot(2, kbot(10, 200, 40)));
    st.interpolate_at(100_000);
    let live = st.kbots.get(10).unwrap();
    assert_eq!(live.position, Vec3::new(200, 400, 600));
    assert_eq!(live.life, 40);
}

#[test]
fn interpolation_midpoint_rounds_blend() {
    let mut st = State::new();
    st.handle_new_frame(frame_with_kbot(1, kbot(10, 100, 50)));
    st.handle_new_frame(frame_with_kbot(2, kbot(10, 200, 41)));
    st.interpolate_at(50_000);
    let live = st.kbots.get(10).unwrap();
    assert_eq!(live.position.x, 150);
    // 41 * 0.5 + 50 * 0.5 = 45.5 rounds half away from zero to 46.
    assert_eq!(live.life, 46);
}

#[test]
fn interpolation_rounds_negative_blend_away_from_zero() {
    let mut st = State::new();
    st.handle_new_frame(frame_with_kbot(1, kbot(10, 100, -2)));
    st.handle_new_frame(frame_with_kbot(2, kbot(10, 200, -1)));
    st.interpolate_at(50_000);
    // -1 * 0.5 + -2 * 0.5 = -1.5 rounds half away from zero to -2.
    assert_eq!(st.kbots.get(10).unwrap().life, -2);
}

#[test]
fn interpolation_extrapolates_past_newest_frame() {
    let mut st = State::new();
    st.handle_new_frame(frame_with_kbot(1, kbot(10, 100, 50)));
    st.handle_new_frame(frame_with_kbot(2, kbot(10, 200, 40)));
    // Twice the nominal step: weights are 2 and -1, not clamped.
    st.interpolate_at(200_000);
    let live = st.kbots.get(10).unwrap();
    assert_eq!(live.position.x, 300);
    assert_eq!(live.life, 30);
}

#[test]
fn no_history_passthrough() {
    let mut st = State::new();
    st.handle_new_frame(frame_with_kbot(1, kbot(10, 100, 50)));
    // Unit 11 appears only in the newest frame.
    let mut f2 = frame_with_kbot(2, kbot(10, 200, 40));
    f2.kbots.insert(11, kbot(11, 700, 9));
    st.handle_new_frame(f2);
    st.interpolate_at(37_000);
    let live = st.kbots.get(11).unwrap();
    assert_eq!(*live, kbot(11, 700, 9));
}

#[test]
fn unit_absent_from_newest_frame_is_dropped() {
    let mut st = State::new();
    let mut f1 = frame_with_kbot(1, kbot(10, 100, 50));
    f1.kbots.insert(11, kbot(11, 700, 9));
    st.handle_new_frame(f1);
    st.handle_new_frame(frame_with_kbot(2, kbot(10, 200, 40)));
    st.interpolate_at(0);
    assert!(st.kbots.get(10).is_some());
    assert!(st.kbots.get(11).is_none());
}

#[test]
fn projectile_history_grows_by_one_blended_sample() {
    let mut st = State::new();
    let mut f1 = Frame::new();
    f1.number = 1;
    f1.kinematic_projectiles.insert(
        5,
        KinematicProjectile { id: 5, positions: vec![Vec3::new(0, 0, 0)] },
    );
    st.handle_new_frame(f1);
    let mut f2 = Frame::new();
    f2.number = 2;
    f2.kinematic_projectiles.insert(
        5,
        KinematicProjectile { id: 5, positions: vec![Vec3::new(100, 0, 0)] },
    );
    st.handle_new_frame(f2);
    st.interpolate_at(50_000);
    let live = st.kinematic_projectiles.get(5).unwrap();
    assert_eq!(live.positions.len(), 2);
    assert_eq!(live.positions[0], Vec3::new(50, 0, 0));
    assert_eq!(live.positions[1], Vec3::new(100, 0, 0));
}

#[test]
fn server_time_blends_sequence_numbers() {
    let mut st = State::new();
    st.handle_new_frame(frame_with_kbot(9, kbot(10, 100, 50)));
    st.handle_new_frame(frame_with_kbot(10, kbot(10, 200, 40)));
    st.interpolate_at(0);
    // Weight of the newest frame is zero: 9 ticks of 0.1 s each.
    assert_eq!(st.server_time_micros, 900_000);
    st.interpolate_at(100_000);
    assert_eq!(st.server_time_micros, 1_000_000);
}

#[test]
fn players_copied_verbatim_from_newest_frame() {
    let mut st = State::new();
    let mut f = frame_with_kbot(1, kbot(10, 100, 50));
    let mut p = Player { id: 7, team: 3, mobiles: client_core::collections::IdSet::new() };
    p.mobiles.insert(10);
    f.players.insert(7, p);
    st.handle_new_frame(f);
    st.handle_new_frame(frame_with_kbot(2, kbot(10, 200, 40)));
    st.interpolate_at(0);
    // The newest frame has no players: the live mapping is emptied.
    assert!(st.players.get(7).is_none());
}

#[test]
fn my_player_absent_and_present() {
    let mut st = State::new();
    assert!(st.my_player().is_none());
    st.my_player_id = Some(Id::new(7));
    assert!(st.my_player().is_none());
    let mut p = Player { id: 7, team: 3, mobiles: client_core::collections::IdSet::new() };
    p.mobiles.insert(10);
    st.players.insert(7, p);
    let me = st.my_player().unwrap();
    assert_eq!(me.team, 3);
    assert!(me.mobiles.contains(10));
}

#[test]
fn set_player_inserts_and_replaces() {
    let mut st = State::new();
    let mut p = Player { id: 7, team: 2, mobiles: client_core::collections::IdSet::new() };
    p.mobiles.insert(10);
    st.set_player(7, p);
    assert_eq!(st.players.get(7).unwrap().team, 2);
    assert!(st.players.get(7).unwrap().mobiles.contains(10));
    let q = Player { id: 7, team: 9, mobiles: client_core::collections::IdSet::new() };
    st.set_player(7, q);
    assert_eq!(st.players.get(7).unwrap().team, 9);
    assert!(st.selected.is_empty());
}

#[test]
fn owner_team_found_or_absent() {
    let mut st = State::new();
    let mut p = Player { id: 7, team: 3, mobiles: client_core::collections::IdSet::new() };
    p.mobiles.insert(10);
    st.players.insert(7, p);
    let mut q = Player { id: 8, team: 5, mobiles: client_core::collections::IdSet::new() };
    q.mobiles.insert(11);
    st.players.insert(8, q);
    assert_eq!(st.owner_team(10), Some(3));
    assert_eq!(st.owner_team(11), Some(5));
    assert_eq!(st.owner_team(12), None);
}

/// A matrix that projects every point to clip coordinates
/// (500, 500, 1000, 1000), i.e. normalized device coordinates
/// (0.5, 0.5).
fn constant_half_matrix() -> Mat4 {
    Mat4::new(
        Vec4::new(0, 0, 0, 500),
        Vec4::new(0, 0, 0, 500),
        Vec4::new(0, 0, 0, 1000),
        Vec4::new(0, 0, 0, 1000),
    )
}

fn state_with_owned_unit() -> State {
    let mut st = State::new();
    st.my_player_id = Some(Id::new(7));
    let mut p = Player { id: 7, team: 3, mobiles: client_core::collections::IdSet::new() };
    p.mobiles.insert(42);
    st.players.insert(7, p);
    st.kbots.insert(42, kbot(42, 100, 50));
    st
}

#[test]
fn drag_rectangle_selects_contained_unit() {
    let mut st = state_with_owned_unit();
    // Viewport 100 x 100; pixels 50..100 map to device coordinates
    // 0..1 on both axes; the unit sits at (0.5, 0.5).
    let m = constant_half_matrix();
    st.update_selection_from_drag(&m, 100, 100, 50, 50, 100, 100);
    assert!(st.selected.contains(42));
}

#[test]
fn drag_rectangle_excludes_unit_outside() {
    let mut st = state_with_owned_unit();
    // Device x range (0, 0.4): pixels 50..70.
    let m = constant_half_matrix();
    st.update_selection_from_drag(&m, 100, 100, 50, 50, 70, 100);
    assert!(!st.selected.contains(42));
    assert!(st.selected.is_empty());
}

#[test]
fn behind_camera_unit_never_selected() {
    let mut st = state_with_owned_unit();
    // Same projection but z = 0: behind the camera, excluded even
    // though x and y sit in the middle of the rectangle.
    let m = Mat4::new(
        Vec4::new(0, 0, 0, 500),
        Vec4::new(0, 0, 0, 500),
        Vec4::new(0, 0, 0, 0),
        Vec4::new(0, 0, 0, 1000),
    );
    st.update_selection_from_drag(&m, 100, 100, 50, 50, 100, 100);
    assert!(!st.selected.contains(42));
}

#[test]
fn unit_not_owned_by_my_player_not_selectable() {
    let mut st = state_with_owned_unit();
    st.kbots.insert(43, kbot(43, 100, 50));
    let m = constant_half_matrix();
    st.update_selection_from_drag(&m, 100, 100, 50, 50, 100, 100);
    assert!(st.selected.contains(42));
    assert!(!st.selected.contains(43));
}

#[test]
fn no_player_drag_selects_nothing() {
    let mut st = state_with_owned_unit();
    st.my_player_id = None;
    let m = constant_half_matrix();
    st.update_selection_from_drag(&m, 100, 100, 50, 50, 100, 100);
    assert!(st.selected.is_empty());
}

#[test]
fn plain_release_click_clears_selection() {
    let mut st = State::new();
    st.selected.insert(42);
    st.selected.insert(43);
    assert!(!st.selected.is_empty());
    st.clear_selection();
    assert!(st.selected.is_empty());
}

#[test]
fn boundary_ties_are_excluded() {
    let mut st = state_with_owned_unit();
    // Rectangle whose upper x bound is exactly the unit's device
    // coordinate 0.5 (pixel 75): strict comparison excludes it.
    let m = constant_half_matrix();
    st.update_selection_from_drag(&m, 100, 100, 50, 50, 75, 100);
    assert!(!st.selected.contains(42));
}

#[test]
fn clock_driven_interpolate_covers_newest_frame_units() {
    let mut st = State::new();
    st.handle_new_frame(frame_with_kbot(1, kbot(10, 100, 50)));
    st.handle_new_frame(frame_with_kbot(2, kbot(10, 200, 40)));
    st.interpolate();
    assert!(st.kbots.get(10).is_some());
}
