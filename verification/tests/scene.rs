use raspberry_pi_display::control::{ControlCommand, ControlScene};
use raspberry_pi_display::scene::{
    art_scale, bounded_axis, centered_scene_area, dashboard_layout, scaled, stationary_layout,
    Area, InputEvent, Key, SceneLayout, SceneState, ViewMode,
};

fn area(x: u16, y: u16, width: u16, height: u16) -> Area {
    Area { x, y, width, height }
}

fn press(key: Key) -> InputEvent {
    InputEvent::KeyPress { key, control: false }
}

#[test]
fn scaling_sizes() {
    assert_eq!(scaled(16, 0), 16);
    assert_eq!(scaled(16, 1), 16);
    assert_eq!(scaled(16, 2), 32);
    assert_eq!(scaled(40000, 2), u16::MAX);
}

#[test]
fn art_scales() {
    assert_eq!(art_scale(area(0, 0, 80, 24), 32, 6, 12, 2), 2);
    assert_eq!(art_scale(area(0, 0, 40, 24), 32, 6, 12, 2), 1);
    assert_eq!(art_scale(area(0, 0, 10, 5), 16, 6, 0, 2), 1);
    assert_eq!(art_scale(area(0, 0, 200, 100), 16, 6, 0, 2), 2);
    assert_eq!(art_scale(area(0, 0, 200, 100), 16, 6, 0, 0), 1);
    assert_eq!(art_scale(area(0, 0, 200, 100), 0, 0, 0, 5), 5);
}

#[test]
fn bouncing_axis() {
    // Room of 4 cells: 0 1 2 3 4 3 2 1 0 1 ...
    let positions: Vec<u16> = (0..10).map(|v| bounded_axis(v, 20, 16)).collect();
    assert_eq!(positions, vec![0, 1, 2, 3, 4, 3, 2, 1, 0, 1]);
    assert_eq!(bounded_axis(-1, 20, 16), 1);
    assert_eq!(bounded_axis(-5, 20, 16), 3);
    assert_eq!(bounded_axis(i16::MIN, 20, 16), 0);
    assert_eq!(bounded_axis(7, 16, 16), 0);
    assert_eq!(bounded_axis(7, 10, 16), 0);
    assert_eq!(bounded_axis(123, 40000, 0), 0);
}

#[test]
fn bouncing_stays_in_room_and_steps_by_one() {
    for available in [17u16, 20, 33, 100] {
        let room = available - 16;
        let mut previous = bounded_axis(-300, available, 16);
        for v in -299i16..300 {
            let now = bounded_axis(v, available, 16);
            assert!(now <= room);
            assert_eq!((now as i32 - previous as i32).abs(), 1);
            assert_eq!(bounded_axis(v + 2 * room as i16, available, 16), now);
            previous = now;
        }
    }
}

#[test]
fn centred_content() {
    assert_eq!(centered_scene_area(area(0, 0, 100, 40), 32, 12), area(19, 8, 62, 24));
    assert_eq!(centered_scene_area(area(0, 0, 40, 10), 16, 6), area(0, 0, 40, 10));
    assert_eq!(centered_scene_area(area(5, 2, 100, 40), 80, 6), area(15, 13, 80, 18));
}

#[test]
fn dashboard_layout_in_a_wide_terminal() {
    let layout = dashboard_layout(area(0, 0, 100, 40), 0);
    assert_eq!(
        layout,
        SceneLayout {
            scale: 2,
            mascot: area(18, 8, 32, 12),
            stats: area(18, 21, 64, 11),
        }
    );
    let walked = dashboard_layout(area(0, 0, 100, 40), 5);
    assert_eq!(walked.mascot, area(23, 8, 32, 12));
    let back = dashboard_layout(area(0, 0, 100, 40), 35);
    assert_eq!(back.mascot.x, 18 + 29);
}

#[test]
fn dashboard_layout_in_a_small_terminal() {
    let layout = dashboard_layout(area(0, 0, 30, 10), 3);
    assert_eq!(layout.scale, 1);
    assert_eq!(layout.mascot, area(3, 0, 16, 6));
    assert_eq!(layout.stats, area(0, 7, 30, 3));
}

#[test]
fn stationary_layouts() {
    let layout = stationary_layout(area(0, 0, 100, 40), 16, 6);
    assert_eq!(
        layout,
        SceneLayout { scale: 2, mascot: area(34, 8, 32, 12), stats: area(19, 21, 62, 11) }
    );
    let small = stationary_layout(area(0, 0, 20, 15), 16, 6);
    assert_eq!(small.scale, 1);
    assert_eq!(small.mascot, area(2, 0, 16, 6));
    assert_eq!(small.stats, area(0, 7, 20, 8));
}

#[test]
fn starting_state() {
    let s = SceneState::new();
    assert_eq!((s.x(), s.y(), s.dashboard_x()), (0, 0, 0));
    assert_eq!((s.frame(), s.coding_frame(), s.suit_frame()), (0, 0, 0));
    assert_eq!(s.mode(), ViewMode::Dashboard);
}

#[test]
fn ticks_move_and_animate() {
    let mut s = SceneState::new();
    for _ in 0..5 {
        s.tick();
    }
    assert_eq!((s.x(), s.y(), s.dashboard_x()), (5, 5, 5));
    assert_eq!((s.frame(), s.coding_frame(), s.suit_frame()), (1, 2, 1));
    assert_eq!(s.mode(), ViewMode::Dashboard);
}

#[test]
fn positions_wrap_at_the_edge_of_i16() {
    let mut s = SceneState::new();
    for _ in 0..i16::MAX {
        s.tick();
    }
    assert_eq!((s.x(), s.y(), s.dashboard_x()), (i16::MAX, i16::MAX, i16::MAX));
    s.tick();
    assert_eq!((s.x(), s.y(), s.dashboard_x()), (i16::MIN, i16::MIN, i16::MIN));
}

#[test]
fn reset_and_scene_commands() {
    let mut s = SceneState::new();
    s.tick();
    s.tick();
    s.handle_control_command(ControlCommand::SetScene(ControlScene::Roam));
    assert_eq!(s.mode(), ViewMode::Roam);
    assert_eq!(s.x(), 2);
    s.handle_control_command(ControlCommand::Reset);
    assert_eq!(s.mode(), ViewMode::Dashboard);
    assert_eq!((s.x(), s.y(), s.dashboard_x()), (0, 0, 0));
    assert_eq!(s.frame(), 2);
    s.set_scene(ControlScene::Suit);
    assert_eq!(s.mode(), ViewMode::Suit);
    s.reset_scene();
    assert_eq!(s.mode(), ViewMode::Dashboard);
}

#[test]
fn quitting_keys() {
    let mut s = SceneState::new();
    assert!(s.handle_event(press(Key::Esc)));
    assert!(s.handle_event(press(Key::Char('q'))));
    assert!(s.handle_event(InputEvent::KeyPress { key: Key::Char('c'), control: true }));
    assert_eq!(s.mode(), ViewMode::Dashboard);
    assert!(!s.handle_event(InputEvent::Other));
    assert!(!s.handle_event(press(Key::Other)));
    assert!(!s.handle_event(InputEvent::KeyPress { key: Key::Char('x'), control: true }));
    assert_eq!(s.mode(), ViewMode::Dashboard);
}

#[test]
fn tab_cycles_through_scenes() {
    let mut s = SceneState::new();
    let mut seen = vec![];
    for _ in 0..4 {
        assert!(!s.handle_event(press(Key::Tab)));
        seen.push(s.mode());
    }
    assert_eq!(seen, vec![ViewMode::Coding, ViewMode::Suit, ViewMode::Roam, ViewMode::Dashboard]);
    s.handle_event(press(Key::Char('r')));
    assert_eq!(s.mode(), ViewMode::Coding);
}

#[test]
fn scene_keys_toggle() {
    let mut s = SceneState::new();
    s.handle_event(press(Key::Char('c')));
    assert_eq!(s.mode(), ViewMode::Coding);
    s.handle_event(press(Key::Char('c')));
    assert_eq!(s.mode(), ViewMode::Dashboard);
    s.handle_event(press(Key::Char('s')));
    assert_eq!(s.mode(), ViewMode::Suit);
    s.handle_event(press(Key::Char('c')));
    assert_eq!(s.mode(), ViewMode::Coding);
    s.handle_event(press(Key::Char('s')));
    assert_eq!(s.mode(), ViewMode::Suit);
    s.handle_event(press(Key::Char('s')));
    assert_eq!(s.mode(), ViewMode::Dashboard);
}

#[test]
fn roaming_stays_on_screen() {
    let terminal = area(3, 2, 60, 20);
    let mut s = SceneState::new();
    for _ in 0..500 {
        let r = s.roam_area(terminal);
        assert!(r.x >= terminal.x && r.y >= terminal.y);
        assert!(r.x + r.width <= terminal.x + terminal.width);
        assert!(r.y + r.height <= terminal.y + terminal.height);
        s.tick();
    }
    let start = SceneState::new().roam_area(terminal);
    assert_eq!(start, area(3, 2, 32, 12));
}
