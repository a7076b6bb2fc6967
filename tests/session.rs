use game_of_life::session::{grid_position, run_label, Session};
use game_of_life::{Cell, Universe};

fn count_alive(s: &Session) -> usize {
    s.universe().cells().iter().filter(|c| **c == Cell::Alive).count()
}

#[test]
fn position_of_canvas_points() {
    assert_eq!(grid_position(0, 0, 8, 10, 6), Some((0, 0)));
    assert_eq!(grid_position(7, 7, 8, 10, 6), Some((0, 0)));
    assert_eq!(grid_position(8, 17, 8, 10, 6), Some((2, 1)));
    assert_eq!(grid_position(79, 47, 8, 10, 6), Some((5, 9)));
    assert_eq!(grid_position(80, 0, 8, 10, 6), None);
    assert_eq!(grid_position(0, 48, 8, 10, 6), None);
    assert_eq!(grid_position(-1, 0, 8, 10, 6), None);
    assert_eq!(grid_position(0, -9, 8, 10, 6), None);
}

#[test]
fn press_at_origin_paints_top_left() {
    let mut s = Session::new(10, 6, 8, 5);
    s.on_pointer_down(0, 0, 0);
    assert_eq!(s.universe().get(0, 0), Cell::Alive);
    assert_eq!(count_alive(&s), 1);
    assert_eq!(s.paint_value(), Some(Cell::Alive));
}

#[test]
fn press_past_last_column_is_ignored() {
    let mut s = Session::new(10, 6, 8, 5);
    s.on_pointer_down(0, 10 * 8 + 1, 3);
    assert_eq!(count_alive(&s), 0);
    s.on_pointer_down(0, 3, 6 * 8);
    assert_eq!(count_alive(&s), 0);
    s.on_pointer_down(0, -4, 3);
    assert_eq!(count_alive(&s), 0);
}

#[test]
fn drag_paints_and_release_stops() {
    let mut s = Session::new(10, 6, 8, 5);
    s.on_pointer_move(20, 20);
    assert_eq!(count_alive(&s), 0);
    s.on_pointer_down(0, 0, 0);
    s.on_pointer_move(8, 0);
    s.on_pointer_move(17, 0);
    s.on_pointer_move(17, 0);
    assert_eq!(count_alive(&s), 3);
    assert_eq!(s.universe().get(0, 2), Cell::Alive);
    s.on_pointer_up();
    assert_eq!(s.paint_value(), None);
    s.on_pointer_move(30, 30);
    assert_eq!(count_alive(&s), 3);
}

#[test]
fn secondary_button_erases() {
    let mut s = Session::new(10, 6, 8, 5);
    s.on_pointer_down(0, 0, 0);
    s.on_pointer_move(8, 0);
    s.on_pointer_leave();
    assert_eq!(count_alive(&s), 2);
    s.on_pointer_down(2, 9, 1);
    assert_eq!(s.paint_value(), Some(Cell::Dead));
    assert_eq!(s.universe().get(0, 1), Cell::Dead);
    s.on_pointer_move(1, 1);
    assert_eq!(count_alive(&s), 0);
    s.on_pointer_leave();
    assert_eq!(s.paint_value(), None);
}

#[test]
fn run_flag_toggles_back() {
    let mut s = Session::new(4, 4, 8, 5);
    assert!(s.is_running());
    assert_eq!(s.on_toggle_run_pause(), "Play");
    assert!(!s.is_running());
    assert_eq!(s.on_toggle_run_pause(), "Pause");
    assert!(s.is_running());
    assert_eq!(run_label(true), "Pause");
    assert_eq!(run_label(false), "Play");
}

fn blinker_session(throttle: u64) -> Session {
    let mut u = Universe::with_size(5, 5);
    u.set(2, 1, Cell::Alive);
    u.set(2, 2, Cell::Alive);
    u.set(2, 3, Cell::Alive);
    Session::with_universe(u, 8, throttle)
}

#[test]
fn paused_frames_leave_board_alone() {
    let mut s = blinker_session(5);
    let before: Vec<Cell> = s.universe().cells().to_vec();
    s.on_toggle_run_pause();
    for _ in 0..23 {
        assert!(!s.on_animation_frame());
    }
    assert_eq!(s.frame_count(), 23);
    assert_eq!(s.universe().cells(), &before[..]);
}

#[test]
fn running_board_advances_every_throttle_frames() {
    let mut s = blinker_session(5);
    for _ in 0..4 {
        assert!(!s.on_animation_frame());
    }
    assert_eq!(s.universe().get(2, 1), Cell::Alive);
    assert!(s.on_animation_frame());
    assert_eq!(s.universe().get(2, 1), Cell::Dead);
    assert_eq!(s.universe().get(1, 2), Cell::Alive);
    assert_eq!(s.universe().get(3, 2), Cell::Alive);
    for _ in 0..4 {
        assert!(!s.on_animation_frame());
    }
    assert!(s.on_animation_frame());
    assert_eq!(s.universe().get(2, 1), Cell::Alive);
    assert_eq!(s.universe().get(1, 2), Cell::Dead);
}
