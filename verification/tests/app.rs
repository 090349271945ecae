use tinydancer::app::{App, QUIT_KEY};
use tinydancer::section::Section;

fn sample_app() -> App {
    App::new(
        "Sampler Statistics".to_string(),
        vec![1, 2, 3],
        vec![(1, 1, 1, 1)],
        vec![(1, 0, 0), (2, 0, 0)],
    )
}

#[test]
fn new_app_shows_the_slot_list() {
    let app = sample_app();
    assert_eq!(app.title(), "Sampler Statistics");
    assert_eq!(app.slot_list(), &vec![1, 2, 3]);
    assert_eq!(app.r_list(), &vec![(1, 1, 1, 1)]);
    assert_eq!(app.v_list(), &vec![(1, 0, 0), (2, 0, 0)]);
    assert_eq!(app.active(), Section::SlotProgress);
    assert_eq!(app.selected(), 0);
    assert!(!app.should_quit());
}

#[test]
fn up_and_down_clamp_at_the_ends() {
    let mut app = sample_app();
    app.on_up();
    assert_eq!(app.selected(), 0);
    app.on_down();
    assert_eq!(app.selected(), 1);
    app.on_down();
    assert_eq!(app.selected(), 2);
    app.on_down();
    assert_eq!(app.selected(), 2);
    app.on_up();
    assert_eq!(app.selected(), 1);
}

#[test]
fn left_and_right_move_within_the_list_and_clamp() {
    let mut app = sample_app();
    app.on_left();
    assert_eq!(app.selected(), 0);
    app.on_right();
    assert_eq!(app.selected(), 1);
    app.on_right();
    assert_eq!(app.selected(), 2);
    app.on_right();
    assert_eq!(app.selected(), 2);
    app.on_left();
    assert_eq!(app.selected(), 1);
    assert_eq!(app.active(), Section::SlotProgress);
    assert_eq!(app.slot_list(), &vec![1, 2, 3]);
}

#[test]
fn right_on_the_last_row_keeps_the_row_and_the_list() {
    let mut app = App::new("t".to_string(), vec![1, 2, 3], vec![(1, 1, 1, 1)], vec![]);
    app.on_down();
    app.on_down();
    assert_eq!(app.selected(), 2);
    app.on_right();
    assert_eq!(app.selected(), 2);
    assert_eq!(app.active(), Section::SlotProgress);
    app.on_down();
    assert_eq!(app.selected(), 2);
}

#[test]
fn arrows_never_leave_a_one_row_list() {
    let mut app = App::new("t".to_string(), vec![5], vec![], vec![]);
    for _ in 0..3 {
        app.on_right();
        app.on_down();
        assert_eq!(app.selected(), 0);
        assert_eq!(app.active(), Section::SlotProgress);
        assert_eq!(app.len_of(app.active()), 1);
    }
    app.on_left();
    app.on_up();
    assert_eq!(app.selected(), 0);
}

#[test]
fn show_puts_another_list_on_display() {
    let mut app = sample_app();
    app.on_down();
    app.on_down();
    assert_eq!(app.selected(), 2);
    app.show(Section::Verification);
    assert_eq!(app.active(), Section::Verification);
    assert_eq!(app.selected(), 1);
    app.show(Section::Sampling);
    assert_eq!(app.active(), Section::Sampling);
    assert_eq!(app.selected(), 0);
    app.show(Section::SlotProgress);
    assert_eq!(app.selected(), 0);
    assert_eq!(app.slot_list(), &vec![1, 2, 3]);
}

#[test]
fn cursor_stays_inside_on_a_long_walk() {
    let mut app = sample_app();
    let mut seed: u32 = 12345;
    for _ in 0..500 {
        seed = seed.wrapping_mul(1103515245).wrapping_add(12345);
        match (seed >> 16) % 4 {
            0 => app.on_left(),
            1 => app.on_right(),
            2 => app.on_up(),
            _ => app.on_down(),
        }
        assert_eq!(app.active(), Section::SlotProgress);
        assert_eq!(app.slot_list(), &vec![1, 2, 3]);
        assert!(app.selected() <= 2);
    }
}

#[test]
fn empty_list_keeps_the_cursor_on_row_zero() {
    let mut app = App::new("t".to_string(), vec![], vec![], vec![]);
    app.on_down();
    assert_eq!(app.selected(), 0);
    app.on_right();
    assert_eq!(app.selected(), 0);
    app.on_up();
    app.on_left();
    assert_eq!(app.selected(), 0);
    assert_eq!(app.active(), Section::SlotProgress);
}

#[test]
fn only_the_quit_key_sets_the_quit_flag() {
    let mut app = sample_app();
    for c in ['a', 'Q', ' ', '\n', 'x'] {
        app.on_key(c);
        assert!(!app.should_quit());
    }
    app.on_left();
    app.on_right();
    app.on_up();
    app.on_down();
    app.on_tick();
    assert!(!app.should_quit());
    assert_eq!(QUIT_KEY, 'q');
    app.on_key('q');
    assert!(app.should_quit());
    app.on_key('a');
    assert!(app.should_quit());
}

#[test]
fn tick_changes_nothing() {
    let mut app = sample_app();
    app.on_down();
    app.on_tick();
    assert_eq!(app.selected(), 1);
    assert_eq!(app.active(), Section::SlotProgress);
    assert_eq!(app.slot_list(), &vec![1, 2, 3]);
}

#[test]
fn refresh_replaces_lists_and_clamps_the_cursor() {
    let mut app = sample_app();
    app.on_down();
    app.on_down();
    app.refresh(vec![7, 8], vec![], vec![(3, 3, 3)]);
    assert_eq!(app.slot_list(), &vec![7, 8]);
    assert_eq!(app.r_list(), &vec![]);
    assert_eq!(app.v_list(), &vec![(3, 3, 3)]);
    assert_eq!(app.selected(), 1);
    assert_eq!(app.active(), Section::SlotProgress);
    app.refresh(vec![], vec![], vec![]);
    assert_eq!(app.selected(), 0);
    app.refresh(vec![1, 2, 3, 4], vec![], vec![]);
    assert_eq!(app.selected(), 0);
}
