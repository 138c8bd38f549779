use area_clicker::editor::{union_rect, Screen, StepEditor};
use area_clicker::geometry::{Bounds, Point};
use area_clicker::job::{ClickButton, JobMode, SequenceStep};

fn editor() -> StepEditor {
    StepEditor {
        steps: Vec::new(),
        editing: None,
        bounds_input: Bounds::new(100, 400, 100, 400),
        edit_name: "Step 1".to_string(),
        edit_clicks: 5,
        edit_min_ms: 500,
        edit_max_ms: 1500,
        edit_button_left: true,
        edit_bounds_from_current: true,
    }
}

fn named(e: &StepEditor) -> Vec<String> {
    e.steps.iter().map(|s: &SequenceStep| s.name.clone()).collect()
}

fn with_three() -> StepEditor {
    let mut e = editor();
    for name in ["a", "b", "c"] {
        e.edit_name = name.to_string();
        e.push_or_update_step_from_editor();
    }
    e
}

#[test]
fn drag_selection_sets_bounds_either_direction() {
    let mut e = editor();
    e.set_bounds_from_drag(Point::new(100, 100), Point::new(200, 200), Point::new(0, 0));
    assert_eq!(e.bounds_input, Bounds::new(100, 200, 100, 200));
    e.set_bounds_from_drag(Point::new(200, 200), Point::new(100, 100), Point::new(0, 0));
    assert_eq!(e.bounds_input, Bounds::new(100, 200, 100, 200));
    e.set_bounds_from_drag(Point::new(10, 50), Point::new(30, 5), Point::new(1920, -100));
    assert_eq!(e.bounds_input, Bounds::new(1930, 1950, -95, -50));
}

#[test]
fn union_of_displays() {
    assert_eq!(union_rect(&vec![]), Bounds::new(0, 0, 0, 0));
    let one = Screen { origin: Point::new(0, 0), width: 1920, height: 1080 };
    assert_eq!(union_rect(&vec![one]), Bounds::new(0, 1920, 0, 1080));
    let left = Screen { origin: Point::new(-1280, 200), width: 1280, height: 1024 };
    assert_eq!(union_rect(&vec![one, left]), Bounds::new(-1280, 1920, 0, 1224));
}

#[test]
fn applying_the_form_appends_then_updates() {
    let mut e = editor();
    e.edit_clicks = 0;
    e.push_or_update_step_from_editor();
    assert_eq!(e.steps.len(), 1);
    assert_eq!(e.steps[0].clicks, 1);
    assert_eq!(e.steps[0].bounds, Bounds::new(100, 400, 100, 400));
    assert_eq!(e.steps[0].button, ClickButton::Left);

    e.select_step_for_edit(0);
    assert_eq!(e.editing, Some(0));
    assert!(!e.edit_bounds_from_current);
    e.bounds_input = Bounds::new(0, 10, 0, 10);
    e.edit_name = "renamed".to_string();
    e.edit_button_left = false;
    e.edit_clicks = 7;
    e.push_or_update_step_from_editor();
    assert_eq!(e.editing, None);
    assert_eq!(e.steps.len(), 1);
    assert_eq!(e.steps[0].name, "renamed");
    assert_eq!(e.steps[0].clicks, 7);
    assert_eq!(e.steps[0].button, ClickButton::Right);
    // the edited step keeps its own region
    assert_eq!(e.steps[0].bounds, Bounds::new(100, 400, 100, 400));
}

#[test]
fn selecting_a_missing_step_changes_nothing() {
    let mut e = with_three();
    e.select_step_for_edit(3);
    assert_eq!(e.editing, None);
    assert_eq!(e.edit_name, "c");
}

#[test]
fn moving_steps_keeps_the_selection_on_its_step() {
    let mut e = with_three();
    e.select_step_for_edit(2);
    e.move_step_up(2);
    assert_eq!(named(&e), vec!["a", "c", "b"]);
    assert_eq!(e.editing, Some(1));
    e.move_step_down(0);
    assert_eq!(named(&e), vec!["c", "a", "b"]);
    assert_eq!(e.editing, Some(0));
    e.move_step_up(0);
    e.move_step_down(2);
    assert_eq!(named(&e), vec!["c", "a", "b"]);
}

#[test]
fn configurations_from_the_editor() {
    let e = editor();
    assert!(e.sequence_config(Some(1)).is_none());
    let single = e.single_config(false, 2000, 4500, Some(10));
    match single.mode {
        JobMode::Single { bounds, button, min_ms, max_ms, finite_clicks } => {
            assert_eq!(bounds, Some(Bounds::new(100, 400, 100, 400)));
            assert_eq!(button, ClickButton::Right);
            assert_eq!((min_ms, max_ms, finite_clicks), (2000, 4500, Some(10)));
        }
        other => panic!("expected single mode, got {:?}", other),
    }
    let e = with_three();
    match e.sequence_config(None).unwrap().mode {
        JobMode::Sequence { steps, cycles } => {
            assert_eq!(steps.len(), 3);
            assert_eq!(steps[1].name, "b");
            assert_eq!(cycles, None);
        }
        other => panic!("expected sequence mode, got {:?}", other),
    }
}
