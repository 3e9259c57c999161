use promkit::grapheme::StyledGraphemes;
use promkit::pane::Pane;
use promkit::terminal::Terminal;

fn pane_of(lines: Vec<&str>) -> Pane {
    let rows: Vec<StyledGraphemes> = lines
        .into_iter()
        .map(StyledGraphemes::from_plain)
        .collect();
    Pane::new(rows, 0)
}

#[test]
fn test_first_draw_is_a_full_paint() {
    let mut terminal = Terminal::start_session((80, 24));
    let panes = vec![pane_of(vec!["one", "two"])];
    let plan = terminal.draw((80, 24), &panes, (0, 0));
    assert!(plan.full_repaint);
    assert_eq!(2, plan.rows.len());
    assert_eq!(vec![true, true], plan.dirty);
    assert_eq!(0, plan.clear_count);
}

#[test]
fn test_unchanged_rows_are_skipped() {
    let mut terminal = Terminal::start_session((80, 24));
    terminal.draw((80, 24), &vec![pane_of(vec!["one", "two"])], (0, 0));
    let plan = terminal.draw((80, 24), &vec![pane_of(vec!["one", "2"])], (0, 1));
    assert!(!plan.full_repaint);
    assert_eq!(vec![false, true], plan.dirty);
    assert_eq!(0, plan.clear_count);
    assert_eq!((0, 1), plan.cursor);
}

#[test]
fn test_trailing_rows_that_disappear_are_cleared() {
    let mut terminal = Terminal::start_session((80, 24));
    terminal.draw((80, 24), &vec![pane_of(vec!["one", "two", "three"])], (0, 0));
    let plan = terminal.draw((80, 24), &vec![pane_of(vec!["one"])], (0, 0));
    assert!(!plan.full_repaint);
    assert_eq!(vec![false], plan.dirty);
    assert_eq!(2, plan.clear_count);
}

#[test]
fn test_resize_forces_full_repaint_then_diffing_resumes() {
    let mut terminal = Terminal::start_session((80, 24));
    terminal.draw((80, 24), &vec![pane_of(vec!["one", "two"])], (0, 0));
    // reducing the width mid-session: the next draw repaints fully even
    // though every row's content is unchanged
    let plan = terminal.draw((60, 24), &vec![pane_of(vec!["one", "two"])], (0, 0));
    assert!(plan.full_repaint);
    assert_eq!(vec![true, true], plan.dirty);
    // the draw after that, at the unchanged size, diffs incrementally again
    let plan = terminal.draw((60, 24), &vec![pane_of(vec!["one", "TWO"])], (0, 0));
    assert!(!plan.full_repaint);
    assert_eq!(vec![false, true], plan.dirty);
}

#[test]
fn test_frame_rows_follow_component_order() {
    let mut terminal = Terminal::start_session((80, 24));
    let panes = vec![pane_of(vec!["a"]), pane_of(vec!["b", "c"])];
    let plan = terminal.draw((80, 24), &panes, (0, 0));
    let texts: Vec<String> = plan.rows.iter().map(|r| r.text()).collect();
    assert_eq!(vec!["a", "b", "c"], texts);
}

#[test]
fn test_rows_that_appear_are_written() {
    let mut terminal = Terminal::start_session((80, 24));
    terminal.draw((80, 24), &vec![pane_of(vec!["one"])], (0, 0));
    let plan = terminal.draw((80, 24), &vec![pane_of(vec!["one", "two"])], (0, 0));
    assert!(!plan.full_repaint);
    assert_eq!(vec![false, true], plan.dirty);
}
