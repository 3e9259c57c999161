use promkit::prompt::{Error, Evaluator, Event, EventAction, Key, Producer, Renderer, SessionState};
use promkit::{Prompt, SelectBox};

struct ReadyWhen(bool);

impl Evaluator<SelectBox> for ReadyWhen {
    fn evaluate(&mut self, _event: &Event, _renderers: &Vec<SelectBox>) -> Result<bool, Error> {
        Ok(self.0)
    }
}

struct SelectedText;

impl Producer<SelectBox, String> for SelectedText {
    fn produce(&mut self, renderers: &Vec<SelectBox>) -> Result<String, Error> {
        Ok(renderers[0].get().text())
    }
}

struct FailingEvaluator;

impl Evaluator<SelectBox> for FailingEvaluator {
    fn evaluate(&mut self, _event: &Event, _renderers: &Vec<SelectBox>) -> Result<bool, Error> {
        Err(Error::Io(String::from("size query failed")))
    }
}

fn select_over_abc() -> SelectBox {
    let mut b = SelectBox::new();
    b.register_all(vec!["a", "b", "c"]);
    b
}

#[test]
fn test_select_component_moves_down_and_saturates() {
    // dispatching "move down" twice moves the selection 0 -> 2; a third
    // dispatch is a no-op
    let mut prompt = Prompt::try_new(vec![select_over_abc()], ReadyWhen(false), SelectedText)
        .unwrap();
    prompt.start();
    let down = Event::KeyPress(Key::Down);
    let t1 = prompt.handle_tick(&down).unwrap();
    assert!(!t1.exit);
    assert_eq!(1, prompt.renderers()[0].pos());
    let t2 = prompt.handle_tick(&down).unwrap();
    assert!(!t2.exit);
    assert_eq!(2, prompt.renderers()[0].pos());
    let t3 = prompt.handle_tick(&down).unwrap();
    assert!(!t3.exit);
    assert_eq!(2, prompt.renderers()[0].pos());
}

#[test]
fn test_quit_alone_does_not_end_the_loop() {
    // the component reports quit on Enter, but the evaluator says the
    // state is not ready: the session must stay running
    let mut prompt = Prompt::try_new(vec![select_over_abc()], ReadyWhen(false), SelectedText)
        .unwrap();
    prompt.start();
    let t = prompt.handle_tick(&Event::KeyPress(Key::Enter)).unwrap();
    assert!(t.should_quit);
    assert!(!t.ready);
    assert!(!t.exit);
    assert_eq!(SessionState::Running, prompt.state());
}

#[test]
fn test_loop_ends_when_quit_and_ready_agree() {
    let mut prompt = Prompt::try_new(vec![select_over_abc()], ReadyWhen(true), SelectedText)
        .unwrap();
    prompt.start();
    // readiness alone does not end the loop either
    let t0 = prompt.handle_tick(&Event::KeyPress(Key::Down)).unwrap();
    assert!(!t0.should_quit && t0.ready && !t0.exit);
    assert_eq!(SessionState::Running, prompt.state());
    // both on the same tick: the session drains and produces the result
    let t = prompt.handle_tick(&Event::KeyPress(Key::Enter)).unwrap();
    assert!(t.should_quit && t.ready && t.exit);
    assert_eq!(SessionState::Draining, prompt.state());
    let out: String = prompt.finish().unwrap();
    assert_eq!("b", out);
    assert_eq!(SessionState::Done, prompt.state());
    // postrun reset every component's selection
    assert_eq!(0, prompt.renderers()[0].pos());
}

#[test]
fn test_first_quit_stops_dispatch_for_the_tick() {
    // two components: the first quits on Enter, so the second must not see
    // the event on that tick (its selection stays put)
    let mut prompt = Prompt::try_new(
        vec![select_over_abc(), select_over_abc()],
        ReadyWhen(false),
        SelectedText,
    )
    .unwrap();
    prompt.start();
    let t = prompt.handle_tick(&Event::KeyPress(Key::Down)).unwrap();
    assert!(!t.should_quit);
    assert_eq!(1, prompt.renderers()[0].pos());
    assert_eq!(1, prompt.renderers()[1].pos());
    let t = prompt.handle_tick(&Event::KeyPress(Key::Enter)).unwrap();
    assert!(t.should_quit);
    // Enter reached only the first component; dispatch stopped there, so
    // a later Down must still move the second component from index 1
    let t = prompt.handle_tick(&Event::KeyPress(Key::Down)).unwrap();
    assert!(!t.should_quit);
    assert_eq!(2, prompt.renderers()[1].pos());
}

#[test]
fn test_component_error_unwinds_the_tick() {
    let mut prompt = Prompt::try_new(vec![select_over_abc()], ReadyWhen(true), SelectedText)
        .unwrap();
    prompt.start();
    let r = prompt.handle_tick(&Event::KeyPress(Key::Ctrl('c')));
    assert!(matches!(r, Err(Error::Interrupted)));
    assert_eq!(SessionState::Running, prompt.state());
}

#[test]
fn test_evaluator_error_unwinds_the_tick() {
    let mut prompt = Prompt::try_new(vec![select_over_abc()], FailingEvaluator, SelectedText)
        .unwrap();
    prompt.start();
    let r = prompt.handle_tick(&Event::KeyPress(Key::Down));
    assert!(matches!(r, Err(Error::Io(_))));
    assert_eq!(SessionState::Running, prompt.state());
}

#[test]
fn test_make_panes_asks_every_component() {
    let mut prompt = Prompt::try_new(
        vec![select_over_abc(), select_over_abc()],
        ReadyWhen(false),
        SelectedText,
    )
    .unwrap();
    prompt.start();
    let panes = prompt.make_panes(80);
    assert_eq!(2, panes.len());
    assert_eq!(3, panes[0].visible_row_count());
    assert_eq!("a", panes[0].rows[0].text());
    // panes truncate each candidate to the terminal width
    let mut wide = SelectBox::new();
    wide.register("abcdef");
    let narrow = Prompt::try_new(vec![wide], ReadyWhen(false), SelectedText).unwrap();
    let panes = narrow.make_panes(3);
    assert_eq!("abc", panes[0].rows[0].text());
}
