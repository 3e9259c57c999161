//! The prompt session: a list of render components, an evaluator that
//! decides when the accumulated state is ready to yield a result, and a
//! producer that builds the typed result.
//!
//! The session is a state machine `Idle -> Running -> Draining -> Done`.
//! One tick dispatches an input event to the components in registration
//! order (the first component reporting quit stops dispatch for that
//! tick), asks the evaluator for readiness, and leaves `Running` exactly
//! when both the pending-quit flag and readiness hold.  The blocking event
//! read and the screen writes around each tick are the embedding
//! application's work.

use vstd::prelude::*;

use crate::pane::Pane;

verus! {

/// One decoded key, as the terminal-control layer hands it over.
#[derive(Clone, Copy, Debug, PartialEq, Eq, Structural)]
pub enum Key {
    Up,
    Down,
    Left,
    Right,
    Enter,
    Esc,
    Backspace,
    Tab,
    Delete,
    Home,
    End,
    Char(char),
    Ctrl(char),
}

/// One input event of the session.
#[derive(Clone, Copy, Debug, PartialEq, Eq, Structural)]
pub enum Event {
    KeyPress(Key),
    Resize(u16, u16),
}

/// A failure that unwinds the session: terminal-control trouble, or an
/// interrupt delivered as an input event.
#[derive(Debug)]
pub enum Error {
    /// A terminal-control operation failed; the text comes from the driver.
    Io(String),
    /// The user interrupted the session.
    Interrupted,
}

/// What a component answers when it handles an event: keep running, or ask
/// to quit the session.
#[derive(Clone, Copy, Debug, PartialEq, Eq, Structural)]
pub enum EventAction {
    Continue,
    Quit,
}

/// A render component: it can draw itself into a pane, handle input
/// events, and clean up when the session drains.
pub trait Renderer {
    /// Creates this component's pane for the given terminal width.
    fn make_pane(&self, width: u16) -> Pane;

    /// Handles one input event.
    fn handle_event(&mut self, event: &Event) -> Result<EventAction, Error>;

    /// Performs cleanup after the session has produced its result.
    fn postrun(&mut self);
}

/// The readiness predicate over the current event and component list.
pub trait Evaluator<R> {
    /// Decides whether the accumulated state is ready to yield a result.
    fn evaluate(&mut self, event: &Event, renderers: &Vec<R>) -> Result<bool, Error>;
}

/// Builds the session's typed result from the final component list.
pub trait Producer<R, T> {
    /// Converts the final component states into the result.
    fn produce(&mut self, renderers: &Vec<R>) -> Result<T, Error>;
}

/// The lifecycle of a prompt session.
#[derive(Clone, Copy, Debug, PartialEq, Eq, Structural)]
pub enum SessionState {
    Idle,
    Running,
    Draining,
    Done,
}

/// Where one tick takes the session: a running session starts draining
/// exactly when both the pending-quit flag and readiness hold on the same
/// tick; any other state is final for ticks.
pub open spec fn next_session_state(
    state: SessionState,
    should_quit: bool,
    ready: bool,
) -> SessionState {
    match state {
        SessionState::Running => if should_quit && ready {
            SessionState::Draining
        } else {
            SessionState::Running
        },
        _ => state,
    }
}

/// A quit alone never ends a running session, nor does readiness alone:
/// the session leaves `Running` for `Draining` exactly on a tick where
/// both the pending-quit flag and the evaluator's readiness hold.
pub proof fn lemma_exit_needs_quit_and_ready(should_quit: bool, ready: bool)
    ensures
        next_session_state(SessionState::Running, should_quit, ready) == SessionState::Draining
            <==> (should_quit && ready),
        next_session_state(SessionState::Running, should_quit, ready) == SessionState::Running
            <==> !(should_quit && ready),
{
}

/// What one tick observed and decided.
#[derive(Clone, Copy, Debug, PartialEq, Eq, Structural)]
pub struct TickOutcome {
    /// Some component asked to quit on this tick.
    pub should_quit: bool,
    /// The evaluator judged the state ready for output.
    pub ready: bool,
    /// The session leaves the running loop: both of the above held.
    pub exit: bool,
}

/// A prompt session over components `R`, an evaluator `E` and a producer
/// `P`.
pub struct Prompt<R, E, P> {
    renderers: Vec<R>,
    evaluator: E,
    producer: P,
    state: SessionState,
}

impl<R: Renderer, E, P> Prompt<R, E, P> {
    /// The components, in registration order.
    pub closed spec fn spec_renderers(&self) -> Seq<R> {
        self.renderers@
    }

    /// The session's lifecycle state.
    pub closed spec fn spec_state(&self) -> SessionState {
        self.state
    }

    /// The evaluator the session was built with.
    pub closed spec fn spec_evaluator(&self) -> E {
        self.evaluator
    }

    /// The producer the session was built with.
    pub closed spec fn spec_producer(&self) -> P {
        self.producer
    }

    /// Creates an idle session from its components, evaluator and
    /// producer.  Construction always succeeds.
    pub fn try_new(renderers: Vec<R>, evaluator: E, producer: P) -> (r: Result<
        Prompt<R, E, P>,
        Error,
    >)
        ensures
            r is Ok,
            r matches Ok(p) ==> p.spec_state() == SessionState::Idle && p.spec_renderers()
                == renderers@ && p.spec_evaluator() == evaluator && p.spec_producer() == producer,
    {
        Ok(Prompt { renderers, evaluator, producer, state: SessionState::Idle })
    }

    /// Enters the running loop: called once, before the first tick.
    pub fn start(&mut self)
        requires
            old(self).spec_state() == SessionState::Idle,
        ensures
            final(self).spec_state() == SessionState::Running,
            final(self).spec_renderers() == old(self).spec_renderers(),
    {
        self.state = SessionState::Running;
    }

    /// The session's lifecycle state, for inspection.
    pub fn state(&self) -> (r: SessionState)
        ensures
            r == self.spec_state(),
    {
        self.state
    }

    /// The components, for inspection.
    pub fn renderers(&self) -> (r: &Vec<R>)
        ensures
            r@ == self.spec_renderers(),
    {
        &self.renderers
    }

    /// Asks every component for its pane at the given width, in
    /// registration order.
    pub fn make_panes(&self, width: u16) -> (r: Vec<Pane>)
        ensures
            r@.len() == self.spec_renderers().len(),
    {
        let mut panes: Vec<Pane> = Vec::new();
        let mut i: usize = 0;
        while i < self.renderers.len()
            invariant
                i <= self.renderers@.len(),
                panes@.len() == i,
            decreases self.renderers@.len() - i,
        {
            let pane = self.renderers[i].make_pane(width);
            panes.push(pane);
            i = i + 1;
        }
        panes
    }

    /// Runs one tick of a running session: dispatches the event to the
    /// components in registration order, stopping at the first one that
    /// asks to quit; asks the evaluator for readiness; and leaves the
    /// running state exactly when both held.  A component or evaluator
    /// error unwinds the tick with the session still running.
    pub fn handle_tick(&mut self, event: &Event) -> (r: Result<TickOutcome, Error>) where
        E: Evaluator<R>,

        requires
            old(self).spec_state() == SessionState::Running,
        ensures
            final(self).spec_renderers().len() == old(self).spec_renderers().len(),
            r matches Ok(t) ==> t.exit == (t.should_quit && t.ready),
            r matches Ok(t) ==> final(self).spec_state() == next_session_state(
                SessionState::Running,
                t.should_quit,
                t.ready,
            ),
            r is Err ==> final(self).spec_state() == SessionState::Running,
    {
        let mut should_quit = false;
        let mut i: usize = 0;
        while i < self.renderers.len() && !should_quit
            invariant
                i <= self.renderers@.len(),
                self.renderers@.len() == old(self).spec_renderers().len(),
                self.state == SessionState::Running,
            decreases self.renderers@.len() - i,
        {
            let renderer = &mut self.renderers[i];
            match renderer.handle_event(event) {
                Ok(EventAction::Quit) => {
                    should_quit = true;
                },
                Ok(EventAction::Continue) => {},
                Err(e) => {
                    return Err(e);
                },
            }
            i = i + 1;
        }
        let ready = match self.evaluator.evaluate(event, &self.renderers) {
            Ok(b) => b,
            Err(e) => {
                return Err(e);
            },
        };
        let exit = should_quit && ready;
        if exit {
            self.state = SessionState::Draining;
        }
        Ok(TickOutcome { should_quit, ready, exit })
    }

    /// Drains the session: builds the typed result from the final
    /// component states, then runs every component's cleanup, whether or
    /// not the producer succeeded.
    pub fn finish<T>(&mut self) -> (r: Result<T, Error>) where P: Producer<R, T>
        requires
            old(self).spec_state() == SessionState::Draining,
        ensures
            final(self).spec_state() == SessionState::Done,
            final(self).spec_renderers().len() == old(self).spec_renderers().len(),
    {
        let ret = self.producer.produce(&self.renderers);
        let mut i: usize = 0;
        while i < self.renderers.len()
            invariant
                i <= self.renderers@.len(),
                self.renderers@.len() == old(self).spec_renderers().len(),
            decreases self.renderers@.len() - i,
        {
            let renderer = &mut self.renderers[i];
            renderer.postrun();
            i = i + 1;
        }
        self.state = SessionState::Done;
        ret
    }
}

} // verus!
