//! The application state machine: one of a small set of mutually exclusive
//! top-level modes is current at any time. Reducers may request a transition
//! any number of times within a frame; the engine commits at most one
//! transition per frame boundary, and the last request wins.

use vstd::prelude::*;

verus! {

/// The mutually exclusive top-level application modes. The machine starts
/// in `MainMenu`.
#[derive(Clone, Copy, Debug, PartialEq, Eq, Hash, Structural)]
pub enum AppState {
    MainMenu,
    InGame,
    GameOver,
}

impl Default for AppState {
    /// The mode the application starts in.
    fn default() -> (r: AppState)
        ensures
            r == AppState::MainMenu,
    {
        AppState::MainMenu
    }
}

/// Holds the single current mode, together with the transition target
/// requested during the current frame, if any. The current mode changes
/// only when `commit` applies the pending request at a frame boundary.
pub struct StateMachine {
    current: AppState,
    pending: Option<AppState>,
}

/// What one transition request does to the machine, as a pair
/// (current mode, pending request): the current mode is untouched and the
/// request replaces whatever request was pending before it.
pub open spec fn spec_request(
    current: AppState,
    pending: Option<AppState>,
    target: AppState,
) -> (AppState, Option<AppState>) {
    (current, Some(target))
}

/// The machine state after a whole sequence of transition requests has been
/// made within one frame, in order.
pub open spec fn after_requests(
    current: AppState,
    pending: Option<AppState>,
    targets: Seq<AppState>,
) -> (AppState, Option<AppState>)
    decreases targets.len(),
{
    if targets.len() == 0 {
        (current, pending)
    } else {
        let prev = after_requests(current, pending, targets.drop_last());
        spec_request(prev.0, prev.1, targets.last())
    }
}

/// Law: for any sequence of transition requests within a single frame, only
/// the last request's target is pending when the frame ends, and the current
/// mode is untouched by the requests themselves.
pub proof fn lemma_last_request_wins(
    current: AppState,
    pending: Option<AppState>,
    targets: Seq<AppState>,
)
    requires
        targets.len() > 0,
    ensures
        after_requests(current, pending, targets) == (current, Some(targets.last())),
    decreases targets.len(),
{
    if targets.len() == 1 {
        assert(after_requests(current, pending, targets.drop_last()) == (current, pending));
    } else {
        lemma_last_request_wins(current, pending, targets.drop_last());
    }
}

impl StateMachine {
    /// The mode that is active right now.
    pub closed spec fn spec_current(self) -> AppState {
        self.current
    }

    /// The transition target requested this frame, if any.
    pub closed spec fn spec_pending(self) -> Option<AppState> {
        self.pending
    }

    /// A fresh machine: current mode is the main menu, nothing requested.
    pub fn new() -> (m: StateMachine)
        ensures
            m.spec_current() == AppState::MainMenu,
            m.spec_pending() == None::<AppState>,
    {
        StateMachine { current: AppState::MainMenu, pending: None }
    }

    /// Read the current mode.
    pub fn current(&self) -> (r: AppState)
        ensures
            r == self.spec_current(),
    {
        self.current
    }

    /// Read the pending transition request, if any.
    pub fn pending(&self) -> (r: Option<AppState>)
        ensures
            r == self.spec_pending(),
    {
        self.pending
    }

    /// Request a transition to `target`. Transitions are unconditional: any
    /// mode may be requested from any mode, the current mode itself
    /// included. A later request in the same frame replaces this one.
    pub fn request_transition(&mut self, target: AppState)
        ensures
            (final(self).spec_current(), final(self).spec_pending()) == spec_request(
                old(self).spec_current(),
                old(self).spec_pending(),
                target,
            ),
    {
        self.pending = Some(target);
    }

    /// Commit at the frame boundary: if a transition is pending, the current
    /// mode becomes its target and the pair (mode left, mode entered) is
    /// returned; otherwise nothing changes. Afterwards no request is
    /// pending. A request naming the current mode itself is committed like
    /// any other, so its exit and enter hooks run again.
    pub fn commit(&mut self) -> (r: Option<(AppState, AppState)>)
        ensures
            final(self).spec_pending() == None::<AppState>,
            match old(self).spec_pending() {
                Some(t) => {
                    &&& r == Some((old(self).spec_current(), t))
                    &&& final(self).spec_current() == t
                },
                None => {
                    &&& r == None::<(AppState, AppState)>
                    &&& final(self).spec_current() == old(self).spec_current()
                },
            },
    {
        match self.pending {
            Some(t) => {
                let from = self.current;
                self.current = t;
                self.pending = None;
                Some((from, t))
            },
            None => None,
        }
    }
}

} // verus!
