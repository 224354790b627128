//! The whole front end in one value: the state machine plus the element
//! store, driven the way the engine's scheduler drives it. Within a frame,
//! interaction-status changes are reduced one by one; at the frame
//! boundary, the single pending transition (the last one requested) is
//! committed, the outgoing mode's elements are torn down, and the incoming
//! mode's screen is built.

use vstd::prelude::*;
use crate::state::AppState;
use crate::state::StateMachine;
use crate::element::InteractionStatus;
use crate::element::count_mode;
use crate::element::with_style;
use crate::element::without_mode;
use crate::reducer::reduce_interaction;
use crate::reducer::spec_reduce;
use crate::screen::ElementStore;
use crate::screen::MAX_SCREEN_ELEMS;
use crate::screen::screen_elements;
use crate::screen::screen_len;

verus! {

/// The running front end: the current mode, the pending transition, and
/// the live elements of every mode.
pub struct Game {
    machine: StateMachine,
    store: ElementStore,
}

impl Game {
    /// The state machine.
    pub closed spec fn spec_machine(self) -> StateMachine {
        self.machine
    }

    /// The element store.
    pub closed spec fn spec_store(self) -> ElementStore {
        self.store
    }

    /// Well-formedness of the whole front end.
    pub open spec fn wf(self) -> bool {
        self.spec_store().wf()
    }

    /// Start the front end: the machine begins in the main menu, whose
    /// screen is built as its enter hook runs.
    pub fn new() -> (g: Game)
        ensures
            g.wf(),
            g.spec_machine().spec_current() == AppState::MainMenu,
            g.spec_machine().spec_pending() == None::<AppState>,
            g.spec_store().elements() == screen_elements(AppState::MainMenu, 0),
            g.spec_store().spec_next_id() == screen_len(AppState::MainMenu),
    {
        let machine = StateMachine::new();
        let mut store = ElementStore::new();
        store.spawn_screen(AppState::MainMenu);
        proof {
            assert(store.elements() =~= screen_elements(AppState::MainMenu, 0));
        }
        Game { machine, store }
    }

    /// Read the current mode.
    pub fn current_mode(&self) -> (r: AppState)
        ensures
            r == self.spec_machine().spec_current(),
    {
        self.machine.current()
    }

    /// Read the element store.
    pub fn store(&self) -> (r: &ElementStore)
        ensures
            *r == self.spec_store(),
    {
        &self.store
    }

    /// Read the state machine.
    pub fn machine(&self) -> (r: &StateMachine)
        ensures
            *r == self.spec_machine(),
    {
        &self.machine
    }

    /// Request a transition to `target` directly, as any system of the
    /// running mode may (the in-game logic requests the game-over screen
    /// this way). The last request within a frame wins at the next commit.
    pub fn request_transition(&mut self, target: AppState)
        ensures
            final(self).spec_machine().spec_current() == old(self).spec_machine().spec_current(),
            final(self).spec_machine().spec_pending() == Some(target),
            final(self).spec_store() == old(self).spec_store(),
    {
        self.machine.request_transition(target);
    }

    /// Reduce one interaction-status change, reported by the input layer
    /// for the element at index `i`. Only a button owned by the current
    /// mode reacts: a press requests the button's transition (the style is
    /// left alone), a hover switches the button to the hovered palette and
    /// returns `true` to fire the one-shot hover sound, a return to idle
    /// restores the normal palette. Anything else — a non-button, or an
    /// element of an inactive mode — changes nothing.
    pub fn handle_interaction(&mut self, i: usize, status: InteractionStatus) -> (sound: bool)
        requires
            old(self).wf(),
            i < old(self).spec_store().elements().len(),
        ensures
            final(self).wf(),
            final(self).spec_machine().spec_current() == old(self).spec_machine().spec_current(),
            final(self).spec_store().spec_next_id() == old(self).spec_store().spec_next_id(),
            ({
                let e = old(self).spec_store().elements()[i as int];
                if e.role is Some && e.owner == old(self).spec_machine().spec_current() {
                    let out = spec_reduce(status, e.role.unwrap());
                    &&& final(self).spec_store().elements() == (match out.style {
                        Some(p) => old(self).spec_store().elements().update(
                            i as int,
                            with_style(e, p),
                        ),
                        None => old(self).spec_store().elements(),
                    })
                    &&& final(self).spec_machine().spec_pending() == (if out.transition is Some {
                        out.transition
                    } else {
                        old(self).spec_machine().spec_pending()
                    })
                    &&& sound == out.sound
                } else {
                    &&& final(self).spec_store().elements() == old(self).spec_store().elements()
                    &&& final(self).spec_machine().spec_pending() == old(
                        self,
                    ).spec_machine().spec_pending()
                    &&& sound == false
                }
            }),
    {
        let e = self.store.get(i);
        let cur = self.machine.current();
        match e.role {
            Some(role) => {
                if e.owner == cur {
                    let out = reduce_interaction(status, role);
                    match out.style {
                        Some(p) => self.store.set_style(i, p),
                        None => {},
                    }
                    match out.transition {
                        Some(t) => self.machine.request_transition(t),
                        None => {},
                    }
                    out.sound
                } else {
                    false
                }
            },
            None => false,
        }
    }

    /// The frame boundary. If a transition is pending, the engine commits
    /// it: the outgoing mode's exit hook tears down every element carrying
    /// its marker, the current mode changes, and the incoming mode's enter
    /// hook builds its screen; the pair (mode left, mode entered) is
    /// returned. With nothing pending, nothing changes.
    pub fn commit_frame(&mut self) -> (r: Option<(AppState, AppState)>)
        requires
            old(self).wf(),
            old(self).spec_store().spec_next_id() + MAX_SCREEN_ELEMS <= u64::MAX,
        ensures
            final(self).wf(),
            final(self).spec_machine().spec_pending() == None::<AppState>,
            match old(self).spec_machine().spec_pending() {
                Some(t) => {
                    &&& r == Some((old(self).spec_machine().spec_current(), t))
                    &&& final(self).spec_machine().spec_current() == t
                    &&& final(self).spec_store().elements() == without_mode(
                        old(self).spec_store().elements(),
                        old(self).spec_machine().spec_current(),
                    ) + screen_elements(t, old(self).spec_store().spec_next_id())
                    &&& final(self).spec_store().spec_next_id() == old(
                        self,
                    ).spec_store().spec_next_id() + screen_len(t)
                    &&& count_mode(
                        final(self).spec_store().elements(),
                        old(self).spec_machine().spec_current(),
                    ) == (if t == old(self).spec_machine().spec_current() {
                        screen_len(t)
                    } else {
                        0
                    })
                },
                None => {
                    &&& r == None::<(AppState, AppState)>
                    &&& final(self).spec_machine().spec_current() == old(
                        self,
                    ).spec_machine().spec_current()
                    &&& final(self).spec_store() == old(self).spec_store()
                },
            },
    {
        match self.machine.commit() {
            Some((from, to)) => {
                self.store.teardown(from);
                self.store.spawn_screen(to);
                proof {
                    let torn = without_mode(old(self).spec_store().elements(), from);
                    let batch = screen_elements(to, old(self).spec_store().spec_next_id());
                    crate::element::lemma_count_concat(torn, batch, from);
                    crate::screen::lemma_screen_elements_wf(
                        to,
                        old(self).spec_store().spec_next_id(),
                    );
                    if to == from {
                        crate::element::lemma_count_all_owned(batch, from);
                    } else {
                        crate::element::lemma_count_none_owned(batch, to, from);
                    }
                }
                Some((from, to))
            },
            None => None,
        }
    }
}

} // verus!
