//! The screen builder and the element store. `build_screen` constructs, in
//! one synchronous pass, the fixed tree of elements a mode shows: a
//! full-screen background, a layout container with a title area (banner and
//! label), and, on screens that offer navigation, a button row. Every
//! element carries the owning mode's marker. The store keeps the live
//! elements and tears a mode's elements down in a single pass when the mode
//! is left.

use vstd::prelude::*;
use crate::state::AppState;
use crate::element::ButtonRole;
use crate::element::ElementKind;
use crate::element::Palette;
use crate::element::ScreenElement;
use crate::element::count_mode;
use crate::element::without_mode;
use crate::element::lemma_count_all_owned;
use crate::element::lemma_without_count_zero;
use crate::element::lemma_without_count_others;
use crate::element::lemma_without_noop;
use crate::element::lemma_without_keeps;
use crate::element::lemma_without_from_original;
use crate::element::lemma_without_distinct_ids;
use crate::element::with_style;

verus! {

/// The largest number of elements any one screen creates; identifier
/// headroom reserved before a build.
pub const MAX_SCREEN_ELEMS: u64 = 16;

/// How many elements the build step for mode `m` creates.
pub open spec fn screen_len(m: AppState) -> nat {
    match m {
        AppState::MainMenu => 8,
        AppState::InGame => 5,
        AppState::GameOver => 11,
    }
}

/// A fresh element in the normal palette.
pub open spec fn node(
    id: u64,
    parent: Option<u64>,
    owner: AppState,
    kind: ElementKind,
    role: Option<ButtonRole>,
) -> ScreenElement {
    ScreenElement { id, parent, owner, kind, role, style: Palette::Normal }
}

/// The `k`-th element the build step for mode `m` creates, with identifiers
/// starting at `base`. Each screen is one background and one full-screen
/// container holding a title area (a container, a banner, and label text);
/// the main menu adds a button row with a start button, and the game-over
/// screen adds two further labels and a button row with a main-menu button
/// and a restart button.
pub open spec fn element_at(m: AppState, base: u64, k: int) -> ScreenElement {
    let b = base as int;
    match m {
        AppState::MainMenu => {
            if k == 0 {
                node(b as u64, None, m, ElementKind::Background, None)
            } else if k == 1 {
                node((b + 1) as u64, None, m, ElementKind::Container, None)
            } else if k == 2 {
                node((b + 2) as u64, Some((b + 1) as u64), m, ElementKind::Container, None)
            } else if k == 3 {
                node((b + 3) as u64, Some((b + 2) as u64), m, ElementKind::Banner, None)
            } else if k == 4 {
                node((b + 4) as u64, Some((b + 3) as u64), m, ElementKind::Label, None)
            } else if k == 5 {
                node((b + 5) as u64, Some((b + 1) as u64), m, ElementKind::Container, None)
            } else if k == 6 {
                node(
                    (b + 6) as u64,
                    Some((b + 5) as u64),
                    m,
                    ElementKind::Button,
                    Some(ButtonRole::ToInGame),
                )
            } else {
                node((b + 7) as u64, Some((b + 6) as u64), m, ElementKind::Label, None)
            }
        },
        AppState::InGame => {
            if k == 0 {
                node(b as u64, None, m, ElementKind::Background, None)
            } else if k == 1 {
                node((b + 1) as u64, None, m, ElementKind::Container, None)
            } else if k == 2 {
                node((b + 2) as u64, Some((b + 1) as u64), m, ElementKind::Container, None)
            } else if k == 3 {
                node((b + 3) as u64, Some((b + 2) as u64), m, ElementKind::Banner, None)
            } else {
                node((b + 4) as u64, Some((b + 3) as u64), m, ElementKind::Label, None)
            }
        },
        AppState::GameOver => {
            if k == 0 {
                node(b as u64, None, m, ElementKind::Background, None)
            } else if k == 1 {
                node((b + 1) as u64, None, m, ElementKind::Container, None)
            } else if k == 2 {
                node((b + 2) as u64, Some((b + 1) as u64), m, ElementKind::Container, None)
            } else if k == 3 {
                node((b + 3) as u64, Some((b + 2) as u64), m, ElementKind::Banner, None)
            } else if k == 4 {
                node((b + 4) as u64, Some((b + 3) as u64), m, ElementKind::Label, None)
            } else if k == 5 {
                node((b + 5) as u64, Some((b + 3) as u64), m, ElementKind::Label, None)
            } else if k == 6 {
                node((b + 6) as u64, Some((b + 1) as u64), m, ElementKind::Container, None)
            } else if k == 7 {
                node(
                    (b + 7) as u64,
                    Some((b + 6) as u64),
                    m,
                    ElementKind::Button,
                    Some(ButtonRole::ToMainMenu),
                )
            } else if k == 8 {
                node((b + 8) as u64, Some((b + 7) as u64), m, ElementKind::Label, None)
            } else if k == 9 {
                node(
                    (b + 9) as u64,
                    Some((b + 6) as u64),
                    m,
                    ElementKind::Button,
                    Some(ButtonRole::ToInGame),
                )
            } else {
                node((b + 10) as u64, Some((b + 9) as u64), m, ElementKind::Label, None)
            }
        },
    }
}

/// The whole batch of elements the build step for mode `m` creates, with
/// identifiers starting at `base`.
pub open spec fn screen_elements(m: AppState, base: u64) -> Seq<ScreenElement> {
    Seq::new(screen_len(m), |k: int| element_at(m, base, k))
}

/// No two elements share an identifier.
pub open spec fn distinct_ids(s: Seq<ScreenElement>) -> bool {
    forall|i: int, j: int| 0 <= i < j < s.len() ==> s[i].id != s[j].id
}

/// Every identifier is below the next fresh one.
pub open spec fn ids_below(s: Seq<ScreenElement>, next: u64) -> bool {
    forall|i: int| 0 <= i < s.len() ==> (#[trigger] s[i]).id < next
}

/// The parent link of `e`, if any, names a live element of the same mode.
pub open spec fn parent_link_ok(s: Seq<ScreenElement>, e: ScreenElement) -> bool {
    match e.parent {
        Some(p) => exists|j: int| 0 <= j < s.len() && (#[trigger] s[j]).id == p && s[j].owner
            == e.owner,
        None => true,
    }
}

/// Every parent link names a live element of the same mode, so removing
/// everything one mode's marker tags removes whole subtrees, never a child
/// without its ancestors.
pub open spec fn parents_linked(s: Seq<ScreenElement>) -> bool {
    forall|i: int| 0 <= i < s.len() ==> parent_link_ok(s, #[trigger] s[i])
}

/// The element store's invariant over its contents and its next fresh
/// identifier.
pub open spec fn store_inv(s: Seq<ScreenElement>, next: u64) -> bool {
    &&& distinct_ids(s)
    &&& ids_below(s, next)
    &&& parents_linked(s)
}

/// Structural facts about a built batch: its length is fixed by the mode
/// alone, every element carries the mode's marker, identifiers are the
/// consecutive range starting at `base`, and every parent link points at an
/// earlier element of the same batch.
pub proof fn lemma_screen_elements_wf(m: AppState, base: u64)
    requires
        base + MAX_SCREEN_ELEMS <= u64::MAX,
    ensures
        screen_elements(m, base).len() == screen_len(m),
        forall|k: int|
            0 <= k < screen_len(m) ==> (#[trigger] screen_elements(m, base)[k]).owner == m,
        forall|k: int|
            0 <= k < screen_len(m) ==> (#[trigger] screen_elements(m, base)[k]).id == base + k,
        forall|k: int|
            0 <= k < screen_len(m) ==> match (#[trigger] screen_elements(m, base)[k]).parent {
                Some(p) => exists|j: int|
                    0 <= j < k && (#[trigger] screen_elements(m, base)[j]).id == p,
                None => true,
            },
{
    assert forall|k: int| 0 <= k < screen_len(m) implies match (#[trigger] screen_elements(
        m,
        base,
    )[k]).parent {
        Some(p) => exists|j: int| 0 <= j < k && (#[trigger] screen_elements(m, base)[j]).id == p,
        None => true,
    } by {
        let s = screen_elements(m, base);
        match s[k].parent {
            Some(p) => {
                let off = p - base;
                assert(s[off].id == p);
            },
            None => {},
        }
    }
}

/// Law: the build step is deterministic. The number of elements tagged for
/// `m` that `build_screen` creates is the same across invocations, whatever
/// identifier ranges the two batches were given, and equals `screen_len(m)`.
pub proof fn lemma_build_count_deterministic(m: AppState, base1: u64, base2: u64)
    requires
        base1 + MAX_SCREEN_ELEMS <= u64::MAX,
        base2 + MAX_SCREEN_ELEMS <= u64::MAX,
    ensures
        count_mode(screen_elements(m, base1), m) == screen_len(m),
        count_mode(screen_elements(m, base1), m) == count_mode(screen_elements(m, base2), m),
{
    lemma_screen_elements_wf(m, base1);
    lemma_screen_elements_wf(m, base2);
    lemma_count_all_owned(screen_elements(m, base1), m);
    lemma_count_all_owned(screen_elements(m, base2), m);
}

/// Appending a freshly built batch preserves the store invariant.
pub proof fn lemma_spawn_preserves_inv(s: Seq<ScreenElement>, next: u64, m: AppState)
    requires
        store_inv(s, next),
        next + MAX_SCREEN_ELEMS <= u64::MAX,
    ensures
        store_inv(s + screen_elements(m, next), (next + screen_len(m)) as u64),
{
    lemma_screen_elements_wf(m, next);
    let b = screen_elements(m, next);
    let c = s + b;
    let next2 = (next + screen_len(m)) as u64;
    assert forall|i: int, j: int| 0 <= i < j < c.len() implies c[i].id != c[j].id by {
        if i < s.len() && j >= s.len() {
            assert(c[i] == s[i]);
            assert(c[j] == b[j - s.len()]);
            assert(s[i].id < next);
            assert(b[j - s.len()].id == next + (j - s.len()));
        } else if i >= s.len() {
            assert(c[i] == b[i - s.len()]);
            assert(c[j] == b[j - s.len()]);
        }
    }
    assert forall|i: int| 0 <= i < c.len() implies (#[trigger] c[i]).id < next2 by {
        if i < s.len() {
            assert(c[i] == s[i]);
        } else {
            assert(c[i] == b[i - s.len()]);
        }
    }
    assert forall|i: int| 0 <= i < c.len() implies parent_link_ok(c, #[trigger] c[i]) by {
        if i < s.len() {
            assert(c[i] == s[i]);
            assert(parent_link_ok(s, s[i]));
            match s[i].parent {
                Some(p) => {
                    let k = choose|k: int|
                        0 <= k < s.len() && (#[trigger] s[k]).id == p && s[k].owner == s[i].owner;
                    assert(c[k] == s[k]);
                },
                None => {},
            }
        } else {
            assert(c[i] == b[i - s.len()]);
            match b[i - s.len()].parent {
                Some(p) => {
                    let k = choose|k: int| 0 <= k < i - s.len() && (#[trigger] b[k]).id == p;
                    assert(c[s.len() + k] == b[k]);
                    assert(b[k].owner == m && b[i - s.len()].owner == m);
                },
                None => {},
            }
        }
    }
}

/// Removing one mode's elements preserves the store invariant.
pub proof fn lemma_teardown_preserves_inv(s: Seq<ScreenElement>, next: u64, m: AppState)
    requires
        store_inv(s, next),
    ensures
        store_inv(without_mode(s, m), next),
{
    let c = without_mode(s, m);
    lemma_without_distinct_ids(s, m);
    lemma_without_from_original(s, m);
    assert forall|i: int| 0 <= i < c.len() implies (#[trigger] c[i]).id < next by {
        assert(s.contains(c[i]));
        let k = choose|k: int| 0 <= k < s.len() && s[k] == c[i];
        assert(s[k].id < next);
    }
    assert forall|i: int| 0 <= i < c.len() implies parent_link_ok(c, #[trigger] c[i]) by {
        assert(s.contains(c[i]) && c[i].owner != m);
        let k = choose|k: int| 0 <= k < s.len() && s[k] == c[i];
        assert(parent_link_ok(s, s[k]));
        match s[k].parent {
            Some(p) => {
                let k2 = choose|k2: int|
                    0 <= k2 < s.len() && (#[trigger] s[k2]).id == p && s[k2].owner == s[k].owner;
                lemma_without_keeps(s, m, s[k2]);
                let j = choose|j: int| 0 <= j < c.len() && c[j] == s[k2];
                assert(c[j].id == p && c[j].owner == c[i].owner);
            },
            None => {},
        }
    }
}

/// Replacing one element's style preserves the store invariant.
pub proof fn lemma_style_preserves_inv(s: Seq<ScreenElement>, next: u64, i: int, p: Palette)
    requires
        store_inv(s, next),
        0 <= i < s.len(),
    ensures
        store_inv(s.update(i, with_style(s[i], p)), next),
{
    let c = s.update(i, with_style(s[i], p));
    assert(forall|j: int|
        0 <= j < c.len() ==> (#[trigger] c[j]).id == s[j].id && c[j].owner == s[j].owner
            && c[j].parent == s[j].parent);
    assert forall|j: int| 0 <= j < c.len() implies parent_link_ok(c, #[trigger] c[j]) by {
        assert(parent_link_ok(s, s[j]));
        match s[j].parent {
            Some(q) => {
                let k = choose|k: int|
                    0 <= k < s.len() && (#[trigger] s[k]).id == q && s[k].owner == s[j].owner;
                assert(c[k].id == q && c[k].owner == c[j].owner);
            },
            None => {},
        }
    }
}

fn mk(
    id: u64,
    parent: Option<u64>,
    owner: AppState,
    kind: ElementKind,
    role: Option<ButtonRole>,
) -> (e: ScreenElement)
    ensures
        e == node(id, parent, owner, kind, role),
{
    ScreenElement { id, parent, owner, kind, role, style: Palette::Normal }
}

/// Build the element batch for mode `m` in one synchronous pass, tagging
/// every element (nested children included) with `m`'s marker before
/// returning. Identifiers are assigned consecutively from `base`.
pub fn build_screen(m: AppState, base: u64) -> (v: Vec<ScreenElement>)
    requires
        base + MAX_SCREEN_ELEMS <= u64::MAX,
    ensures
        v@ == screen_elements(m, base),
{
    let mut v: Vec<ScreenElement> = Vec::new();
    match m {
        AppState::MainMenu => {
            v.push(mk(base, None, m, ElementKind::Background, None));
            v.push(mk(base + 1, None, m, ElementKind::Container, None));
            v.push(mk(base + 2, Some(base + 1), m, ElementKind::Container, None));
            v.push(mk(base + 3, Some(base + 2), m, ElementKind::Banner, None));
            v.push(mk(base + 4, Some(base + 3), m, ElementKind::Label, None));
            v.push(mk(base + 5, Some(base + 1), m, ElementKind::Container, None));
            v.push(mk(base + 6, Some(base + 5), m, ElementKind::Button, Some(ButtonRole::ToInGame)));
            v.push(mk(base + 7, Some(base + 6), m, ElementKind::Label, None));
        },
        AppState::InGame => {
            v.push(mk(base, None, m, ElementKind::Background, None));
            v.push(mk(base + 1, None, m, ElementKind::Container, None));
            v.push(mk(base + 2, Some(base + 1), m, ElementKind::Container, None));
            v.push(mk(base + 3, Some(base + 2), m, ElementKind::Banner, None));
            v.push(mk(base + 4, Some(base + 3), m, ElementKind::Label, None));
        },
        AppState::GameOver => {
            v.push(mk(base, None, m, ElementKind::Background, None));
            v.push(mk(base + 1, None, m, ElementKind::Container, None));
            v.push(mk(base + 2, Some(base + 1), m, ElementKind::Container, None));
            v.push(mk(base + 3, Some(base + 2), m, ElementKind::Banner, None));
            v.push(mk(base + 4, Some(base + 3), m, ElementKind::Label, None));
            v.push(mk(base + 5, Some(base + 3), m, ElementKind::Label, None));
            v.push(mk(base + 6, Some(base + 1), m, ElementKind::Container, None));
            v.push(
                mk(base + 7, Some(base + 6), m, ElementKind::Button, Some(ButtonRole::ToMainMenu)),
            );
            v.push(mk(base + 8, Some(base + 7), m, ElementKind::Label, None));
            v.push(mk(base + 9, Some(base + 6), m, ElementKind::Button, Some(ButtonRole::ToInGame)));
            v.push(mk(base + 10, Some(base + 9), m, ElementKind::Label, None));
        },
    }
    proof {
        assert(v@ =~= screen_elements(m, base));
    }
    v
}

/// The live elements of every mode, in creation order, together with the
/// next fresh element identifier.
pub struct ElementStore {
    elems: Vec<ScreenElement>,
    next_id: u64,
}

impl ElementStore {
    /// The live elements, in creation order.
    pub closed spec fn elements(self) -> Seq<ScreenElement> {
        self.elems@
    }

    /// The next identifier a build step would assign.
    pub closed spec fn spec_next_id(self) -> u64 {
        self.next_id
    }

    /// Well-formedness of the store.
    pub open spec fn wf(self) -> bool {
        store_inv(self.elements(), self.spec_next_id())
    }

    /// An empty store.
    pub fn new() -> (s: ElementStore)
        ensures
            s.wf(),
            s.elements() == Seq::<ScreenElement>::empty(),
            s.spec_next_id() == 0,
    {
        ElementStore { elems: Vec::new(), next_id: 0 }
    }

    /// How many elements are live.
    pub fn len(&self) -> (r: usize)
        ensures
            r == self.elements().len(),
    {
        self.elems.len()
    }

    /// Read one element.
    pub fn get(&self, i: usize) -> (e: ScreenElement)
        requires
            i < self.elements().len(),
        ensures
            e == self.elements()[i as int],
    {
        self.elems[i]
    }

    /// Count the live elements carrying mode `m`'s marker.
    pub fn count_tagged(&self, m: AppState) -> (r: usize)
        ensures
            r == count_mode(self.elements(), m),
    {
        let n = self.elems.len();
        let mut r: usize = 0;
        let mut i: usize = 0;
        while i < n
            invariant
                n == self.elems@.len(),
                i <= n,
                r <= i,
                r == count_mode(self.elems@.subrange(0, i as int), m),
            decreases n - i,
        {
            proof {
                let s = self.elems@;
                assert(s.subrange(0, i as int + 1).drop_last() =~= s.subrange(0, i as int));
                assert(s.subrange(0, i as int + 1).last() == s[i as int]);
            }
            if self.elems[i].owner == m {
                r = r + 1;
            }
            i = i + 1;
        }
        proof {
            assert(self.elems@.subrange(0, n as int) =~= self.elems@);
        }
        r
    }

    /// Replace the style of the element at index `i`, leaving everything
    /// else — identifier, parent, owner, kind, role, and all other
    /// elements — untouched.
    pub fn set_style(&mut self, i: usize, p: Palette)
        requires
            old(self).wf(),
            i < old(self).elements().len(),
        ensures
            final(self).wf(),
            final(self).elements() == old(self).elements().update(
                i as int,
                with_style(old(self).elements()[i as int], p),
            ),
            final(self).spec_next_id() == old(self).spec_next_id(),
    {
        proof {
            lemma_style_preserves_inv(self.elems@, self.next_id, i as int, p);
        }
        let e = self.elems[i];
        self.elems.set(i, ScreenElement { style: p, ..e });
    }

    /// Run the build step for mode `m`: append `m`'s whole element batch,
    /// every element tagged with `m`'s marker, and advance the fresh
    /// identifier range past the batch.
    pub fn spawn_screen(&mut self, m: AppState)
        requires
            old(self).wf(),
            old(self).spec_next_id() + MAX_SCREEN_ELEMS <= u64::MAX,
        ensures
            final(self).wf(),
            final(self).elements() == old(self).elements() + screen_elements(
                m,
                old(self).spec_next_id(),
            ),
            final(self).spec_next_id() == old(self).spec_next_id() + screen_len(m),
    {
        proof {
            lemma_spawn_preserves_inv(self.elems@, self.next_id, m);
            lemma_screen_elements_wf(m, self.next_id);
        }
        let base = self.next_id;
        let mut batch = build_screen(m, base);
        let n = batch.len();
        self.elems.append(&mut batch);
        self.next_id = self.next_id + (n as u64);
    }

    /// Run the teardown step for mode `m`: remove, in a single pass, every
    /// element tagged with `m`'s marker. Afterwards the count for `m` is
    /// exactly zero, every other mode's elements are untouched (in value
    /// and order), and calling this with zero tagged elements changes
    /// nothing at all.
    pub fn teardown(&mut self, m: AppState)
        requires
            old(self).wf(),
        ensures
            final(self).wf(),
            final(self).elements() == without_mode(old(self).elements(), m),
            final(self).spec_next_id() == old(self).spec_next_id(),
            count_mode(final(self).elements(), m) == 0,
            forall|other: AppState|
                other != m ==> count_mode(final(self).elements(), other) == count_mode(
                    old(self).elements(),
                    other,
                ),
            count_mode(old(self).elements(), m) == 0 ==> final(self).elements() == old(
                self,
            ).elements(),
    {
        proof {
            let o = self.elems@;
            lemma_teardown_preserves_inv(o, self.next_id, m);
            lemma_without_count_zero(o, m);
            assert forall|other: AppState| other != m implies count_mode(without_mode(o, m), other)
                == count_mode(o, other) by {
                lemma_without_count_others(o, m, other);
            }
            if count_mode(o, m) == 0 {
                lemma_without_noop(o, m);
            }
        }
        let n = self.elems.len();
        let mut kept: Vec<ScreenElement> = Vec::new();
        let mut i: usize = 0;
        while i < n
            invariant
                n == self.elems@.len(),
                i <= n,
                kept@ == without_mode(self.elems@.subrange(0, i as int), m),
            decreases n - i,
        {
            proof {
                let s = self.elems@;
                assert(s.subrange(0, i as int + 1).drop_last() =~= s.subrange(0, i as int));
                assert(s.subrange(0, i as int + 1).last() == s[i as int]);
            }
            let e = self.elems[i];
            if e.owner != m {
                kept.push(e);
            }
            i = i + 1;
        }
        proof {
            assert(self.elems@.subrange(0, n as int) =~= self.elems@);
        }
        self.elems = kept;
    }
}

} // verus!
