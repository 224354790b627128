//! Screen elements: the visual nodes a mode's build step creates. Every
//! element carries the marker of the mode that owns it, and buttons carry
//! the role that names the transition they request. The spec functions here
//! describe what tag-based bulk teardown does to a sequence of elements.

use vstd::prelude::*;
use crate::state::AppState;

verus! {

/// Which transition a button requests when pressed. Attached at creation
/// and immutable afterwards.
#[derive(Clone, Copy, Debug, PartialEq, Eq, Structural)]
pub enum ButtonRole {
    /// Navigate to the main menu.
    ToMainMenu,
    /// Navigate into the game (the start and restart buttons).
    ToInGame,
}

/// The per-frame pointer state of a button, supplied by the input layer.
#[derive(Clone, Copy, Debug, PartialEq, Eq, Structural)]
pub enum InteractionStatus {
    Idle,
    Hovered,
    Pressed,
}

/// The visual style of a button: the normal palette, or the hovered palette
/// (highlighted background and border).
#[derive(Clone, Copy, Debug, PartialEq, Eq, Structural)]
pub enum Palette {
    Normal,
    Hovered,
}

/// What sort of visual node an element is.
#[derive(Clone, Copy, Debug, PartialEq, Eq, Structural)]
pub enum ElementKind {
    /// A full-screen background image.
    Background,
    /// A layout container node.
    Container,
    /// A colored title banner.
    Banner,
    /// A piece of label text.
    Label,
    /// A clickable button.
    Button,
}

/// One visual node. `owner` is the marker of the mode whose build step
/// created it; `parent` is the identifier of the element it is nested in,
/// if any. Only buttons carry a `role`.
#[derive(Clone, Copy, Debug)]
pub struct ScreenElement {
    pub id: u64,
    pub parent: Option<u64>,
    pub owner: AppState,
    pub kind: ElementKind,
    pub role: Option<ButtonRole>,
    pub style: Palette,
}

/// The same element with its style replaced.
pub open spec fn with_style(e: ScreenElement, p: Palette) -> ScreenElement {
    ScreenElement { style: p, ..e }
}

/// How many elements of `s` carry the marker of mode `m`.
pub open spec fn count_mode(s: Seq<ScreenElement>, m: AppState) -> nat
    decreases s.len(),
{
    if s.len() == 0 {
        0
    } else {
        count_mode(s.drop_last(), m) + if s.last().owner == m {
            1nat
        } else {
            0nat
        }
    }
}

/// The elements of `s` that do not carry the marker of mode `m`, in their
/// original order: what a bulk teardown of mode `m` leaves behind.
pub open spec fn without_mode(s: Seq<ScreenElement>, m: AppState) -> Seq<ScreenElement>
    decreases s.len(),
{
    if s.len() == 0 {
        s
    } else if s.last().owner == m {
        without_mode(s.drop_last(), m)
    } else {
        without_mode(s.drop_last(), m).push(s.last())
    }
}

/// Counting distributes over concatenation.
pub proof fn lemma_count_concat(a: Seq<ScreenElement>, b: Seq<ScreenElement>, m: AppState)
    ensures
        count_mode(a + b, m) == count_mode(a, m) + count_mode(b, m),
    decreases b.len(),
{
    if b.len() == 0 {
        assert((a + b) =~= a);
    } else {
        lemma_count_concat(a, b.drop_last(), m);
        assert((a + b).drop_last() =~= a + b.drop_last());
        assert((a + b).last() == b.last());
    }
}

/// In a sequence whose elements all carry marker `m`, the count for `m` is
/// the whole length.
pub proof fn lemma_count_all_owned(s: Seq<ScreenElement>, m: AppState)
    requires
        forall|i: int| 0 <= i < s.len() ==> s[i].owner == m,
    ensures
        count_mode(s, m) == s.len(),
    decreases s.len(),
{
    if s.len() > 0 {
        lemma_count_all_owned(s.drop_last(), m);
    }
}

/// In a sequence whose elements all carry marker `m`, the count for any
/// other mode is zero.
pub proof fn lemma_count_none_owned(s: Seq<ScreenElement>, m: AppState, other: AppState)
    requires
        forall|i: int| 0 <= i < s.len() ==> s[i].owner == m,
        other != m,
    ensures
        count_mode(s, other) == 0,
    decreases s.len(),
{
    if s.len() > 0 {
        lemma_count_none_owned(s.drop_last(), m, other);
    }
}

/// Every element left after teardown of `m` is an element of the original
/// sequence, and none of them carries marker `m`.
pub proof fn lemma_without_from_original(s: Seq<ScreenElement>, m: AppState)
    ensures
        forall|i: int|
            0 <= i < without_mode(s, m).len() ==> s.contains(#[trigger] without_mode(s, m)[i])
                && without_mode(s, m)[i].owner != m,
    decreases s.len(),
{
    if s.len() > 0 {
        lemma_without_from_original(s.drop_last(), m);
        assert forall|i: int| 0 <= i < without_mode(s, m).len() implies s.contains(
            #[trigger] without_mode(s, m)[i],
        ) && without_mode(s, m)[i].owner != m by {
            let w = without_mode(s, m)[i];
            if s.last().owner == m || i < without_mode(s.drop_last(), m).len() {
                assert(w == without_mode(s.drop_last(), m)[i]);
                assert(s.drop_last().contains(w));
                let k = choose|k: int| 0 <= k < s.drop_last().len() && s.drop_last()[k] == w;
                assert(s[k] == w);
            } else {
                assert(w == s.last());
                assert(s[s.len() - 1] == w);
            }
        }
    }
}

/// After teardown of `m`, the count of elements carrying marker `m` is
/// exactly zero.
pub proof fn lemma_without_count_zero(s: Seq<ScreenElement>, m: AppState)
    ensures
        count_mode(without_mode(s, m), m) == 0,
    decreases s.len(),
{
    if s.len() > 0 {
        lemma_without_count_zero(s.drop_last(), m);
        if s.last().owner != m {
            let w = without_mode(s.drop_last(), m);
            assert(w.push(s.last()).drop_last() =~= w);
        }
    }
}

/// Teardown of `m` leaves the count of every other mode untouched.
pub proof fn lemma_without_count_others(s: Seq<ScreenElement>, m: AppState, other: AppState)
    requires
        other != m,
    ensures
        count_mode(without_mode(s, m), other) == count_mode(s, other),
    decreases s.len(),
{
    if s.len() > 0 {
        lemma_without_count_others(s.drop_last(), m, other);
        if s.last().owner != m {
            let w = without_mode(s.drop_last(), m);
            assert(w.push(s.last()).drop_last() =~= w);
        }
    }
}

/// Teardown is a no-op when nothing carries marker `m`.
pub proof fn lemma_without_noop(s: Seq<ScreenElement>, m: AppState)
    requires
        count_mode(s, m) == 0,
    ensures
        without_mode(s, m) == s,
    decreases s.len(),
{
    if s.len() > 0 {
        lemma_without_noop(s.drop_last(), m);
        assert(s.drop_last().push(s.last()) =~= s);
    }
}

/// An element of the original sequence that does not carry marker `m`
/// survives teardown of `m`.
pub proof fn lemma_without_keeps(s: Seq<ScreenElement>, m: AppState, e: ScreenElement)
    requires
        s.contains(e),
        e.owner != m,
    ensures
        without_mode(s, m).contains(e),
    decreases s.len(),
{
    if s.len() > 0 {
        if s.last() == e {
            let w = without_mode(s.drop_last(), m);
            assert(w.push(e)[w.len() as int] == e);
        } else {
            let k = choose|k: int| 0 <= k < s.len() && s[k] == e;
            assert(s.drop_last()[k] == e);
            assert(s.drop_last().contains(e));
            lemma_without_keeps(s.drop_last(), m, e);
            if s.last().owner != m {
                let w = without_mode(s.drop_last(), m);
                let j = choose|j: int| 0 <= j < w.len() && w[j] == e;
                assert(w.push(s.last())[j] == e);
            }
        }
    }
}

/// Teardown keeps identifiers distinct: if no two elements of `s` share an
/// identifier, no two survivors do either.
pub proof fn lemma_without_distinct_ids(s: Seq<ScreenElement>, m: AppState)
    requires
        forall|i: int, j: int| 0 <= i < j < s.len() ==> s[i].id != s[j].id,
    ensures
        forall|i: int, j: int|
            0 <= i < j < without_mode(s, m).len() ==> without_mode(s, m)[i].id != without_mode(
                s,
                m,
            )[j].id,
    decreases s.len(),
{
    if s.len() > 0 {
        assert(forall|i: int, j: int|
            0 <= i < j < s.drop_last().len() ==> s.drop_last()[i].id != s.drop_last()[j].id);
        lemma_without_distinct_ids(s.drop_last(), m);
        if s.last().owner != m {
            let w = without_mode(s.drop_last(), m);
            lemma_without_from_original(s.drop_last(), m);
            assert forall|i: int, j: int|
                0 <= i < j < w.push(s.last()).len() implies w.push(s.last())[i].id != w.push(
                s.last(),
            )[j].id by {
                if j == w.len() as int {
                    assert(s.drop_last().contains(w[i]));
                    let k = choose|k: int|
                        0 <= k < s.drop_last().len() && s.drop_last()[k] == w[i];
                    assert(s[k].id != s[s.len() - 1].id);
                }
            }
        }
    }
}

} // verus!
