//! Which entry of the list is selected.

use vstd::prelude::*;

verus! {

/// The selected entry of a list, if any.
#[derive(Clone, Copy, Debug, PartialEq, Eq, Structural)]
pub struct Selection {
    pub index: Option<usize>,
}

/// The entry that a step starts from: the selected one, or the first.
pub open spec fn current(s: Selection) -> int {
    match s.index {
        Some(i) => i as int,
        None => 0,
    }
}

/// The selection after moving `delta` entries on in a list of `len` entries, which
/// goes round at both ends. An empty list changes nothing.
pub open spec fn stepped(s: Selection, len: int, delta: int) -> Selection {
    if len == 0 {
        s
    } else {
        Selection { index: Some(((current(s) + delta) % len) as usize) }
    }
}

/// Nothing is selected, or an entry that the list has.
pub open spec fn within(s: Selection, len: int) -> bool {
    s.index matches Some(i) ==> i < len
}

/// Moves the selection `delta` entries on, round the ends of the list.
pub fn step(state: &mut Selection, len: usize, delta: isize)
    ensures
        *final(state) == stepped(*old(state), len as int, delta as int),
{
    if len == 0 {
        return;
    }
    let cur: usize = match state.index {
        Some(i) => i,
        None => 0,
    };
    let moved: i128 = cur as i128 + delta as i128;
    if let Some(next) = moved.checked_rem_euclid(len as i128) {
        state.index = Some(next as usize);
    }
}

/// A step always ends on an entry of the list, if there is one.
pub proof fn law_step_stays_within(s: Selection, len: int, delta: int)
    requires
        0 < len <= usize::MAX,
    ensures
        stepped(s, len, delta).index is Some,
        within(stepped(s, len, delta), len),
{
    vstd::arithmetic::div_mod::lemma_mod_bound(current(s) + delta, len);
}

/// Moving on and back again ends where it started.
pub proof fn law_step_back(s: Selection, len: int, delta: int)
    requires
        0 < len <= usize::MAX,
        within(s, len),
    ensures
        stepped(stepped(s, len, delta), len, -delta) == (Selection {
            index: Some(current(s) as usize),
        }),
{
    let moved = current(s) + delta;
    vstd::arithmetic::div_mod::lemma_mod_bound(moved, len);
    assert(((moved % len) - delta) % len == current(s)) by {
        vstd::arithmetic::div_mod::lemma_sub_mod_noop(moved, delta, len);
        vstd::arithmetic::div_mod::lemma_sub_mod_noop(moved % len, delta, len);
        vstd::arithmetic::div_mod::lemma_mod_twice(moved, len);
        vstd::arithmetic::div_mod::lemma_small_mod(current(s) as nat, len as nat);
    }
}

/// Moving on, or back, by the length of the list ends where it started.
pub proof fn law_step_round(s: Selection, len: int)
    requires
        0 < len <= usize::MAX,
        within(s, len),
    ensures
        stepped(s, len, len) == (Selection { index: Some(current(s) as usize) }),
        stepped(s, len, -len) == (Selection { index: Some(current(s) as usize) }),
{
    vstd::arithmetic::div_mod::lemma_mod_add_multiples_vanish(current(s), len);
    vstd::arithmetic::div_mod::lemma_mod_sub_multiples_vanish(current(s), len);
    vstd::arithmetic::div_mod::lemma_small_mod(current(s) as nat, len as nat);
}

/// A step of `delta` goes just that far, counted round the list: where it ends differs from
/// where it started and from how far it went by whole rounds only. Without a selection it
/// starts at the first entry, and in an empty list nothing changes.
pub proof fn law_step_goes_as_far_as_told(s: Selection, len: int, delta: int)
    requires
        0 <= len <= usize::MAX,
    ensures
        len == 0 ==> stepped(s, len, delta) == s,
        len > 0 ==> (stepped(s, len, delta).index matches Some(to) && 0 <= to < len && (s.index
            matches Some(from) ==> (from + delta - to) % len == 0) && (s.index is None ==> (delta
            - to) % len == 0)),
{
    if len > 0 {
        let from = current(s);
        let to = (from + delta) % len;
        law_step_stays_within(s, len, delta);
        vstd::arithmetic::div_mod::lemma_mod_bound(from + delta, len);
        vstd::arithmetic::div_mod::lemma_sub_mod_noop(from + delta, to, len);
        vstd::arithmetic::div_mod::lemma_mod_twice(from + delta, len);
        vstd::arithmetic::div_mod::lemma_sub_mod_noop(from + delta, from + delta, len);
        assert((from + delta - to) % len == ((from + delta) % len - to % len) % len);
        assert((from + delta - (from + delta)) % len == 0);
    }
}

/// One step on or back goes to the neighbour, and from one end of the list to the other.
pub proof fn law_single_steps_go_to_neighbours(i: usize, len: int)
    requires
        i < len <= usize::MAX,
    ensures
        stepped(Selection { index: Some(i) }, len, 1).index == Some(
            if i + 1 < len {
                (i + 1) as usize
            } else {
                0
            },
        ),
        stepped(Selection { index: Some(i) }, len, -1).index == Some(
            if i > 0 {
                (i - 1) as usize
            } else {
                (len - 1) as usize
            },
        ),
{
    if i + 1 < len {
        vstd::arithmetic::div_mod::lemma_small_mod((i + 1) as nat, len as nat);
    } else {
        vstd::arithmetic::div_mod::lemma_mod_self_0(len);
    }
    if i > 0 {
        vstd::arithmetic::div_mod::lemma_small_mod((i - 1) as nat, len as nat);
    } else {
        vstd::arithmetic::div_mod::lemma_small_mod((len - 1) as nat, len as nat);
        vstd::arithmetic::div_mod::lemma_mod_add_multiples_vanish(-1, len);
    }
}

/// The same of the selection that is moved: it goes as far as told, round the list.
pub proof fn law_selection_moves_as_far_as_told(s: &mut Selection, len: usize, delta: isize)
    requires
        call_ensures(step, (s, len, delta), ()),
    ensures
        len == 0 ==> *final(s) == *old(s),
        len > 0 ==> (final(s).index matches Some(to) && to < len && (old(s).index matches Some(from)
            ==> (from + delta - to) % (len as int) == 0) && (old(s).index is None ==> (delta - to) % (
        len as int) == 0)),
{
    law_step_goes_as_far_as_told(*old(s), len as int, delta as int);
}

} // verus!
