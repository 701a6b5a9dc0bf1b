//! Comparing string literals character by character.
use vstd::prelude::*;

use crate::text::{self, Text};

verus! {

/// Whether two texts agree from a place on, as far as the first goes.
pub open spec fn same_from(a: Text, b: Text, from: int) -> bool
    decreases a.len() - from,
{
    from >= a.len() || from < 0 || (a[from] == b[from] && same_from(a, b, from + 1))
}

proof fn lemma_same_at(a: Text, b: Text, from: int, i: int)
    requires
        same_from(a, b, from),
        0 <= from <= i < a.len(),
    ensures
        a[i] == b[i],
    decreases a.len() - from,
{
    if from < i {
        lemma_same_at(a, b, from + 1, i);
    }
}

pub(crate) proof fn lemma_same(a: Text, b: Text)
    requires
        a.len() == b.len(),
        same_from(a, b, 0),
    ensures
        a == b,
{
    assert forall|i: int| 0 <= i < a.len() implies a[i] == b[i] by {
        lemma_same_at(a, b, 0, i);
    }
    assert(a =~= b);
}

/// Whether a character stands nowhere in a text from a place on.
pub open spec fn free_from(s: Text, c: char, from: int) -> bool
    decreases s.len() - from,
{
    from >= s.len() || from < 0 || (s[from] != c && free_from(s, c, from + 1))
}

proof fn lemma_free_at(s: Text, c: char, from: int, i: int)
    requires
        free_from(s, c, from),
        0 <= from <= i < s.len(),
    ensures
        s[i] != c,
    decreases s.len() - from,
{
    if from < i {
        lemma_free_at(s, c, from + 1, i);
    }
}

pub(crate) proof fn lemma_free(s: Text, c: char)
    requires
        free_from(s, c, 0),
    ensures
        !s.contains(c),
{
    if s.contains(c) {
        let i = choose|i: int| 0 <= i < s.len() && s[i] == c;
        lemma_free_at(s, c, 0, i);
    }
}

/// A text without a character is a single piece.
pub(crate) proof fn lemma_one_piece(s: Text, c: char)
    requires
        !s.contains(c),
    ensures
        text::pieces(s, c) == seq![s],
{
    text::lemma_position(s, c);
    let p = text::position(s, c) as int;
    if p < s.len() {
        assert(s.contains(s[p]));
    }
    assert(text::pieces(s, c) =~= seq![s]);
}

/// A sum of texts holds a character just where one of them does.
pub(crate) proof fn lemma_sum_holds(a: Text, b: Text, c: char)
    ensures
        (a + b).contains(c) == (a.contains(c) || b.contains(c)),
{
    if (a + b).contains(c) {
        let i = choose|i: int| 0 <= i < (a + b).len() && (a + b)[i] == c;
        if i < a.len() {
            assert(a[i] == c);
        } else {
            assert(b[i - a.len()] == c);
        }
    }
    if a.contains(c) {
        let i = choose|i: int| 0 <= i < a.len() && a[i] == c;
        assert((a + b)[i] == c);
    }
    if b.contains(c) {
        let i = choose|i: int| 0 <= i < b.len() && b[i] == c;
        assert((a + b)[a.len() + i] == c);
    }
}

} // verus!
