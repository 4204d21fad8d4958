//! The order of texts: lexicographic by character code, as `str` compares.

use vstd::prelude::*;

use crate::text::chars_of;

verus! {

/// Compares two texts character by character: -1 when `a` comes first,
/// 0 when they are the same text, 1 when `b` comes first. A proper prefix
/// comes before the longer text. Since UTF-8 keeps the order of code points,
/// this is the order in which Rust compares `str` and `String` values.
pub open spec fn text_order(a: Seq<char>, b: Seq<char>) -> int
    decreases a.len(),
{
    if a.len() == 0 {
        if b.len() == 0 {
            0
        } else {
            -1
        }
    } else if b.len() == 0 {
        1
    } else if a[0] < b[0] {
        -1
    } else if a[0] > b[0] {
        1
    } else {
        text_order(a.drop_first(), b.drop_first())
    }
}

/// Swapping the two texts negates the comparison, and the comparison is 0
/// exactly for the same text.
pub proof fn lemma_text_order_antisymmetric(a: Seq<char>, b: Seq<char>)
    ensures
        text_order(a, b) == -text_order(b, a),
        (text_order(a, b) == 0) == (a == b),
        -1 <= text_order(a, b) <= 1,
    decreases a.len(),
{
    if a.len() > 0 && b.len() > 0 {
        lemma_text_order_antisymmetric(a.drop_first(), b.drop_first());
        if a[0] == b[0] && a.drop_first() == b.drop_first() {
            assert(a =~= seq![a[0]] + a.drop_first());
            assert(b =~= seq![b[0]] + b.drop_first());
        }
        if a == b {
            assert(a.drop_first() =~= b.drop_first());
        }
    } else if a.len() == 0 && b.len() == 0 {
        assert(a =~= b);
    }
}

/// The comparison is transitive, and strict as soon as one step is strict.
pub proof fn lemma_text_order_transitive(a: Seq<char>, b: Seq<char>, c: Seq<char>)
    requires
        text_order(a, b) <= 0,
        text_order(b, c) <= 0,
    ensures
        text_order(a, c) <= 0,
        text_order(a, b) < 0 || text_order(b, c) < 0 ==> text_order(a, c) < 0,
    decreases a.len(),
{
    lemma_text_order_antisymmetric(a, b);
    lemma_text_order_antisymmetric(b, c);
    lemma_text_order_antisymmetric(a, c);
    if a.len() > 0 && b.len() > 0 && c.len() > 0 {
        if a[0] == b[0] && b[0] == c[0] {
            lemma_text_order_transitive(a.drop_first(), b.drop_first(), c.drop_first());
        }
    }
}

/// Compares two texts as `text_order` does.
pub fn compare_text(a: &str, b: &str) -> (r: i8)
    ensures
        r as int == text_order(a@, b@),
{
    let va = chars_of(a);
    let vb = chars_of(b);
    let mut i: usize = 0;
    assert(a@.skip(0) =~= a@);
    assert(b@.skip(0) =~= b@);
    while i < va.len() && i < vb.len()
        invariant
            va@ == a@,
            vb@ == b@,
            i <= va.len(),
            i <= vb.len(),
            text_order(a@, b@) == text_order(a@.skip(i as int), b@.skip(i as int)),
        decreases va.len() - i,
    {
        let ca = va[i];
        let cb = vb[i];
        if ca < cb {
            return -1;
        } else if ca > cb {
            return 1;
        }
        assert(a@.skip(i as int).drop_first() =~= a@.skip(i + 1));
        assert(b@.skip(i as int).drop_first() =~= b@.skip(i + 1));
        i = i + 1;
    }
    if i < va.len() {
        1
    } else if i < vb.len() {
        -1
    } else {
        0
    }
}

} // verus!

verus! {

/// Texts compare at their first difference: with equal first `k` characters,
/// the text whose character at `k` is smaller comes first; if one text ends
/// at `k`, that shorter text comes first; if both end there, they are the
/// same text.
pub proof fn lemma_text_order_first_difference(a: Seq<char>, b: Seq<char>, k: int)
    requires
        0 <= k <= a.len(),
        k <= b.len(),
        forall|i: int| 0 <= i < k ==> a[i] == b[i],
    ensures
        k < a.len() && k < b.len() && a[k] < b[k] ==> text_order(a, b) == -1,
        k < a.len() && k < b.len() && a[k] > b[k] ==> text_order(a, b) == 1,
        k == a.len() && k < b.len() ==> text_order(a, b) == -1,
        k < a.len() && k == b.len() ==> text_order(a, b) == 1,
        k == a.len() && k == b.len() ==> text_order(a, b) == 0,
    decreases k,
{
    if k > 0 {
        assert(a[0] == b[0]);
        assert forall|i: int| 0 <= i < k - 1 implies a.drop_first()[i] == b.drop_first()[i] by {
            assert(a[i + 1] == b[i + 1]);
        }
        lemma_text_order_first_difference(a.drop_first(), b.drop_first(), k - 1);
    }
}

} // verus!
