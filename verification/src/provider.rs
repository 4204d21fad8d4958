//! Library tracks as the sweep sees them, the order of the library
//! (oldest date added first) and where a sweep resumes.

use vstd::prelude::*;

use crate::order::{lemma_text_order_antisymmetric, lemma_text_order_transitive, text_order};

verus! {

/// Platform-agnostic track metadata used by the sweep loop.
#[derive(Debug, Clone)]
pub struct TrackInfo {
    /// Stable identifier (Apple Music persistent ID).
    pub id: String,
    pub name: String,
    pub artist: String,
    pub album: String,
    /// Sortable date-added string (ISO-like); missing dates sort last.
    pub date_added: Option<String>,
    /// Length of the track in whole milliseconds, rounded up.
    pub duration_ms: u64,
    pub favorited: bool,
}

/// Cursor for ordering / resuming (id + date added).
#[derive(Debug, Clone, PartialEq, Eq)]
pub struct ResumeCursor {
    pub id: String,
    pub date_added: Option<String>,
}

/// What a cursor holds, as texts.
pub struct CursorModel {
    pub id: Seq<char>,
    pub date_added: Option<Seq<char>>,
}

/// An optional string, as an optional text.
pub open spec fn opt_text(o: Option<String>) -> Option<Seq<char>> {
    match o {
        Some(s) => Some(s@),
        None => None,
    }
}

impl View for ResumeCursor {
    type V = CursorModel;

    open spec fn view(&self) -> CursorModel {
        CursorModel { id: self.id@, date_added: opt_text(self.date_added) }
    }
}

/// The library order of two cursors (-1, 0 or 1): by date added, then by id;
/// a cursor without a date comes after every cursor with one.
pub open spec fn cursor_order(a: CursorModel, b: CursorModel) -> int {
    match (a.date_added, b.date_added) {
        (Some(x), Some(y)) => if text_order(x, y) != 0 {
            text_order(x, y)
        } else {
            text_order(a.id, b.id)
        },
        (Some(_), None) => -1,
        (None, Some(_)) => 1,
        (None, None) => text_order(a.id, b.id),
    }
}

/// `a` comes no later than `b` in the library order.
pub open spec fn cursor_le(a: CursorModel, b: CursorModel) -> bool {
    cursor_order(a, b) <= 0
}

/// The library order is antisymmetric, and two cursors compare equal
/// exactly when they hold the same id and the same date added.
pub proof fn lemma_cursor_order_antisymmetric(a: CursorModel, b: CursorModel)
    ensures
        cursor_order(a, b) == -cursor_order(b, a),
        -1 <= cursor_order(a, b) <= 1,
        (cursor_order(a, b) == 0) == (a.id == b.id && a.date_added == b.date_added),
{
    lemma_text_order_antisymmetric(a.id, b.id);
    match (a.date_added, b.date_added) {
        (Some(x), Some(y)) => {
            lemma_text_order_antisymmetric(x, y);
        },
        _ => {},
    }
}

/// The library order is transitive, and strict as soon as one step is strict.
pub proof fn lemma_cursor_order_transitive(a: CursorModel, b: CursorModel, c: CursorModel)
    requires
        cursor_order(a, b) <= 0,
        cursor_order(b, c) <= 0,
    ensures
        cursor_order(a, c) <= 0,
        cursor_order(a, b) < 0 || cursor_order(b, c) < 0 ==> cursor_order(a, c) < 0,
{
    lemma_cursor_order_antisymmetric(a, b);
    lemma_cursor_order_antisymmetric(b, c);
    lemma_cursor_order_antisymmetric(a, c);
    match (a.date_added, b.date_added, c.date_added) {
        (Some(x), Some(y), Some(z)) => {
            lemma_text_order_antisymmetric(x, y);
            lemma_text_order_antisymmetric(y, z);
            lemma_text_order_antisymmetric(x, z);
            if text_order(x, y) <= 0 && text_order(y, z) <= 0 {
                lemma_text_order_transitive(x, y, z);
            }
            if x == y && y == z {
                lemma_text_order_transitive(a.id, b.id, c.id);
            }
        },
        (None, None, None) => {
            lemma_text_order_transitive(a.id, b.id, c.id);
        },
        _ => {},
    }
}

/// Two dated cursors whose dates differ are ordered by their full date texts,
/// whatever their ids; the id decides only between equal dates; a dated cursor
/// comes before an undated one; undated cursors are ordered by id.
pub proof fn lemma_cursor_order_by_date(a: CursorModel, b: CursorModel)
    ensures
        a.date_added is Some && b.date_added is Some && a.date_added.unwrap()
            != b.date_added.unwrap() ==> cursor_order(a, b) == text_order(
            a.date_added.unwrap(),
            b.date_added.unwrap(),
        ) && text_order(a.date_added.unwrap(), b.date_added.unwrap()) != 0,
        a.date_added is Some && b.date_added is Some && a.date_added.unwrap()
            == b.date_added.unwrap() ==> cursor_order(a, b) == text_order(a.id, b.id),
        a.date_added is Some && b.date_added is None ==> cursor_order(a, b) == -1,
        a.date_added is None && b.date_added is Some ==> cursor_order(a, b) == 1,
        a.date_added is None && b.date_added is None ==> cursor_order(a, b) == text_order(a.id, b.id),
{
    if let (Some(x), Some(y)) = (a.date_added, b.date_added) {
        lemma_text_order_antisymmetric(x, y);
    }
}

/// Every two cursors are ordered one way or the other.
pub proof fn lemma_cursor_order_total(a: CursorModel, b: CursorModel)
    ensures
        cursor_le(a, b) || cursor_le(b, a),
{
    lemma_cursor_order_antisymmetric(a, b);
}

} // verus!

verus! {

/// The cursors of a sequence, as texts.
pub open spec fn models(s: Seq<ResumeCursor>) -> Seq<CursorModel> {
    s.map_values(|c: ResumeCursor| c@)
}

/// A sequence of cursors in library order.
pub open spec fn is_library_order(s: Seq<ResumeCursor>) -> bool {
    forall|i: int, j: int| 0 <= i < j < s.len() ==> cursor_le(#[trigger] s[i]@, #[trigger] s[j]@)
}

impl ResumeCursor {
    /// A copy of this cursor.
    pub fn duplicate(&self) -> (r: ResumeCursor)
        ensures
            r == *self,
    {
        let date_added = match &self.date_added {
            Some(d) => Some(d.clone()),
            None => None,
        };
        ResumeCursor { id: self.id.clone(), date_added }
    }
}

/// Merges two sequences that are in library order into one.
fn merge(a: &Vec<ResumeCursor>, b: &Vec<ResumeCursor>) -> (r: Vec<ResumeCursor>)
    requires
        is_library_order(a@),
        is_library_order(b@),
    ensures
        is_library_order(r@),
        r@.to_multiset() == a@.to_multiset().add(b@.to_multiset()),
{
    broadcast use vstd::seq_lib::group_to_multiset_ensures;
    broadcast use vstd::multiset::group_multiset_axioms;

    let mut r: Vec<ResumeCursor> = Vec::new();
    let mut i: usize = 0;
    let mut j: usize = 0;
    while i < a.len() || j < b.len()
        invariant
            i <= a.len(),
            j <= b.len(),
            is_library_order(a@),
            is_library_order(b@),
            is_library_order(r@),
            r@.to_multiset() == a@.subrange(0, i as int).to_multiset().add(
                b@.subrange(0, j as int).to_multiset(),
            ),
            r.len() > 0 && i < a.len() ==> cursor_le(r@.last()@, a@[i as int]@),
            r.len() > 0 && j < b.len() ==> cursor_le(r@.last()@, b@[j as int]@),
        decreases a.len() + b.len() - i - j,
    {
        let take_a = if i < a.len() && j < b.len() {
            crate::cursor_ordering::comes_no_later(&a[i], &b[j])
        } else {
            i < a.len()
        };
        let x = if take_a {
            a[i].duplicate()
        } else {
            b[j].duplicate()
        };
        let ghost old_r = r@;
        proof {
            assert forall|k: int| 0 <= k < old_r.len() implies cursor_le(
                #[trigger] old_r[k]@,
                x@,
            ) by {
                if k < old_r.len() - 1 {
                    lemma_cursor_order_transitive(old_r[k]@, old_r.last()@, x@);
                }
            }
        }
        r.push(x);
        proof {
            assert(r@ == old_r.push(x));
            vstd::seq_lib::to_multiset_build(old_r, x);
        }
        if take_a {
            proof {
                assert(a@.subrange(0, i + 1) =~= a@.subrange(0, i as int).push(a@[i as int]));
                if !(j < b.len()) {
                } else {
                    lemma_cursor_order_total(a@[i as int]@, b@[j as int]@);
                }
                if i + 1 < a.len() {
                    assert(cursor_le(a@[i as int]@, a@[i + 1]@));
                }
                vstd::seq_lib::to_multiset_build(a@.subrange(0, i as int), a@[i as int]);
                assert(a@.subrange(0, i + 1).to_multiset() == a@.subrange(0, i as int).to_multiset().insert(a@[i as int]));
                assert(r@.to_multiset() =~= a@.subrange(0, i + 1).to_multiset().add(
                    b@.subrange(0, j as int).to_multiset()));
            }
            i = i + 1;
        } else {
            proof {
                assert(b@.subrange(0, j + 1) =~= b@.subrange(0, j as int).push(b@[j as int]));
                if i < a.len() {
                    lemma_cursor_order_total(a@[i as int]@, b@[j as int]@);
                }
                if j + 1 < b.len() {
                    assert(cursor_le(b@[j as int]@, b@[j + 1]@));
                }
                vstd::seq_lib::to_multiset_build(b@.subrange(0, j as int), b@[j as int]);
                assert(b@.subrange(0, j + 1).to_multiset() == b@.subrange(0, j as int).to_multiset().insert(b@[j as int]));
                assert(r@.to_multiset() =~= a@.subrange(0, i as int).to_multiset().add(
                    b@.subrange(0, j + 1).to_multiset()));
            }
            j = j + 1;
        }
    }
    proof {
        assert(a@.subrange(0, i as int) =~= a@);
        assert(b@.subrange(0, j as int) =~= b@);
    }
    r
}

/// Sorts `v[lo..hi]` into library order.
fn sort_range(v: &Vec<ResumeCursor>, lo: usize, hi: usize) -> (r: Vec<ResumeCursor>)
    requires
        lo <= hi <= v.len(),
    ensures
        is_library_order(r@),
        r@.to_multiset() == v@.subrange(lo as int, hi as int).to_multiset(),
    decreases hi - lo,
{
    broadcast use vstd::seq_lib::group_to_multiset_ensures;

    if hi - lo == 0 {
        proof {
            assert(v@.subrange(lo as int, hi as int) =~= Seq::<ResumeCursor>::empty());
        }
        Vec::new()
    } else if hi - lo == 1 {
        let mut r: Vec<ResumeCursor> = Vec::new();
        r.push(v[lo].duplicate());
        proof {
            assert(v@.subrange(lo as int, hi as int) =~= Seq::<ResumeCursor>::empty().push(v@[lo as int]));
            assert(r@ =~= Seq::<ResumeCursor>::empty().push(v@[lo as int]));
        }
        r
    } else {
        let mid = lo + (hi - lo) / 2;
        let left = sort_range(v, lo, mid);
        let right = sort_range(v, mid, hi);
        proof {
            assert(v@.subrange(lo as int, hi as int) =~= v@.subrange(lo as int, mid as int) + v@.subrange(
                mid as int,
                hi as int,
            ));
            vstd::seq_lib::lemma_multiset_commutative(
                v@.subrange(lo as int, mid as int),
                v@.subrange(mid as int, hi as int),
            );
        }
        merge(&left, &right)
    }
}

/// Puts library cursors in library order: oldest date added first, ties by id,
/// cursors without a date added last. The result holds the same cursors.
pub fn sort_library_order(tracks: &Vec<ResumeCursor>) -> (r: Vec<ResumeCursor>)
    ensures
        is_library_order(r@),
        r@.to_multiset() == tracks@.to_multiset(),
{
    proof {
        assert(tracks@.subrange(0, tracks@.len() as int) =~= tracks@);
    }
    sort_range(tracks, 0, tracks.len())
}

} // verus!

verus! {

/// Some cursor of `order` holds the id `id`.
pub open spec fn has_id(order: Seq<CursorModel>, id: Seq<char>) -> bool {
    exists|i: int| 0 <= i < order.len() && #[trigger] order[i].id == id
}

/// The position of the first cursor with id `id` (the length when there is none).
pub open spec fn index_of_id(order: Seq<CursorModel>, id: Seq<char>) -> nat
    decreases order.len(),
{
    if order.len() == 0 {
        0
    } else if order[0].id == id {
        0
    } else {
        1 + index_of_id(order.drop_first(), id)
    }
}

/// The position of the first cursor that comes after `after` in library
/// order (the length when there is none).
pub open spec fn index_after(order: Seq<CursorModel>, after: CursorModel) -> nat
    decreases order.len(),
{
    if order.len() == 0 {
        0
    } else if cursor_order(order[0], after) == 1 {
        0
    } else {
        1 + index_after(order.drop_first(), after)
    }
}

/// Where a sweep over `order` starts, given the last completed track:
/// from the start without one; right after that track when its id is in the
/// order; else, when it has a date added, at the first track after it in
/// library order; else from the start.
pub open spec fn resume_index(order: Seq<CursorModel>, after: Option<CursorModel>) -> nat {
    match after {
        None => 0,
        Some(a) => if has_id(order, a.id) {
            index_of_id(order, a.id) + 1
        } else if a.date_added is Some {
            index_after(order, a)
        } else {
            0
        },
    }
}

/// No two cursors of `order` share an id.
pub open spec fn ids_distinct(order: Seq<CursorModel>) -> bool {
    forall|i: int, j: int|
        0 <= i < order.len() && 0 <= j < order.len() && i != j ==> #[trigger] order[i].id
            != #[trigger] order[j].id
}

/// `index_of_id` is the first position holding the id.
pub proof fn lemma_index_of_id(order: Seq<CursorModel>, id: Seq<char>, k: int)
    requires
        0 <= k <= order.len(),
        forall|i: int| 0 <= i < k ==> #[trigger] order[i].id != id,
        k < order.len() ==> order[k].id == id,
    ensures
        index_of_id(order, id) == k,
    decreases order.len(),
{
    if order.len() > 0 && k > 0 {
        assert(order[0].id != id);
        assert forall|i: int| 0 <= i < k - 1 implies #[trigger] order.drop_first()[i].id != id by {
            assert(order.drop_first()[i] == order[i + 1]);
        }
        lemma_index_of_id(order.drop_first(), id, k - 1);
    }
}

/// `index_after` is the first position after `after`.
pub proof fn lemma_index_after(order: Seq<CursorModel>, after: CursorModel, k: int)
    requires
        0 <= k <= order.len(),
        forall|i: int| 0 <= i < k ==> cursor_order(#[trigger] order[i], after) != 1,
        k < order.len() ==> cursor_order(order[k], after) == 1,
    ensures
        index_after(order, after) == k,
    decreases order.len(),
{
    if order.len() > 0 && k > 0 {
        assert(cursor_order(order[0], after) != 1);
        assert forall|i: int| 0 <= i < k - 1 implies cursor_order(
            #[trigger] order.drop_first()[i],
            after,
        ) != 1 by {
            assert(order.drop_first()[i] == order[i + 1]);
        }
        lemma_index_after(order.drop_first(), after, k - 1);
    }
}

/// Why a sweep does not resume right after the saved track.
pub enum ResumeWarning {
    /// The saved track is gone; the sweep resumes after its date added.
    ResumingAfterDate,
    /// The saved track is gone and has no date added; the sweep starts over.
    StartingFromOldest,
}

impl ResumeWarning {
    /// The warning as the tool prints it.
    pub fn message(&self) -> (s: &'static str)
        ensures
            self is ResumingAfterDate ==> s@
                == "Warning: progress track id not in library; resuming after saved date added."@,
            self is StartingFromOldest ==> s@
                == "Warning: progress track id not in library and no date added saved; starting from oldest remaining."@,
    {
        match self {
            ResumeWarning::ResumingAfterDate => "Warning: progress track id not in library; resuming after saved date added.",
            ResumeWarning::StartingFromOldest => "Warning: progress track id not in library and no date added saved; starting from oldest remaining.",
        }
    }
}

/// An optional cursor, as texts.
pub open spec fn opt_model(c: Option<&ResumeCursor>) -> Option<CursorModel> {
    match c {
        Some(c) => Some(c@),
        None => None,
    }
}

/// The position of the first cursor of `order` whose id is `id`.
fn find_id(order: &[ResumeCursor], id: &String) -> (r: Option<usize>)
    ensures
        match r {
            Some(k) => has_id(models(order@), id@) && k == index_of_id(models(order@), id@) && k
                < order.len(),
            None => !has_id(models(order@), id@),
        },
{
    let ghost m = models(order@);
    let mut i: usize = 0;
    while i < order.len()
        invariant
            i <= order@.len(),
            m == models(order@),
            forall|k: int| 0 <= k < i ==> #[trigger] m[k].id != id@,
        decreases order.len() - i,
    {
        if order[i].id == *id {
            proof {
                assert(m[i as int].id == id@);
                lemma_index_of_id(m, id@, i as int);
            }
            return Some(i);
        }
        i = i + 1;
    }
    None
}

/// Index of the first track to process after an optional progress cursor.
pub fn resume_start_index(order: &[ResumeCursor], after: Option<&ResumeCursor>) -> (r: usize)
    ensures
        r == resume_index(models(order@), opt_model(after)),
        r <= order@.len(),
{
    let ghost m = models(order@);
    match after {
        None => 0,
        Some(a) => {
            match find_id(order, &a.id) {
                Some(k) => k + 1,
                None => {
                    if a.date_added.is_some() {
                        let mut j: usize = 0;
                        while j < order.len()
                            invariant
                                j <= order@.len(),
                                m == models(order@),
                                !has_id(m, a@.id),
                                a.date_added is Some,
                                after == Some(a),
                                forall|k: int| 0 <= k < j ==> cursor_order(#[trigger] m[k], a@) != 1,
                            decreases order.len() - j,
                        {
                            proof {
                                assert(m[j as int] == order@[j as int]@);
                            }
                            if crate::cursor_ordering::comes_after(&order[j], a) {
                                proof {
                                    lemma_index_after(m, a@, j as int);
                                }
                                return j;
                            }
                            j = j + 1;
                        }
                        proof {
                            lemma_index_after(m, a@, j as int);
                        }
                        j
                    } else {
                        0
                    }
                },
            }
        },
    }
}

/// The warning to print before resuming, if any: a sweep that resumes right
/// after the saved track, or starts without one, warns of nothing.
pub fn resume_warning(order: &[ResumeCursor], after: Option<&ResumeCursor>) -> (w: Option<
    ResumeWarning,
>)
    ensures
        match after {
            None => w is None,
            Some(a) => if has_id(models(order@), a@.id) {
                w is None
            } else if a.date_added is Some {
                w == Some(ResumeWarning::ResumingAfterDate)
            } else {
                w == Some(ResumeWarning::StartingFromOldest)
            },
        },
{
    match after {
        None => None,
        Some(a) => match find_id(order, &a.id) {
            Some(_) => None,
            None => if a.date_added.is_some() {
                Some(ResumeWarning::ResumingAfterDate)
            } else {
                Some(ResumeWarning::StartingFromOldest)
            },
        },
    }
}

/// With distinct ids, a sweep resumed after a saved track whose id is that
/// of the track at position `p` starts at position `p + 1`: the next run
/// continues right after the saved track.
pub proof fn lemma_resume_continues_after(order: Seq<CursorModel>, p: int, saved: CursorModel)
    requires
        ids_distinct(order),
        0 <= p < order.len(),
        saved.id == order[p].id,
    ensures
        resume_index(order, Some(saved)) == p + 1,
{
    assert(has_id(order, order[p].id));
    lemma_index_of_id(order, order[p].id, p);
}

/// When the saved track is gone but its date added is known, and the order
/// is in library order, the sweep resumes exactly at the first track after
/// it: every track before that point comes no later than the saved one, and
/// every track from that point on comes after it.
pub proof fn lemma_resume_by_date(order: Seq<ResumeCursor>, after: CursorModel)
    requires
        is_library_order(order),
        after.date_added is Some,
        !has_id(models(order), after.id),
    ensures
        resume_index(models(order), Some(after)) <= order.len(),
        forall|i: int|
            0 <= i < resume_index(models(order), Some(after)) ==> cursor_le(
                #[trigger] order[i]@,
                after,
            ),
        forall|i: int|
            resume_index(models(order), Some(after)) <= i < order.len() ==> cursor_order(
                #[trigger] order[i]@,
                after,
            ) == 1,
{
    let m = models(order);
    let r = resume_index(m, Some(after));
    lemma_index_after_bounds(m, after);
    assert forall|i: int| 0 <= i < r implies cursor_le(#[trigger] order[i]@, after) by {
        lemma_before_index_after(m, after, i);
        lemma_cursor_order_antisymmetric(m[i], after);
        assert(m[i] == order[i]@);
    }
    assert forall|i: int| r <= i < order.len() implies cursor_order(#[trigger] order[i]@, after)
        == 1 by {
        assert(m[r as int] == order[r as int]@);
        assert(m[i] == order[i]@);
        if i > r {
            assert(cursor_le(order[r as int]@, order[i]@));
            lemma_cursor_order_antisymmetric(order[r as int]@, after);
            lemma_cursor_order_antisymmetric(order[i]@, after);
            lemma_cursor_order_antisymmetric(order[r as int]@, order[i]@);
            if cursor_order(order[i]@, after) != 1 {
                lemma_cursor_order_transitive(after, order[r as int]@, order[i]@);
            }
        }
    }
}

/// `index_after` is a position of `order` or its end, and the cursor there
/// comes after `after`.
proof fn lemma_index_after_bounds(order: Seq<CursorModel>, after: CursorModel)
    ensures
        index_after(order, after) <= order.len(),
        index_after(order, after) < order.len() ==> cursor_order(
            order[index_after(order, after) as int],
            after,
        ) == 1,
    decreases order.len(),
{
    if order.len() > 0 && cursor_order(order[0], after) != 1 {
        lemma_index_after_bounds(order.drop_first(), after);
    }
}

/// Every cursor before `index_after` comes no later than `after`.
proof fn lemma_before_index_after(order: Seq<CursorModel>, after: CursorModel, i: int)
    requires
        0 <= i < index_after(order, after),
    ensures
        cursor_order(order[i], after) != 1,
    decreases order.len(),
{
    lemma_index_after_bounds(order, after);
    if i > 0 {
        lemma_before_index_after(order.drop_first(), after, i - 1);
        assert(order.drop_first()[i - 1] == order[i]);
    }
}

} // verus!
