//! Disliked tracks waiting to be deleted from the library.

use vstd::prelude::*;

use crate::provider::TrackInfo;

verus! {

/// A disliked track, as the pending-delete list keeps it.
#[derive(Debug, Clone, PartialEq, Eq)]
pub struct DislikedTrack {
    pub id: String,
    pub name: String,
    pub artist: String,
}

/// The entry the list keeps for a track.
pub open spec fn disliked_entry(track: TrackInfo) -> DislikedTrack {
    DislikedTrack { id: track.id, name: track.name, artist: track.artist }
}

impl DislikedTrack {
    /// The entry for a track: its id, name and artist.
    pub fn from_track(track: &TrackInfo) -> (t: Self)
        ensures
            t == disliked_entry(*track),
    {
        DislikedTrack { id: track.id.clone(), name: track.name.clone(), artist: track.artist.clone() }
    }

    /// A copy of this entry.
    pub fn duplicate(&self) -> (t: Self)
        ensures
            t == *self,
    {
        DislikedTrack { id: self.id.clone(), name: self.name.clone(), artist: self.artist.clone() }
    }
}

/// The file that keeps the list, relative to the working directory.
pub fn disliked_path() -> (p: String)
    ensures
        p@ == "disliked.json"@,
{
    String::from_str("disliked.json")
}

/// Entries whose id is not `id`.
pub open spec fn id_is_not(id: Seq<char>) -> spec_fn(DislikedTrack) -> bool {
    |t: DislikedTrack| t.id@ != id
}

/// Entries whose id is none of `ids`.
pub open spec fn id_not_in(ids: Seq<String>) -> spec_fn(DislikedTrack) -> bool {
    |t: DislikedTrack| !(exists|k: int| 0 <= k < ids.len() && #[trigger] ids[k]@ == t.id@)
}

/// The ids of a sequence of entries.
pub open spec fn entry_ids(s: Seq<DislikedTrack>) -> Seq<String> {
    s.map_values(|t: DislikedTrack| t.id)
}

/// The number of entries with id `id`.
pub open spec fn count_id(s: Seq<DislikedTrack>, id: Seq<char>) -> nat
    decreases s.len(),
{
    if s.len() == 0 {
        0
    } else {
        count_id(s.drop_last(), id) + if s.last().id@ == id {
            1nat
        } else {
            0nat
        }
    }
}

/// The tracks disliked so far and not yet deleted, in the order they were
/// disliked, with the file that keeps them.
pub struct DislikedSet {
    path: String,
    tracks: Vec<DislikedTrack>,
}

impl View for DislikedSet {
    type V = Seq<DislikedTrack>;

    closed spec fn view(&self) -> Seq<DislikedTrack> {
        self.tracks@
    }
}

impl DislikedSet {
    /// The file that keeps the list.
    pub closed spec fn file(&self) -> Seq<char> {
        self.path@
    }

    /// The list kept in `path`, from what was read there: the entries read,
    /// or none when the file does not exist.
    pub fn from_loaded(path: String, loaded: Option<Vec<DislikedTrack>>) -> (s: Self)
        ensures
            s.file() == path@,
            s@ == match loaded {
                Some(v) => v@,
                None => Seq::empty(),
            },
    {
        let tracks = match loaded {
            Some(v) => v,
            None => Vec::new(),
        };
        DislikedSet { path, tracks }
    }

    /// The file that keeps the list.
    pub fn path(&self) -> (p: &String)
        ensures
            p@ == self.file(),
    {
        &self.path
    }

    /// No track is pending.
    pub fn is_empty(&self) -> (b: bool)
        ensures
            b == (self@.len() == 0),
    {
        self.tracks.len() == 0
    }

    /// The number of pending tracks.
    pub fn len(&self) -> (n: usize)
        ensures
            n == self@.len(),
    {
        self.tracks.len()
    }

    /// The pending tracks, in the order they were disliked.
    pub fn tracks(&self) -> (t: &[DislikedTrack])
        ensures
            t@ == self@,
    {
        self.tracks.as_slice()
    }

    /// The ids of the pending tracks, in order.
    pub fn ids(&self) -> (ids: Vec<String>)
        ensures
            ids@ == entry_ids(self@),
    {
        let mut ids: Vec<String> = Vec::new();
        let mut i: usize = 0;
        while i < self.tracks.len()
            invariant
                i <= self.tracks@.len(),
                ids@ == entry_ids(self.tracks@.take(i as int)),
            decreases self.tracks.len() - i,
        {
            ids.push(self.tracks[i].id.clone());
            proof {
                assert(entry_ids(self.tracks@.take(i + 1)) =~= entry_ids(self.tracks@.take(i as int)).push(
                    self.tracks@[i as int].id,
                ));
            }
            i = i + 1;
        }
        proof {
            assert(self.tracks@.take(i as int) =~= self.tracks@);
        }
        ids
    }

    /// Adds a disliked track at the end of the list, dropping any earlier entry
    /// with the same id. The list must then be saved.
    pub fn add(&mut self, track: &TrackInfo)
        ensures
            final(self).file() == old(self).file(),
            final(self)@ == old(self)@.filter(id_is_not(track.id@)).push(disliked_entry(*track)),
    {
        let kept = retain_other_ids(&self.tracks, track.id.as_str());
        self.tracks = kept;
        self.tracks.push(DislikedTrack::from_track(track));
    }

    /// Drops the entries with id `id`; says whether any was dropped, in which
    /// case the list must be saved.
    pub fn remove_id(&mut self, id: &str) -> (changed: bool)
        ensures
            final(self).file() == old(self).file(),
            final(self)@ == old(self)@.filter(id_is_not(id@)),
            changed == (final(self)@.len() != old(self)@.len()),
    {
        let kept = retain_other_ids(&self.tracks, id);
        let changed = kept.len() != self.tracks.len();
        self.tracks = kept;
        changed
    }

    /// Drops the entries whose id is one of `ids`; says whether any was
    /// dropped, in which case the list must be saved.
    pub fn remove_ids(&mut self, ids: &[String]) -> (changed: bool)
        ensures
            final(self).file() == old(self).file(),
            final(self)@ == old(self)@.filter(id_not_in(ids@)),
            changed == (final(self)@.len() != old(self)@.len()),
    {
        if ids.len() == 0 {
            proof {
                lemma_filter_none_in_empty(self.tracks@, ids@);
            }
            return false;
        }
        let mut kept: Vec<DislikedTrack> = Vec::new();
        let mut i: usize = 0;
        while i < self.tracks.len()
            invariant
                i <= self.tracks@.len(),
                kept@ == self.tracks@.take(i as int).filter(id_not_in(ids@)),
            decreases self.tracks.len() - i,
        {
            let listed = contains_id(ids, &self.tracks[i].id);
            proof {
                reveal_with_fuel(Seq::<_>::filter, 1);
                assert(self.tracks@.take(i + 1).drop_last() =~= self.tracks@.take(i as int));
            }
            if !listed {
                kept.push(self.tracks[i].duplicate());
            }
            i = i + 1;
        }
        proof {
            assert(self.tracks@.take(i as int) =~= self.tracks@);
        }
        let changed = kept.len() != self.tracks.len();
        self.tracks = kept;
        changed
    }
}

/// With no ids to drop, the list stays as it is.
proof fn lemma_filter_none_in_empty(s: Seq<DislikedTrack>, ids: Seq<String>)
    requires
        ids.len() == 0,
    ensures
        s.filter(id_not_in(ids)) == s,
    decreases s.len(),
{
    reveal_with_fuel(Seq::<_>::filter, 1);
    if s.len() > 0 {
        lemma_filter_none_in_empty(s.drop_last(), ids);
        assert(s.drop_last().push(s.last()) =~= s);
    }
}

/// Whether `id` is one of `ids`.
fn contains_id(ids: &[String], id: &String) -> (b: bool)
    ensures
        b == exists|k: int| 0 <= k < ids@.len() && #[trigger] ids@[k]@ == id@,
{
    let mut i: usize = 0;
    while i < ids.len()
        invariant
            i <= ids@.len(),
            forall|k: int| 0 <= k < i ==> #[trigger] ids@[k]@ != id@,
        decreases ids.len() - i,
    {
        if ids[i] == *id {
            return true;
        }
        i = i + 1;
    }
    false
}

/// Copies of the entries whose id is not `id`, in order.
fn retain_other_ids(tracks: &Vec<DislikedTrack>, id: &str) -> (kept: Vec<DislikedTrack>)
    ensures
        kept@ == tracks@.filter(id_is_not(id@)),
{
    let id = String::from_str(id);
    let mut kept: Vec<DislikedTrack> = Vec::new();
    let mut i: usize = 0;
    while i < tracks.len()
        invariant
            i <= tracks@.len(),
            kept@ == tracks@.take(i as int).filter(id_is_not(id@)),
        decreases tracks.len() - i,
    {
        proof {
            reveal_with_fuel(Seq::<_>::filter, 1);
            assert(tracks@.take(i + 1).drop_last() =~= tracks@.take(i as int));
        }
        if tracks[i].id != id {
            kept.push(tracks[i].duplicate());
        }
        i = i + 1;
    }
    proof {
        assert(tracks@.take(i as int) =~= tracks@);
    }
    kept
}

/// After `add`, the list holds exactly one entry with the track's id, the
/// last one, and as many entries with any other id as before.
pub proof fn lemma_add_keeps_one(old_list: Seq<DislikedTrack>, track: TrackInfo, other: Seq<char>)
    requires
        other != track.id@,
    ensures
        ({
            let new_list = old_list.filter(id_is_not(track.id@)).push(disliked_entry(track));
            &&& count_id(new_list, track.id@) == 1
            &&& new_list.last().id@ == track.id@
            &&& count_id(new_list, other) == count_id(old_list, other)
        }),
{
    lemma_count_filtered(old_list, track.id@, other);
    let kept = old_list.filter(id_is_not(track.id@));
    assert(kept.push(disliked_entry(track)).drop_last() =~= kept);
}

/// Filtering out one id leaves no entry with it and every other id's count.
proof fn lemma_count_filtered(s: Seq<DislikedTrack>, id: Seq<char>, other: Seq<char>)
    requires
        other != id,
    ensures
        count_id(s.filter(id_is_not(id)), id) == 0,
        count_id(s.filter(id_is_not(id)), other) == count_id(s, other),
    decreases s.len(),
{
    reveal_with_fuel(Seq::<_>::filter, 1);
    if s.len() > 0 {
        lemma_count_filtered(s.drop_last(), id, other);
        let sub = s.drop_last().filter(id_is_not(id));
        if s.last().id@ != id {
            assert(sub.push(s.last()).drop_last() =~= sub);
        }
    }
}

/// After `remove_id`, no entry with that id is left.
pub proof fn lemma_removed_id_gone(old_list: Seq<DislikedTrack>, id: Seq<char>)
    ensures
        forall|i: int|
            0 <= i < old_list.filter(id_is_not(id)).len() ==> #[trigger] old_list.filter(
                id_is_not(id),
            )[i].id@ != id,
{
    broadcast use vstd::seq_lib::group_filter_ensures;


}

} // verus!

verus! {

/// No two entries share an id.
pub open spec fn entry_ids_distinct(s: Seq<DislikedTrack>) -> bool {
    forall|i: int, j: int|
        0 <= i < s.len() && 0 <= j < s.len() && i != j ==> #[trigger] s[i].id@ != #[trigger] s[j].id@
}

/// Keeping some of the entries keeps their ids distinct.
proof fn lemma_filter_keeps_ids_distinct(s: Seq<DislikedTrack>, p: spec_fn(DislikedTrack) -> bool)
    requires
        entry_ids_distinct(s),
    ensures
        entry_ids_distinct(s.filter(p)),
    decreases s.len(),
{
    broadcast use vstd::seq_lib::group_filter_ensures;

    reveal_with_fuel(Seq::<_>::filter, 1);
    if s.len() > 0 {
        let rest = s.drop_last();
        assert(entry_ids_distinct(rest)) by {
            assert forall|i: int, j: int|
                0 <= i < rest.len() && 0 <= j < rest.len() && i != j implies #[trigger] rest[i].id@
                != #[trigger] rest[j].id@ by {
                assert(rest[i] == s[i] && rest[j] == s[j]);
            }
        }
        lemma_filter_keeps_ids_distinct(rest, p);
        let sub = rest.filter(p);
        if p(s.last()) {
            let f = sub.push(s.last());
            assert forall|i: int, j: int|
                0 <= i < f.len() && 0 <= j < f.len() && i != j implies #[trigger] f[i].id@
                != #[trigger] f[j].id@ by {
                if i < sub.len() && j < sub.len() {
                } else {
                    let k = if i < sub.len() {
                        i
                    } else {
                        j
                    };
                    assert(sub.contains(sub[k]));
                    rest.lemma_filter_contains_rev(p, sub[k]);
                    let m = choose|m: int| 0 <= m < rest.len() && rest[m] == sub[k];
                    assert(s[m] == rest[m]);
                    assert(s[s.len() - 1] == s.last());
                }
            }
        }
    }
}

/// The pending-delete list never holds an id twice: adding a track, and
/// dropping entries by id or by a list of ids, keep the ids distinct.
pub proof fn lemma_pending_ids_stay_distinct(
    s: Seq<DislikedTrack>,
    track: TrackInfo,
    id: Seq<char>,
    ids: Seq<String>,
)
    requires
        entry_ids_distinct(s),
    ensures
        entry_ids_distinct(s.filter(id_is_not(track.id@)).push(disliked_entry(track))),
        entry_ids_distinct(s.filter(id_is_not(id))),
        entry_ids_distinct(s.filter(id_not_in(ids))),
{
    broadcast use vstd::seq_lib::group_filter_ensures;

    lemma_filter_keeps_ids_distinct(s, id_is_not(track.id@));
    lemma_filter_keeps_ids_distinct(s, id_is_not(id));
    lemma_filter_keeps_ids_distinct(s, id_not_in(ids));
    let kept = s.filter(id_is_not(track.id@));
    let f = kept.push(disliked_entry(track));
    assert forall|i: int, j: int|
        0 <= i < f.len() && 0 <= j < f.len() && i != j implies #[trigger] f[i].id@
        != #[trigger] f[j].id@ by {
        if i < kept.len() && j < kept.len() {
        } else if i < kept.len() {
            assert(id_is_not(track.id@)(kept[i]));
        } else {
            assert(id_is_not(track.id@)(kept[j]));
        }
    }
}

} // verus!

verus! {

/// Dropping entries by id keeps exactly the others: no kept entry has the
/// dropped id (or one of the dropped ids), and every entry with another id
/// is kept.
pub proof fn lemma_removal_keeps_exactly_others(s: Seq<DislikedTrack>, id: Seq<char>, ids: Seq<String>)
    ensures
        forall|i: int|
            0 <= i < s.filter(id_is_not(id)).len() ==> (#[trigger] s.filter(id_is_not(id))[i]).id@
                != id,
        forall|i: int| 0 <= i < s.len() && s[i].id@ != id ==> s.filter(id_is_not(id)).contains(s[i]),
        forall|i: int|
            0 <= i < s.filter(id_not_in(ids)).len() ==> forall|k: int|
                0 <= k < ids.len() ==> ids[k]@ != (#[trigger] s.filter(id_not_in(ids))[i]).id@,
        forall|i: int|
            0 <= i < s.len() && (forall|k: int| 0 <= k < ids.len() ==> ids[k]@ != s[i].id@)
                ==> s.filter(id_not_in(ids)).contains(s[i]),
{
    broadcast use vstd::seq_lib::group_filter_ensures;

    assert forall|i: int| 0 <= i < s.len() && s[i].id@ != id implies s.filter(id_is_not(id)).contains(
        s[i],
    ) by {
        assert(id_is_not(id)(s[i]));
    }
    assert forall|i: int|
        0 <= i < s.len() && (forall|k: int| 0 <= k < ids.len() ==> ids[k]@ != s[i].id@)
            implies s.filter(id_not_in(ids)).contains(s[i]) by {
        assert(id_not_in(ids)(s[i]));
    }
    assert forall|i: int|
        0 <= i < s.filter(id_not_in(ids)).len() implies forall|k: int|
        0 <= k < ids.len() ==> ids[k]@ != (#[trigger] s.filter(id_not_in(ids))[i]).id@ by {
        assert(id_not_in(ids)(s.filter(id_not_in(ids))[i]));
    }
}

} // verus!
