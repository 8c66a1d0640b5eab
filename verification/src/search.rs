//! The scan for the note of a scale that lies nearest to a target pitch.
//!
//! A scale gives each note, from note 0 upwards, a pitch that rises from
//! one note to the next. The scan goes up the notes and stops at the first
//! one that lies no nearer to the target than the note before it: the note
//! before it is the nearest of the whole scale
//! ([`lemma_first_rise_is_nearest`]). Of two notes that lie equally near,
//! the lower one is found.
//!
//! Pitches are not this module's business. The caller measures how far each
//! note lies from the target, in a unit of its choice, as a number that is
//! larger exactly where the note lies farther, and hands the distances in
//! one by one. The scan decides when to stop and which note it found.
use vstd::prelude::*;

verus! {

/// Where a scan stands: `note` is the note to measure next, so that many
/// notes have been measured, and `last` is the distance of the note before
/// it (of no meaning while `note` is 0).
#[derive(Clone, Copy, Debug, PartialEq, Eq, Structural)]
pub struct NoteSearch {
    pub note: u64,
    pub last: u64,
}

impl NoteSearch {
    /// The scan ends when the note to measure lies no nearer than the one
    /// before it. An equal distance ends it too.
    pub open spec fn ends_with(self, distance: u64) -> bool {
        self.note > 0 && self.last <= distance
    }

    /// The scan after `distance` was handed in for its note, where that did
    /// not end it.
    pub open spec fn advanced(self, distance: u64) -> NoteSearch {
        NoteSearch { note: (self.note + 1) as u64, last: distance }
    }

    /// A scan that has measured nothing yet.
    pub fn new() -> (scan: Self)
        ensures
            scan == (NoteSearch { note: 0, last: 0 }),
    {
        Self { note: 0, last: 0 }
    }

    /// Takes the distance of the note `self.note`. Where that ends the scan,
    /// returns the nearest note, the one before, and leaves the scan as it
    /// is; else returns `None` and moves on to the next note.
    pub fn offer(&mut self, distance: u64) -> (found: Option<u64>)
        requires
            old(self).note < u64::MAX,
        ensures
            old(self).ends_with(distance) ==> found == Some((old(self).note - 1) as u64)
                && *final(self) == *old(self),
            !old(self).ends_with(distance) ==> found is None && *final(self) == old(
                self,
            ).advanced(distance),
    {
        if self.note > 0 && self.last <= distance {
            Some(self.note - 1)
        } else {
            self.note = self.note + 1;
            self.last = distance;
            None
        }
    }

    /// The number under which a note is reported: its place counted from 0,
    /// or from 1 where `scale_start_0` is false.
    pub fn number(note: u64, scale_start_0: bool) -> (n: u64)
        requires
            note < u64::MAX,
        ensures
            n == if scale_start_0 {
                note as int
            } else {
                note + 1
            },
    {
        if scale_start_0 {
            note
        } else {
            note + 1
        }
    }
}

/// At note `k` the distances stop falling: it lies no nearer than the note
/// before.
pub open spec fn rises_at(distances: Seq<u64>, k: int) -> bool {
    0 < k < distances.len() && distances[k - 1] <= distances[k]
}

/// Note `k` is the first at which the distances stop falling.
pub open spec fn first_rise(distances: Seq<u64>, k: int) -> bool {
    rises_at(distances, k) && forall|j: int| 0 < j < k ==> !rises_at(distances, j)
}

/// Scans a list that holds the distance of note 0, of note 1 and so on,
/// and returns the note before the first one that lies no nearer than the
/// note before it; `None` where the distances fall to the end, so that the
/// list ends before a nearest note is known.
pub fn nearest_in(distances: &Vec<u64>) -> (found: Option<u64>)
    ensures
        match found {
            Some(note) => first_rise(distances@, note + 1),
            None => forall|j: int| 0 < j < distances.len() ==> !rises_at(distances@, j),
        },
{
    let mut scan = NoteSearch::new();
    let mut i: usize = 0;
    while i < distances.len()
        invariant
            i <= distances.len(),
            scan.note == i,
            i > 0 ==> scan.last == distances[i - 1],
            forall|j: int| 0 < j < i ==> !rises_at(distances@, j),
        decreases distances.len() - i,
    {
        match scan.offer(distances[i]) {
            Some(note) => {
                return Some(note);
            },
            None => {
                i = i + 1;
            },
        }
    }
    None
}

/// How far a pitch lies from the target.
pub open spec fn distance(pitch: int, target: int) -> int {
    if pitch < target {
        target - pitch
    } else {
        pitch - target
    }
}

/// The pitch rises from each note to the next: no step of the scale has
/// size 0.
pub open spec fn rises(pitches: Seq<int>) -> bool {
    forall|i: int, j: int| 0 <= i < j < pitches.len() ==> pitches[i] < pitches[j]
}

/// `distances` holds for each note how far its pitch lies from the target.
pub open spec fn measures(distances: Seq<u64>, pitches: Seq<int>, target: int) -> bool {
    &&& distances.len() == pitches.len()
    &&& forall|i: int|
        0 <= i < pitches.len() ==> #[trigger] distances[i] == distance(pitches[i], target)
}

/// In a scale whose pitch rises from note to note, the note before the
/// first one at which the distances stop falling is the nearest of all: no
/// note of the scale lies nearer to the target.
pub proof fn lemma_first_rise_is_nearest(
    pitches: Seq<int>,
    target: int,
    distances: Seq<u64>,
    k: int,
)
    requires
        rises(pitches),
        measures(distances, pitches, target),
        first_rise(distances, k),
    ensures
        forall|j: int| 0 <= j < distances.len() ==> distances[k - 1] <= #[trigger] distances[j],
{
    assert forall|j: int| 0 <= j < distances.len() implies distances[k - 1]
        <= #[trigger] distances[j] by {
        if j < k {
            lemma_falling_run(distances, j, k - 1);
        } else {
            // The pitch of note `k` does not lie below the target, and so
            // none of the later ones does.
            assert(pitches[k - 1] < pitches[k]);
            assert(j > k ==> pitches[k] < pitches[j]);
            assert(distances[k - 1] == distance(pitches[k - 1], target));
            assert(distances[k] == distance(pitches[k], target));
        }
    }
}

/// Along notes at which the distances fall, a later note is no farther
/// than an earlier one.
proof fn lemma_falling_run(distances: Seq<u64>, from: int, to: int)
    requires
        0 <= from <= to < distances.len(),
        forall|j: int| 0 < j <= to ==> !rises_at(distances, j),
    ensures
        distances[to] <= distances[from],
    decreases to - from,
{
    if from < to {
        lemma_falling_run(distances, from, to - 1);
        assert(!rises_at(distances, to));
    }
}

} // verus!
