use vstd::prelude::*;

use crate::model::{is_uuid_v4_text, Track};
use crate::repository::{active_last, RepoError, TrackRepository};

verus! {

/// No track but the last one is active: at most one is.
pub open spec fn only_last_active(h: Seq<Track>) -> bool {
    forall|i: int| 0 <= i < h.len() - 1 ==> !(#[trigger] h[i]).is_active()
}

/// `after` is `before` after stopping its last track where that one was active.
pub open spec fn stopped_last(before: Seq<Track>, after: Seq<Track>) -> bool {
    &&& after.len() == before.len()
    &&& forall|i: int| 0 <= i < before.len() - 1 ==> after[i] == before[i]
    &&& before.len() > 0 ==> if before.last().is_active() {
        &&& after.last().same_but_end(&before.last())
        &&& after.last().id == before.last().id
        &&& after.last().name == before.last().name
        &&& after.last().project == before.last().project
        &&& after.last().workspace == before.last().workspace
        &&& !after.last().is_active()
    } else {
        after.last() == before.last()
    }
}

/// `after` is `before` after stopping its last track and appending an active one.
pub open spec fn started(before: Seq<Track>, after: Seq<Track>) -> bool {
    &&& after.len() == before.len() + 1
    &&& stopped_last(before, after.drop_last())
    &&& after.last().is_active()
}

/// Stopping the current track twice leaves the history as stopping it once.
pub proof fn lemma_stop_idempotent(h0: Seq<Track>, h1: Seq<Track>, h2: Seq<Track>)
    requires
        stopped_last(h0, h1),
        stopped_last(h1, h2),
    ensures
        h2 == h1,
{
    if h1.len() > 0 {
        assert(h2[h2.len() - 1] == h1[h1.len() - 1]);
    }
    assert(h2 =~= h1);
}

/// After two starts in a row, the track of the first is stopped and the
/// track of the second is active.
pub proof fn lemma_start_stops_previous(h0: Seq<Track>, h1: Seq<Track>, h2: Seq<Track>)
    requires
        started(h0, h1),
        started(h1, h2),
    ensures
        h2.len() == h0.len() + 2,
        !h2[h0.len() as int].is_active(),
        h2[h0.len() as int + 1].is_active(),
        h2[h0.len() as int].same_but_end(&h1[h0.len() as int]),
{
    assert(h2.drop_last()[h0.len() as int] == h2[h0.len() as int]);
}

/// From an empty history, a start, a stop and a start leave two tracks: the
/// first stopped, the second active.
pub proof fn lemma_start_stop_start(h0: Seq<Track>, h1: Seq<Track>, h2: Seq<Track>, h3: Seq<Track>)
    requires
        h0.len() == 0,
        started(h0, h1),
        stopped_last(h1, h2),
        started(h2, h3),
    ensures
        h3.len() == 2,
        !h3[0].is_active(),
        h3[1].is_active(),
        h3[0].same_but_end(&h1[0]),
{
    assert(h3.drop_last()[0] == h3[0]);
}

/// Whether each step of a run of histories is a start, a stop, or leaves the
/// history as it was.
pub open spec fn lifecycle_run(hs: Seq<Seq<Track>>) -> bool {
    forall|k: int| 0 <= k < hs.len() - 1 ==> {
        ||| started(#[trigger] hs[k], hs[k + 1])
        ||| stopped_last(hs[k], hs[k + 1])
        ||| hs[k + 1] == hs[k]
    }
}

/// The number of steps of a run that are starts.
pub open spec fn starts_in(hs: Seq<Seq<Track>>) -> nat
    decreases hs.len(),
{
    if hs.len() < 2 {
        0
    } else {
        starts_in(hs.drop_last()) + if started(hs[hs.len() - 2], hs.last()) {
            1nat
        } else {
            0nat
        }
    }
}

/// Along a run of starts and stops, the history grows by one per start and
/// by nothing else: from an empty store, its length is the number of starts.
pub proof fn lemma_length_counts_starts(hs: Seq<Seq<Track>>)
    requires
        hs.len() > 0,
        lifecycle_run(hs),
    ensures
        hs.last().len() == hs[0].len() + starts_in(hs),
    decreases hs.len(),
{
    if hs.len() >= 2 {
        let prefix = hs.drop_last();
        assert forall|k: int| 0 <= k < prefix.len() - 1 implies {
            ||| started(#[trigger] prefix[k], prefix[k + 1])
            ||| stopped_last(prefix[k], prefix[k + 1])
            ||| prefix[k + 1] == prefix[k]
        } by {
            assert(prefix[k] == hs[k] && prefix[k + 1] == hs[k + 1]);
        }
        lemma_length_counts_starts(prefix);
        let k = hs.len() - 2;
        assert(started(hs[k], hs[k + 1]) || stopped_last(hs[k], hs[k + 1]) || hs[k + 1] == hs[k]);
    }
}

/// The lifecycle of tracks: the history in memory, rebuilt from a store at
/// start, and at most one active track going forward.
pub struct TrackService<R: TrackRepository> {
    repository: R,
    tracks: Vec<Track>,
    current_track_index: Option<usize>,
}

impl<R: TrackRepository> TrackService<R> {
    /// The tracks in the order they were loaded and started.
    pub closed spec fn history(&self) -> Seq<Track> {
        self.tracks@
    }

    /// The current track is the last one of the history, if there is one.
    pub closed spec fn wf(&self) -> bool {
        match self.current_track_index {
            None => self.tracks@.len() == 0,
            Some(i) => i + 1 == self.tracks@.len(),
        }
    }

    /// A service over the tracks that the store holds, stopped ones first;
    /// an empty history where the store cannot be read.
    pub fn create(repository: R) -> (r: TrackService<R>)
        ensures
            r.wf(),
            active_last(r.history()),
    {
        let loaded = repository.find_all();
        Self::from_loaded(repository, loaded)
    }

    /// A service whose history is what the store gave, or empty where the
    /// store could not be read; its last track is current.
    pub fn from_loaded(repository: R, loaded: Result<Vec<Track>, RepoError>) -> (r: TrackService<R>)
        requires
            loaded matches Ok(v) ==> active_last(v@),
        ensures
            r.wf(),
            active_last(r.history()),
            r.history() == (match loaded {
                Ok(v) => v@,
                Err(_) => Seq::<Track>::empty(),
            }),
    {
        let tracks = match loaded {
            Ok(tracks) => tracks,
            Err(_) => Vec::new(),
        };
        let current_track_index = if tracks.len() == 0 {
            None
        } else {
            Some(tracks.len() - 1)
        };
        TrackService { repository, tracks, current_track_index }
    }

    /// Stops the current track where it is active, and saves it. Where there
    /// is no active current track nothing changes and the call succeeds.
    pub fn stop_current_track(&mut self) -> (r: Result<(), RepoError>)
        requires
            old(self).wf(),
        ensures
            final(self).wf(),
            r is Ok ==> stopped_last(old(self).history(), final(self).history()),
            r is Err ==> final(self).history() == old(self).history(),
            old(self).history().len() == 0 || !old(self).history().last().is_active()
                ==> r is Ok && final(self).history() == old(self).history(),
            only_last_active(old(self).history()) ==> only_last_active(final(self).history()),
    {
        let ghost h = self.tracks@;
        match self.current_track_index {
            Some(i) => {
                assert(i as int == h.len() - 1);
                if self.tracks[i].is_tracking() {
                    let mut track = self.tracks[i].duplicate();
                    track.stop_track();
                    match self.repository.save(&track) {
                        Ok(()) => {},
                        Err(e) => return Err(e),
                    }
                    self.tracks.set(i, track);
                    assert(self.tracks@ == h.update(i as int, track));
                    assert(self.tracks@.last() == track);
                } else {
                    assert(self.tracks@ == h);
                }
                Ok(())
            },
            None => Ok(()),
        }
    }

    /// Stops the current track, then starts, saves and appends a new one,
    /// which becomes current. On a failure of the store the new track is not
    /// appended.
    pub fn start_new_track(&mut self, name: String, project: String, workspace: String) -> (r:
        Result<Track, RepoError>)
        requires
            old(self).wf(),
        ensures
            final(self).wf(),
            r matches Ok(t) ==> {
                &&& started(old(self).history(), final(self).history())
                &&& t == final(self).history().last()
                &&& t.name == name
                &&& t.project == project
                &&& t.workspace == workspace
                &&& is_uuid_v4_text(t.id@)
            },
            r is Err ==> final(self).history() == old(self).history() || stopped_last(
                old(self).history(),
                final(self).history(),
            ),
            only_last_active(old(self).history()) ==> only_last_active(final(self).history()),
    {
        match self.stop_current_track() {
            Ok(()) => {},
            Err(e) => return Err(e),
        }
        let ghost stopped = self.tracks@;
        let track = Track::start_new_track(name, project, workspace);
        match self.repository.save(&track) {
            Ok(()) => {},
            Err(e) => return Err(e),
        }
        let copy = track.duplicate();
        self.tracks.push(track);
        self.current_track_index = Some(self.tracks.len() - 1);
        assert(self.tracks@.drop_last() =~= stopped);
        Ok(copy)
    }

    /// A copy of the history, in its order.
    pub fn list(&self) -> (r: Vec<Track>)
        ensures
            r@ == self.history(),
    {
        let mut r: Vec<Track> = Vec::new();
        let mut i: usize = 0;
        while i < self.tracks.len()
            invariant
                i <= self.tracks@.len(),
                r@ == self.tracks@.take(i as int),
            decreases self.tracks@.len() - i,
        {
            assert(self.tracks@.take(i as int + 1) =~= self.tracks@.take(i as int).push(self.tracks@[i as int]));
            r.push(self.tracks[i].duplicate());
            i += 1;
        }
        assert(self.tracks@.take(i as int) =~= self.tracks@);
        r
    }
}

} // verus!
