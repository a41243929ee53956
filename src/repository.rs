use vstd::prelude::*;

use crate::model::Track;

verus! {

/// Why a store operation failed.
#[derive(Clone, Copy, Debug, PartialEq, Eq, Structural)]
pub enum RepoError {
    /// No stored track has the requested id.
    NotFound,
    /// The store refused or failed an operation.
    StorageFailure,
    /// A stored row does not read back as a track.
    DataCorruption,
}

/// Active tracks come after all stopped ones.
pub open spec fn active_last(s: Seq<Track>) -> bool {
    forall|i: int, j: int| 0 <= i < j < s.len() && s[i].is_active() ==> s[j].is_active()
}

/// Where tracks are kept between runs: an upsert keyed by id, a lookup by id,
/// and the whole history.
pub trait TrackRepository {
    /// Stores the track under its id, replacing what was stored under it.
    fn save(&self, track: &Track) -> Result<(), RepoError>;

    /// The track stored under an id; `NotFound` where there is none.
    fn find(&self, id: String) -> (r: Result<Track, RepoError>)
        ensures
            r matches Ok(t) ==> t.id@ == id@,
    ;

    /// Every stored track, stopped ones first, active ones last.
    fn find_all(&self) -> (r: Result<Vec<Track>, RepoError>)
        ensures
            r matches Ok(v) ==> active_last(v@),
    ;
}

} // verus!
