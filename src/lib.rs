use vstd::prelude::*;

pub mod model;
pub mod repository;
pub mod repository_sqlite;
pub mod service;

use repository::{active_last, RepoError};
use repository_sqlite::RepositorySQLite;
use service::TrackService;
use std::sync::Arc;

verus! {

/// The service over the store in the file `bd.sqlite`, whose table is
/// created where it is missing.
pub fn init() -> (r: Result<TrackService<RepositorySQLite>, RepoError>)
    ensures
        r matches Ok(service) ==> service.wf() && active_last(service.history()),
        r matches Err(e) ==> e == RepoError::StorageFailure,
{
    let connection = match repository_sqlite::open_connection("bd.sqlite") {
        Ok(c) => c,
        Err(e) => return Err(e),
    };
    match repository_sqlite::create_schema(&connection) {
        Ok(()) => {},
        Err(e) => return Err(e),
    }
    let repository = RepositorySQLite::create(Arc::new(connection));
    Ok(TrackService::create(repository))
}

} // verus!
