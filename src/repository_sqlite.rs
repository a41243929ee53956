use vstd::prelude::*;

use crate::model::{rfc3339_parsed, rfc3339_text, Timestamp, Track, MAX_STORABLE_SECS, MIN_STORABLE_SECS};
use crate::repository::{active_last, RepoError, TrackRepository};
use std::sync::Arc;

verus! {

#[verifier::external_type_specification]
#[verifier::external_body]
pub struct ExConnection(sqlite::Connection);

#[verifier::external_type_specification]
#[verifier::external_body]
pub struct ExStatement<'l>(sqlite::Statement<'l>);

#[verifier::external_type_specification]
#[verifier::external_body]
pub struct ExCursor<'l>(sqlite::Cursor<'l>);

#[verifier::external_type_specification]
#[verifier::external_body]
pub struct ExSqliteError(sqlite::Error);

/// The table that holds the tracks, one text column per field.
pub const SCHEME: &'static str = "
    CREATE TABLE IF NOT EXISTS tracks (
        id TEXT,
        name TEXT,
        start TEXT,
        end TEXT,
        project TEXT,
        workspace TEXT
    );
";

pub const SELECT_BY_ID: &'static str = "SELECT id, name, start, end, project, workspace FROM tracks WHERE id = :id";

pub const SELECT_ALL: &'static str = "SELECT id, name, start, end, project, workspace FROM tracks ORDER BY end ASC, start ASC, rowid ASC";

pub const UPDATE: &'static str = "UPDATE tracks SET name = :name, start = :start, end = :end, project = :project, workspace = :workspace WHERE id = :id";

pub const INSERT: &'static str = "INSERT INTO tracks VALUES(:id, :name, :start, :end, :project, :workspace)";

/// The instant that a stored text reads as, if it reads as one.
pub open spec fn parsed_at(text: Seq<char>) -> Option<Timestamp> {
    match rfc3339_parsed(text) {
        Some((secs, nanos)) => Some(Timestamp { secs, nanos }),
        None => None,
    }
}

/// The stored text of an end: empty while the track is active.
pub open spec fn end_text(end: Option<Timestamp>) -> Seq<char> {
    match end {
        Some(t) => rfc3339_text(t.secs, t.nanos),
        None => Seq::empty(),
    }
}

/// What a stored end text reads as: `Some(None)` for an absent end, `None`
/// where the text is no timestamp.
pub open spec fn parsed_end(text: Seq<char>) -> Option<Option<Timestamp>> {
    if text.len() == 0 {
        Some(None)
    } else {
        match parsed_at(text) {
            Some(t) => Some(Some(t)),
            None => None,
        }
    }
}

/// A track whose instants the text columns can hold.
pub open spec fn storable_track(t: Track) -> bool {
    &&& t.start.storable()
    &&& (t.end matches Some(e) ==> e.storable())
}

/// The columns `id, name, start, end, project, workspace` of a track.
pub open spec fn row_of(t: Track) -> Seq<Seq<char>> {
    seq![t.id@, t.name@, rfc3339_text(t.start.secs, t.start.nanos), end_text(t.end), t.project@, t.workspace@]
}

pub open spec fn texts(row: Seq<String>) -> Seq<Seq<char>> {
    row.map_values(|s: String| s@)
}

/// A row of six columns whose start and end read back.
pub open spec fn row_readable(row: Seq<Seq<char>>) -> bool {
    &&& row.len() == 6
    &&& parsed_at(row[2]) is Some
    &&& parsed_end(row[3]) is Some
}

/// The track that a readable row holds.
pub open spec fn track_of_row(row: Seq<Seq<char>>, t: Track) -> bool {
    &&& t.id@ == row[0]
    &&& t.name@ == row[1]
    &&& Some(t.start) == parsed_at(row[2])
    &&& Some(t.end) == parsed_end(row[3])
    &&& t.project@ == row[4]
    &&& t.workspace@ == row[5]
}

/// The columns of a track, or `StorageFailure` where an instant falls
/// outside what the text form holds.
pub fn track_to_row(track: &Track) -> (r: Result<Vec<String>, RepoError>)
    ensures
        storable_track(*track) <==> r is Ok,
        r matches Ok(row) ==> texts(row@) == row_of(*track),
        r matches Err(e) ==> e == RepoError::StorageFailure,
{
    if !(MIN_STORABLE_SECS <= track.start.secs && track.start.secs <= MAX_STORABLE_SECS
        && track.start.nanos < 1_000_000_000) {
        return Err(RepoError::StorageFailure);
    }
    let end = match track.end {
        Some(e) => {
            if !(MIN_STORABLE_SECS <= e.secs && e.secs <= MAX_STORABLE_SECS && e.nanos < 1_000_000_000) {
                return Err(RepoError::StorageFailure);
            }
            e.to_text()
        },
        None => String::new(),
    };
    let mut row: Vec<String> = Vec::new();
    row.push(track.id.clone());
    row.push(track.name.clone());
    row.push(track.start.to_text());
    row.push(end);
    row.push(track.project.clone());
    row.push(track.workspace.clone());
    assert(texts(row@) =~= row_of(*track));
    Ok(row)
}

/// Reads a track back from its columns. A stored track reads back equal in
/// every field.
pub fn row_to_track(row: &Vec<String>) -> (r: Result<Track, RepoError>)
    ensures
        row_readable(texts(row@)) <==> r is Ok,
        r matches Ok(t) ==> track_of_row(texts(row@), t),
        r matches Err(e) ==> e == RepoError::DataCorruption,
        forall|t: Track| storable_track(t) && texts(row@) == row_of(t)
            ==> (r matches Ok(back) && back.same_as(&t)),
{
    if row.len() != 6 {
        assert forall|t: Track| storable_track(t) && texts(row@) == row_of(t) implies false by {
            assert(row_of(t).len() == 6);
        }
        return Err(RepoError::DataCorruption);
    }
    assert(texts(row@)[2] == row@[2]@);
    assert(texts(row@)[3] == row@[3]@);
    let start = match Timestamp::parse(row[2].as_str()) {
        Some(t) => t,
        None => {
            assert forall|t: Track| storable_track(t) && texts(row@) == row_of(t) implies false by {
                assert(row_of(t)[2] == rfc3339_text(t.start.secs, t.start.nanos));
            }
            return Err(RepoError::DataCorruption);
        },
    };
    let end = match Timestamp::parse(row[3].as_str()) {
        Some(t) => Some(t),
        None => {
            if row[3].as_str().unicode_len() != 0 {
                assert forall|t: Track| storable_track(t) && texts(row@) == row_of(t) implies false by {
                    assert(row_of(t)[3] == end_text(t.end));
                    if let Some(e) = t.end {
                        assert(end_text(t.end) == rfc3339_text(e.secs, e.nanos));
                    }
                }
                return Err(RepoError::DataCorruption);
            }
            None
        },
    };
    let t = Track::create(
        row[0].clone(),
        row[1].clone(),
        start,
        end,
        row[4].clone(),
        row[5].clone(),
    );
    assert(texts(row@)[0] == row@[0]@);
    assert(texts(row@)[1] == row@[1]@);
    assert(texts(row@)[4] == row@[4]@);
    assert(texts(row@)[5] == row@[5]@);
    assert forall|u: Track| storable_track(u) && texts(row@) == row_of(u) implies t.same_as(&u) by {
        assert(row_of(u)[0] == u.id@);
        assert(row_of(u)[1] == u.name@);
        assert(row_of(u)[2] == rfc3339_text(u.start.secs, u.start.nanos));
        assert(row_of(u)[3] == end_text(u.end));
        assert(row_of(u)[4] == u.project@);
        assert(row_of(u)[5] == u.workspace@);
        if let Some(e) = u.end {
            assert(end_text(u.end) == rfc3339_text(e.secs, e.nanos));
        }
    }
    Ok(t)
}

/// The stopped tracks of a sequence, in their order.
pub open spec fn stopped_ones(s: Seq<Track>) -> Seq<Track>
    decreases s.len(),
{
    if s.len() == 0 {
        Seq::empty()
    } else if s.last().is_active() {
        stopped_ones(s.drop_last())
    } else {
        stopped_ones(s.drop_last()).push(s.last())
    }
}

/// The active tracks of a sequence, in their order.
pub open spec fn active_ones(s: Seq<Track>) -> Seq<Track>
    decreases s.len(),
{
    if s.len() == 0 {
        Seq::empty()
    } else if s.last().is_active() {
        active_ones(s.drop_last()).push(s.last())
    } else {
        active_ones(s.drop_last())
    }
}

/// The order in which a history is rebuilt: stopped tracks first, then
/// active ones, each group in the order the store gave.
pub open spec fn history_order(s: Seq<Track>) -> Seq<Track> {
    stopped_ones(s) + active_ones(s)
}

proof fn lemma_groups(s: Seq<Track>)
    ensures
        forall|i: int| 0 <= i < stopped_ones(s).len() ==> !(#[trigger] stopped_ones(s)[i]).is_active(),
        forall|i: int| 0 <= i < active_ones(s).len() ==> (#[trigger] active_ones(s)[i]).is_active(),
        stopped_ones(s).len() + active_ones(s).len() == s.len(),
    decreases s.len(),
{
    if s.len() > 0 {
        lemma_groups(s.drop_last());
    }
}

proof fn lemma_history_order_active_last(s: Seq<Track>)
    ensures
        active_last(history_order(s)),
{
    lemma_groups(s);
    let r = history_order(s);
    let n = stopped_ones(s).len();
    assert forall|a: int, b: int| 0 <= a < b < r.len() && r[a].is_active() implies r[b].is_active() by {
        if a < n {
            assert(stopped_ones(s)[a] == r[a]);
        }
        if b >= n {
            assert(active_ones(s)[b - n] == r[b]);
        }
    }
}

/// Reorders tracks so that active ones come last, keeping the order within
/// the stopped ones and within the active ones.
pub fn order_for_history(tracks: &Vec<Track>) -> (r: Vec<Track>)
    ensures
        r@ == history_order(tracks@),
        active_last(r@),
{
    let mut stopped: Vec<Track> = Vec::new();
    let mut active: Vec<Track> = Vec::new();
    let mut i: usize = 0;
    while i < tracks.len()
        invariant
            i <= tracks.len(),
            stopped@ == stopped_ones(tracks@.take(i as int)),
            active@ == active_ones(tracks@.take(i as int)),
        decreases tracks.len() - i,
    {
        assert(tracks@.take(i as int + 1).drop_last() =~= tracks@.take(i as int));
        if tracks[i].is_tracking() {
            active.push(tracks[i].duplicate());
        } else {
            stopped.push(tracks[i].duplicate());
        }
        i += 1;
    }
    assert(tracks@.take(i as int) =~= tracks@);
    let ghost first = stopped@;
    let mut j: usize = 0;
    while j < active.len()
        invariant
            j <= active.len(),
            stopped@ == first + active@.take(j as int),
        decreases active.len() - j,
    {
        assert(active@.take(j as int + 1) =~= active@.take(j as int).push(active@[j as int]));
        stopped.push(active[j].duplicate());
        j += 1;
    }
    assert(active@.take(j as int) =~= active@);
    proof {
        lemma_groups(tracks@);
        let r = stopped@;
        assert forall|a: int, b: int| 0 <= a < b < r.len() && r[a].is_active() implies r[b].is_active() by {
            if a < first.len() {
                assert(stopped_ones(tracks@)[a] == r[a]);
            }
            if b < first.len() {
                assert(stopped_ones(tracks@)[b] == r[b]);
            } else {
                assert(active_ones(tracks@)[b - first.len()] == r[b]);
            }
        }
    }
    stopped
}

/// Opens, or creates, the SQLite database at a path.
pub fn open_connection(path: &str) -> (r: Result<sqlite::Connection, RepoError>)
    ensures
        r matches Err(e) ==> e == RepoError::StorageFailure,
{
    match open(path) {
        Ok(c) => Ok(c),
        Err(_) => Err(RepoError::StorageFailure),
    }
}

/// Creates the table of tracks where it is missing.
pub fn create_schema(connection: &sqlite::Connection) -> (r: Result<(), RepoError>)
    ensures
        r matches Err(e) ==> e == RepoError::StorageFailure,
{
    match execute(connection, SCHEME) {
        Ok(()) => Ok(()),
        Err(_) => Err(RepoError::StorageFailure),
    }
}

/// Columns that are all text, as text; `None` where one is not.
pub fn text_row(values: &Vec<Option<String>>) -> (r: Option<Vec<String>>)
    ensures
        r is Some <==> forall|i: int| 0 <= i < values@.len() ==> (#[trigger] values@[i]) is Some,
        r matches Some(row) ==> row@.len() == values@.len() && forall|i: int|
            0 <= i < values@.len() ==> values@[i] == Some(#[trigger] row@[i]),
{
    let mut row: Vec<String> = Vec::new();
    let mut i: usize = 0;
    while i < values.len()
        invariant
            i <= values@.len(),
            row@.len() == i,
            forall|k: int| 0 <= k < i ==> values@[k] == Some(#[trigger] row@[k]),
        decreases values@.len() - i,
    {
        match &values[i] {
            Some(text) => row.push(text.clone()),
            None => return None,
        }
        i += 1;
    }
    assert forall|k: int| 0 <= k < values@.len() implies (#[trigger] values@[k]) is Some by {
        assert(values@[k] == Some(row@[k]));
    }
    Some(row)
}

/// The tracks that rows hold, in history order; `DataCorruption` where any
/// row does not read back.
pub fn tracks_from_rows(rows: &Vec<Vec<String>>) -> (r: Result<Vec<Track>, RepoError>)
    ensures
        r is Ok <==> forall|i: int| 0 <= i < rows@.len() ==> row_readable(texts(#[trigger] rows@[i]@)),
        r matches Ok(v) ==> exists|decoded: Seq<Track>| {
            &&& decoded.len() == rows@.len()
            &&& forall|i: int| 0 <= i < rows@.len() ==> track_of_row(texts(rows@[i]@), #[trigger] decoded[i])
            &&& v@ == history_order(decoded)
        },
        r matches Err(e) ==> e == RepoError::DataCorruption,
{
    let mut tracks: Vec<Track> = Vec::new();
    let mut i: usize = 0;
    while i < rows.len()
        invariant
            i <= rows@.len(),
            tracks@.len() == i,
            forall|k: int| 0 <= k < i ==> row_readable(texts(#[trigger] rows@[k]@)),
            forall|k: int| 0 <= k < i ==> track_of_row(texts(rows@[k]@), #[trigger] tracks@[k]),
        decreases rows@.len() - i,
    {
        match row_to_track(&rows[i]) {
            Ok(t) => tracks.push(t),
            Err(e) => return Err(e),
        }
        i += 1;
    }
    let ordered = order_for_history(&tracks);
    Ok(ordered)
}

/// The track of a lookup by id: `NotFound` where no row came back or the row
/// holds another id, else the track the row holds.
pub fn track_from_lookup(id: &str, found: Option<Vec<String>>) -> (r: Result<Track, RepoError>)
    ensures
        found is None ==> r == Err::<Track, RepoError>(RepoError::NotFound),
        found matches Some(row) ==> {
            if row@.len() > 0 && row@[0]@ == id@ {
                &&& row_readable(texts(row@)) <==> r is Ok
                &&& r matches Ok(t) ==> track_of_row(texts(row@), t)
                &&& r matches Err(e) ==> e == RepoError::DataCorruption
            } else {
                r == Err::<Track, RepoError>(RepoError::NotFound)
            }
        },
{
    match found {
        None => Err(RepoError::NotFound),
        Some(row) => {
            if row.len() == 0 || row[0].as_str().unicode_len() != id.unicode_len() || !same_text(
                row[0].as_str(),
                id,
            ) {
                return Err(RepoError::NotFound);
            }
            row_to_track(&row)
        },
    }
}

/// The statement that saves a track: an update where a row with its id
/// exists, else an insert.
pub fn upsert_statement(row_exists: bool) -> (r: &'static str)
    ensures
        r == (if row_exists { UPDATE } else { INSERT }),
{
    if row_exists {
        UPDATE
    } else {
        INSERT
    }
}

/// A store of tracks in an SQLite table named `tracks`.
pub struct RepositorySQLite {
    connection: Arc<sqlite::Connection>,
}

impl RepositorySQLite {
    pub fn create(connection: Arc<sqlite::Connection>) -> (r: RepositorySQLite) {
        RepositorySQLite { connection }
    }

    /// The columns of the row with this id, if there is one.
    fn find_row(&self, id: &str) -> (r: Result<Option<Vec<Option<String>>>, RepoError>)
        ensures
            r matches Err(e) ==> e == RepoError::StorageFailure,
    {
        let statement = match prepare(&self.connection, SELECT_BY_ID) {
            Ok(s) => s,
            Err(_) => return Err(RepoError::StorageFailure),
        };
        let mut cursor = into_cursor(statement);
        let mut params: Vec<(&str, String)> = Vec::new();
        params.push((":id", id.to_string()));
        if bind_texts(&mut cursor, params).is_err() {
            return Err(RepoError::StorageFailure);
        }
        match next_row(&mut cursor) {
            Ok(found) => Ok(found),
            Err(_) => Err(RepoError::StorageFailure),
        }
    }

    /// Updates the row with the track's id where there is one, else inserts one.
    fn save_in_sqlite(&self, track: &Track) -> (r: Result<(), RepoError>)
        ensures
            !storable_track(*track) ==> r == Err::<(), RepoError>(RepoError::StorageFailure),
            r matches Err(e) ==> e == RepoError::StorageFailure,
    {
        let row = match track_to_row(track) {
            Ok(row) => row,
            Err(e) => return Err(e),
        };
        assert(texts(row@).len() == row@.len() && row_of(*track).len() == 6);
        let row_exists = match self.find_row(track.id.as_str()) {
            Ok(found) => found.is_some(),
            Err(e) => return Err(e),
        };
        let statement = match prepare(&self.connection, upsert_statement(row_exists)) {
            Ok(s) => s,
            Err(_) => return Err(RepoError::StorageFailure),
        };
        let mut cursor = into_cursor(statement);
        let names: [&str; 6] = [":id", ":name", ":start", ":end", ":project", ":workspace"];
        let mut params: Vec<(&str, String)> = Vec::new();
        let mut i: usize = 0;
        while i < 6
            invariant
                i <= 6,
                row@.len() == 6,
            decreases 6 - i,
        {
            params.push((names[i], row[i].clone()));
            i += 1;
        }
        if bind_texts(&mut cursor, params).is_err() {
            return Err(RepoError::StorageFailure);
        }
        match next_row(&mut cursor) {
            Ok(_) => Ok(()),
            Err(_) => Err(RepoError::StorageFailure),
        }
    }

    /// The track stored under an id: `NotFound` where no row has that id.
    fn find_in_sqlite(&self, id: &str) -> (r: Result<Track, RepoError>)
        ensures
            r matches Ok(t) ==> t.id@ == id@,
    {
        match self.find_row(id) {
            Ok(None) => track_from_lookup(id, None),
            Ok(Some(values)) => match text_row(&values) {
                Some(row) => track_from_lookup(id, Some(row)),
                None => Err(RepoError::DataCorruption),
            },
            Err(e) => Err(e),
        }
    }

    /// Every stored row, as text.
    fn all_rows(&self) -> (r: Result<Vec<Vec<String>>, RepoError>)
        ensures
            r matches Err(e) ==> e == RepoError::StorageFailure || e == RepoError::DataCorruption,
    {
        let statement = match prepare(&self.connection, SELECT_ALL) {
            Ok(s) => s,
            Err(_) => return Err(RepoError::StorageFailure),
        };
        let mut cursor = into_cursor(statement);
        let mut rows: Vec<Vec<String>> = Vec::new();
        let mut count: u64 = 0;
        while count < u64::MAX
            decreases u64::MAX - count,
        {
            match next_row(&mut cursor) {
                Ok(Some(values)) => match text_row(&values) {
                    Some(row) => rows.push(row),
                    None => return Err(RepoError::DataCorruption),
                },
                Ok(None) => return Ok(rows),
                Err(_) => return Err(RepoError::StorageFailure),
            }
            count += 1;
        }
        Err(RepoError::StorageFailure)
    }

    /// Every stored track, stopped ones first.
    fn find_all_in_sqlite(&self) -> (r: Result<Vec<Track>, RepoError>)
        ensures
            r matches Ok(v) ==> active_last(v@),
    {
        match self.all_rows() {
            Ok(rows) => {
                let r = tracks_from_rows(&rows);
                proof {
                    if r is Ok {
                        let v = r->Ok_0;
                        let decoded = choose|decoded: Seq<Track>| {
                            &&& decoded.len() == rows@.len()
                            &&& forall|i: int| 0 <= i < rows@.len() ==> track_of_row(texts(rows@[i]@), #[trigger] decoded[i])
                            &&& v@ == history_order(decoded)
                        };
                        lemma_history_order_active_last(decoded);
                    }
                }
                r
            },
            Err(e) => Err(e),
        }
    }
}

impl TrackRepository for RepositorySQLite {
    fn save(&self, track: &Track) -> (r: Result<(), RepoError>)
        ensures
            !storable_track(*track) ==> r == Err::<(), RepoError>(RepoError::StorageFailure),
            r matches Err(e) ==> e == RepoError::StorageFailure,
    {
        self.save_in_sqlite(track)
    }

    fn find(&self, id: String) -> (r: Result<Track, RepoError>) {
        self.find_in_sqlite(id.as_str())
    }

    fn find_all(&self) -> (r: Result<Vec<Track>, RepoError>) {
        self.find_all_in_sqlite()
    }
}

/// Whether two texts of equal length hold the same characters.
fn same_text(a: &str, b: &str) -> (r: bool)
    requires
        a@.len() == b@.len(),
    ensures
        r == (a@ == b@),
{
    let n = a.unicode_len();
    let mut i: usize = 0;
    while i < n
        invariant
            n == a@.len() == b@.len(),
            i <= n,
            forall|k: int| 0 <= k < i ==> a@[k] == b@[k],
        decreases n - i,
    {
        if a.get_char(i) != b.get_char(i) {
            return false;
        }
        i += 1;
    }
    assert(a@ =~= b@);
    true
}

/// Relies on sqlite's `Statement::into_cursor`: a cursor over the statement.
#[verifier::external_body]
fn into_cursor<'l>(statement: sqlite::Statement<'l>) -> (r: sqlite::Cursor<'l>) {
    statement.into_cursor()
}

/// Relies on sqlite's `Cursor::bind_by_name`: binds each text to its named parameter.
#[verifier::external_body]
fn bind_texts(cursor: &mut sqlite::Cursor, params: Vec<(&str, String)>) -> (r: Result<(), sqlite::Error>) {
    cursor.bind_by_name(params.into_iter().map(|(name, text)| (name, sqlite::Value::String(text))))
}

/// Relies on sqlite's `Cursor::next`: the next row, each column as its text
/// (`Value::as_string`), or `None` once the rows are done.
#[verifier::external_body]
fn next_row(cursor: &mut sqlite::Cursor) -> (r: Result<Option<Vec<Option<String>>>, sqlite::Error>) {
    match cursor.next() {
        Ok(Some(values)) => Ok(Some(values.iter().map(|v| v.as_string().map(String::from)).collect())),
        Ok(None) => Ok(None),
        Err(e) => Err(e),
    }
}

/// Relies on sqlite's `Connection::prepare`: a statement over the connection.
#[verifier::external_body]
fn prepare<'l>(connection: &'l sqlite::Connection, sql: &str) -> (r: Result<sqlite::Statement<'l>, sqlite::Error>) {
    connection.prepare(sql)
}

/// Relies on sqlite's `Connection::execute`: runs statements that return no rows.
#[verifier::external_body]
fn execute(connection: &sqlite::Connection, sql: &str) -> (r: Result<(), sqlite::Error>) {
    connection.execute(sql)
}

/// Relies on sqlite's `sqlite::open`: opens or creates the database at a path.
#[verifier::external_body]
fn open(path: &str) -> (r: Result<sqlite::Connection, sqlite::Error>) {
    sqlite::open(path)
}

} // verus!
