use std::sync::Arc;
use tracker::model::{Timestamp, Track};
use tracker::repository::{RepoError, TrackRepository};
use tracker::repository_sqlite::{
    create_schema, open_connection, order_for_history, row_to_track, text_row, track_from_lookup,
    track_to_row, tracks_from_rows, upsert_statement, RepositorySQLite, INSERT, UPDATE,
};

fn create_repository() -> RepositorySQLite {
    let connection = open_connection(":memory:").unwrap();
    create_schema(&connection).unwrap();
    RepositorySQLite::create(Arc::new(connection))
}

fn at(text: &str) -> Timestamp {
    Timestamp::parse(text).unwrap()
}

fn track(id: &str, name: &str, start: &str, end: Option<&str>, project: &str) -> Track {
    Track::create(
        String::from(id),
        String::from(name),
        at(start),
        end.map(at),
        String::from(project),
        String::from("Workspace"),
    )
}

#[test]
fn test_save_task() {
    let repository = create_repository();
    let track = track(
        "a1a2a3a4-b1b2-c1c2-d1d2-d3d4d5d6d7d8",
        "MyTrack",
        "2022-01-01T01:00:00Z",
        Some("2022-01-01T01:01:00Z"),
        "Project1",
    );
    match repository.save(&track) {
        Ok(_) => {
            assert!(true, "Task saved");
        }
        Err(_) => {
            assert!(false, "Task didn't saved");
        }
    };
}

#[test]
fn test_find_task_notfound() {
    let repository = create_repository();
    match repository.find(String::from("not-found-id")) {
        Ok(_) => {
            assert!(false, "It wasn't expected fond an task");
        }
        Err(e) => {
            assert_eq!(e, RepoError::NotFound, "Task not found");
        }
    };
}

#[test]
fn test_find_task() {
    let repository = create_repository();
    let saved = track(
        "a1a2a3a4-b1b2-c1c2-d1d2-d3d4d5d6d7d8",
        "MyTrack",
        "2022-01-01T01:00:00Z",
        Some("2022-01-01T01:01:00Z"),
        "Project1",
    );
    repository.save(&saved).unwrap();
    match repository.find(String::from("a1a2a3a4-b1b2-c1c2-d1d2-d3d4d5d6d7d8")) {
        Ok(track) => {
            assert_eq!(track.id, String::from("a1a2a3a4-b1b2-c1c2-d1d2-d3d4d5d6d7d8"));
            assert_eq!(track.name, String::from("MyTrack"));
            assert_eq!(track.project, String::from("Project1"));
            assert_eq!(track.workspace, String::from("Workspace"));
            assert_eq!(track.start, at("2022-01-01T01:00:00Z"));
            assert_eq!(track.end, Some(at("2022-01-01T01:01:00Z")));
        }
        Err(_) => {
            assert!(false, "It was expected fond an task");
        }
    };
}

#[test]
fn test_find_all_tasks() {
    let repository = create_repository();
    let track_one = track(
        "a1a2a3a4-b1b2-c1c2-d1d2-d3d4d5d6d7d8",
        "MyTrack",
        "2022-01-01T01:00:00Z",
        Some("2022-01-01T01:01:00Z"),
        "Project1",
    );
    let track_two = track(
        "a1a2a3a4-b1b2-c1c2-d1d2-d3d4d5d6d7d1",
        "MyTrack2",
        "2022-01-01T01:00:00Z",
        Some("2022-01-01T01:01:00Z"),
        "Project2",
    );
    repository.save(&track_one).unwrap();
    repository.save(&track_two).unwrap();
    match repository.find_all() {
        Ok(tracks) => {
            assert_eq!(tracks.len(), 2);
            let track_one = &tracks[0];
            assert_eq!(track_one.id, String::from("a1a2a3a4-b1b2-c1c2-d1d2-d3d4d5d6d7d8"));
            assert_eq!(track_one.name, String::from("MyTrack"));
            assert_eq!(track_one.project, String::from("Project1"));
            assert_eq!(track_one.workspace, String::from("Workspace"));
            assert_eq!(track_one.start, at("2022-01-01T01:00:00Z"));
            assert_eq!(track_one.end, Some(at("2022-01-01T01:01:00Z")));
            let track_two = &tracks[1];
            assert_eq!(track_two.id, String::from("a1a2a3a4-b1b2-c1c2-d1d2-d3d4d5d6d7d1"));
            assert_eq!(track_two.name, String::from("MyTrack2"));
            assert_eq!(track_two.project, String::from("Project2"));
            assert_eq!(track_two.workspace, String::from("Workspace"));
            assert_eq!(track_two.start, at("2022-01-01T01:00:00Z"));
            assert_eq!(track_two.end, Some(at("2022-01-01T01:01:00Z")));
        }
        Err(_) => {
            assert!(false, "It was expected fond an task");
        }
    };
}

#[test]
fn save_then_find_returns_equal_track() {
    let repository = create_repository();
    let saved = Track::create(
        String::from("id-1"),
        String::from("n"),
        Timestamp::new(1640998800, 123_456_789),
        None,
        String::from("p"),
        String::from("w"),
    );
    repository.save(&saved).unwrap();
    let found = repository.find(String::from("id-1")).unwrap();
    assert_eq!(found.id, saved.id);
    assert_eq!(found.name, saved.name);
    assert_eq!(found.start, saved.start);
    assert_eq!(found.end, None);
    assert_eq!(found.project, saved.project);
    assert_eq!(found.workspace, saved.workspace);
}

#[test]
fn save_twice_updates_the_row() {
    let repository = create_repository();
    let mut t = track("id-2", "n", "2022-01-01T01:00:00Z", None, "p");
    repository.save(&t).unwrap();
    t.end = Some(at("2022-01-01T02:00:00Z"));
    repository.save(&t).unwrap();
    let all = repository.find_all().unwrap();
    assert_eq!(all.len(), 1);
    assert_eq!(all[0].end, Some(at("2022-01-01T02:00:00Z")));
}

#[test]
fn find_all_puts_active_tracks_last() {
    let repository = create_repository();
    let a = track("A", "a", "2022-01-01T01:00:00Z", None, "p");
    let b = track("B", "b", "2022-01-01T02:00:00Z", Some("2022-01-01T02:01:00Z"), "p");
    repository.save(&a).unwrap();
    repository.save(&b).unwrap();
    let all = repository.find_all().unwrap();
    assert_eq!(all.len(), 2);
    assert_eq!(all[0].id, "B");
    assert_eq!(all[1].id, "A");
}

#[test]
fn row_round_trip() {
    let t = track("id", "name", "2022-01-01T01:00:00.25Z", Some("2022-01-01T01:01:00Z"), "proj");
    let row = track_to_row(&t).unwrap();
    assert_eq!(
        row,
        vec![
            String::from("id"),
            String::from("name"),
            String::from("2022-01-01T01:00:00.250000000Z"),
            String::from("2022-01-01T01:01:00.000000000Z"),
            String::from("proj"),
            String::from("Workspace"),
        ]
    );
    let back = row_to_track(&row).unwrap();
    assert_eq!(back.start, t.start);
    assert_eq!(back.end, t.end);
    assert_eq!(back.id, t.id);
}

#[test]
fn active_track_row_has_empty_end() {
    let t = track("id", "name", "2022-01-01T01:00:00Z", None, "proj");
    let row = track_to_row(&t).unwrap();
    assert_eq!(row[3], "");
    assert_eq!(row_to_track(&row).unwrap().end, None);
}

#[test]
fn unstorable_timestamp_is_storage_failure() {
    let t = Track::create(
        String::from("id"),
        String::from("n"),
        Timestamp::new(300_000_000_000, 0),
        None,
        String::from("p"),
        String::from("w"),
    );
    assert_eq!(track_to_row(&t).unwrap_err(), RepoError::StorageFailure);
    assert_eq!(create_repository().save(&t), Err(RepoError::StorageFailure));
}

#[test]
fn bad_rows_are_data_corruption() {
    let short = vec![String::from("id")];
    assert_eq!(row_to_track(&short).unwrap_err(), RepoError::DataCorruption);
    let bad_start: Vec<String> = ["id", "n", "yesterday", "", "p", "w"].iter().map(|s| s.to_string()).collect();
    assert_eq!(row_to_track(&bad_start).unwrap_err(), RepoError::DataCorruption);
    let bad_end: Vec<String> =
        ["id", "n", "2022-01-01T01:00:00Z", "soon", "p", "w"].iter().map(|s| s.to_string()).collect();
    assert_eq!(row_to_track(&bad_end).unwrap_err(), RepoError::DataCorruption);
}

#[test]
fn order_keeps_groups_in_order() {
    let tracks = vec![
        track("1", "a", "2022-01-01T01:00:00Z", None, "p"),
        track("2", "b", "2022-01-01T01:00:00Z", Some("2022-01-01T01:01:00Z"), "p"),
        track("3", "c", "2022-01-01T01:00:00Z", None, "p"),
        track("4", "d", "2022-01-01T01:00:00Z", Some("2022-01-01T01:02:00Z"), "p"),
    ];
    let ordered = order_for_history(&tracks);
    let ids: Vec<&str> = ordered.iter().map(|t| t.id.as_str()).collect();
    assert_eq!(ids, vec!["2", "4", "1", "3"]);
    assert!(order_for_history(&Vec::new()).is_empty());
}

fn strings(items: &[&str]) -> Vec<String> {
    items.iter().map(|s| s.to_string()).collect()
}

#[test]
fn text_row_needs_every_column_as_text() {
    let all = vec![Some(String::from("a")), Some(String::from("b"))];
    assert_eq!(text_row(&all), Some(strings(&["a", "b"])));
    let gap = vec![Some(String::from("a")), None];
    assert_eq!(text_row(&gap), None);
    assert_eq!(text_row(&Vec::new()), Some(Vec::new()));
}

#[test]
fn tracks_from_rows_decodes_and_orders() {
    let rows = vec![
        strings(&["A", "a", "2022-01-01T01:00:00Z", "", "p", "w"]),
        strings(&["B", "b", "2022-01-01T02:00:00Z", "2022-01-01T02:01:00Z", "p", "w"]),
    ];
    let tracks = tracks_from_rows(&rows).unwrap();
    assert_eq!(tracks.len(), 2);
    assert_eq!(tracks[0].id, "B");
    assert_eq!(tracks[1].id, "A");
    assert_eq!(tracks[1].end, None);
    let broken = vec![rows[0].clone(), strings(&["C", "c", "bad", "", "p", "w"])];
    assert_eq!(tracks_from_rows(&broken).unwrap_err(), RepoError::DataCorruption);
    assert!(tracks_from_rows(&Vec::new()).unwrap().is_empty());
}

#[test]
fn lookup_results() {
    assert_eq!(track_from_lookup("x", None).unwrap_err(), RepoError::NotFound);
    let row = strings(&["x", "n", "2022-01-01T01:00:00Z", "", "p", "w"]);
    assert_eq!(track_from_lookup("y", Some(row.clone())).unwrap_err(), RepoError::NotFound);
    assert_eq!(track_from_lookup("x", Some(row)).unwrap().name, "n");
    let bad = strings(&["x", "n", "never", "", "p", "w"]);
    assert_eq!(track_from_lookup("x", Some(bad)).unwrap_err(), RepoError::DataCorruption);
}

#[test]
fn upsert_picks_update_for_existing_rows() {
    assert_eq!(upsert_statement(true), UPDATE);
    assert_eq!(upsert_statement(false), INSERT);
}

#[test]
fn stopped_tracks_load_in_end_order_within_a_second() {
    let repository = create_repository();
    let late = track("L", "l", "2022-01-01T01:00:00Z", Some("2022-01-01T01:01:00Z"), "p");
    let early = track("E", "e", "2022-01-01T01:00:00Z", Some("2022-01-01T01:00:59.500Z"), "p");
    repository.save(&late).unwrap();
    repository.save(&early).unwrap();
    let all = repository.find_all().unwrap();
    assert_eq!(all[0].id, "E");
    assert_eq!(all[1].id, "L");
}
