use tt::request::{BackendSong, Request};
use tt::selection::{select_next, selection_of, NotFound};
use tt::store::{RequestStore, StoreError};
use tt::sync::sync_backend;

fn song(mail: &str, name: &str, artist: &str, uuid: &str) -> BackendSong {
    BackendSong {
        mail: mail.to_string(),
        song_name: name.to_string(),
        artist_name: artist.to_string(),
        uuid: uuid.to_string(),
    }
}

fn row(id: i64, submitter: &str, key: &str, played: bool, rank: u64) -> Request {
    Request {
        id,
        submitter: submitter.to_string(),
        song_name: format!("song {}", id),
        artist_name: format!("artist {}", id),
        external_key: key.to_string(),
        played,
        rank,
    }
}

fn ids(rows: &Vec<Request>) -> Vec<i64> {
    let mut out = Vec::new();
    for r in rows {
        out.push(r.id);
    }
    out
}

#[test]
fn new_store_is_empty() {
    let store = RequestStore::new();
    assert_eq!(0, store.len());
    assert!(store.is_empty());
    assert!(!store.is_full());
    assert!(store.candidates_for_next().is_empty());
    assert_eq!(0, store.count_by_submitter("a@x.com"));
    assert!(!store.contains_key("u1"));
}

#[test]
fn insert_gives_ids_from_one_and_keeps_the_song() {
    let mut store = RequestStore::new();
    assert_eq!(Ok(Some(1)), store.insert_if_absent(&song("a@x.com", "s1", "t1", "u1"), 1));
    assert_eq!(Ok(Some(2)), store.insert_if_absent(&song("b@x.com", "s2", "t2", "u2"), 7));
    assert_eq!(2, store.len());
    let rows = store.rows();
    assert_eq!(
        Request {
            id: 1,
            submitter: "a@x.com".to_string(),
            song_name: "s1".to_string(),
            artist_name: "t1".to_string(),
            external_key: "u1".to_string(),
            played: false,
            rank: 1,
        },
        rows[0]
    );
    assert_eq!(2, rows[1].id);
    assert_eq!(7, rows[1].rank);
    assert!(!rows[1].played);
}

#[test]
fn insert_with_a_known_key_changes_nothing() {
    let mut store = RequestStore::new();
    assert_eq!(Ok(Some(1)), store.insert_if_absent(&song("a@x.com", "s1", "t1", "u1"), 1));
    assert_eq!(Ok(None), store.insert_if_absent(&song("a@x.com", "s1", "t1", "u1"), 1));
    assert_eq!(Ok(None), store.insert_if_absent(&song("b@x.com", "other", "else", "u1"), 9));
    assert_eq!(1, store.len());
    assert_eq!("a@x.com", store.rows()[0].submitter);
    assert_eq!(1, store.rows()[0].rank);
    assert_eq!(Ok(Some(2)), store.insert_if_absent(&song("a@x.com", "s1", "t1", "u2"), 2));
}

#[test]
fn count_by_submitter_counts_played_rows_too() {
    let store = RequestStore::from_rows(vec![
        row(1, "a@x.com", "u1", true, 1),
        row(2, "b@x.com", "u2", false, 1),
        row(3, "a@x.com", "u3", false, 2),
    ])
    .unwrap();
    assert_eq!(2, store.count_by_submitter("a@x.com"));
    assert_eq!(1, store.count_by_submitter("b@x.com"));
    assert_eq!(0, store.count_by_submitter("c@x.com"));
    assert_eq!(0, store.count_by_submitter("a@x.co"));
    assert!(store.contains_key("u3"));
    assert!(!store.contains_key("u4"));
}

#[test]
fn from_rows_keeps_the_rows_and_goes_on_after_the_last_id() {
    let mut store = RequestStore::from_rows(vec![
        row(3, "a@x.com", "u1", true, 1),
        row(10, "b@x.com", "u2", false, 1),
    ])
    .unwrap();
    assert_eq!(vec![3, 10], ids(store.rows()));
    assert_eq!(Ok(Some(11)), store.insert_if_absent(&song("c@x.com", "s", "t", "u3"), 1));
    let empty = RequestStore::from_rows(Vec::new()).unwrap();
    assert!(empty.is_empty());
}

#[test]
fn from_rows_rejects_ids_that_do_not_grow() {
    let err = |rows: Vec<Request>| RequestStore::from_rows(rows).err();
    assert_eq!(
        Some(StoreError::InvalidId),
        err(vec![row(2, "a", "u1", false, 1), row(1, "a", "u2", false, 2)])
    );
    assert_eq!(
        Some(StoreError::InvalidId),
        err(vec![row(1, "a", "u1", false, 1), row(1, "a", "u2", false, 2)])
    );
    assert_eq!(Some(StoreError::InvalidId), err(vec![row(0, "a", "u1", false, 1)]));
    assert_eq!(Some(StoreError::InvalidId), err(vec![row(-4, "a", "u1", false, 1)]));
    assert_eq!(
        Some(StoreError::InvalidId),
        err(vec![row(2, "a", "u1", false, 1), row(1, "a", "u1", false, 2)])
    );
}

#[test]
fn from_rows_rejects_a_key_held_twice() {
    let r = RequestStore::from_rows(vec![
        row(1, "a", "u1", false, 1),
        row(2, "b", "u2", false, 1),
        row(3, "c", "u1", false, 1),
    ]);
    assert_eq!(Some(StoreError::DuplicateKey), r.err());
}

#[test]
fn store_with_the_last_id_taken_is_full() {
    let mut store =
        RequestStore::from_rows(vec![row(i64::MAX, "a@x.com", "u1", false, 1)]).unwrap();
    assert!(store.is_full());
    assert_eq!(Err(StoreError::Full), store.insert_if_absent(&song("a@x.com", "s", "t", "u2"), 2));
    assert_eq!(Ok(None), store.insert_if_absent(&song("a@x.com", "s", "t", "u1"), 2));
    assert_eq!(1, store.len());
    let mut nearly =
        RequestStore::from_rows(vec![row(i64::MAX - 1, "a@x.com", "u1", false, 1)]).unwrap();
    assert!(!nearly.is_full());
    assert_eq!(
        Ok(Some(i64::MAX)),
        nearly.insert_if_absent(&song("a@x.com", "s", "t", "u2"), 2)
    );
    assert!(nearly.is_full());
}

#[test]
fn mark_played_sets_one_row_and_stays_set() {
    let mut store = RequestStore::from_rows(vec![
        row(1, "a", "u1", false, 1),
        row(2, "b", "u2", false, 1),
    ])
    .unwrap();
    assert_eq!(Ok(()), store.mark_played(2));
    assert!(!store.rows()[0].played);
    assert!(store.rows()[1].played);
    assert_eq!(row(2, "b", "u2", true, 1), store.rows()[1]);
    assert_eq!(Ok(()), store.mark_played(2));
    assert!(store.rows()[1].played);
    assert_eq!(Ok(Some(3)), store.insert_if_absent(&song("b", "s", "t", "u3"), 2));
    let mut feed = Vec::new();
    feed.push(song("b", "s", "t", "u4"));
    assert_eq!(Ok(1), sync_backend(&mut store, &feed));
    assert!(store.rows()[1].played);
    assert!(!store.rows()[0].played);
}

#[test]
fn mark_played_reports_an_unknown_id() {
    let mut store = RequestStore::from_rows(vec![row(1, "a", "u1", false, 1)]).unwrap();
    assert_eq!(Err(StoreError::NotFound), store.mark_played(2));
    assert_eq!(Err(StoreError::NotFound), store.mark_played(0));
    assert!(!store.rows()[0].played);
    let mut empty = RequestStore::new();
    assert_eq!(Err(StoreError::NotFound), empty.mark_played(1));
}

#[test]
fn candidates_are_the_unplayed_rows_of_lowest_rank() {
    let mut store = RequestStore::from_rows(vec![
        row(1, "a", "u1", false, 1),
        row(2, "b", "u2", false, 1),
        row(3, "a", "u3", false, 2),
    ])
    .unwrap();
    assert_eq!(vec![1, 2], ids(&store.candidates_for_next()));
    let picked = select_next(&store).unwrap();
    assert!(picked.id == 1 || picked.id == 2);
    assert_eq!(Ok(()), store.mark_played(picked.id));
    let left = store.candidates_for_next();
    assert_eq!(vec![3 - picked.id], ids(&left));
    assert_eq!(1, left[0].rank);
    assert_eq!(Ok(()), store.mark_played(left[0].id));
    assert_eq!(vec![3], ids(&store.candidates_for_next()));
    assert_eq!(3, select_next(&store).unwrap().id);
    assert_eq!(Ok(()), store.mark_played(3));
    assert!(store.candidates_for_next().is_empty());
    assert_eq!(Err(NotFound), select_next(&store));
}

#[test]
fn candidates_skip_played_rows_of_lower_rank() {
    let store = RequestStore::from_rows(vec![
        row(1, "a", "u1", true, 1),
        row(2, "a", "u2", false, 5),
        row(3, "b", "u3", false, 3),
        row(4, "c", "u4", false, 3),
        row(5, "d", "u5", true, 3),
    ])
    .unwrap();
    let c = store.candidates_for_next();
    assert_eq!(vec![3, 4], ids(&c));
    assert_eq!(row(3, "b", "u3", false, 3), c[0]);
}

#[test]
fn select_next_reaches_every_candidate() {
    let store = RequestStore::from_rows(vec![
        row(1, "a", "u1", false, 1),
        row(2, "b", "u2", false, 1),
        row(3, "a", "u3", false, 2),
    ])
    .unwrap();
    let mut seen_one = false;
    let mut seen_two = false;
    let mut n = 0;
    while n < 400 {
        let id = select_next(&store).unwrap().id;
        assert!(id == 1 || id == 2);
        seen_one = seen_one || id == 1;
        seen_two = seen_two || id == 2;
        n += 1;
    }
    assert!(seen_one && seen_two);
}

#[test]
fn select_next_on_an_empty_store_finds_nothing() {
    assert_eq!(Err(NotFound), select_next(&RequestStore::new()));
}

#[test]
fn selection_of_hands_the_pick_on() {
    let r = row(4, "a", "u4", false, 2);
    assert_eq!(Ok(row(4, "a", "u4", false, 2)), selection_of(Some(&r)));
    assert_eq!(Err(NotFound), selection_of(None));
}

#[test]
fn sync_ranks_two_songs_of_one_submitter_and_is_idempotent() {
    let mut store = RequestStore::new();
    let feed = vec![song("a@x.com", "s1", "t1", "u1"), song("a@x.com", "s2", "t2", "u2")];
    assert_eq!(Ok(2), sync_backend(&mut store, &feed));
    assert_eq!(2, store.len());
    assert_eq!(1, store.rows()[0].rank);
    assert_eq!(2, store.rows()[1].rank);
    assert_eq!("u1", store.rows()[0].external_key);
    assert_eq!("u2", store.rows()[1].external_key);
    assert_eq!(Ok(0), sync_backend(&mut store, &feed));
    assert_eq!(2, store.len());
    assert_eq!(1, store.rows()[0].rank);
    assert_eq!(2, store.rows()[1].rank);
    assert_eq!(vec![1, 2], ids(store.rows()));
}

#[test]
fn sync_ranks_follow_the_rows_the_submitter_has() {
    let mut store = RequestStore::from_rows(vec![
        row(1, "a@x.com", "u1", true, 1),
        row(2, "a@x.com", "u2", false, 2),
        row(3, "b@x.com", "u3", false, 1),
    ])
    .unwrap();
    let feed = vec![
        song("a@x.com", "s", "t", "n1"),
        song("c@x.com", "s", "t", "n2"),
        song("b@x.com", "s", "t", "n3"),
        song("a@x.com", "s", "t", "n4"),
        song("c@x.com", "s", "t", "n5"),
        song("a@x.com", "s", "t", "n6"),
    ];
    assert_eq!(Ok(6), sync_backend(&mut store, &feed));
    let ranks: Vec<u64> = store.rows().iter().map(|r| r.rank).collect();
    assert_eq!(vec![1, 2, 1, 3, 1, 2, 4, 2, 5], ranks);
    assert_eq!(vec![1, 2, 3, 4, 5, 6, 7, 8, 9], ids(store.rows()));
    assert!(store.rows()[0].played);
    assert!(!store.rows()[3].played);
}

#[test]
fn sync_passes_over_known_keys_without_counting_them() {
    let mut store = RequestStore::new();
    let feed = vec![
        song("a@x.com", "s1", "t1", "u1"),
        song("a@x.com", "s1 again", "t1", "u1"),
        song("b@x.com", "s1 stolen", "t1", "u1"),
        song("a@x.com", "s2", "t2", "u2"),
    ];
    assert_eq!(Ok(2), sync_backend(&mut store, &feed));
    assert_eq!(2, store.len());
    assert_eq!("s1", store.rows()[0].song_name);
    assert_eq!(1, store.rows()[0].rank);
    assert_eq!("s2", store.rows()[1].song_name);
    assert_eq!(2, store.rows()[1].rank);
    assert_eq!(0, store.count_by_submitter("b@x.com"));
}

#[test]
fn sync_of_an_empty_feed_changes_nothing() {
    let mut store = RequestStore::from_rows(vec![row(1, "a", "u1", false, 1)]).unwrap();
    assert_eq!(Ok(0), sync_backend(&mut store, &Vec::new()));
    assert_eq!(1, store.len());
}

#[test]
fn sync_stops_where_the_store_is_full() {
    let mut store =
        RequestStore::from_rows(vec![row(i64::MAX - 1, "a@x.com", "u1", false, 1)]).unwrap();
    let feed = vec![
        song("a@x.com", "s", "t", "u1"),
        song("a@x.com", "s", "t", "u2"),
        song("a@x.com", "s", "t", "u3"),
        song("a@x.com", "s", "t", "u4"),
    ];
    assert_eq!(Err(StoreError::Full), sync_backend(&mut store, &feed));
    assert_eq!(2, store.len());
    assert_eq!("u2", store.rows()[1].external_key);
    assert_eq!(2, store.rows()[1].rank);
    assert_eq!(Ok(0), sync_backend(&mut store, &feed[..2].iter().map(copy_song).collect()));
}

fn copy_song(s: &BackendSong) -> BackendSong {
    s.clone()
}

#[test]
fn clones_are_equal_to_what_was_cloned() {
    let r = row(4, "a", "u4", true, 2);
    assert_eq!(r, r.clone());
    let s = song("a", "b", "c", "d");
    assert_eq!(s, s.clone());
}
