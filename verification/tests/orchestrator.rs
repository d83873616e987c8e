use tt::orchestrator::{perform, start, step, Action, Event, Phase};
use tt::request::Request;
use tt::selection::NotFound;
use tt::store::{RequestStore, StoreError};
use tt::time_of_day::TimeOfDay;

fn request(id: i64, song: &str, artist: &str) -> Request {
    Request {
        id,
        submitter: "a@x.com".to_string(),
        song_name: song.to_string(),
        artist_name: artist.to_string(),
        external_key: format!("u{}", id),
        played: false,
        rank: 1,
    }
}

fn deadline() -> TimeOfDay {
    TimeOfDay::from_hms(13, 5, 0).unwrap()
}

fn clock(hour: u32, minute: u32, second: u32) -> Event {
    Event::Clock { now: TimeOfDay::from_hms(hour, minute, second).unwrap() }
}

#[test]
fn run_begins_idle_and_asks_for_the_clock() {
    assert_eq!((Phase::Idle, Action::ReadClock), start());
}

#[test]
fn idle_goes_on_before_the_deadline_and_stops_at_it() {
    assert_eq!(
        (Phase::Selecting, Action::Select),
        step(Phase::Idle, clock(13, 4, 59), &deadline(), &None)
    );
    assert_eq!(
        (Phase::Stopped, Action::Halt),
        step(Phase::Idle, clock(13, 5, 0), &deadline(), &None)
    );
    assert_eq!(
        (Phase::Stopped, Action::Halt),
        step(Phase::Idle, clock(20, 0, 0), &deadline(), &None)
    );
}

#[test]
fn selecting_asks_the_search_for_the_selected_song() {
    let r = request(5, "foo bar", "baz");
    assert_eq!(
        (
            Phase::Resolving { request: request(5, "foo bar", "baz") },
            Action::Resolve {
                url: "https://yt.lemnoslife.com/search?part=id,snippet&q=foo%20bar+baz&type=video"
                    .to_string()
            }
        ),
        step(Phase::Selecting, Event::Selected { choice: Ok(r) }, &deadline(), &None)
    );
}

#[test]
fn selecting_with_nothing_left_is_exhausted() {
    assert_eq!(
        (Phase::Exhausted, Action::Halt),
        step(Phase::Selecting, Event::Selected { choice: Err(NotFound) }, &deadline(), &None)
    );
}

#[test]
fn search_without_items_plays_the_fallback() {
    let extra = Some(vec!["--no-video".to_string()]);
    let (phase, action) = step(
        Phase::Resolving { request: request(5, "s", "t") },
        Event::Resolved { video_ids: Vec::new() },
        &deadline(),
        &extra,
    );
    assert_eq!(Phase::Invoking { request: request(5, "s", "t") }, phase);
    assert_eq!(
        Action::Invoke {
            args: vec![
                "--no-video".to_string(),
                "-fs".to_string(),
                "https://github.com/satler-git/tt/releases/download/v2.0.1/error.wav".to_string(),
            ]
        },
        action
    );
}

#[test]
fn search_with_items_plays_the_first() {
    let (phase, action) = step(
        Phase::Resolving { request: request(5, "s", "t") },
        Event::Resolved { video_ids: vec!["abc".to_string(), "def".to_string()] },
        &deadline(),
        &None,
    );
    assert_eq!(Phase::Invoking { request: request(5, "s", "t") }, phase);
    assert_eq!(
        Action::Invoke {
            args: vec!["-fs".to_string(), "https://www.youtube.com/watch?v=abc".to_string()]
        },
        action
    );
}

#[test]
fn player_that_ran_well_leads_to_marking() {
    assert_eq!(
        (Phase::Marking { request: request(5, "s", "t") }, Action::MarkPlayed { id: 5 }),
        step(
            Phase::Invoking { request: request(5, "s", "t") },
            Event::PlayerExited { success: true },
            &deadline(),
            &None
        )
    );
}

#[test]
fn player_that_failed_ends_the_run() {
    assert_eq!(
        (Phase::Failed, Action::Halt),
        step(
            Phase::Invoking { request: request(5, "s", "t") },
            Event::PlayerExited { success: false },
            &deadline(),
            &None
        )
    );
}

#[test]
fn marking_leads_back_to_idle_or_fails() {
    assert_eq!(
        (Phase::Idle, Action::ReadClock),
        step(
            Phase::Marking { request: request(5, "s", "t") },
            Event::Marked { outcome: Ok(()) },
            &deadline(),
            &None
        )
    );
    assert_eq!(
        (Phase::Failed, Action::Halt),
        step(
            Phase::Marking { request: request(5, "s", "t") },
            Event::Marked { outcome: Err(StoreError::NotFound) },
            &deadline(),
            &None
        )
    );
}

#[test]
fn ended_machine_stays_ended() {
    assert_eq!(
        (Phase::Stopped, Action::Halt),
        step(Phase::Stopped, clock(1, 0, 0), &deadline(), &None)
    );
    assert_eq!(
        (Phase::Exhausted, Action::Halt),
        step(Phase::Exhausted, clock(1, 0, 0), &deadline(), &None)
    );
    assert_eq!(
        (Phase::Failed, Action::Halt),
        step(Phase::Failed, Event::PlayerExited { success: true }, &deadline(), &None)
    );
}

#[test]
fn event_that_the_phase_does_not_wait_for_fails() {
    assert_eq!(
        (Phase::Failed, Action::Halt),
        step(Phase::Idle, Event::PlayerExited { success: true }, &deadline(), &None)
    );
    assert_eq!(
        (Phase::Failed, Action::Halt),
        step(Phase::Selecting, clock(1, 0, 0), &deadline(), &None)
    );
    assert_eq!(
        (Phase::Failed, Action::Halt),
        step(
            Phase::Resolving { request: request(1, "s", "t") },
            Event::Marked { outcome: Ok(()) },
            &deadline(),
            &None
        )
    );
}

#[test]
fn perform_does_what_needs_no_outside_help() {
    let mut store = RequestStore::from_rows(vec![request(1, "s", "t")]).unwrap();
    match perform(&Action::ReadClock, &mut store) {
        Some(Event::Clock { now }) => assert!(now.hour < 24 && now.minute < 60 && now.second < 60),
        other => panic!("{:?}", other),
    }
    assert_eq!(
        Some(Event::Selected { choice: Ok(request(1, "s", "t")) }),
        perform(&Action::Select, &mut store)
    );
    assert_eq!(None, perform(&Action::Resolve { url: "u".to_string() }, &mut store));
    assert_eq!(None, perform(&Action::Invoke { args: Vec::new() }, &mut store));
    assert_eq!(None, perform(&Action::Halt, &mut store));
    assert!(!store.rows()[0].played);
    assert_eq!(
        Some(Event::Marked { outcome: Err(StoreError::NotFound) }),
        perform(&Action::MarkPlayed { id: 2 }, &mut store)
    );
    assert_eq!(
        Some(Event::Marked { outcome: Ok(()) }),
        perform(&Action::MarkPlayed { id: 1 }, &mut store)
    );
    assert!(store.rows()[0].played);
    assert_eq!(
        Some(Event::Selected { choice: Err(NotFound) }),
        perform(&Action::Select, &mut store)
    );
}

#[test]
fn whole_run_plays_every_request_once_and_ends_exhausted() {
    let mut store = RequestStore::from_rows(vec![
        request(1, "s1", "t1"),
        request(2, "s2", "t2"),
        request(3, "s3", "t3"),
    ])
    .unwrap();
    let end = TimeOfDay::from_hms(23, 59, 59).unwrap();
    let (mut phase, mut action) = start();
    let mut played: Vec<String> = Vec::new();
    let mut steps = 0;
    while action != Action::Halt {
        let event = match &action {
            Action::ReadClock => clock(12, 0, 0),
            Action::Resolve { .. } => Event::Resolved { video_ids: vec![format!("v{}", steps)] },
            Action::Invoke { args } => {
                played.push(args[1].clone());
                Event::PlayerExited { success: true }
            }
            _ => perform(&action, &mut store).unwrap(),
        };
        let next = step(phase, event, &end, &None);
        phase = next.0;
        action = next.1;
        steps += 1;
        assert!(steps < 100);
    }
    assert_eq!(Phase::Exhausted, phase);
    assert_eq!(3, played.len());
    assert!(store.rows().iter().all(|r| r.played));
}
