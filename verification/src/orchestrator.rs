//! The playback cycle as a state machine. The caller runs the loop: it does
//! what the machine asks for and hands back what came of it.
//!
//! One cycle goes `Idle`, `Selecting`, `Resolving`, `Invoking`, `Marking` and
//! back to `Idle`. It ends in `Stopped` at the deadline, in `Exhausted` where
//! nothing is left to play, and in `Failed` where the player or the store
//! fails.

use crate::clock;
use crate::player::{extra_texts, player_args, player_args_spec};
use crate::request::Request;
use crate::resolver::{media_url, media_url_spec, search_url, search_url_spec, texts};
use crate::selection::{select_next, NotFound};
use crate::store::{RequestStore, StoreError};
use crate::time_gate::should_continue;
use crate::time_of_day::TimeOfDay;
use vstd::prelude::*;

verus! {

/// Where the playback cycle stands.
#[derive(Debug, PartialEq, Eq)]
pub enum Phase {
    /// Between two cycles: the time gate is to be asked.
    Idle,
    /// It is before the deadline: a request is to be selected.
    Selecting,
    /// A request is selected: its media address is to be found.
    Resolving { request: Request },
    /// The address is known: the player is to run.
    Invoking { request: Request },
    /// The player has run: the request is to be marked played.
    Marking { request: Request },
    /// The end: nothing was left to play before the deadline.
    Exhausted,
    /// The end: the deadline was reached.
    Stopped,
    /// The end: the player or the store failed, or an event came that the
    /// phase does not wait for.
    Failed,
}

/// What came of the action that the machine asked for.
#[derive(Debug, PartialEq, Eq)]
pub enum Event {
    /// The clock was read.
    Clock { now: TimeOfDay },
    /// A selection was made, or nothing was left to select.
    Selected { choice: Result<Request, NotFound> },
    /// The search answered with these video ids, possibly none.
    Resolved { video_ids: Vec<String> },
    /// The player ended, well or not.
    PlayerExited { success: bool },
    /// The store was asked to mark the request played.
    Marked { outcome: Result<(), StoreError> },
}

/// What the machine asks for next.
#[derive(Debug, PartialEq, Eq)]
pub enum Action {
    /// Read the clock and answer with `Event::Clock`.
    ReadClock,
    /// Select a request and answer with `Event::Selected`.
    Select,
    /// Ask the search at `url` and answer with `Event::Resolved`.
    Resolve { url: String },
    /// Run the player with `args`, wait for it, and answer with
    /// `Event::PlayerExited`.
    Invoke { args: Vec<String> },
    /// Mark the request `id` played and answer with `Event::Marked`.
    MarkPlayed { id: i64 },
    /// Stop: the machine has reached one of its ends.
    Halt,
}

/// The phase that follows `phase` on `event`.
pub open spec fn next_phase(phase: Phase, event: Event, deadline: TimeOfDay) -> Phase {
    match (phase, event) {
        (Phase::Idle, Event::Clock { now }) => if now.precedes(deadline) {
            Phase::Selecting
        } else {
            Phase::Stopped
        },
        (Phase::Selecting, Event::Selected { choice: Ok(request) }) => Phase::Resolving { request },
        (Phase::Selecting, Event::Selected { choice: Err(_) }) => Phase::Exhausted,
        (Phase::Resolving { request }, Event::Resolved { video_ids }) => Phase::Invoking {
            request,
        },
        (Phase::Invoking { request }, Event::PlayerExited { success }) => if success {
            Phase::Marking { request }
        } else {
            Phase::Failed
        },
        (Phase::Marking { request }, Event::Marked { outcome: Ok(_) }) => Phase::Idle,
        (Phase::Exhausted, _) => Phase::Exhausted,
        (Phase::Stopped, _) => Phase::Stopped,
        _ => Phase::Failed,
    }
}

/// `action` is what the machine asks for on entering `next` after `event`.
pub open spec fn action_fits(
    next: Phase,
    event: Event,
    extra: Option<Vec<String>>,
    action: Action,
) -> bool {
    match next {
        Phase::Idle => action is ReadClock,
        Phase::Selecting => action is Select,
        Phase::Resolving { request } => action matches Action::Resolve { url } && url@
            == search_url_spec(request.song_name@, request.artist_name@),
        Phase::Invoking { request } => action matches Action::Invoke { args } && event matches Event::Resolved {
            video_ids,
        } && texts(args@) == player_args_spec(
            extra_texts(extra),
            media_url_spec(texts(video_ids@)),
        ),
        Phase::Marking { request } => action matches Action::MarkPlayed { id } && id == request.id,
        Phase::Exhausted => action is Halt,
        Phase::Stopped => action is Halt,
        Phase::Failed => action is Halt,
    }
}

/// The phase a run begins in, and what the machine asks for first.
pub fn start() -> (r: (Phase, Action))
    ensures
        r.0 is Idle,
        r.1 is ReadClock,
{
    (Phase::Idle, Action::ReadClock)
}

/// One step of the machine: the phase that follows `phase` on `event`, and
/// what the machine asks for on entering it. `deadline` is the time of day at
/// which playback ends; `extra` are the caller's own arguments for the player.
pub fn step(phase: Phase, event: Event, deadline: &TimeOfDay, extra: &Option<Vec<String>>) -> (r: (
    Phase,
    Action,
))
    requires
        deadline.wf(),
        event matches Event::Clock { now } ==> now.wf(),
    ensures
        r.0 == next_phase(phase, event, *deadline),
        action_fits(r.0, event, *extra, r.1),
{
    match (phase, event) {
        (Phase::Idle, Event::Clock { now }) => {
            if should_continue(deadline, &now) {
                (Phase::Selecting, Action::Select)
            } else {
                (Phase::Stopped, Action::Halt)
            }
        },
        (Phase::Selecting, Event::Selected { choice: Ok(request) }) => {
            let url = search_url(request.song_name.as_str(), request.artist_name.as_str());
            (Phase::Resolving { request }, Action::Resolve { url })
        },
        (Phase::Selecting, Event::Selected { choice: Err(_) }) => (Phase::Exhausted, Action::Halt),
        (Phase::Resolving { request }, Event::Resolved { video_ids }) => {
            let args = player_args(extra, media_url(&video_ids));
            (Phase::Invoking { request }, Action::Invoke { args })
        },
        (Phase::Invoking { request }, Event::PlayerExited { success }) => {
            if success {
                let id = request.id;
                (Phase::Marking { request }, Action::MarkPlayed { id })
            } else {
                (Phase::Failed, Action::Halt)
            }
        },
        (Phase::Marking { request }, Event::Marked { outcome: Ok(_) }) => (
            Phase::Idle,
            Action::ReadClock,
        ),
        (Phase::Exhausted, _) => (Phase::Exhausted, Action::Halt),
        (Phase::Stopped, _) => (Phase::Stopped, Action::Halt),
        _ => (Phase::Failed, Action::Halt),
    }
}

/// Does what `action` asks for where the library can do it alone: reading the
/// clock, selecting a request, marking one played. The search and the player
/// are the caller's to run: for `Resolve`, `Invoke` and `Halt` nothing is
/// done and nothing is answered.
pub fn perform(action: &Action, store: &mut RequestStore) -> (r: Option<Event>)
    requires
        old(store).wf(),
    ensures
        final(store).wf(),
        match *action {
            Action::ReadClock => {
                &&& final(store)@ == old(store)@
                &&& r matches Some(Event::Clock { now })
                &&& now.wf()
            },
            Action::Select => {
                &&& final(store)@ == old(store)@
                &&& r matches Some(Event::Selected { choice })
                &&& choice is Err <==> old(store)@.all_played()
                &&& choice matches Ok(request) ==> old(store)@.candidates().contains(request@)
            },
            Action::MarkPlayed { id } => {
                &&& final(store)@ == old(store)@.mark_played(id as int)
                &&& r matches Some(Event::Marked { outcome })
                &&& outcome is Ok <==> old(store)@.has_id(id as int)
            },
            Action::Resolve { .. } => final(store)@ == old(store)@ && r is None,
            Action::Invoke { .. } => final(store)@ == old(store)@ && r is None,
            Action::Halt => final(store)@ == old(store)@ && r is None,
        },
{
    match action {
        Action::ReadClock => Some(Event::Clock { now: clock::now() }),
        Action::Select => Some(Event::Selected { choice: select_next(store) }),
        Action::MarkPlayed { id } => Some(Event::Marked { outcome: store.mark_played(*id) }),
        Action::Resolve { .. } => None,
        Action::Invoke { .. } => None,
        Action::Halt => None,
    }
}

/// A phase in which the machine has ended.
pub open spec fn is_final(phase: Phase) -> bool {
    phase is Exhausted || phase is Stopped || phase is Failed
}

/// The order of the cycle. A search that found nothing does not end it: every
/// answer of the search leads on to the player, for the same request. The
/// request is marked only after the player ran well for it, and the cycle is
/// over only after the store marked it. The clock is asked before each cycle
/// and lets it begin exactly before the deadline. Once ended, the machine
/// stays ended.
pub proof fn lemma_cycle_order(phase: Phase, event: Event, deadline: TimeOfDay)
    ensures
        phase matches Phase::Resolving { request } ==> (event is Resolved ==> next_phase(
            phase,
            event,
            deadline,
        ) == (Phase::Invoking { request })),
        next_phase(phase, event, deadline) matches Phase::Marking { request } ==> phase == (
        Phase::Invoking { request }) && event == (Event::PlayerExited { success: true }),
        next_phase(phase, event, deadline) is Idle ==> phase is Marking && (event
            matches Event::Marked { outcome } && outcome is Ok),
        next_phase(phase, event, deadline) is Selecting <==> phase is Idle && (event
            matches Event::Clock { now } && now.precedes(deadline)),
        next_phase(phase, event, deadline) is Stopped && !(phase is Stopped) ==> phase is Idle && (
        event matches Event::Clock { now } && !now.precedes(deadline)),
        next_phase(phase, event, deadline) is Exhausted && !(phase is Exhausted) ==> phase
            is Selecting && (event matches Event::Selected { choice } && choice is Err),
        is_final(phase) ==> next_phase(phase, event, deadline) == phase,
{
}

} // verus!
