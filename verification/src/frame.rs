//! One frame of the window: what is done before it is drawn.

use vstd::prelude::*;

use crate::cache::SavedLocation;
use crate::weather_app::{can_count_days, days_available, FetchMsg, PollOutcome, WeatherApp};

verus! {

/// What happened: the frame began, with the message of the background request
/// if there is one; the cache was read; or the location was saved.
pub enum FrameEvent {
    Begun { message: Option<FetchMsg> },
    CacheRead {
        range: Option<(i64, i64)>,
        now: i64,
        saved_locations_list: Vec<SavedLocation>,
    },
    StateSaved { range: Option<(i64, i64)>, now: i64 },
}

/// What is to be done next: read the cache, save the location, or draw.
pub enum FrameAction {
    ReadCache,
    SaveState { state: SavedLocation },
    Draw,
}

/// The next action, and whether another frame is to follow soon.
pub struct FrameStep {
    pub repaint: bool,
    pub action: FrameAction,
}

/// Whether the event can be taken: the days since the oldest cached instant can
/// be counted.
pub open spec fn can_take(event: FrameEvent) -> bool {
    match event {
        FrameEvent::Begun { .. } => true,
        FrameEvent::CacheRead { range, now, .. } => can_count_days(range, now),
        FrameEvent::StateSaved { range, now } => can_count_days(range, now),
    }
}

/// Whether the location is saved if it has to be, and the frame is drawn
/// otherwise.
pub open spec fn saves_or_draws(
    before: WeatherApp,
    action: FrameAction,
    after: WeatherApp,
) -> bool {
    match action {
        FrameAction::ReadCache => false,
        FrameAction::SaveState { state } => before.is_unsaved_taken(Some(state), after),
        FrameAction::Draw => before.is_unsaved_taken(None, after),
    }
}

/// Whether `event` leads from one state to another by way of `step`.
///
/// A frame begins with the message of the background request. After a success
/// the cache is read. Then the location is saved if it is not the saved one, and
/// the choices are adapted to it. Then the frame is drawn.
pub open spec fn is_frame_step(
    before: WeatherApp,
    event: FrameEvent,
    step: FrameStep,
    after: WeatherApp,
) -> bool {
    match event {
        FrameEvent::Begun { message } => exists|outcome: PollOutcome, polled: WeatherApp| #[trigger]
            before.is_polled(message, outcome, polled) && step.repaint == (outcome is Waiting) && {
                if outcome is Succeeded {
                    step.action is ReadCache && after == polled
                } else {
                    saves_or_draws(polled, step.action, after)
                }
            },
        FrameEvent::CacheRead { range, now, saved_locations_list } => {
            let refreshed = WeatherApp {
                saved_locations_list,
                ..before.with_cached_days(range, now)
            };
            !step.repaint && saves_or_draws(refreshed, step.action, after)
        },
        FrameEvent::StateSaved { range, now } => {
            !step.repaint && step.action is Draw && after == before.adapted(range, now)
        },
    }
}

impl WeatherApp {
    fn save_or_draw(&mut self) -> (action: FrameAction)
        ensures
            saves_or_draws(*old(self), action, *final(self)),
    {
        match self.take_unsaved_state() {
            Some(state) => FrameAction::SaveState { state },
            None => FrameAction::Draw,
        }
    }

    /// Takes an event of the current frame, and tells what is to be done next.
    pub fn update(&mut self, event: FrameEvent) -> (step: FrameStep)
        requires
            can_take(event),
        ensures
            is_frame_step(*old(self), event, step, *final(self)),
            old(self).is_valid() ==> final(self).is_valid(),
    {
        match event {
            FrameEvent::Begun { message } => {
                let outcome = self.poll_fetch(message);
                let ghost polled = *self;
                let repaint = match outcome {
                    PollOutcome::Waiting => true,
                    _ => false,
                };
                assert(old(self).is_polled(message, outcome, polled));
                let action = match outcome {
                    PollOutcome::Succeeded => FrameAction::ReadCache,
                    _ => self.save_or_draw(),
                };
                FrameStep { repaint, action }
            },
            FrameEvent::CacheRead { range, now, saved_locations_list } => {
                self.refresh(range, now, saved_locations_list);
                let action = self.save_or_draw();
                FrameStep { repaint: false, action }
            },
            FrameEvent::StateSaved { range, now } => {
                self.adapt_to_location(range, now);
                FrameStep { repaint: false, action: FrameAction::Draw }
            },
        }
    }
}

/// Law: a request is under way until its message is taken, and no longer, and
/// at least 7 days can be chosen after every event of a frame.
pub proof fn law_frames_keep_track_of_requests(
    before: WeatherApp,
    event: FrameEvent,
    step: FrameStep,
    after: WeatherApp,
)
    requires
        is_frame_step(before, event, step, after),
    ensures
        after.is_fetching == (before.is_fetching && !(event matches FrameEvent::Begun {
            message: Some(_),
        })),
        before.is_valid() ==> after.is_valid(),
{
}

/// Law: whenever a frame is drawn or a location handed out to be saved, the
/// current location is the saved one. After saving, it still is.
pub proof fn law_drawn_location_is_saved(
    before: WeatherApp,
    event: FrameEvent,
    step: FrameStep,
    after: WeatherApp,
)
    requires
        is_frame_step(before, event, step, after),
        event is StateSaved ==> before.saved() == before.current(),
        !(step.action is ReadCache),
    ensures
        after.saved() == after.current(),
{
}

/// Law: a location is handed out to be saved at most once: the frame that
/// follows hands out none unless something changed.
pub proof fn law_location_is_saved_once(
    before: WeatherApp,
    state: SavedLocation,
    after: WeatherApp,
    again: Option<SavedLocation>,
    later: WeatherApp,
)
    requires
        before.is_unsaved_taken(Some(state), after),
        after.is_unsaved_taken(again, later),
    ensures
        again is None,
{
}

/// Law: a request that succeeds leaves its offset from UTC in the window, and a
/// request that fails leaves the location as it was.
pub proof fn law_offset_comes_from_success(
    before: WeatherApp,
    reply: Result<i32, String>,
    outcome: PollOutcome,
    after: WeatherApp,
)
    requires
        before.is_fetching,
        before.is_polled(Some(FetchMsg::Done(reply)), outcome, after),
    ensures
        !after.is_fetching,
        reply is Ok ==> after.current_utc_offset == reply->Ok_0 && after.location_error
            == before.location_error,
        reply is Err ==> after.current() == before.current() && after.location_error is Some,
{
}

/// Law: another frame follows soon exactly if one began without a message while a
/// request was under way. The cache is read exactly after the message of a
/// success. After the location was saved, the frame is drawn. Otherwise the
/// location is saved exactly if it is not the saved one, as it stands in the
/// window, and else the frame is drawn.
pub proof fn law_what_a_frame_does_next(
    before: WeatherApp,
    event: FrameEvent,
    step: FrameStep,
    after: WeatherApp,
)
    requires
        is_frame_step(before, event, step, after),
    ensures
        step.repaint <==> before.is_fetching && (event matches FrameEvent::Begun { message: None }),
        step.action is ReadCache <==> before.is_fetching && (event matches FrameEvent::Begun {
            message: Some(FetchMsg::Done(Ok(_))),
        }),
        event is StateSaved ==> step.action is Draw,
        !(step.action is ReadCache) && !(event is StateSaved) ==> (step.action is SaveState <==> {
            ||| before.current_location@ != before.saved_location@
            ||| before.lat_input@ != before.saved_lat@
            ||| before.lon_input@ != before.saved_lon@
            ||| before.current_utc_offset != before.saved_utc_offset
        }),
        step.action matches FrameAction::SaveState { state } ==> {
            &&& state.location@ == before.current_location@
            &&& state.lat@ == before.lat_input@
            &&& state.lon@ == before.lon_input@
            &&& state.utc_offset == before.current_utc_offset
        },
{
}

/// Law: a frame never changes what is typed or which lines are chosen. The
/// location that is saved is the one that was handed out. The offset comes from a
/// success, and an error from a failure. Only reading the cache changes the list
/// of locations, and only reading it or saving the location changes the days that
/// can be chosen.
pub proof fn law_what_a_frame_changes(
    before: WeatherApp,
    event: FrameEvent,
    step: FrameStep,
    after: WeatherApp,
)
    requires
        is_frame_step(before, event, step, after),
    ensures
        after.current_location@ == before.current_location@,
        after.lat_input@ == before.lat_input@,
        after.lon_input@ == before.lon_input@,
        after.view_mode == before.view_mode,
        after.unlock_history == before.unlock_history,
        after.current_utc_offset == (match event {
            FrameEvent::Begun {
                message: Some(FetchMsg::Done(Ok(offset))),
            } if before.is_fetching => offset,
            _ => before.current_utc_offset,
        }),
        (event matches FrameEvent::Begun { message: Some(FetchMsg::Done(Err(reason))) }
            ==> before.is_fetching ==> after.location_error is Some && after.location_error->0@
            == "Network/API Fault: "@ + reason@),
        after.location_error == before.location_error || before.is_fetching && (event matches
            FrameEvent::Begun { message: Some(FetchMsg::Done(Err(_))) }),
        step.action is ReadCache || event is StateSaved ==> after.saved() == before.saved(),
        step.action is SaveState ==> after.saved() == before.current(),
        step.action is Draw ==> after.saved() == before.saved(),
        after.saved_locations_list == (match event {
            FrameEvent::CacheRead { saved_locations_list, .. } => saved_locations_list,
            _ => before.saved_locations_list,
        }),
        after.cached_days_available == (match event {
            FrameEvent::Begun { .. } => before.cached_days_available as int,
            FrameEvent::CacheRead { range, now, .. } => days_available(range, now),
            FrameEvent::StateSaved { range, now } => days_available(range, now),
        }),
{
}

/// Law: a frame leaves the chosen days as they are, except that saving a location
/// while the history is locked brings those farther back to 7 days.
pub proof fn law_frames_keep_the_chosen_days(
    before: WeatherApp,
    event: FrameEvent,
    step: FrameStep,
    after: WeatherApp,
)
    requires
        is_frame_step(before, event, step, after),
    ensures
        !(event is StateSaved) || before.unlock_history || before.start_days_ago <= 7
            ==> after.start_days_ago == before.start_days_ago,
        !(event is StateSaved) || before.unlock_history || before.end_days_ago <= 7
            ==> after.end_days_ago == before.end_days_ago,
        event is StateSaved && !before.unlock_history && before.start_days_ago > 7
            ==> after.start_days_ago == 7,
        event is StateSaved && !before.unlock_history && before.end_days_ago > 7
            ==> after.end_days_ago == 7,
{
}

/// Law: an event can be taken exactly if the days of the cache that it brings can
/// be counted, and the beginning of a frame always.
pub proof fn law_which_events_can_be_taken(event: FrameEvent)
    ensures
        event is Begun ==> can_take(event),
        event matches FrameEvent::CacheRead { range, now, .. } ==> (can_take(event)
            <==> can_count_days(range, now)),
        event matches FrameEvent::StateSaved { range, now } ==> (can_take(event)
            <==> can_count_days(range, now)),
{
}

} // verus!
