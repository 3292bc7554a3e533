//! The window over its whole life, from its opening through any number of
//! frames, requests and inputs.

use vstd::prelude::*;

use crate::binary64::Binary64;
use crate::frame::{is_frame_step, FrameEvent, FrameStep};
use crate::frame::law_frames_keep_track_of_requests;
use crate::weather_app::{FetchRequest, WeatherApp};

verus! {

/// The state of the window, and whether a request was handed out whose message
/// has not been taken yet.
pub struct Session {
    pub app: WeatherApp,
    pub outstanding: bool,
}

/// What can happen to the window: a request is begun, the button that requests
/// data is pressed, an event of a frame is taken, or something is typed or
/// chosen.
pub enum SessionStep {
    Started,
    Pressed { lat: Option<Binary64>, lon: Option<Binary64>, request: Option<FetchRequest> },
    Frame { event: FrameEvent, step: FrameStep },
    Edited,
}

/// Whether the window has just been opened, with or without a request.
pub open spec fn is_opening(session: Session) -> bool {
    session.app.is_valid() && session.app.is_fetching == session.outstanding
}

/// Whether `step` leads from one session to another. A message can only come
/// while a request is outstanding, and none is from then on.
pub open spec fn is_session_step(before: Session, step: SessionStep, after: Session) -> bool {
    match step {
        SessionStep::Started => before.app.is_started(after.app) && after.outstanding,
        SessionStep::Pressed { lat, lon, request } => {
            &&& before.app.is_pressed(lat, lon, request, after.app)
            &&& after.outstanding == (before.outstanding || request is Some)
        },
        SessionStep::Frame { event, step } => {
            let message = event matches FrameEvent::Begun { message: Some(_) };
            &&& is_frame_step(before.app, event, step, after.app)
            &&& message ==> before.outstanding
            &&& after.outstanding == (before.outstanding && !message)
        },
        SessionStep::Edited => {
            &&& before.app.is_edited(after.app)
            &&& after.outstanding == before.outstanding
        },
    }
}

/// Whether the window went through `sessions`, one step at a time.
pub open spec fn is_life(sessions: Seq<Session>, steps: Seq<SessionStep>) -> bool {
    &&& sessions.len() == steps.len() + 1
    &&& is_opening(sessions[0])
    &&& forall|i: int|
        0 <= i < steps.len() ==> is_session_step(
            sessions[i],
            #[trigger] steps[i],
            sessions[i + 1],
        )
}

/// Law: whatever happened since it was opened, the window shows a request as
/// under way exactly while one is outstanding, and at least 7 days can be
/// chosen.
pub proof fn law_fetching_means_outstanding(
    sessions: Seq<Session>,
    steps: Seq<SessionStep>,
    n: int,
)
    requires
        is_life(sessions, steps),
        0 <= n < sessions.len(),
    ensures
        sessions[n].app.is_fetching == sessions[n].outstanding,
        sessions[n].app.is_valid(),
    decreases n,
{
    if n > 0 {
        law_fetching_means_outstanding(sessions, steps, n - 1);
        let before = sessions[n - 1];
        let after = sessions[n];
        assert(is_session_step(before, steps[n - 1], after));
        if let SessionStep::Frame { event, step } = steps[n - 1] {
            law_frames_keep_track_of_requests(before.app, event, step, after.app);
        }
    }
}

} // verus!
