//! Looking at a pane as a picture: focus it, give the session the size of the picture, capture, and
//! put the size back.

use vstd::prelude::*;
use vstd::string::*;
use crate::json::{Json, JsonView};
use crate::params::ReadImageParams;
use crate::text::{concat4, decimal, decimal_of};
use crate::tools::{err_result, outcome_view, pane_focus, pane_focus_command, session_resize};
use crate::tools::{session_resize_command, tab_focus, tab_focus_command, ReplyView, ToolReply};
use crate::tools::ZellijTools;
use crate::web_capture::{grid_cols, grid_rows};

verus! {

/// What the last command was. The size of the session is only given back once the outcome of the
/// capture is known, so that outcome is kept until then.
#[derive(Debug)]
pub enum ImagePhase {
    FocusingTab,
    FocusingPane,
    Sizing,
    Restoring { captured: Result<String, String> },
}

/// What an [`ImagePhase`] holds.
pub ghost enum ImagePhaseView {
    FocusingTab,
    FocusingPane,
    Sizing,
    Restoring { captured: Result<Seq<char>, Seq<char>> },
}

/// A picture, base64-encoded, or the reason why there is none.
pub open spec fn capture_view(captured: Result<String, String>) -> Result<Seq<char>, Seq<char>> {
    match captured {
        Ok(data) => Ok(data@),
        Err(e) => Err(e@),
    }
}

impl ImagePhase {
    pub open spec fn view(&self) -> ImagePhaseView {
        match self {
            ImagePhase::FocusingTab => ImagePhaseView::FocusingTab,
            ImagePhase::FocusingPane => ImagePhaseView::FocusingPane,
            ImagePhase::Sizing => ImagePhaseView::Sizing,
            ImagePhase::Restoring { captured } => ImagePhaseView::Restoring {
                captured: capture_view(*captured),
            },
        }
    }
}

/// What is to be photographed, and the grid that the picture holds.
#[derive(Debug)]
pub struct ImageRequest {
    session: String,
    tab_id: u64,
    pane_id: String,
    rows: u32,
    cols: u32,
}

/// What an [`ImageRequest`] holds.
pub ghost struct ImageRequestView {
    pub session: Seq<char>,
    pub tab_id: u64,
    pub pane_id: Seq<char>,
    pub rows: u32,
    pub cols: u32,
}

impl View for ImageRequest {
    type V = ImageRequestView;

    closed spec fn view(&self) -> ImageRequestView {
        ImageRequestView {
            session: self.session@,
            tab_id: self.tab_id,
            pane_id: self.pane_id@,
            rows: self.rows,
            cols: self.cols,
        }
    }
}

/// Where the reading of a picture stands: at a command, at the capture itself, or at its answer.
#[derive(Debug)]
pub enum ImageStep {
    Call { command: Json, request: ImageRequest, phase: ImagePhase },
    Capture { request: ImageRequest },
    Finish(ToolReply),
}

/// What an [`ImageStep`] holds.
pub ghost enum ImageStepView {
    Call { command: JsonView, request: ImageRequestView, phase: ImagePhaseView },
    Capture { request: ImageRequestView },
    Finish(ReplyView),
}

impl ImageStep {
    pub open spec fn view(&self) -> ImageStepView {
        match self {
            ImageStep::Call { command, request, phase } => ImageStepView::Call {
                command: command@,
                request: request@,
                phase: phase@,
            },
            ImageStep::Capture { request } => ImageStepView::Capture { request: request@ },
            ImageStep::Finish(reply) => ImageStepView::Finish(reply@),
        }
    }
}

/// The first command: the tab comes into focus before the pane, so that a pane that is not in the
/// tab is an error rather than a picture of something else.
pub open spec fn image_start(request: ImageRequestView) -> ImageStepView {
    ImageStepView::Call {
        command: tab_focus(request.session, request.tab_id),
        request,
        phase: ImagePhaseView::FocusingTab,
    }
}

/// The command that gives the session its own size back.
pub open spec fn restore_size(request: ImageRequestView) -> JsonView {
    session_resize(request.session, None, None)
}

/// The command that gives the session the size of the picture.
pub open spec fn picture_size(request: ImageRequestView) -> JsonView {
    session_resize(request.session, Some(request.rows as u64), Some(request.cols as u64))
}

/// A picture.
pub open spec fn picture(data: Seq<char>) -> ReplyView {
    ReplyView::Image { data, mime_type: "image/png"@ }
}

/// What follows the outcome of a command.
pub open spec fn image_next(
    request: ImageRequestView,
    phase: ImagePhaseView,
    outcome: Result<JsonView, Seq<char>>,
) -> ImageStepView {
    match (phase, outcome) {
        (ImagePhaseView::FocusingTab, Ok(_)) => ImageStepView::Call {
            command: pane_focus(request.session, request.pane_id),
            request,
            phase: ImagePhaseView::FocusingPane,
        },
        (ImagePhaseView::FocusingTab, Err(e)) => ImageStepView::Finish(
            ReplyView::Error(
                "could not focus tab "@ + decimal(request.tab_id as nat) + " to photograph it: "@
                    + e,
            ),
        ),
        (ImagePhaseView::FocusingPane, Ok(_)) => ImageStepView::Call {
            command: picture_size(request),
            request,
            phase: ImagePhaseView::Sizing,
        },
        (ImagePhaseView::FocusingPane, Err(e)) => ImageStepView::Finish(
            ReplyView::Error(
                "could not focus pane "@ + request.pane_id + " to photograph it: "@ + e,
            ),
        ),
        (ImagePhaseView::Sizing, Ok(_)) => ImageStepView::Capture { request },
        (ImagePhaseView::Sizing, Err(e)) => ImageStepView::Finish(
            ReplyView::Error("could not size session "@ + request.session + " for capture: "@ + e),
        ),
        (ImagePhaseView::Restoring { captured: Ok(data) }, Ok(_)) => ImageStepView::Finish(
            picture(data),
        ),
        (ImagePhaseView::Restoring { captured: Ok(_) }, Err(e)) => ImageStepView::Finish(
            ReplyView::Error(
                "captured session "@ + request.session
                    + " but could not restore its size afterwards: "@ + e,
            ),
        ),
        (ImagePhaseView::Restoring { captured: Err(e) }, _) => ImageStepView::Finish(
            ReplyView::Error(e),
        ),
    }
}

/// What follows the capture, whether it brought a picture or not.
pub open spec fn image_captured(
    request: ImageRequestView,
    captured: Result<Seq<char>, Seq<char>>,
) -> ImageStepView {
    ImageStepView::Call {
        command: restore_size(request),
        request,
        phase: ImagePhaseView::Restoring { captured },
    }
}

/// What is photographed when this is asked for, in a window of that size.
pub open spec fn image_request(p: ReadImageParams, viewport: (u32, u32)) -> ImageRequestView {
    ImageRequestView {
        session: p.session@,
        tab_id: p.tab_id,
        pane_id: p.pane_id@,
        rows: grid_rows(viewport.1) as u32,
        cols: grid_cols(viewport.0) as u32,
    }
}

impl ZellijTools {
    /// Begins to take a picture of a pane.
    pub fn read_image(&self, p: ReadImageParams) -> (step: ImageStep)
        ensures
            step@ == image_start(image_request(p, self.web.viewport)),
    {
        let (rows, cols) = self.web.capture_grid();
        let command = tab_focus_command(p.session.as_str(), p.tab_id);
        let request = ImageRequest {
            session: p.session,
            tab_id: p.tab_id,
            pane_id: p.pane_id,
            rows,
            cols,
        };
        ImageStep::Call { command, request, phase: ImagePhase::FocusingTab }
    }
}

impl ImageRequest {
    /// The session that is to be photographed.
    pub fn session(&self) -> (session: &str)
        ensures
            session@ == self@.session,
    {
        self.session.as_str()
    }

    /// Goes on with the outcome of the command of that phase.
    pub fn next(self, phase: ImagePhase, outcome: Result<Json, String>) -> (step: ImageStep)
        ensures
            step@ == image_next(self@, phase@, outcome_view(outcome)),
    {
        match phase {
            ImagePhase::FocusingTab => match outcome {
                Ok(_) => {
                    let command = pane_focus_command(self.session.as_str(), self.pane_id.as_str());
                    ImageStep::Call { command, request: self, phase: ImagePhase::FocusingPane }
                },
                Err(e) => ImageStep::Finish(
                    err_result(
                        concat4(
                            "could not focus tab ",
                            decimal_of(self.tab_id).as_str(),
                            " to photograph it: ",
                            e.as_str(),
                        ),
                    ),
                ),
            },
            ImagePhase::FocusingPane => match outcome {
                Ok(_) => {
                    let command = session_resize_command(
                        self.session.as_str(),
                        Some(self.rows as u64),
                        Some(self.cols as u64),
                    );
                    ImageStep::Call { command, request: self, phase: ImagePhase::Sizing }
                },
                Err(e) => ImageStep::Finish(
                    err_result(
                        concat4(
                            "could not focus pane ",
                            self.pane_id.as_str(),
                            " to photograph it: ",
                            e.as_str(),
                        ),
                    ),
                ),
            },
            ImagePhase::Sizing => match outcome {
                Ok(_) => ImageStep::Capture { request: self },
                Err(e) => ImageStep::Finish(
                    err_result(
                        concat4(
                            "could not size session ",
                            self.session.as_str(),
                            " for capture: ",
                            e.as_str(),
                        ),
                    ),
                ),
            },
            ImagePhase::Restoring { captured } => match captured {
                Ok(data) => match outcome {
                    Ok(_) => ImageStep::Finish(
                        ToolReply::Image { data, mime_type: "image/png".to_owned() },
                    ),
                    Err(e) => ImageStep::Finish(
                        err_result(
                            concat4(
                                "captured session ",
                                self.session.as_str(),
                                " but could not restore its size afterwards: ",
                                e.as_str(),
                            ),
                        ),
                    ),
                },
                Err(e) => ImageStep::Finish(err_result(e)),
            },
        }
    }

    /// Goes on with what the capture brought.
    pub fn captured(self, captured: Result<String, String>) -> (step: ImageStep)
        ensures
            step@ == image_captured(self@, capture_view(captured)),
    {
        let command = session_resize_command(self.session.as_str(), None, None);
        ImageStep::Call { command, request: self, phase: ImagePhase::Restoring { captured } }
    }
}

/// Something that happened: a command was answered, or the capture came to its end.
pub ghost enum ImageEvent {
    Replied(Result<JsonView, Seq<char>>),
    Captured(Result<Seq<char>, Seq<char>>),
}

/// Where a reading stands after these events; an event of the wrong kind changes nothing.
pub open spec fn image_after(step: ImageStepView, events: Seq<ImageEvent>) -> ImageStepView
    decreases events.len(),
{
    if events.len() == 0 {
        step
    } else {
        let before = image_after(step, events.drop_last());
        match (before, events.last()) {
            (ImageStepView::Call { request, phase, .. }, ImageEvent::Replied(outcome)) =>
                image_next(request, phase, outcome),
            (ImageStepView::Capture { request }, ImageEvent::Captured(captured)) => image_captured(
                request,
                captured,
            ),
            _ => before,
        }
    }
}

/// Whether these events got as far as giving the session the size of the picture; from then on the
/// session is not its own size.
pub open spec fn was_sized(step: ImageStepView, events: Seq<ImageEvent>) -> bool {
    exists|n: int|
        0 <= n <= events.len() && (#[trigger] image_after(step, events.take(n))) is Capture
}

/// The command that gives the session its own size back was the next one at some point.
pub open spec fn was_restored(
    step: ImageStepView,
    request: ImageRequestView,
    events: Seq<ImageEvent>,
) -> bool {
    exists|n: int|
        0 <= n < events.len() && (#[trigger] image_after(step, events.take(n)) matches
            ImageStepView::Call { command, phase, .. } && command == session_resize(
            request.session,
            None,
            None,
        ) && phase is Restoring)
}

/// What every point of a reading is like.
proof fn lemma_image_invariant(request: ImageRequestView, events: Seq<ImageEvent>)
    ensures
        match image_after(image_start(request), events) {
            ImageStepView::Call { command, request: r, phase } => r == request && match phase {
                ImagePhaseView::FocusingTab => !was_sized(image_start(request), events),
                ImagePhaseView::FocusingPane => !was_sized(image_start(request), events),
                ImagePhaseView::Sizing => !was_sized(image_start(request), events),
                ImagePhaseView::Restoring { .. } => command == restore_size(request) && was_sized(
                    image_start(request),
                    events,
                ),
            },
            ImageStepView::Capture { request: r } => r == request && was_sized(
                image_start(request),
                events,
            ),
            ImageStepView::Finish(reply) => if was_sized(image_start(request), events) {
                was_restored(image_start(request), request, events)
            } else {
                reply is Error
            },
        },
    decreases events.len(),
{
    let start = image_start(request);
    assert(events.take(events.len() as int) =~= events);
    if events.len() == 0 {
        assert forall|n: int| 0 <= n <= 0 implies !((#[trigger] image_after(
            start,
            events.take(n),
        )) is Capture) by {
            assert(events.take(n) =~= events);
        }
    } else {
        let prior = events.drop_last();
        let before = image_after(start, prior);
        lemma_image_invariant(request, prior);
        assert forall|n: int| 0 <= n <= prior.len() implies #[trigger] events.take(n) == prior.take(
            n,
        ) by {
            assert(events.take(n) =~= prior.take(n));
        }
        assert(prior.take(prior.len() as int) =~= prior);
        if was_sized(start, prior) {
            let n = choose|n: int|
                0 <= n <= prior.len() && (#[trigger] image_after(start, prior.take(n))) is Capture;
            assert(image_after(start, events.take(n)) is Capture);
        } else if !(image_after(start, events) is Capture) {
            assert forall|n: int| 0 <= n <= events.len() implies !((#[trigger] image_after(
                start,
                events.take(n),
            )) is Capture) by {
                if n < events.len() {
                    assert(!(image_after(start, prior.take(n)) is Capture));
                } else {
                    assert(events.take(n) =~= events);
                }
            }
        }
        if was_restored(start, request, prior) {
            let n = choose|n: int|
                0 <= n < prior.len() && (#[trigger] image_after(start, prior.take(n)) matches
                    ImageStepView::Call { command, phase, .. } && command == restore_size(request)
                    && phase is Restoring);
            assert(image_after(start, events.take(n)) == image_after(start, prior.take(n)));
        }
        let k = prior.len() as int;
        assert(events.take(k) =~= prior);
        assert(image_after(start, events.take(k)) == before);
        if image_after(start, events) is Capture {
            assert(image_after(start, events.take(events.len() as int)) is Capture);
        }
        if before matches ImageStepView::Call { phase: ImagePhaseView::Restoring { .. }, .. } {
            assert(was_restored(start, request, events));
        }
    }
}

/// Looking at a session never leaves it resized: whatever happens, a reading that gave the session
/// the size of the picture only ends after the command that gives it its own size back, on the
/// failure path as on the other. A reading that never got that far ends with an error.
pub proof fn law_image_restores_size(
    request: ImageRequestView,
    events: Seq<ImageEvent>,
    reply: ReplyView,
)
    requires
        image_after(image_start(request), events) == ImageStepView::Finish(reply),
    ensures
        was_sized(image_start(request), events) ==> was_restored(
            image_start(request),
            request,
            events,
        ),
        !was_sized(image_start(request), events) ==> reply is Error,
{
    lemma_image_invariant(request, events);
}

/// The answer that the five outcomes of a reading lead to, in the order in which they happen.
pub open spec fn image_answer(
    request: ImageRequestView,
    tab: Result<JsonView, Seq<char>>,
    pane: Result<JsonView, Seq<char>>,
    sized: Result<JsonView, Seq<char>>,
    captured: Result<Seq<char>, Seq<char>>,
    restored: Result<JsonView, Seq<char>>,
) -> ImageStepView {
    image_after(
        image_start(request),
        seq![
            ImageEvent::Replied(tab),
            ImageEvent::Replied(pane),
            ImageEvent::Replied(sized),
            ImageEvent::Captured(captured),
            ImageEvent::Replied(restored),
        ],
    )
}

/// A picture is handed back only when the pane was focused, the capture worked and the session has
/// its size back; it is then the picture that was captured.
pub proof fn law_picture_needs_every_step(
    request: ImageRequestView,
    tab: JsonView,
    pane: JsonView,
    sized: JsonView,
    captured: Result<Seq<char>, Seq<char>>,
    restored: Result<JsonView, Seq<char>>,
)
    ensures
        image_answer(request, Ok(tab), Ok(pane), Ok(sized), captured, restored)
            == ImageStepView::Finish(
            match (captured, restored) {
                (Ok(data), Ok(_)) => ReplyView::Image { data, mime_type: "image/png"@ },
                (Ok(_), Err(e)) => ReplyView::Error(
                    "captured session "@ + request.session
                        + " but could not restore its size afterwards: "@ + e,
                ),
                (Err(e), _) => ReplyView::Error(e),
            },
        ),
{
    let e5 = seq![
        ImageEvent::Replied(Ok(tab)),
        ImageEvent::Replied(Ok(pane)),
        ImageEvent::Replied(Ok(sized)),
        ImageEvent::Captured(captured),
        ImageEvent::Replied(restored),
    ];
    let e4 = e5.drop_last();
    let e3 = e4.drop_last();
    let e2 = e3.drop_last();
    let e1 = e2.drop_last();
    assert(e1.drop_last() =~= Seq::<ImageEvent>::empty());
    reveal_with_fuel(image_after, 6);
}

/// A picture is of the pane that was named: the tab is focused, then the pane, then the session is
/// given the size of the picture, and only when each of these has worked is that session captured.
pub proof fn law_named_pane_is_focused_before_the_capture(
    request: ImageRequestView,
    tab: JsonView,
    pane: JsonView,
    sized: JsonView,
)
    ensures
        ({
            let start = image_start(request);
            let after_tab = image_after(start, seq![ImageEvent::Replied(Ok(tab))]);
            let after_pane = image_after(
                start,
                seq![ImageEvent::Replied(Ok(tab)), ImageEvent::Replied(Ok(pane))],
            );
            let after_size = image_after(
                start,
                seq![
                    ImageEvent::Replied(Ok(tab)),
                    ImageEvent::Replied(Ok(pane)),
                    ImageEvent::Replied(Ok(sized)),
                ],
            );
            &&& start is Call && start->command == tab_focus(request.session, request.tab_id)
            &&& after_tab is Call && after_tab->command == pane_focus(
                request.session,
                request.pane_id,
            )
            &&& after_pane is Call && after_pane->command == session_resize(
                request.session,
                Some(request.rows as u64),
                Some(request.cols as u64),
            )
            &&& after_size == ImageStepView::Capture { request }
        }),
{
    let e3 = seq![
        ImageEvent::Replied(Ok(tab)),
        ImageEvent::Replied(Ok(pane)),
        ImageEvent::Replied(Ok(sized)),
    ];
    let e2 = seq![ImageEvent::Replied(Ok(tab)), ImageEvent::Replied(Ok(pane))];
    let e1 = seq![ImageEvent::Replied(Ok(tab))];
    assert(e3.drop_last() =~= e2);
    assert(e2.drop_last() =~= e1);
    assert(e1.drop_last() =~= Seq::<ImageEvent>::empty());
    reveal_with_fuel(image_after, 4);
}

/// What cannot be focused or sized is not captured: the reading ends with an error that names it,
/// and with the reason.
pub proof fn law_failed_focus_ends_the_reading(
    request: ImageRequestView,
    tab: JsonView,
    pane: JsonView,
    error: Seq<char>,
)
    ensures
        ({
            let start = image_start(request);
            let failed = ImageEvent::Replied(Err(error));
            &&& image_after(start, seq![failed]) == ImageStepView::Finish(
                ReplyView::Error(
                    "could not focus tab "@ + decimal(request.tab_id as nat)
                        + " to photograph it: "@ + error,
                ),
            )
            &&& image_after(start, seq![ImageEvent::Replied(Ok(tab)), failed])
                == ImageStepView::Finish(
                ReplyView::Error(
                    "could not focus pane "@ + request.pane_id + " to photograph it: "@ + error,
                ),
            )
            &&& image_after(
                start,
                seq![ImageEvent::Replied(Ok(tab)), ImageEvent::Replied(Ok(pane)), failed],
            ) == ImageStepView::Finish(
                ReplyView::Error(
                    "could not size session "@ + request.session + " for capture: "@ + error,
                ),
            )
        }),
{
    let failed = ImageEvent::Replied(Err(error));
    let e3 = seq![ImageEvent::Replied(Ok(tab)), ImageEvent::Replied(Ok(pane)), failed];
    let e2 = seq![ImageEvent::Replied(Ok(tab)), ImageEvent::Replied(Ok(pane))];
    let f2 = seq![ImageEvent::Replied(Ok(tab)), failed];
    let e1 = seq![ImageEvent::Replied(Ok(tab))];
    assert(e3.drop_last() =~= e2);
    assert(e2.drop_last() =~= e1);
    assert(f2.drop_last() =~= e1);
    assert(e1.drop_last() =~= Seq::<ImageEvent>::empty());
    assert(seq![failed].drop_last() =~= Seq::<ImageEvent>::empty());
    reveal_with_fuel(image_after, 4);
}

/// A capture, whatever it brought, is followed by the command that gives the session its own size
/// back.
pub proof fn law_size_is_restored_after_every_capture(
    request: ImageRequestView,
    captured: Result<Seq<char>, Seq<char>>,
)
    ensures
        image_captured(request, captured) == (ImageStepView::Call {
            command: session_resize(request.session, None, None),
            request,
            phase: ImagePhaseView::Restoring { captured },
        }),
{
}

/// The outcome of a capture is seen as what it holds.
pub proof fn law_capture_is_seen_whole(data: String, error: String)
    ensures
        capture_view(Ok(data)) == Ok::<Seq<char>, Seq<char>>(data@),
        capture_view(Err(error)) == Err::<Seq<char>, Seq<char>>(error@),
{
}

/// What is photographed is the session, the tab and the pane that were asked for, in as many rows and
/// columns as the window holds beside the two bars.
pub proof fn law_request_is_what_was_asked(p: ReadImageParams, viewport: (u32, u32))
    ensures
        ({
            let request = image_request(p, viewport);
            &&& request.session == p.session@
            &&& request.tab_id == p.tab_id
            &&& request.pane_id == p.pane_id@
            &&& request.cols * 10 <= viewport.0 < (request.cols + 1) * 10
            &&& viewport.1 >= 38 ==> (request.rows + 2) * 19 <= viewport.1 < (request.rows + 3) * 19
            &&& viewport.1 < 38 ==> request.rows == 0
        }),
{
}

} // verus!
