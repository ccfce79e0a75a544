//! Reading a pane's screen: subscribe, then snapshot until the fresh content has arrived.

use vstd::prelude::*;
use crate::json::{Json, JsonView};
use crate::params::ReadScreenParams;
use crate::screen::{collapse_blank_lines, collapsed};
use crate::text::opt_view;
use crate::tools::{err_result, ok_json, outcome_view, screen_snapshot, screen_snapshot_command};
use crate::tools::{screen_subscribe, screen_subscribe_command, Progress, ProgressView, ReplyView};
use crate::tools::ZellijTools;

verus! {

/// How often a snapshot is asked for before its error is reported.
pub const SNAPSHOT_ATTEMPTS: u64 = 8;

/// How long to wait between two attempts, in milliseconds.
pub const SNAPSHOT_RETRY_MS: u64 = 100;

/// What the last command was.
#[derive(Clone, Copy, Debug, PartialEq, Eq, Structural)]
pub enum ReadPhase {
    Subscribing,
    /// A snapshot, and how many have been asked for with it.
    Snapshotting { attempt: u64 },
}

/// A screen that is being read.
#[derive(Debug)]
pub struct ReadScreen {
    session: String,
    pane_id: Option<String>,
    phase: ReadPhase,
}

/// What a [`ReadScreen`] holds.
pub ghost struct ReadScreenView {
    pub session: Seq<char>,
    pub pane_id: Option<Seq<char>>,
    pub phase: ReadPhase,
}

impl View for ReadScreen {
    type V = ReadScreenView;

    closed spec fn view(&self) -> ReadScreenView {
        ReadScreenView {
            session: self.session@,
            pane_id: opt_view(self.pane_id),
            phase: self.phase,
        }
    }
}

/// The first command: subscribing makes the server read the live pane again, so that a snapshot
/// does not find what an earlier subscription left behind.
pub open spec fn read_start(session: Seq<char>, pane_id: Option<Seq<char>>) -> ProgressView<
    ReadScreenView,
> {
    ProgressView::Call {
        delay_ms: 0,
        command: screen_subscribe(session, pane_id),
        state: ReadScreenView { session, pane_id, phase: ReadPhase::Subscribing },
    }
}

/// One more snapshot.
pub open spec fn read_attempt(state: ReadScreenView, attempt: u64, delay_ms: u64) -> ProgressView<
    ReadScreenView,
> {
    ProgressView::Call {
        delay_ms,
        command: screen_snapshot(state.session, state.pane_id),
        state: ReadScreenView { phase: ReadPhase::Snapshotting { attempt }, ..state },
    }
}

/// What follows the outcome of the last command.
pub open spec fn read_next(
    state: ReadScreenView,
    outcome: Result<JsonView, Seq<char>>,
) -> ProgressView<ReadScreenView> {
    match (state.phase, outcome) {
        (ReadPhase::Subscribing, Err(e)) => ProgressView::Finish(ReplyView::Error(e)),
        (ReadPhase::Subscribing, Ok(_)) => read_attempt(state, 1, 0),
        (ReadPhase::Snapshotting { .. }, Ok(value)) => ProgressView::Finish(
            ReplyView::Json(collapsed(value)),
        ),
        (ReadPhase::Snapshotting { attempt }, Err(e)) => if attempt < SNAPSHOT_ATTEMPTS {
            read_attempt(state, (attempt + 1) as u64, SNAPSHOT_RETRY_MS)
        } else {
            ProgressView::Finish(ReplyView::Error(e))
        },
    }
}

impl ZellijTools {
    /// Begins to read a pane's current on-screen content.
    pub fn read_screen(&self, p: ReadScreenParams) -> (progress: Progress<ReadScreen>)
        ensures
            progress@ == read_start(p.session@, opt_view(p.pane_id)),
    {
        let command = screen_subscribe_command(p.session.as_str(), &p.pane_id);
        Progress::Call {
            delay_ms: 0,
            command,
            state: ReadScreen {
                session: p.session,
                pane_id: p.pane_id,
                phase: ReadPhase::Subscribing,
            },
        }
    }
}

impl ReadScreen {
    fn snapshot(self, attempt: u64, delay_ms: u64) -> (progress: Progress<ReadScreen>)
        ensures
            progress@ == read_attempt(self@, attempt, delay_ms),
    {
        let command = screen_snapshot_command(self.session.as_str(), &self.pane_id);
        let state = ReadScreen {
            session: self.session,
            pane_id: self.pane_id,
            phase: ReadPhase::Snapshotting { attempt },
        };
        Progress::Call { delay_ms, command, state }
    }

    /// Goes on with the outcome of the command that was sent last.
    pub fn next(self, outcome: Result<Json, String>) -> (progress: Progress<ReadScreen>)
        ensures
            progress@ == read_next(self@, outcome_view(outcome)),
    {
        match self.phase {
            ReadPhase::Subscribing => match outcome {
                Ok(_) => self.snapshot(1, 0),
                Err(e) => Progress::Finish(err_result(e)),
            },
            ReadPhase::Snapshotting { attempt } => match outcome {
                Ok(value) => Progress::Finish(ok_json(collapse_blank_lines(value))),
                Err(e) => if attempt < SNAPSHOT_ATTEMPTS {
                    self.snapshot(attempt + 1, SNAPSHOT_RETRY_MS)
                } else {
                    Progress::Finish(err_result(e))
                },
            },
        }
    }
}

/// The answer that a reading comes to when the commands have these outcomes, one after the other;
/// `None` where it is still waiting for another one.
pub open spec fn read_run(
    progress: ProgressView<ReadScreenView>,
    outcomes: Seq<Result<JsonView, Seq<char>>>,
) -> Option<ReplyView>
    decreases outcomes.len(),
{
    match progress {
        ProgressView::Finish(reply) => Some(reply),
        ProgressView::Call { state, .. } => if outcomes.len() == 0 {
            None
        } else {
            read_run(read_next(state, outcomes[0]), outcomes.drop_first())
        },
    }
}

/// A subscription that fails is reported as it is; no snapshot is tried.
pub proof fn law_read_reports_subscribe_error(
    session: Seq<char>,
    pane_id: Option<Seq<char>>,
    e: Seq<char>,
)
    ensures
        read_run(read_start(session, pane_id), seq![Err(e)]) == Some(ReplyView::Error(e)),
{
    let outcomes: Seq<Result<JsonView, Seq<char>>> = seq![Err(e)];
    reveal_with_fuel(read_run, 2);
    assert(outcomes.drop_first() =~= Seq::<Result<JsonView, Seq<char>>>::empty());
}

/// From attempt `attempt` on, the run of failures `outcomes` ends with the first success.
proof fn lemma_read_settles(
    state: ReadScreenView,
    attempt: u64,
    delay_ms: u64,
    outcomes: Seq<Result<JsonView, Seq<char>>>,
)
    requires
        0 < outcomes.len(),
        1 <= attempt,
        attempt + outcomes.len() <= SNAPSHOT_ATTEMPTS + 1,
        forall|i: int| 0 <= i < outcomes.len() - 1 ==> (#[trigger] outcomes[i]) is Err,
        outcomes.last() is Ok || attempt + outcomes.len() == SNAPSHOT_ATTEMPTS + 1,
    ensures
        read_run(read_attempt(state, attempt, delay_ms), outcomes) == Some(
            match outcomes.last() {
                Ok(value) => ReplyView::Json(collapsed(value)),
                Err(e) => ReplyView::Error(e),
            },
        ),
    decreases outcomes.len(),
{
    let rest = outcomes.drop_first();
    if outcomes.len() > 1 {
        assert(outcomes[0] is Err);
        assert forall|i: int| 0 <= i < rest.len() - 1 implies (#[trigger] rest[i]) is Err by {
            assert(outcomes[i + 1] is Err);
        }
        lemma_read_settles(
            ReadScreenView { phase: ReadPhase::Snapshotting { attempt }, ..state },
            (attempt + 1) as u64,
            SNAPSHOT_RETRY_MS,
            rest,
        );
        assert(rest.last() == outcomes.last());
    } else {
        reveal_with_fuel(read_run, 2);
    }
}

/// Once subscribed, the answer is the first snapshot that succeeds, with its blank runs collapsed,
/// however many of the attempts before it failed.
pub proof fn law_read_answers_with_first_snapshot(
    session: Seq<char>,
    pane_id: Option<Seq<char>>,
    subscribed: JsonView,
    failures: Seq<Result<JsonView, Seq<char>>>,
    value: JsonView,
)
    requires
        failures.len() < 8,
        forall|i: int| 0 <= i < failures.len() ==> (#[trigger] failures[i]) is Err,
    ensures
        read_run(read_start(session, pane_id), seq![Ok(subscribed)] + failures + seq![Ok(value)])
            == Some(ReplyView::Json(collapsed(value))),
{
    let outcomes = seq![Ok(subscribed)] + failures + seq![Ok(value)];
    let rest = outcomes.drop_first();
    assert(rest =~= failures + seq![Ok(value)]);
    let state = ReadScreenView { session, pane_id, phase: ReadPhase::Subscribing };
    lemma_read_settles(state, 1, 0, rest);
    assert(outcomes[0] == Ok::<JsonView, Seq<char>>(subscribed));
}

/// When every attempt fails, the error of the last one is the answer, and there are no more
/// attempts than the limit.
pub proof fn law_read_gives_up_with_last_error(
    session: Seq<char>,
    pane_id: Option<Seq<char>>,
    subscribed: JsonView,
    failures: Seq<Result<JsonView, Seq<char>>>,
)
    requires
        failures.len() == 8,
        forall|i: int| 0 <= i < failures.len() ==> (#[trigger] failures[i]) is Err,
    ensures
        read_run(read_start(session, pane_id), seq![Ok(subscribed)] + failures) == Some(
            ReplyView::Error(failures.last()->Err_0),
        ),
{
    let outcomes = seq![Ok(subscribed)] + failures;
    let rest = outcomes.drop_first();
    assert(rest =~= failures);
    assert(failures[failures.len() - 1] is Err);
    let state = ReadScreenView { session, pane_id, phase: ReadPhase::Subscribing };
    lemma_read_settles(state, 1, 0, rest);
    assert(outcomes[0] == Ok::<JsonView, Seq<char>>(subscribed));
}

/// The commands that a reading sends, each with the time that is waited before it, when the outcomes
/// are these, one after the other; the last may still be waiting for its outcome.
pub open spec fn read_log(
    progress: ProgressView<ReadScreenView>,
    outcomes: Seq<Result<JsonView, Seq<char>>>,
) -> Seq<(u64, JsonView)>
    decreases outcomes.len(),
{
    match progress {
        ProgressView::Finish(_) => Seq::empty(),
        ProgressView::Call { delay_ms, command, state } => seq![(delay_ms, command)] + if outcomes.len()
            == 0 {
            Seq::empty()
        } else {
            read_log(read_next(state, outcomes[0]), outcomes.drop_first())
        },
    }
}

/// A reading is of the pane that was named, in the session that was named: whatever the outcomes,
/// the first command subscribes to that pane, and every other one asks for its screen, the first of
/// them at once and the others after a pause. There are eight of these at most.
pub proof fn law_read_is_of_the_named_pane(
    session: Seq<char>,
    pane_id: Option<Seq<char>>,
    outcomes: Seq<Result<JsonView, Seq<char>>>,
)
    ensures
        ({
            let log = read_log(read_start(session, pane_id), outcomes);
            &&& 1 <= log.len() <= 9
            &&& log[0] == (0u64, screen_subscribe(session, pane_id))
            &&& forall|i: int|
                0 < i < log.len() ==> #[trigger] log[i] == (
                    if i == 1 {
                        0u64
                    } else {
                        100u64
                    },
                    screen_snapshot(session, pane_id),
                )
        }),
{
    let state = ReadScreenView { session, pane_id, phase: ReadPhase::Subscribing };
    let log = read_log(read_start(session, pane_id), outcomes);
    if outcomes.len() > 0 {
        let rest = outcomes.drop_first();
        if outcomes[0] is Ok {
            lemma_read_log(state, 1, 0, rest);
            let later = read_log(read_attempt(state, 1, 0), rest);
            assert(log =~= seq![(0u64, screen_subscribe(session, pane_id))] + later);
            assert forall|i: int| 0 < i < log.len() implies #[trigger] log[i] == later[i - 1] by {}
        } else {
            reveal_with_fuel(read_log, 2);
        }
    }
}

proof fn lemma_read_log(
    state: ReadScreenView,
    attempt: u64,
    delay_ms: u64,
    outcomes: Seq<Result<JsonView, Seq<char>>>,
)
    requires
        1 <= attempt <= SNAPSHOT_ATTEMPTS,
    ensures
        ({
            let log = read_log(read_attempt(state, attempt, delay_ms), outcomes);
            let command = screen_snapshot(state.session, state.pane_id);
            &&& 1 <= log.len() <= SNAPSHOT_ATTEMPTS + 1 - attempt
            &&& log[0] == (delay_ms, command)
            &&& forall|i: int| 0 < i < log.len() ==> #[trigger] log[i] == (SNAPSHOT_RETRY_MS, command)
        }),
    decreases outcomes.len(),
{
    let log = read_log(read_attempt(state, attempt, delay_ms), outcomes);
    let command = screen_snapshot(state.session, state.pane_id);
    if outcomes.len() > 0 {
        let rest = outcomes.drop_first();
        let now = ReadScreenView { phase: ReadPhase::Snapshotting { attempt }, ..state };
        if outcomes[0] is Err && attempt < SNAPSHOT_ATTEMPTS {
            lemma_read_log(now, (attempt + 1) as u64, SNAPSHOT_RETRY_MS, rest);
            let later = read_log(
                read_attempt(now, (attempt + 1) as u64, SNAPSHOT_RETRY_MS),
                rest,
            );
            assert(log =~= seq![(delay_ms, command)] + later);
            assert forall|i: int| 0 < i < log.len() implies #[trigger] log[i] == later[i - 1] by {}
        } else {
            reveal_with_fuel(read_log, 2);
        }
    }
}

} // verus!
