//! Attaching to a session: its tabs, its panes, and the screen of every terminal pane, in one go.

use vstd::prelude::*;
use vstd::string::*;
use crate::command_laws::lemma_member_names;
use crate::json::{as_bool, as_unsigned, items_view, lemma_items_index, lemma_items_push, member};
use crate::json::{put, Json, JsonView, Number};
use crate::params::SessionParams;
use crate::screen::{collapse_blank_lines, collapsed};
use crate::text::{concat4, decimal, decimal_of, opt_view};
use crate::tools::{err_result, ok_json, outcome_view, pane_list, pane_list_command};
use crate::tools::{screen_snapshot, screen_snapshot_command, screen_subscribe};
use crate::tools::{screen_subscribe_command, tab_list, tab_list_command, Progress, ProgressView};
use crate::tools::{ReplyView, ZellijTools};

verus! {

/// How often the screen of one pane is asked for before it is reported as missing: the first
/// content of a subscription can take a moment to arrive.
pub const PANE_ATTEMPTS: u64 = 9;

/// How long to wait before asking again, in milliseconds.
pub const PANE_RETRY_MS: u64 = 100;

/// The id of a pane whose screen is taken: any terminal pane, that is one that is no plugin, shown
/// or not, as long as it has an id.
pub open spec fn snapshot_target(pane: JsonView) -> Option<u64> {
    if as_bool(member(pane, "is_plugin"@)) == Some(true) {
        None
    } else {
        as_unsigned(member(pane, "id"@))
    }
}

/// The panes whose screens are taken, in the order in which they are listed.
pub open spec fn snapshot_targets(panes: JsonView) -> Seq<u64> {
    match member(panes, "panes"@) {
        JsonView::Array(list) => list.filter_map(|pane: JsonView| snapshot_target(pane)),
        _ => Seq::empty(),
    }
}

/// How a terminal pane is addressed.
pub open spec fn pane_label(id: u64) -> Seq<char> {
    "terminal_"@ + decimal(id as nat)
}

/// The entry for a pane whose screen could not be had.
pub open spec fn missed_screen(id: u64, error: Seq<char>) -> JsonView {
    JsonView::Object(
        Map::empty().insert("pane_id"@, JsonView::Text(pane_label(id))).insert(
            "error"@,
            JsonView::Text(error),
        ),
    )
}

/// The answer: the session, its tabs, its panes and the screens that were taken.
pub open spec fn attach_report(
    session: Seq<char>,
    tabs: JsonView,
    panes: JsonView,
    screens: Seq<JsonView>,
) -> JsonView {
    JsonView::Object(
        Map::empty().insert("session"@, JsonView::Text(session)).insert(
            "tabs"@,
            member(tabs, "tabs"@),
        ).insert("panes"@, member(panes, "panes"@)).insert("screens"@, JsonView::Array(screens)),
    )
}

/// What the last command was, with what the earlier ones brought.
#[derive(Debug)]
pub enum AttachPhase {
    ListingTabs,
    ListingPanes { tabs: Json },
    Subscribing { tabs: Json, panes: Json },
    /// The screen of pane `current` has been asked for `attempt` times; `rest` is still to come.
    Snapshotting {
        tabs: Json,
        panes: Json,
        current: u64,
        rest: Vec<u64>,
        attempt: u64,
        screens: Vec<Json>,
    },
}

/// What an [`AttachPhase`] holds.
pub ghost enum AttachPhaseView {
    ListingTabs,
    ListingPanes { tabs: JsonView },
    Subscribing { tabs: JsonView, panes: JsonView },
    Snapshotting {
        tabs: JsonView,
        panes: JsonView,
        current: u64,
        rest: Seq<u64>,
        attempt: u64,
        screens: Seq<JsonView>,
    },
}

impl AttachPhase {
    pub open spec fn view(&self) -> AttachPhaseView {
        match self {
            AttachPhase::ListingTabs => AttachPhaseView::ListingTabs,
            AttachPhase::ListingPanes { tabs } => AttachPhaseView::ListingPanes { tabs: tabs@ },
            AttachPhase::Subscribing { tabs, panes } => AttachPhaseView::Subscribing {
                tabs: tabs@,
                panes: panes@,
            },
            AttachPhase::Snapshotting { tabs, panes, current, rest, attempt, screens } =>
                AttachPhaseView::Snapshotting {
                tabs: tabs@,
                panes: panes@,
                current: *current,
                rest: rest@,
                attempt: *attempt,
                screens: items_view(screens@),
            },
        }
    }
}

/// A session that is being attached to.
#[derive(Debug)]
pub struct AttachSession {
    session: String,
    phase: AttachPhase,
}

/// What an [`AttachSession`] holds.
pub ghost struct AttachView {
    pub session: Seq<char>,
    pub phase: AttachPhaseView,
}

impl View for AttachSession {
    type V = AttachView;

    closed spec fn view(&self) -> AttachView {
        AttachView { session: self.session@, phase: self.phase@ }
    }
}

/// The first command.
pub open spec fn attach_start(session: Seq<char>) -> ProgressView<AttachView> {
    ProgressView::Call {
        delay_ms: 0,
        command: tab_list(session),
        state: AttachView { session, phase: AttachPhaseView::ListingTabs },
    }
}

/// The first of the panes `todo`, or the answer where none is left.
pub open spec fn attach_pane(
    session: Seq<char>,
    tabs: JsonView,
    panes: JsonView,
    todo: Seq<u64>,
    screens: Seq<JsonView>,
) -> ProgressView<AttachView> {
    if todo.len() == 0 {
        ProgressView::Finish(ReplyView::Json(attach_report(session, tabs, panes, screens)))
    } else {
        attach_attempt(session, tabs, panes, todo[0], todo.drop_first(), 1, screens, 0)
    }
}

/// Asking for the screen of one pane.
pub open spec fn attach_attempt(
    session: Seq<char>,
    tabs: JsonView,
    panes: JsonView,
    current: u64,
    rest: Seq<u64>,
    attempt: u64,
    screens: Seq<JsonView>,
    delay_ms: u64,
) -> ProgressView<AttachView> {
    ProgressView::Call {
        delay_ms,
        command: screen_snapshot(session, Some(pane_label(current))),
        state: AttachView {
            session,
            phase: AttachPhaseView::Snapshotting { tabs, panes, current, rest, attempt, screens },
        },
    }
}

/// What follows the outcome of the last command.
pub open spec fn attach_next(
    state: AttachView,
    outcome: Result<JsonView, Seq<char>>,
) -> ProgressView<AttachView> {
    let session = state.session;
    match state.phase {
        AttachPhaseView::ListingTabs => match outcome {
            Ok(tabs) => ProgressView::Call {
                delay_ms: 0,
                command: pane_list(session),
                state: AttachView { session, phase: AttachPhaseView::ListingPanes { tabs } },
            },
            Err(e) => ProgressView::Finish(ReplyView::Error(e)),
        },
        AttachPhaseView::ListingPanes { tabs } => match outcome {
            Ok(panes) => ProgressView::Call {
                delay_ms: 0,
                command: screen_subscribe(session, None),
                state: AttachView { session, phase: AttachPhaseView::Subscribing { tabs, panes } },
            },
            Err(e) => ProgressView::Finish(ReplyView::Error(e)),
        },
        AttachPhaseView::Subscribing { tabs, panes } => attach_pane(
            session,
            tabs,
            panes,
            snapshot_targets(panes),
            Seq::empty(),
        ),
        AttachPhaseView::Snapshotting { tabs, panes, current, rest, attempt, screens } =>
            match outcome {
            Ok(value) => attach_pane(session, tabs, panes, rest, screens.push(collapsed(value))),
            Err(e) => if attempt < PANE_ATTEMPTS {
                attach_attempt(
                    session,
                    tabs,
                    panes,
                    current,
                    rest,
                    (attempt + 1) as u64,
                    screens,
                    PANE_RETRY_MS,
                )
            } else {
                attach_pane(session, tabs, panes, rest, screens.push(missed_screen(current, e)))
            },
        },
    }
}

/// Whether the member `key` is `true`.
fn flag(pane: &Json, key: &str) -> (set: bool)
    ensures
        set == (as_bool(member(pane@, key@)) == Some(true)),
{
    match pane.get(key) {
        Some(value) => match value.as_bool() {
            Some(b) => b,
            None => false,
        },
        None => false,
    }
}

fn target_of(pane: &Json) -> (target: Option<u64>)
    ensures
        target == snapshot_target(pane@),
{
    if flag(pane, "is_plugin") {
        return None;
    }
    match pane.get("id") {
        Some(id) => id.as_unsigned(),
        None => None,
    }
}

fn targets_of(panes: &Json) -> (targets: Vec<u64>)
    ensures
        targets@ == snapshot_targets(panes@),
{
    let mut targets: Vec<u64> = Vec::new();
    match panes.get("panes") {
        Some(Json::Array(list)) => {
            let ghost views = items_view(list@);
            let ghost pick = |pane: JsonView| snapshot_target(pane);
            proof {
                lemma_items_index(list@);
                assert(views.take(0).filter_map(pick) =~= Seq::<u64>::empty());
            }
            for i in 0..list.len()
                invariant
                    views == items_view(list@),
                    views.len() == list@.len(),
                    pick == (|pane: JsonView| snapshot_target(pane)),
                    targets@ == views.take(i as int).filter_map(pick),
            {
                proof {
                    lemma_items_index(list@);
                    views.lemma_filter_map_take_succ(pick, i as int);
                }
                if let Some(id) = target_of(&list[i]) {
                    targets.push(id);
                }
                assert(targets@ =~= views.take(i + 1).filter_map(pick));
            }
            assert(views.take(views.len() as int) =~= views);
        },
        _ => {},
    }
    targets
}

fn label_of(id: u64) -> (label: String)
    ensures
        label@ == pane_label(id),
{
    let mut label = "terminal_".to_owned();
    label.append(decimal_of(id).as_str());
    label
}

fn missed(id: u64, error: String) -> (entry: Json)
    ensures
        entry@ == missed_screen(id, error@),
{
    let mut members: Vec<(String, Json)> = Vec::new();
    put(&mut members, "pane_id", Json::Text(label_of(id)));
    put(&mut members, "error", Json::Text(error));
    Json::Object(members)
}

impl ZellijTools {
    /// Begins to attach to a session.
    pub fn attach_session(&self, p: SessionParams) -> (progress: Progress<AttachSession>)
        ensures
            progress@ == attach_start(p.session@),
    {
        let command = tab_list_command(p.session.as_str());
        Progress::Call {
            delay_ms: 0,
            command,
            state: AttachSession { session: p.session, phase: AttachPhase::ListingTabs },
        }
    }
}

/// Asks for the screen of pane `current`.
fn ask(
    session: String,
    tabs: Json,
    panes: Json,
    current: u64,
    rest: Vec<u64>,
    attempt: u64,
    screens: Vec<Json>,
    delay_ms: u64,
) -> (progress: Progress<AttachSession>)
    ensures
        progress@ == attach_attempt(
            session@,
            tabs@,
            panes@,
            current,
            rest@,
            attempt,
            items_view(screens@),
            delay_ms,
        ),
{
    let command = screen_snapshot_command(session.as_str(), &Some(label_of(current)));
    let phase = AttachPhase::Snapshotting { tabs, panes, current, rest, attempt, screens };
    Progress::Call { delay_ms, command, state: AttachSession { session, phase } }
}

/// Turns to the first of the panes `todo`, or answers where none is left.
fn turn_to(
    session: String,
    tabs: Json,
    panes: Json,
    todo: Vec<u64>,
    screens: Vec<Json>,
) -> (progress: Progress<AttachSession>)
    ensures
        progress@ == attach_pane(session@, tabs@, panes@, todo@, items_view(screens@)),
{
    if todo.len() == 0 {
        let mut members: Vec<(String, Json)> = Vec::new();
        put(&mut members, "session", Json::Text(session));
        put(&mut members, "tabs", tabs.into_member("tabs"));
        put(&mut members, "panes", panes.into_member("panes"));
        put(&mut members, "screens", Json::Array(screens));
        Progress::Finish(ok_json(Json::Object(members)))
    } else {
        let mut rest = todo;
        let current = rest.remove(0);
        assert(rest@ =~= todo@.drop_first());
        ask(session, tabs, panes, current, rest, 1, screens, 0)
    }
}

/// What is to be warned of when a command has this outcome: a pane whose screen is given up.
pub open spec fn missed_warning(
    state: AttachView,
    outcome: Result<JsonView, Seq<char>>,
) -> Option<Seq<char>> {
    match (state.phase, outcome) {
        (AttachPhaseView::Snapshotting { current, attempt, .. }, Err(e)) => if attempt
            < PANE_ATTEMPTS {
            None
        } else {
            Some("attach_session: could not snapshot "@ + pane_label(current) + ": "@ + e)
        },
        _ => None,
    }
}

impl AttachSession {
    /// The warning that belongs into the log when the command that was sent last has this outcome.
    pub fn warning(&self, outcome: &Result<Json, String>) -> (warning: Option<String>)
        ensures
            opt_view(warning) == missed_warning(self@, outcome_view(*outcome)),
    {
        match &self.phase {
            AttachPhase::Snapshotting { current, attempt, .. } => match outcome {
                Err(e) => if *attempt < PANE_ATTEMPTS {
                    None
                } else {
                    Some(
                        concat4(
                            "attach_session: could not snapshot ",
                            label_of(*current).as_str(),
                            ": ",
                            e.as_str(),
                        ),
                    )
                },
                Ok(_) => None,
            },
            _ => None,
        }
    }

    /// Goes on with the outcome of the command that was sent last.
    pub fn next(self, outcome: Result<Json, String>) -> (progress: Progress<AttachSession>)
        ensures
            progress@ == attach_next(self@, outcome_view(outcome)),
    {
        let session = self.session;
        match self.phase {
            AttachPhase::ListingTabs => match outcome {
                Ok(tabs) => {
                    let command = pane_list_command(session.as_str());
                    let phase = AttachPhase::ListingPanes { tabs };
                    Progress::Call { delay_ms: 0, command, state: AttachSession { session, phase } }
                },
                Err(e) => Progress::Finish(err_result(e)),
            },
            AttachPhase::ListingPanes { tabs } => match outcome {
                Ok(panes) => {
                    let command = screen_subscribe_command(session.as_str(), &None);
                    let phase = AttachPhase::Subscribing { tabs, panes };
                    Progress::Call { delay_ms: 0, command, state: AttachSession { session, phase } }
                },
                Err(e) => Progress::Finish(err_result(e)),
            },
            AttachPhase::Subscribing { tabs, panes } => {
                let targets = targets_of(&panes);
                let screens: Vec<Json> = Vec::new();
                assert(items_view(screens@) =~= Seq::<JsonView>::empty());
                turn_to(session, tabs, panes, targets, screens)
            },
            AttachPhase::Snapshotting { tabs, panes, current, rest, attempt, screens } => {
                let mut screens = screens;
                match outcome {
                    Ok(value) => {
                        let entry = collapse_blank_lines(value);
                        proof {
                            lemma_items_push(screens@, entry);
                        }
                        screens.push(entry);
                        turn_to(session, tabs, panes, rest, screens)
                    },
                    Err(e) => {
                        if attempt < PANE_ATTEMPTS {
                            ask(
                                session,
                                tabs,
                                panes,
                                current,
                                rest,
                                attempt + 1,
                                screens,
                                PANE_RETRY_MS,
                            )
                        } else {
                            let entry = missed(current, e);
                            proof {
                                lemma_items_push(screens@, entry);
                            }
                            screens.push(entry);
                            turn_to(session, tabs, panes, rest, screens)
                        }
                    },
                }
            },
        }
    }
}

/// The answer that an attach comes to when the commands have these outcomes, one after the other;
/// `None` where it is still waiting for another one.
pub open spec fn attach_run(
    progress: ProgressView<AttachView>,
    outcomes: Seq<Result<JsonView, Seq<char>>>,
) -> Option<ReplyView>
    decreases outcomes.len(),
{
    match progress {
        ProgressView::Finish(reply) => Some(reply),
        ProgressView::Call { state, .. } => if outcomes.len() == 0 {
            None
        } else {
            attach_run(attach_next(state, outcomes[0]), outcomes.drop_first())
        },
    }
}

/// The commands that an attach sends, each with the time that is waited before it and the outcome
/// that it has, when the outcomes are these, one after the other.
pub open spec fn attach_log(
    progress: ProgressView<AttachView>,
    outcomes: Seq<Result<JsonView, Seq<char>>>,
) -> Seq<(u64, JsonView, Result<JsonView, Seq<char>>)>
    decreases outcomes.len(),
{
    match progress {
        ProgressView::Finish(_) => Seq::empty(),
        ProgressView::Call { delay_ms, command, state } => if outcomes.len() == 0 {
            Seq::empty()
        } else {
            seq![(delay_ms, command, outcomes[0])] + attach_log(
                attach_next(state, outcomes[0]),
                outcomes.drop_first(),
            )
        },
    }
}

/// The outcomes of the commands about one pane, of which there can be no more than `limit`: they
/// end with the first success, or at the limit.
pub open spec fn is_turn(turn: Seq<Result<JsonView, Seq<char>>>, limit: int) -> bool {
    &&& 0 < turn.len() <= limit
    &&& forall|i: int| 0 <= i < turn.len() - 1 ==> (#[trigger] turn[i]) is Err
    &&& turn.last() is Ok || turn.len() == limit
}

/// The entry of a pane among the screens, by the last outcome of its turn.
pub open spec fn screen_entry(id: u64, last: Result<JsonView, Seq<char>>) -> JsonView {
    match last {
        Ok(value) => collapsed(value),
        Err(e) => missed_screen(id, e),
    }
}

/// The entries of these panes, by their turns.
pub open spec fn screen_entries(
    panes: Seq<u64>,
    turns: Seq<Seq<Result<JsonView, Seq<char>>>>,
) -> Seq<JsonView> {
    Seq::new(panes.len(), |i: int| screen_entry(panes[i], turns[i].last()))
}

/// The commands about one pane, with their outcomes. Its screen is asked for at once, and again
/// after a pause.
pub open spec fn turn_log(
    session: Seq<char>,
    id: u64,
    turn: Seq<Result<JsonView, Seq<char>>>,
) -> Seq<(u64, JsonView, Result<JsonView, Seq<char>>)> {
    Seq::new(
        turn.len(),
        |i: int|
            (
                if i == 0 {
                    0u64
                } else {
                    100u64
                },
                screen_snapshot(session, Some(pane_label(id))),
                turn[i],
            ),
    )
}

/// The commands about one pane from a later attempt on, with their outcomes.
spec fn later_log(
    session: Seq<char>,
    id: u64,
    delay_ms: u64,
    turn: Seq<Result<JsonView, Seq<char>>>,
) -> Seq<(u64, JsonView, Result<JsonView, Seq<char>>)> {
    Seq::new(
        turn.len(),
        |i: int|
            (
                if i == 0 {
                    delay_ms
                } else {
                    100u64
                },
                screen_snapshot(session, Some(pane_label(id))),
                turn[i],
            ),
    )
}

/// The commands about these panes, one pane after the other, with their outcomes.
pub open spec fn turns_log(
    session: Seq<char>,
    panes: Seq<u64>,
    turns: Seq<Seq<Result<JsonView, Seq<char>>>>,
) -> Seq<(u64, JsonView, Result<JsonView, Seq<char>>)>
    decreases panes.len(),
{
    if panes.len() == 0 {
        Seq::empty()
    } else {
        turn_log(session, panes[0], turns[0]) + turns_log(
            session,
            panes.drop_first(),
            turns.drop_first(),
        )
    }
}

/// The commands that an attach sends once it has listed and subscribed, each with the outcome that
/// it has.
pub open spec fn pane_log(
    session: Seq<char>,
    tabs: JsonView,
    panes: JsonView,
    subscribed: Result<JsonView, Seq<char>>,
    outcomes: Seq<Result<JsonView, Seq<char>>>,
) -> Seq<(u64, JsonView, Result<JsonView, Seq<char>>)> {
    attach_log(attach_start(session), seq![Ok(tabs), Ok(panes), subscribed] + outcomes).skip(3)
}

/// One turn for each of the panes: the commands are those of the turns, and the answer holds for
/// each pane the entry that its own turn gives.
pub open spec fn attached_by_turns(
    session: Seq<char>,
    tabs: JsonView,
    panes: JsonView,
    turns: Seq<Seq<Result<JsonView, Seq<char>>>>,
    log: Seq<(u64, JsonView, Result<JsonView, Seq<char>>)>,
    reply: ReplyView,
) -> bool {
    let targets = snapshot_targets(panes);
    &&& turns.len() == targets.len()
    &&& forall|i: int| 0 <= i < turns.len() ==> is_turn(#[trigger] turns[i], 9)
    &&& log == turns_log(session, targets, turns)
    &&& reply == ReplyView::Json(
        attach_report(session, tabs, panes, screen_entries(targets, turns)),
    )
}

/// From any attempt at a pane on, an attach that comes to an answer takes the rest of that pane's
/// turn and a turn for each pane behind it.
proof fn lemma_attach_turns(
    session: Seq<char>,
    tabs: JsonView,
    panes: JsonView,
    current: u64,
    rest: Seq<u64>,
    attempt: u64,
    screens: Seq<JsonView>,
    delay_ms: u64,
    outcomes: Seq<Result<JsonView, Seq<char>>>,
) -> (turns: Seq<Seq<Result<JsonView, Seq<char>>>>)
    requires
        1 <= attempt <= PANE_ATTEMPTS,
        attach_run(
            attach_attempt(session, tabs, panes, current, rest, attempt, screens, delay_ms),
            outcomes,
        ) is Some,
    ensures
        turns.len() == 1 + rest.len(),
        is_turn(turns[0], PANE_ATTEMPTS + 1 - attempt),
        forall|i: int|
            0 < i < turns.len() ==> is_turn(#[trigger] turns[i], PANE_ATTEMPTS as int),
        attach_log(
            attach_attempt(session, tabs, panes, current, rest, attempt, screens, delay_ms),
            outcomes,
        ) == later_log(session, current, delay_ms, turns[0]) + turns_log(
            session,
            rest,
            turns.drop_first(),
        ),
        attach_run(
            attach_attempt(session, tabs, panes, current, rest, attempt, screens, delay_ms),
            outcomes,
        ) == Some(
            ReplyView::Json(
                attach_report(
                    session,
                    tabs,
                    panes,
                    screens + screen_entries(seq![current] + rest, turns),
                ),
            ),
        ),
    decreases outcomes.len(),
{
    let later = outcomes.drop_first();
    let todo = seq![current] + rest;
    let first = outcomes[0];
    let command = screen_snapshot(session, Some(pane_label(current)));
    assert(todo[0] == current);
    assert(todo.drop_first() =~= rest);
    if first is Err && attempt < PANE_ATTEMPTS {
        let shorter = lemma_attach_turns(
            session,
            tabs,
            panes,
            current,
            rest,
            (attempt + 1) as u64,
            screens,
            PANE_RETRY_MS,
            later,
        );
        let turn = seq![first] + shorter[0];
        let turns = seq![turn] + shorter.drop_first();
        assert(turns.drop_first() =~= shorter.drop_first());
        assert(turn.last() == shorter[0].last());
        assert forall|i: int| 0 <= i < turn.len() - 1 implies (#[trigger] turn[i]) is Err by {
            if i > 0 {
                assert(shorter[0][i - 1] is Err);
            }
        }
        assert forall|i: int| 0 < i < turns.len() implies is_turn(
            #[trigger] turns[i],
            PANE_ATTEMPTS as int,
        ) by {
            assert(turns[i] == shorter[i]);
        }
        assert(screen_entries(todo, turns) =~= screen_entries(todo, shorter));
        assert(later_log(session, current, delay_ms, turn) =~= seq![(delay_ms, command, first)]
            + later_log(session, current, PANE_RETRY_MS, shorter[0]));
        assert(later_log(session, current, delay_ms, turn) + turns_log(
            session,
            rest,
            turns.drop_first(),
        ) =~= seq![(delay_ms, command, first)] + (later_log(
            session,
            current,
            PANE_RETRY_MS,
            shorter[0],
        ) + turns_log(session, rest, shorter.drop_first())));
        turns
    } else {
        let entry = screen_entry(current, first);
        let done = screens.push(entry);
        let turn = seq![first];
        assert(later_log(session, current, delay_ms, turn) =~= seq![(delay_ms, command, first)]);
        if rest.len() == 0 {
            let turns = seq![turn];
            reveal_with_fuel(attach_run, 2);
            reveal_with_fuel(attach_log, 2);
            assert(screens + screen_entries(todo, turns) =~= done);
            assert(later_log(session, current, delay_ms, turn) + turns_log(
                session,
                rest,
                turns.drop_first(),
            ) =~= seq![(delay_ms, command, first)]);
            turns
        } else {
            let others = lemma_attach_turns(
                session,
                tabs,
                panes,
                rest[0],
                rest.drop_first(),
                1,
                done,
                0,
                later,
            );
            assert(seq![rest[0]] + rest.drop_first() =~= rest);
            let turns = seq![turn] + others;
            assert(turns.drop_first() =~= others);
            assert forall|i: int| 0 < i < turns.len() implies is_turn(
                #[trigger] turns[i],
                PANE_ATTEMPTS as int,
            ) by {
                assert(turns[i] == others[i - 1]);
            }
            assert(screens + screen_entries(todo, turns) =~= done + screen_entries(rest, others));
            assert(later_log(session, rest[0], 0, others[0]) =~= turn_log(
                session,
                rest[0],
                others[0],
            ));
            turns
        }
    }
}

/// Every attach that gets its tabs and panes, and comes to an answer, gives each pane whose screen
/// is taken a turn of its own, in the order of the panes: its screen is asked for until that
/// succeeds, or as often as the limit allows. The entry of the pane in `screens` is its first
/// success, with its blank runs collapsed, or the pane's name with the last error. The tabs and
/// panes are handed on as they came. Whether the subscription succeeded makes no difference.
pub proof fn law_attach_accounts_for_every_pane(
    session: Seq<char>,
    tabs: JsonView,
    panes: JsonView,
    subscribed: Result<JsonView, Seq<char>>,
    outcomes: Seq<Result<JsonView, Seq<char>>>,
    reply: ReplyView,
)
    requires
        attach_run(attach_start(session), seq![Ok(tabs), Ok(panes), subscribed] + outcomes) == Some(
            reply,
        ),
    ensures
        exists|turns: Seq<Seq<Result<JsonView, Seq<char>>>>| #[trigger]
            attached_by_turns(
                session,
                tabs,
                panes,
                turns,
                pane_log(session, tabs, panes, subscribed, outcomes),
                reply,
            ),
{
    lemma_attach_reaches_panes(session, tabs, panes, subscribed, outcomes);
    let log = pane_log(session, tabs, panes, subscribed, outcomes);
    let todo = snapshot_targets(panes);
    let none = Seq::<JsonView>::empty();
    if todo.len() == 0 {
        let turns = Seq::<Seq<Result<JsonView, Seq<char>>>>::empty();
        assert(screen_entries(todo, turns) =~= none);
        assert(attached_by_turns(session, tabs, panes, turns, log, reply));
    } else {
        assert(seq![todo[0]] + todo.drop_first() =~= todo);
        let turns = lemma_attach_turns(
            session,
            tabs,
            panes,
            todo[0],
            todo.drop_first(),
            1,
            none,
            0,
            outcomes,
        );
        assert(none + screen_entries(todo, turns) =~= screen_entries(todo, turns));
        assert(later_log(session, todo[0], 0, turns[0]) =~= turn_log(session, todo[0], turns[0]));
        assert(attached_by_turns(session, tabs, panes, turns, log, reply));
    }
}

/// With its tabs and panes listed, an attach turns to the panes.
proof fn lemma_attach_reaches_panes(
    session: Seq<char>,
    tabs: JsonView,
    panes: JsonView,
    subscribed: Result<JsonView, Seq<char>>,
    outcomes: Seq<Result<JsonView, Seq<char>>>,
)
    ensures
        ({
            let all = seq![Ok(tabs), Ok(panes), subscribed] + outcomes;
            let at_panes = attach_pane(
                session,
                tabs,
                panes,
                snapshot_targets(panes),
                Seq::empty(),
            );
            &&& attach_run(attach_start(session), all) == attach_run(at_panes, outcomes)
            &&& pane_log(session, tabs, panes, subscribed, outcomes) == attach_log(
                at_panes,
                outcomes,
            )
        }),
{
    let all = seq![Ok(tabs), Ok(panes), subscribed] + outcomes;
    let at_panes = attach_pane(session, tabs, panes, snapshot_targets(panes), Seq::empty());
    assert(all[0] == Ok::<JsonView, Seq<char>>(tabs));
    assert(all.drop_first()[0] == Ok::<JsonView, Seq<char>>(panes));
    assert(all.drop_first().drop_first()[0] == subscribed);
    assert(all.drop_first().drop_first().drop_first() =~= outcomes);
    reveal_with_fuel(attach_run, 4);
    reveal_with_fuel(attach_log, 4);
    assert(attach_log(attach_start(session), all).skip(3) =~= attach_log(at_panes, outcomes));
}

/// An attach always comes to an answer: each pane is asked for no more often than the limit.
pub proof fn law_attach_ends(
    session: Seq<char>,
    tabs: JsonView,
    panes: JsonView,
    subscribed: Result<JsonView, Seq<char>>,
    outcomes: Seq<Result<JsonView, Seq<char>>>,
)
    requires
        outcomes.len() >= PANE_ATTEMPTS * snapshot_targets(panes).len(),
    ensures
        attach_run(attach_start(session), seq![Ok(tabs), Ok(panes), subscribed] + outcomes) is Some,
{
    lemma_attach_reaches_panes(session, tabs, panes, subscribed, outcomes);
    let todo = snapshot_targets(panes);
    if todo.len() > 0 {
        lemma_attach_ends(
            session,
            tabs,
            panes,
            todo[0],
            todo.drop_first(),
            1,
            Seq::empty(),
            0,
            outcomes,
        );
    }
}

proof fn lemma_attach_ends(
    session: Seq<char>,
    tabs: JsonView,
    panes: JsonView,
    current: u64,
    rest: Seq<u64>,
    attempt: u64,
    screens: Seq<JsonView>,
    delay_ms: u64,
    outcomes: Seq<Result<JsonView, Seq<char>>>,
)
    requires
        1 <= attempt <= PANE_ATTEMPTS,
        outcomes.len() >= PANE_ATTEMPTS + 1 - attempt + PANE_ATTEMPTS * rest.len(),
    ensures
        attach_run(
            attach_attempt(session, tabs, panes, current, rest, attempt, screens, delay_ms),
            outcomes,
        ) is Some,
    decreases outcomes.len(),
{
    let later = outcomes.drop_first();
    if outcomes[0] is Err && attempt < PANE_ATTEMPTS {
        lemma_attach_ends(
            session,
            tabs,
            panes,
            current,
            rest,
            (attempt + 1) as u64,
            screens,
            PANE_RETRY_MS,
            later,
        );
    } else if rest.len() > 0 {
        let entry = match outcomes[0] {
            Ok(value) => collapsed(value),
            Err(e) => missed_screen(current, e),
        };
        lemma_attach_ends(
            session,
            tabs,
            panes,
            rest[0],
            rest.drop_first(),
            1,
            screens.push(entry),
            0,
            later,
        );
    } else {
        reveal_with_fuel(attach_run, 2);
    }
}

/// A session whose tabs or panes cannot be listed is answered with that error.
pub proof fn law_attach_reports_listing_errors(session: Seq<char>, tabs: JsonView, e: Seq<char>)
    ensures
        attach_run(attach_start(session), seq![Err(e)]) == Some(ReplyView::Error(e)),
        attach_run(attach_start(session), seq![Ok(tabs), Err(e)]) == Some(ReplyView::Error(e)),
{
    let one: Seq<Result<JsonView, Seq<char>>> = seq![Err(e)];
    let two: Seq<Result<JsonView, Seq<char>>> = seq![Ok(tabs), Err(e)];
    assert(two.drop_first() =~= one);
    reveal_with_fuel(attach_run, 3);
}

/// An attach begins by listing the tabs and the panes of the session and following all of them, at
/// once and in this order.
pub proof fn law_attach_lists_and_follows_first(
    session: Seq<char>,
    tabs: JsonView,
    panes: JsonView,
    subscribed: Result<JsonView, Seq<char>>,
    outcomes: Seq<Result<JsonView, Seq<char>>>,
)
    ensures
        ({
            let log = attach_log(
                attach_start(session),
                seq![Ok(tabs), Ok(panes), subscribed] + outcomes,
            );
            &&& log.len() >= 3
            &&& log[0] == (0u64, tab_list(session), Ok::<JsonView, Seq<char>>(tabs))
            &&& log[1] == (0u64, pane_list(session), Ok::<JsonView, Seq<char>>(panes))
            &&& log[2] == (0u64, screen_subscribe(session, None), subscribed)
        }),
{
    let all = seq![Ok(tabs), Ok(panes), subscribed] + outcomes;
    assert(all[0] == Ok::<JsonView, Seq<char>>(tabs));
    assert(all.drop_first()[0] == Ok::<JsonView, Seq<char>>(panes));
    assert(all.drop_first().drop_first()[0] == subscribed);
    reveal_with_fuel(attach_log, 4);
}

/// A terminal pane of this id, told by two members of the listed pane: it is not marked as a plugin,
/// and its id is a count. No other member matters.
pub open spec fn is_terminal_pane(pane: JsonView, id: u64) -> bool {
    &&& pane is Object
    &&& !(pane->Object_0.contains_key("is_plugin"@) && pane->Object_0["is_plugin"@]
        == JsonView::Bool(true))
    &&& pane->Object_0.contains_key("id"@)
    &&& pane->Object_0["id"@] == JsonView::Number(Number::Unsigned(id))
}

/// The ids are those of the terminal panes of the list, at these places: all of them, in the order
/// of the list, and nothing else.
pub open spec fn are_terminal_panes(
    ids: Seq<u64>,
    list: Seq<JsonView>,
    places: Seq<int>,
) -> bool {
    &&& places.len() == ids.len()
    &&& forall|j: int, k: int|
        0 <= j < k < places.len() ==> #[trigger] places[j] < #[trigger] places[k]
    &&& forall|k: int|
        0 <= k < places.len() ==> 0 <= #[trigger] places[k] < list.len() && is_terminal_pane(
            list[places[k]],
            ids[k],
        )
    &&& forall|i: int, id: u64|
        0 <= i < list.len() && #[trigger] is_terminal_pane(list[i], id) ==> places.contains(i)
}

/// The screens taken are those of every terminal pane that is listed, floating or not, suppressed or
/// not, in the order of the list; of plugin panes none is. Where no panes are listed, none are taken.
pub proof fn law_every_terminal_pane_is_taken(
    members: Map<Seq<char>, JsonView>,
    list: Seq<JsonView>,
)
    requires
        members.contains_key("panes"@),
        members["panes"@] == JsonView::Array(list),
    ensures
        exists|places: Seq<int>| #[trigger]
            are_terminal_panes(snapshot_targets(JsonView::Object(members)), list, places),
{
    let places = lemma_terminal_panes(list, list.len() as int);
    assert(list.take(list.len() as int) =~= list);
    assert(are_terminal_panes(snapshot_targets(JsonView::Object(members)), list, places));
}

/// Where there is no list of panes, no screen is taken.
pub proof fn law_no_list_no_screens(panes: JsonView)
    requires
        !(panes is Object && panes->Object_0.contains_key("panes"@) && panes->Object_0["panes"@]
            is Array),
    ensures
        snapshot_targets(panes) == Seq::<u64>::empty(),
{
}

proof fn lemma_terminal_panes(list: Seq<JsonView>, n: int) -> (places: Seq<int>)
    requires
        0 <= n <= list.len(),
    ensures
        are_terminal_panes(
            list.take(n).filter_map(|pane: JsonView| snapshot_target(pane)),
            list.take(n),
            places,
        ),
    decreases n,
{
    let pick = |pane: JsonView| snapshot_target(pane);
    if n == 0 {
        assert(list.take(0).filter_map(pick) =~= Seq::<u64>::empty());
        Seq::empty()
    } else {
        let before = lemma_terminal_panes(list, n - 1);
        let front = list.take(n - 1);
        let all = list.take(n);
        let pane = list[n - 1];
        list.lemma_filter_map_take_succ(pick, n - 1);
        let ids = all.filter_map(pick);
        let old_ids = front.filter_map(pick);
        assert forall|i: int| 0 <= i < n - 1 implies #[trigger] all[i] == front[i] by {}
        assert(all[n - 1] == pane);
        assert(forall|id: u64| is_terminal_pane(pane, id) <==> snapshot_target(pane) == Some(id));
        let places = match snapshot_target(pane) {
            Some(_) => before.push(n - 1),
            None => before,
        };
        assert forall|k: int| 0 <= k < places.len() implies 0 <= #[trigger] places[k] < all.len()
            && is_terminal_pane(all[places[k]], ids[k]) by {
            if k < before.len() {
                assert(places[k] == before[k]);
                assert(is_terminal_pane(front[before[k]], old_ids[k]));
                assert(ids[k] == old_ids[k]);
            }
        }
        assert forall|i: int, id: u64|
            0 <= i < all.len() && #[trigger] is_terminal_pane(all[i], id) implies places.contains(
            i,
        ) by {
            if i < n - 1 {
                assert(is_terminal_pane(front[i], id));
                let k = before.index_of(i);
                assert(places[k] == i);
            } else {
                assert(places[before.len() as int] == i);
            }
        }
        assert forall|j: int, k: int| 0 <= j < k < places.len() implies #[trigger] places[j]
            < #[trigger] places[k] by {
            assert(places[j] == before[j]);
            if k < before.len() {
                assert(places[k] == before[k]);
            }
        }
        places
    }
}

/// The answer of an attach has four members and no others: the session, its tabs and its panes as
/// they were listed, and the screens.
pub proof fn law_attach_report_holds_everything(
    session: Seq<char>,
    tabs: JsonView,
    panes: JsonView,
    screens: Seq<JsonView>,
)
    ensures
        ({
            let report = attach_report(session, tabs, panes, screens);
            &&& report is Object
            &&& report->Object_0.dom() == set!["session"@, "tabs"@, "panes"@, "screens"@]
            &&& report->Object_0["session"@] == JsonView::Text(session)
            &&& report->Object_0["tabs"@] == match tabs {
                JsonView::Object(members) if members.contains_key("tabs"@) => members["tabs"@],
                _ => JsonView::Null,
            }
            &&& report->Object_0["panes"@] == match panes {
                JsonView::Object(members) if members.contains_key("panes"@) => members["panes"@],
                _ => JsonView::Null,
            }
            &&& report->Object_0["screens"@] == JsonView::Array(screens)
        }),
{
    lemma_member_names();
    assert(attach_report(session, tabs, panes, screens)->Object_0.dom() =~= set![
        "session"@,
        "tabs"@,
        "panes"@,
        "screens"@,
    ]);
}

/// A pane whose screen could not be had is reported by its name, the word for a terminal and its id,
/// and with the error.
pub proof fn law_missed_pane_is_named(id: u64, error: Seq<char>)
    ensures
        missed_screen(id, error) is Object,
        missed_screen(id, error)->Object_0.dom() == set!["pane_id"@, "error"@],
        missed_screen(id, error)->Object_0["pane_id"@] == JsonView::Text(
            "terminal_"@ + decimal(id as nat),
        ),
        missed_screen(id, error)->Object_0["error"@] == JsonView::Text(error),
        pane_label(id) == "terminal_"@ + decimal(id as nat),
{
    lemma_member_names();
    assert(missed_screen(id, error)->Object_0.dom() =~= set!["pane_id"@, "error"@]);
}

/// A warning is given exactly when a pane is given up, that is at the ninth failure; it names the
/// pane and the error.
pub proof fn law_given_up_pane_is_warned_of(
    session: Seq<char>,
    tabs: JsonView,
    panes: JsonView,
    current: u64,
    rest: Seq<u64>,
    attempt: u64,
    screens: Seq<JsonView>,
    value: JsonView,
    error: Seq<char>,
)
    ensures
        ({
            let state = AttachView {
                session,
                phase: AttachPhaseView::Snapshotting {
                    tabs,
                    panes,
                    current,
                    rest,
                    attempt,
                    screens,
                },
            };
            &&& missed_warning(state, Ok(value)) is None
            &&& attempt < 9 ==> missed_warning(state, Err(error)) is None
            &&& attempt >= 9 ==> missed_warning(state, Err(error)) == Some(
                "attach_session: could not snapshot terminal_"@ + decimal(current as nat) + ": "@
                    + error,
            )
        }),
{
    reveal_strlit("attach_session: could not snapshot ");
    reveal_strlit("terminal_");
    reveal_strlit("attach_session: could not snapshot terminal_");
    assert("attach_session: could not snapshot "@ + "terminal_"@
        =~= "attach_session: could not snapshot terminal_"@);
    assert("attach_session: could not snapshot "@ + pane_label(current)
        =~= "attach_session: could not snapshot terminal_"@ + decimal(current as nat));
}

} // verus!
