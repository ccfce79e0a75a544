//! The tools: each turns its parameters into the command that the control API is sent.

use vstd::prelude::*;
use vstd::string::*;
use crate::json::{items_view, lemma_items_push, member, members_view, put, text_or_null};
use crate::json::{texts_view, unsigned_json, unsigned_or_null, Json, JsonView};
use crate::params::{CreatePaneParams, CreateSessionParams, CreateTabParams, PaneIdParams};
use crate::params::{RenamePaneParams, RenameSessionParams, RenameTabParams, ResizePaneParams};
use crate::params::{ScreenHistoryParams, SendKeysParams, SendMouseParams, SendTextParams};
use crate::params::{SessionNameParams, SessionParams, TabIdParams};
use crate::text::opt_view;
use crate::web_capture::WebCaptureConfig;

verus! {

/// What a tool call is answered with.
#[derive(Debug, PartialEq)]
pub enum ToolReply {
    /// The result of the operation, to be shown as text.
    Json(Json),
    /// A picture, base64-encoded.
    Image { data: String, mime_type: String },
    /// The request was valid and reached the tool, but the operation failed; the message is shown
    /// to the caller.
    Error(String),
}

/// What a [`ToolReply`] holds.
pub ghost enum ReplyView {
    Json(JsonView),
    Image { data: Seq<char>, mime_type: Seq<char> },
    Error(Seq<char>),
}

impl ToolReply {
    pub open spec fn view(&self) -> ReplyView {
        match self {
            ToolReply::Json(value) => ReplyView::Json(value@),
            ToolReply::Image { data, mime_type } => ReplyView::Image {
                data: data@,
                mime_type: mime_type@,
            },
            ToolReply::Error(message) => ReplyView::Error(message@),
        }
    }
}

/// The answer of the control API to one command: a result, or the reason why there is none.
pub open spec fn outcome_view(outcome: Result<Json, String>) -> Result<JsonView, Seq<char>> {
    match outcome {
        Ok(value) => Ok(value@),
        Err(e) => Err(e@),
    }
}

/// Where a tool that needs several commands stands: at a command that is to be sent once
/// `delay_ms` milliseconds have passed, with the state that takes its outcome, or at its answer.
#[derive(Debug)]
pub enum Progress<S> {
    Call { delay_ms: u64, command: Json, state: S },
    Finish(ToolReply),
}

/// What a [`Progress`] holds.
pub ghost enum ProgressView<V> {
    Call { delay_ms: u64, command: JsonView, state: V },
    Finish(ReplyView),
}

impl<S: View> Progress<S> {
    pub open spec fn view(&self) -> ProgressView<S::V> {
        match self {
            Progress::Call { delay_ms, command, state } => ProgressView::Call {
                delay_ms: *delay_ms,
                command: command@,
                state: state@,
            },
            Progress::Finish(reply) => ProgressView::Finish(reply@),
        }
    }
}

/// The answer to a tool whose one command has this outcome: its result, or its error as an error.
pub open spec fn answer_to(outcome: Result<JsonView, Seq<char>>) -> ReplyView {
    match outcome {
        Ok(value) => ReplyView::Json(value),
        Err(e) => ReplyView::Error(e),
    }
}

/// A successful answer.
pub fn ok_json(value: Json) -> (reply: ToolReply)
    ensures
        reply@ == ReplyView::Json(value@),
{
    ToolReply::Json(value)
}

/// An answer that reports a failed operation.
pub fn err_result(message: String) -> (reply: ToolReply)
    ensures
        reply@ == ReplyView::Error(message@),
{
    ToolReply::Error(message)
}

/// The members of a command of that name, before any parameter.
pub open spec fn command(cmd: Seq<char>) -> Map<Seq<char>, JsonView> {
    Map::empty().insert("cmd"@, JsonView::Text(cmd))
}

/// The members of a command of that name on a session, before any other parameter.
pub open spec fn session_command(cmd: Seq<char>, session: Seq<char>) -> Map<Seq<char>, JsonView> {
    command(cmd).insert("session"@, JsonView::Text(session))
}

fn start_command(cmd: &str) -> (members: Vec<(String, Json)>)
    ensures
        members_view(members@) == command(cmd@),
{
    let mut members: Vec<(String, Json)> = Vec::new();
    put(&mut members, "cmd", Json::text(cmd));
    members
}

fn start_session_command(cmd: &str, session: &str) -> (members: Vec<(String, Json)>)
    ensures
        members_view(members@) == session_command(cmd@, session@),
{
    let mut members = start_command(cmd);
    put(&mut members, "session", Json::text(session));
    members
}

/// List a session's tabs.
pub open spec fn tab_list(session: Seq<char>) -> JsonView {
    JsonView::Object(session_command("tab.list"@, session))
}

/// List a session's panes.
pub open spec fn pane_list(session: Seq<char>) -> JsonView {
    JsonView::Object(session_command("pane.list"@, session))
}

/// Follow one pane of a session, or all of them.
pub open spec fn screen_subscribe(session: Seq<char>, pane_id: Option<Seq<char>>) -> JsonView {
    let members = session_command("screen.subscribe"@, session);
    match pane_id {
        Some(id) => JsonView::Object(
            members.insert("pane_ids"@, JsonView::Array(seq![JsonView::Text(id)])),
        ),
        None => JsonView::Object(members),
    }
}

/// Read the current screen of a pane.
pub open spec fn screen_snapshot(session: Seq<char>, pane_id: Option<Seq<char>>) -> JsonView {
    JsonView::Object(
        session_command("screen.snapshot"@, session).insert("pane_id"@, text_or_null(pane_id)),
    )
}

/// Focus a tab.
pub open spec fn tab_focus(session: Seq<char>, tab_id: u64) -> JsonView {
    JsonView::Object(
        session_command("tab.focus"@, session).insert("tab_id"@, unsigned_json(tab_id)),
    )
}

/// Focus a pane.
pub open spec fn pane_focus(session: Seq<char>, pane_id: Seq<char>) -> JsonView {
    JsonView::Object(
        session_command("pane.focus"@, session).insert("pane_id"@, JsonView::Text(pane_id)),
    )
}

/// Type text into a pane.
pub open spec fn input_text(session: Seq<char>, pane_id: Option<Seq<char>>, text: Seq<char>) -> JsonView {
    JsonView::Object(
        session_command("input.text"@, session).insert("pane_id"@, text_or_null(pane_id)).insert(
            "text"@,
            JsonView::Text(text),
        ),
    )
}

/// Send keys to a pane.
pub open spec fn input_keys(session: Seq<char>, pane_id: Option<Seq<char>>, keys: Seq<String>) -> JsonView {
    JsonView::Object(
        session_command("input.keys"@, session).insert("pane_id"@, text_or_null(pane_id)).insert(
            "keys"@,
            JsonView::Array(texts_view(keys)),
        ),
    )
}

/// Send a mouse event.
pub open spec fn input_mouse(
    session: Seq<char>,
    kind: Seq<char>,
    x: u64,
    y: u64,
    button: Option<Seq<char>>,
) -> JsonView {
    JsonView::Object(
        session_command("input.mouse"@, session).insert("kind"@, JsonView::Text(kind)).insert(
            "x"@,
            unsigned_json(x),
        ).insert("y"@, unsigned_json(y)).insert("button"@, text_or_null(button)),
    )
}

/// Give a session a size, or, with no numbers, its own size back.
pub open spec fn session_resize(session: Seq<char>, rows: Option<u64>, cols: Option<u64>) -> JsonView {
    JsonView::Object(
        session_command("session.resize"@, session).insert("rows"@, unsigned_or_null(rows)).insert(
            "cols"@,
            unsigned_or_null(cols),
        ),
    )
}

/// List every session.
pub open spec fn session_list() -> JsonView {
    JsonView::Object(command("session.list"@))
}

/// Create a session.
pub open spec fn session_create(p: CreateSessionParams) -> JsonView {
    JsonView::Object(
        command("session.create"@).insert("name"@, text_or_null(opt_view(p.name))).insert(
            "layout"@,
            text_or_null(opt_view(p.layout)),
        ).insert("cwd"@, text_or_null(opt_view(p.cwd))).insert(
            "rows"@,
            unsigned_or_null(wide(p.rows)),
        ).insert("cols"@, unsigned_or_null(wide(p.cols))),
    )
}

/// Kill a session.
pub open spec fn session_kill(p: SessionNameParams) -> JsonView {
    JsonView::Object(command("session.kill"@).insert("name"@, JsonView::Text(p.session@)))
}

/// Rename a session.
pub open spec fn session_rename(p: RenameSessionParams) -> JsonView {
    JsonView::Object(
        command("session.rename"@).insert("name"@, JsonView::Text(p.session@)).insert(
            "new_name"@,
            JsonView::Text(p.new_name@),
        ),
    )
}

/// Create a tab.
pub open spec fn tab_create(p: CreateTabParams) -> JsonView {
    JsonView::Object(
        session_command("tab.create"@, p.session@).insert(
            "name"@,
            text_or_null(opt_view(p.name)),
        ).insert("cwd"@, text_or_null(opt_view(p.cwd))),
    )
}

/// Close a tab.
pub open spec fn tab_close(p: TabIdParams) -> JsonView {
    JsonView::Object(
        session_command("tab.close"@, p.session@).insert("tab_id"@, unsigned_json(p.tab_id)),
    )
}

/// Rename a tab.
pub open spec fn tab_rename(p: RenameTabParams) -> JsonView {
    JsonView::Object(
        session_command("tab.rename"@, p.session@).insert("tab_id"@, unsigned_json(p.tab_id)).insert(
            "name"@,
            JsonView::Text(p.name@),
        ),
    )
}

/// Create a pane.
pub open spec fn pane_create(p: CreatePaneParams) -> JsonView {
    JsonView::Object(
        session_command("pane.create"@, p.session@).insert(
            "command"@,
            text_or_null(opt_view(p.command)),
        ).insert("plugin"@, text_or_null(opt_view(p.plugin))).insert(
            "args"@,
            JsonView::Array(texts_view(p.args@)),
        ).insert("cwd"@, text_or_null(opt_view(p.cwd))).insert(
            "floating"@,
            JsonView::Bool(p.floating),
        ).insert("direction"@, text_or_null(opt_view(p.direction))).insert(
            "name"@,
            text_or_null(opt_view(p.name)),
        ).insert("tab_id"@, unsigned_or_null(p.tab_id)),
    )
}

/// Close a pane.
pub open spec fn pane_close(p: PaneIdParams) -> JsonView {
    JsonView::Object(
        session_command("pane.close"@, p.session@).insert("pane_id"@, JsonView::Text(p.pane_id@)),
    )
}

/// Rename a pane.
pub open spec fn pane_rename(p: RenamePaneParams) -> JsonView {
    JsonView::Object(
        session_command("pane.rename"@, p.session@).insert(
            "pane_id"@,
            JsonView::Text(p.pane_id@),
        ).insert("name"@, JsonView::Text(p.name@)),
    )
}

/// Resize a pane.
pub open spec fn pane_resize(p: ResizePaneParams) -> JsonView {
    JsonView::Object(
        session_command("pane.resize"@, p.session@).insert(
            "pane_id"@,
            JsonView::Text(p.pane_id@),
        ).insert("resize"@, JsonView::Text(p.resize@)).insert(
            "direction"@,
            text_or_null(opt_view(p.direction)),
        ),
    )
}

/// Read the recorded changes of a pane's screen.
pub open spec fn pane_history(p: ScreenHistoryParams) -> JsonView {
    JsonView::Object(
        session_command("screen.history"@, p.session@).insert(
            "pane_id"@,
            text_or_null(opt_view(p.pane_id)),
        ).insert("since"@, unsigned_or_null(p.since)).insert(
            "limit"@,
            unsigned_or_null(wide(p.limit)),
        ),
    )
}

pub fn tab_list_command(session: &str) -> (json: Json)
    ensures
        json@ == tab_list(session@),
{
    Json::Object(start_session_command("tab.list", session))
}

pub fn pane_list_command(session: &str) -> (json: Json)
    ensures
        json@ == pane_list(session@),
{
    Json::Object(start_session_command("pane.list", session))
}

pub fn screen_subscribe_command(session: &str, pane_id: &Option<String>) -> (json: Json)
    ensures
        json@ == screen_subscribe(session@, opt_view(*pane_id)),
{
    let mut members = start_session_command("screen.subscribe", session);
    match pane_id {
        Some(id) => {
            let item = Json::text(id.as_str());
            let mut ids: Vec<Json> = Vec::new();
            proof {
                lemma_items_push(ids@, item);
                assert(items_view(ids@.push(item)) =~= seq![item@]);
            }
            ids.push(item);
            put(&mut members, "pane_ids", Json::Array(ids));
        },
        None => {},
    }
    Json::Object(members)
}

pub fn screen_snapshot_command(session: &str, pane_id: &Option<String>) -> (json: Json)
    ensures
        json@ == screen_snapshot(session@, opt_view(*pane_id)),
{
    let mut members = start_session_command("screen.snapshot", session);
    put(&mut members, "pane_id", Json::text_or_null(pane_id));
    Json::Object(members)
}

pub fn tab_focus_command(session: &str, tab_id: u64) -> (json: Json)
    ensures
        json@ == tab_focus(session@, tab_id),
{
    let mut members = start_session_command("tab.focus", session);
    put(&mut members, "tab_id", Json::unsigned(tab_id));
    Json::Object(members)
}

pub fn pane_focus_command(session: &str, pane_id: &str) -> (json: Json)
    ensures
        json@ == pane_focus(session@, pane_id@),
{
    let mut members = start_session_command("pane.focus", session);
    put(&mut members, "pane_id", Json::text(pane_id));
    Json::Object(members)
}

pub fn session_resize_command(session: &str, rows: Option<u64>, cols: Option<u64>) -> (json: Json)
    ensures
        json@ == session_resize(session@, rows, cols),
{
    let mut members = start_session_command("session.resize", session);
    put(&mut members, "rows", Json::unsigned_or_null(rows));
    put(&mut members, "cols", Json::unsigned_or_null(cols));
    Json::Object(members)
}

/// A size, as the 64-bit number that a command carries.
pub open spec fn wide(n: Option<usize>) -> Option<u64> {
    match n {
        Some(n) => Some(n as u64),
        None => None,
    }
}

fn widened(n: Option<usize>) -> (wide_n: Option<u64>)
    ensures
        wide_n == wide(n),
{
    match n {
        Some(n) => Some(n as u64),
        None => None,
    }
}

/// A non-negative integer, as a schema with no `format` keyword: consumers that do not know the
/// format of an unsigned integer would drop it, and `minimum` carries the constraint that matters.
pub fn tab_id_schema() -> (schema: Json)
    ensures
        schema@ == JsonView::Object(
            Map::empty().insert("type"@, JsonView::Text("integer"@)).insert(
                "minimum"@,
                unsigned_json(0),
            ),
        ),
{
    let mut members: Vec<(String, Json)> = Vec::new();
    put(&mut members, "type", Json::text("integer"));
    put(&mut members, "minimum", Json::unsigned(0));
    Json::Object(members)
}

/// The tools of one server, with the place where pictures of a session are taken.
#[derive(Debug)]
pub struct ZellijTools {
    pub web: WebCaptureConfig,
}

impl ZellijTools {
    pub fn new(web: WebCaptureConfig) -> (tools: Self)
        ensures
            tools.web == web,
    {
        ZellijTools { web }
    }

    /// The answer to a tool that sends one command and hands its outcome back.
    pub fn run(&self, outcome: Result<Json, String>) -> (reply: ToolReply)
        ensures
            reply@ == answer_to(outcome_view(outcome)),
    {
        match outcome {
            Ok(value) => ok_json(value),
            Err(e) => err_result(e),
        }
    }

    /// List every session the API can see, running or resurrectable.
    pub fn list_sessions(&self) -> (json: Json)
        ensures
            json@ == session_list(),
    {
        Json::Object(start_command("session.list"))
    }

    /// Create a new detached session.
    pub fn create_session(&self, p: &CreateSessionParams) -> (json: Json)
        ensures
            json@ == session_create(*p),
    {
        let mut members = start_command("session.create");
        put(&mut members, "name", Json::text_or_null(&p.name));
        put(&mut members, "layout", Json::text_or_null(&p.layout));
        put(&mut members, "cwd", Json::text_or_null(&p.cwd));
        put(&mut members, "rows", Json::unsigned_or_null(widened(p.rows)));
        put(&mut members, "cols", Json::unsigned_or_null(widened(p.cols)));
        Json::Object(members)
    }

    /// Kill a session and every pane in it.
    pub fn kill_session(&self, p: &SessionNameParams) -> (json: Json)
        ensures
            json@ == session_kill(*p),
    {
        let mut members = start_command("session.kill");
        put(&mut members, "name", Json::text(p.session.as_str()));
        Json::Object(members)
    }

    /// Rename a session.
    pub fn rename_session(&self, p: &RenameSessionParams) -> (json: Json)
        ensures
            json@ == session_rename(*p),
    {
        let mut members = start_command("session.rename");
        put(&mut members, "name", Json::text(p.session.as_str()));
        put(&mut members, "new_name", Json::text(p.new_name.as_str()));
        Json::Object(members)
    }

    /// List a session's tabs.
    pub fn list_tabs(&self, p: &SessionParams) -> (json: Json)
        ensures
            json@ == tab_list(p.session@),
    {
        tab_list_command(p.session.as_str())
    }

    /// Create a new tab in a session.
    pub fn create_tab(&self, p: &CreateTabParams) -> (json: Json)
        ensures
            json@ == tab_create(*p),
    {
        let mut members = start_session_command("tab.create", p.session.as_str());
        put(&mut members, "name", Json::text_or_null(&p.name));
        put(&mut members, "cwd", Json::text_or_null(&p.cwd));
        Json::Object(members)
    }

    /// Close a tab by id.
    pub fn close_tab(&self, p: &TabIdParams) -> (json: Json)
        ensures
            json@ == tab_close(*p),
    {
        let mut members = start_session_command("tab.close", p.session.as_str());
        put(&mut members, "tab_id", Json::unsigned(p.tab_id));
        Json::Object(members)
    }

    /// Focus a tab by id.
    pub fn focus_tab(&self, p: &TabIdParams) -> (json: Json)
        ensures
            json@ == tab_focus(p.session@, p.tab_id),
    {
        tab_focus_command(p.session.as_str(), p.tab_id)
    }

    /// Rename a tab by id.
    pub fn rename_tab(&self, p: &RenameTabParams) -> (json: Json)
        ensures
            json@ == tab_rename(*p),
    {
        let mut members = start_session_command("tab.rename", p.session.as_str());
        put(&mut members, "tab_id", Json::unsigned(p.tab_id));
        put(&mut members, "name", Json::text(p.name.as_str()));
        Json::Object(members)
    }

    /// List a session's panes, across every tab.
    pub fn list_panes(&self, p: &SessionParams) -> (json: Json)
        ensures
            json@ == pane_list(p.session@),
    {
        pane_list_command(p.session.as_str())
    }

    /// Create a pane: a shell command, or a plugin.
    pub fn create_pane(&self, p: &CreatePaneParams) -> (json: Json)
        ensures
            json@ == pane_create(*p),
    {
        let mut members = start_session_command("pane.create", p.session.as_str());
        put(&mut members, "command", Json::text_or_null(&p.command));
        put(&mut members, "plugin", Json::text_or_null(&p.plugin));
        put(&mut members, "args", Json::texts(&p.args));
        put(&mut members, "cwd", Json::text_or_null(&p.cwd));
        put(&mut members, "floating", Json::Bool(p.floating));
        put(&mut members, "direction", Json::text_or_null(&p.direction));
        put(&mut members, "name", Json::text_or_null(&p.name));
        put(&mut members, "tab_id", Json::unsigned_or_null(p.tab_id));
        Json::Object(members)
    }

    /// Close a pane by id.
    pub fn close_pane(&self, p: &PaneIdParams) -> (json: Json)
        ensures
            json@ == pane_close(*p),
    {
        let mut members = start_session_command("pane.close", p.session.as_str());
        put(&mut members, "pane_id", Json::text(p.pane_id.as_str()));
        Json::Object(members)
    }

    /// Focus a pane by id, and its tab.
    pub fn focus_pane(&self, p: &PaneIdParams) -> (json: Json)
        ensures
            json@ == pane_focus(p.session@, p.pane_id@),
    {
        pane_focus_command(p.session.as_str(), p.pane_id.as_str())
    }

    /// Rename a pane by id.
    pub fn rename_pane(&self, p: &RenamePaneParams) -> (json: Json)
        ensures
            json@ == pane_rename(*p),
    {
        let mut members = start_session_command("pane.rename", p.session.as_str());
        put(&mut members, "pane_id", Json::text(p.pane_id.as_str()));
        put(&mut members, "name", Json::text(p.name.as_str()));
        Json::Object(members)
    }

    /// Resize a pane: grow or shrink it, optionally in a direction.
    pub fn resize_pane(&self, p: &ResizePaneParams) -> (json: Json)
        ensures
            json@ == pane_resize(*p),
    {
        let mut members = start_session_command("pane.resize", p.session.as_str());
        put(&mut members, "pane_id", Json::text(p.pane_id.as_str()));
        put(&mut members, "resize", Json::text(p.resize.as_str()));
        put(&mut members, "direction", Json::text_or_null(&p.direction));
        Json::Object(members)
    }

    /// Type text into a pane, as if pasted.
    pub fn send_text(&self, p: &SendTextParams) -> (json: Json)
        ensures
            json@ == input_text(p.session@, opt_view(p.pane_id), p.text@),
    {
        let mut members = start_session_command("input.text", p.session.as_str());
        put(&mut members, "pane_id", Json::text_or_null(&p.pane_id));
        put(&mut members, "text", Json::text(p.text.as_str()));
        Json::Object(members)
    }

    /// Send named keys to a pane in order.
    pub fn send_keys(&self, p: &SendKeysParams) -> (json: Json)
        ensures
            json@ == input_keys(p.session@, opt_view(p.pane_id), p.keys@),
    {
        let mut members = start_session_command("input.keys", p.session.as_str());
        put(&mut members, "pane_id", Json::text_or_null(&p.pane_id));
        put(&mut members, "keys", Json::texts(&p.keys));
        Json::Object(members)
    }

    /// Send a mouse event at a column and a row of the focused tab.
    pub fn send_mouse(&self, p: &SendMouseParams) -> (json: Json)
        ensures
            json@ == input_mouse(
                p.session@,
                p.kind@,
                p.x as u64,
                p.y as u64,
                opt_view(p.button),
            ),
    {
        let mut members = start_session_command("input.mouse", p.session.as_str());
        put(&mut members, "kind", Json::text(p.kind.as_str()));
        put(&mut members, "x", Json::unsigned(p.x as u64));
        put(&mut members, "y", Json::unsigned(p.y as u64));
        put(&mut members, "button", Json::text_or_null(&p.button));
        Json::Object(members)
    }

    /// A pane's recorded screen changes, oldest first.
    pub fn screen_history(&self, p: &ScreenHistoryParams) -> (json: Json)
        ensures
            json@ == pane_history(*p),
    {
        let mut members = start_session_command("screen.history", p.session.as_str());
        put(&mut members, "pane_id", Json::text_or_null(&p.pane_id));
        put(&mut members, "since", Json::unsigned_or_null(p.since));
        put(&mut members, "limit", Json::unsigned_or_null(widened(p.limit)));
        Json::Object(members)
    }
}

/// The name of a command.
pub open spec fn command_name(value: JsonView) -> JsonView {
    member(value, "cmd"@)
}

/// Commands that move focus.
pub open spec fn moves_focus(value: JsonView) -> bool {
    command_name(value) == JsonView::Text("tab.focus"@) || command_name(value) == JsonView::Text(
        "pane.focus"@,
    )
}

/// Sending text, keys or a mouse event only writes: none of these commands moves focus, whichever
/// pane it is addressed to. Focusing a tab or a pane does.
pub proof fn law_input_never_moves_focus(
    session: Seq<char>,
    pane_id: Option<Seq<char>>,
    text: Seq<char>,
    keys: Seq<String>,
    kind: Seq<char>,
    x: u64,
    y: u64,
    button: Option<Seq<char>>,
    tab: u64,
    pane: Seq<char>,
)
    ensures
        !moves_focus(input_text(session, pane_id, text)),
        !moves_focus(input_keys(session, pane_id, keys)),
        !moves_focus(input_mouse(session, kind, x, y, button)),
        moves_focus(tab_focus(session, tab)),
        moves_focus(pane_focus(session, pane)),
{
    reveal_strlit("cmd");
    reveal_strlit("session");
    reveal_strlit("pane_id");
    reveal_strlit("text");
    reveal_strlit("keys");
    reveal_strlit("kind");
    reveal_strlit("x");
    reveal_strlit("y");
    reveal_strlit("button");
    reveal_strlit("tab_id");
    reveal_strlit("tab.focus");
    reveal_strlit("pane.focus");
    reveal_strlit("input.text");
    reveal_strlit("input.keys");
    reveal_strlit("input.mouse");
    assert("cmd"@[1] == 'm');
    assert("input.text"@[0] == 'i' && "input.keys"@[0] == 'i' && "input.mouse"@[0] == 'i');
    assert("tab.focus"@[0] == 't' && "pane.focus"@[0] == 'p');
}

/// An outcome and an answer are seen as what they hold.
pub proof fn law_answers_are_seen_whole(
    value: Json,
    error: String,
    data: String,
    mime_type: String,
)
    ensures
        outcome_view(Ok(value)) == Ok::<JsonView, Seq<char>>(value@),
        outcome_view(Err(error)) == Err::<JsonView, Seq<char>>(error@),
        ToolReply::Json(value)@ == ReplyView::Json(value@),
        ToolReply::Error(error)@ == ReplyView::Error(error@),
        (ToolReply::Image { data, mime_type })@ == (ReplyView::Image {
            data: data@,
            mime_type: mime_type@,
        }),
{
}

/// The result of a command is handed back as it came, and so is its error: a success is never shown
/// as a failure, nor a failure as a success, and different outcomes are shown differently.
pub proof fn law_outcome_is_handed_back(
    outcome: Result<JsonView, Seq<char>>,
    other: Result<JsonView, Seq<char>>,
)
    ensures
        outcome matches Ok(value) ==> answer_to(outcome) == ReplyView::Json(value),
        outcome matches Err(error) ==> answer_to(outcome) == ReplyView::Error(error),
        answer_to(outcome) == answer_to(other) ==> outcome == other,
{
}

} // verus!
