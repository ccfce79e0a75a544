//! What each command tells the control API, member by member.

use vstd::prelude::*;
use vstd::string::*;
use crate::json::{JsonView, Number};
use crate::params::{CreatePaneParams, CreateSessionParams, CreateTabParams, PaneIdParams};
use crate::params::{RenamePaneParams, RenameSessionParams, RenameTabParams, ResizePaneParams};
use crate::params::{ScreenHistoryParams, SessionNameParams, TabIdParams};
use crate::tools::{input_keys, input_mouse, input_text, pane_close, pane_create, pane_focus};
use crate::tools::{pane_history, pane_list, pane_rename, pane_resize, screen_snapshot};
use crate::tools::{screen_subscribe, session_create, session_kill, session_list, session_rename};
use crate::tools::{session_resize, tab_close, tab_create, tab_focus, tab_list, tab_rename};

verus! {

/// The names of members differ from each other, each in its length or in one of its first
/// characters.
pub(crate) proof fn lemma_member_names()
    ensures
        "x"@.len() == 1 && "x"@[0] == 'x',
        "y"@.len() == 1 && "y"@[0] == 'y',
        "cmd"@.len() == 3 && "cmd"@[1] == 'm',
        "cwd"@.len() == 3 && "cwd"@[1] == 'w',
        "name"@.len() == 4 && "name"@[0] == 'n',
        "rows"@.len() == 4 && "rows"@[0] == 'r',
        "cols"@.len() == 4 && "cols"@[0] == 'c',
        "args"@.len() == 4 && "args"@[0] == 'a',
        "text"@.len() == 4 && "text"@[1] == 'e',
        "keys"@.len() == 4 && "keys"@[1] == 'e',
        "kind"@.len() == 4 && "kind"@[1] == 'i',
        "since"@.len() == 5 && "since"@[0] == 's',
        "limit"@.len() == 5 && "limit"@[0] == 'l',
        "layout"@.len() == 6 && "layout"@[0] == 'l',
        "tab_id"@.len() == 6 && "tab_id"@[0] == 't',
        "plugin"@.len() == 6 && "plugin"@[0] == 'p',
        "resize"@.len() == 6 && "resize"@[0] == 'r',
        "button"@.len() == 6 && "button"@[0] == 'b',
        "session"@.len() == 7 && "session"@[0] == 's',
        "command"@.len() == 7 && "command"@[0] == 'c',
        "pane_id"@.len() == 7 && "pane_id"@[0] == 'p',
        "new_name"@.len() == 8 && "new_name"@[0] == 'n',
        "floating"@.len() == 8 && "floating"@[0] == 'f',
        "pane_ids"@.len() == 8 && "pane_ids"@[0] == 'p',
        "direction"@.len() == 9 && "direction"@[0] == 'd',
        "tabs"@.len() == 4 && "tabs"@[1] == 'a',
        "panes"@.len() == 5 && "panes"@[0] == 'p',
        "screens"@.len() == 7 && "screens"@[0] == 's',
        "error"@.len() == 5 && "error"@[0] == 'e',
        "lines"@.len() == 5 && "lines"@[0] == 'l',
        "session"@[1] == 'e' && "screens"@[1] == 'c' && "lines"@[1] == 'i' && "limit"@[2] == 'm',
        "keys"@[0] == 'k' && "kind"@[0] == 'k' && "text"@[0] == 't' && "tabs"@[0] == 't',
{
    reveal_strlit("x");
    reveal_strlit("y");
    reveal_strlit("cmd");
    reveal_strlit("cwd");
    reveal_strlit("name");
    reveal_strlit("rows");
    reveal_strlit("cols");
    reveal_strlit("args");
    reveal_strlit("text");
    reveal_strlit("keys");
    reveal_strlit("kind");
    reveal_strlit("since");
    reveal_strlit("limit");
    reveal_strlit("layout");
    reveal_strlit("tab_id");
    reveal_strlit("plugin");
    reveal_strlit("resize");
    reveal_strlit("button");
    reveal_strlit("session");
    reveal_strlit("command");
    reveal_strlit("pane_id");
    reveal_strlit("new_name");
    reveal_strlit("floating");
    reveal_strlit("pane_ids");
    reveal_strlit("direction");
    reveal_strlit("tabs");
    reveal_strlit("panes");
    reveal_strlit("screens");
    reveal_strlit("error");
    reveal_strlit("lines");
}

/// Listing the sessions takes no parameter.
pub proof fn law_list_sessions_asks_for_all()
    ensures
        ({
            let sent = session_list();
            &&& sent is Object
            &&& sent->Object_0.dom() == set!["cmd"@]
            &&& sent->Object_0["cmd"@] == JsonView::Text("session.list"@)
        }),
{
    lemma_member_names();
    assert(session_list()->Object_0.dom() =~= set!["cmd"@]);
}

/// A session is created with the name, the layout, the directory and the size that were asked for;
/// what was not asked for is sent as null.
pub proof fn law_create_session_sends_what_was_asked(p: CreateSessionParams)
    ensures
        ({
            let sent = session_create(p);
            &&& sent is Object
            &&& sent->Object_0.dom() == set!["cmd"@, "name"@, "layout"@, "cwd"@, "rows"@, "cols"@]
            &&& sent->Object_0["cmd"@] == JsonView::Text("session.create"@)
            &&& sent->Object_0["name"@] == (match p.name {
                Some(text) => JsonView::Text(text@),
                None => JsonView::Null,
            })
            &&& sent->Object_0["layout"@] == (match p.layout {
                Some(text) => JsonView::Text(text@),
                None => JsonView::Null,
            })
            &&& sent->Object_0["cwd"@] == (match p.cwd {
                Some(text) => JsonView::Text(text@),
                None => JsonView::Null,
            })
            &&& sent->Object_0["rows"@] == (match p.rows {
                Some(n) => JsonView::Number(Number::Unsigned(n as u64)),
                None => JsonView::Null,
            })
            &&& sent->Object_0["cols"@] == (match p.cols {
                Some(n) => JsonView::Number(Number::Unsigned(n as u64)),
                None => JsonView::Null,
            })
        }),
{
    lemma_member_names();
    assert(session_create(p)->Object_0.dom() =~= set!["cmd"@, "name"@, "layout"@, "cwd"@, "rows"@, "cols"@]);
}

/// The session that is killed is the one that was named.
pub proof fn law_kill_session_names_the_session(p: SessionNameParams)
    ensures
        ({
            let sent = session_kill(p);
            &&& sent is Object
            &&& sent->Object_0.dom() == set!["cmd"@, "name"@]
            &&& sent->Object_0["cmd"@] == JsonView::Text("session.kill"@)
            &&& sent->Object_0["name"@] == JsonView::Text(p.session@)
        }),
{
    lemma_member_names();
    assert(session_kill(p)->Object_0.dom() =~= set!["cmd"@, "name"@]);
}

/// A session is renamed from the one name to the other.
pub proof fn law_rename_session_sends_both_names(p: RenameSessionParams)
    ensures
        ({
            let sent = session_rename(p);
            &&& sent is Object
            &&& sent->Object_0.dom() == set!["cmd"@, "name"@, "new_name"@]
            &&& sent->Object_0["cmd"@] == JsonView::Text("session.rename"@)
            &&& sent->Object_0["name"@] == JsonView::Text(p.session@)
            &&& sent->Object_0["new_name"@] == JsonView::Text(p.new_name@)
        }),
{
    lemma_member_names();
    assert(session_rename(p)->Object_0.dom() =~= set!["cmd"@, "name"@, "new_name"@]);
}

/// The tabs listed are those of the session that was named.
pub proof fn law_list_tabs_names_the_session(session: Seq<char>)
    ensures
        ({
            let sent = tab_list(session);
            &&& sent is Object
            &&& sent->Object_0.dom() == set!["cmd"@, "session"@]
            &&& sent->Object_0["cmd"@] == JsonView::Text("tab.list"@)
            &&& sent->Object_0["session"@] == JsonView::Text(session)
        }),
{
    lemma_member_names();
    assert(tab_list(session)->Object_0.dom() =~= set!["cmd"@, "session"@]);
}

/// A tab is created in the session that was named, with the name and the directory asked for.
pub proof fn law_create_tab_sends_what_was_asked(p: CreateTabParams)
    ensures
        ({
            let sent = tab_create(p);
            &&& sent is Object
            &&& sent->Object_0.dom() == set!["cmd"@, "session"@, "name"@, "cwd"@]
            &&& sent->Object_0["cmd"@] == JsonView::Text("tab.create"@)
            &&& sent->Object_0["session"@] == JsonView::Text(p.session@)
            &&& sent->Object_0["name"@] == (match p.name {
                Some(text) => JsonView::Text(text@),
                None => JsonView::Null,
            })
            &&& sent->Object_0["cwd"@] == (match p.cwd {
                Some(text) => JsonView::Text(text@),
                None => JsonView::Null,
            })
        }),
{
    lemma_member_names();
    assert(tab_create(p)->Object_0.dom() =~= set!["cmd"@, "session"@, "name"@, "cwd"@]);
}

/// The tab that is closed is the one that was named.
pub proof fn law_close_tab_names_the_tab(p: TabIdParams)
    ensures
        ({
            let sent = tab_close(p);
            &&& sent is Object
            &&& sent->Object_0.dom() == set!["cmd"@, "session"@, "tab_id"@]
            &&& sent->Object_0["cmd"@] == JsonView::Text("tab.close"@)
            &&& sent->Object_0["session"@] == JsonView::Text(p.session@)
            &&& sent->Object_0["tab_id"@] == JsonView::Number(Number::Unsigned(p.tab_id))
        }),
{
    lemma_member_names();
    assert(tab_close(p)->Object_0.dom() =~= set!["cmd"@, "session"@, "tab_id"@]);
}

/// The tab that is focused is the one that was named.
pub proof fn law_focus_tab_names_the_tab(session: Seq<char>, tab_id: u64)
    ensures
        ({
            let sent = tab_focus(session, tab_id);
            &&& sent is Object
            &&& sent->Object_0.dom() == set!["cmd"@, "session"@, "tab_id"@]
            &&& sent->Object_0["cmd"@] == JsonView::Text("tab.focus"@)
            &&& sent->Object_0["session"@] == JsonView::Text(session)
            &&& sent->Object_0["tab_id"@] == JsonView::Number(Number::Unsigned(tab_id))
        }),
{
    lemma_member_names();
    assert(tab_focus(session, tab_id)->Object_0.dom() =~= set!["cmd"@, "session"@, "tab_id"@]);
}

/// The tab that is renamed is the one that was named, and its new name the one given.
pub proof fn law_rename_tab_names_the_tab(p: RenameTabParams)
    ensures
        ({
            let sent = tab_rename(p);
            &&& sent is Object
            &&& sent->Object_0.dom() == set!["cmd"@, "session"@, "tab_id"@, "name"@]
            &&& sent->Object_0["cmd"@] == JsonView::Text("tab.rename"@)
            &&& sent->Object_0["session"@] == JsonView::Text(p.session@)
            &&& sent->Object_0["tab_id"@] == JsonView::Number(Number::Unsigned(p.tab_id))
            &&& sent->Object_0["name"@] == JsonView::Text(p.name@)
        }),
{
    lemma_member_names();
    assert(tab_rename(p)->Object_0.dom() =~= set!["cmd"@, "session"@, "tab_id"@, "name"@]);
}

/// The panes listed are those of the session that was named.
pub proof fn law_list_panes_names_the_session(session: Seq<char>)
    ensures
        ({
            let sent = pane_list(session);
            &&& sent is Object
            &&& sent->Object_0.dom() == set!["cmd"@, "session"@]
            &&& sent->Object_0["cmd"@] == JsonView::Text("pane.list"@)
            &&& sent->Object_0["session"@] == JsonView::Text(session)
        }),
{
    lemma_member_names();
    assert(pane_list(session)->Object_0.dom() =~= set!["cmd"@, "session"@]);
}

/// A pane is created with everything that was asked for, each parameter under its own name and the
/// arguments in their order.
pub proof fn law_create_pane_sends_what_was_asked(p: CreatePaneParams)
    ensures
        ({
            let sent = pane_create(p);
            &&& sent is Object
            &&& sent->Object_0.dom() == set!["cmd"@, "session"@, "command"@, "plugin"@, "args"@, "cwd"@, "floating"@, "direction"@, "name"@, "tab_id"@]
            &&& sent->Object_0["cmd"@] == JsonView::Text("pane.create"@)
            &&& sent->Object_0["session"@] == JsonView::Text(p.session@)
            &&& sent->Object_0["command"@] == (match p.command {
                Some(text) => JsonView::Text(text@),
                None => JsonView::Null,
            })
            &&& sent->Object_0["plugin"@] == (match p.plugin {
                Some(text) => JsonView::Text(text@),
                None => JsonView::Null,
            })
            &&& sent->Object_0["args"@] is Array
            &&& sent->Object_0["args"@]->Array_0.len() == p.args@.len()
            &&& forall|i: int|
                0 <= i < p.args@.len() ==> #[trigger] sent->Object_0["args"@]->Array_0[i]
                    == JsonView::Text(p.args@[i]@)
            &&& sent->Object_0["cwd"@] == (match p.cwd {
                Some(text) => JsonView::Text(text@),
                None => JsonView::Null,
            })
            &&& sent->Object_0["floating"@] == JsonView::Bool(p.floating)
            &&& sent->Object_0["direction"@] == (match p.direction {
                Some(text) => JsonView::Text(text@),
                None => JsonView::Null,
            })
            &&& sent->Object_0["name"@] == (match p.name {
                Some(text) => JsonView::Text(text@),
                None => JsonView::Null,
            })
            &&& sent->Object_0["tab_id"@] == (match p.tab_id {
                Some(n) => JsonView::Number(Number::Unsigned(n as u64)),
                None => JsonView::Null,
            })
        }),
{
    lemma_member_names();
    assert(pane_create(p)->Object_0.dom() =~= set!["cmd"@, "session"@, "command"@, "plugin"@, "args"@, "cwd"@, "floating"@, "direction"@, "name"@, "tab_id"@]);
}

/// The pane that is closed is the one that was named.
pub proof fn law_close_pane_names_the_pane(p: PaneIdParams)
    ensures
        ({
            let sent = pane_close(p);
            &&& sent is Object
            &&& sent->Object_0.dom() == set!["cmd"@, "session"@, "pane_id"@]
            &&& sent->Object_0["cmd"@] == JsonView::Text("pane.close"@)
            &&& sent->Object_0["session"@] == JsonView::Text(p.session@)
            &&& sent->Object_0["pane_id"@] == JsonView::Text(p.pane_id@)
        }),
{
    lemma_member_names();
    assert(pane_close(p)->Object_0.dom() =~= set!["cmd"@, "session"@, "pane_id"@]);
}

/// The pane that is focused is the one that was named.
pub proof fn law_focus_pane_names_the_pane(session: Seq<char>, pane_id: Seq<char>)
    ensures
        ({
            let sent = pane_focus(session, pane_id);
            &&& sent is Object
            &&& sent->Object_0.dom() == set!["cmd"@, "session"@, "pane_id"@]
            &&& sent->Object_0["cmd"@] == JsonView::Text("pane.focus"@)
            &&& sent->Object_0["session"@] == JsonView::Text(session)
            &&& sent->Object_0["pane_id"@] == JsonView::Text(pane_id)
        }),
{
    lemma_member_names();
    assert(pane_focus(session, pane_id)->Object_0.dom() =~= set!["cmd"@, "session"@, "pane_id"@]);
}

/// The pane that is renamed is the one that was named, and its new name the one given.
pub proof fn law_rename_pane_names_the_pane(p: RenamePaneParams)
    ensures
        ({
            let sent = pane_rename(p);
            &&& sent is Object
            &&& sent->Object_0.dom() == set!["cmd"@, "session"@, "pane_id"@, "name"@]
            &&& sent->Object_0["cmd"@] == JsonView::Text("pane.rename"@)
            &&& sent->Object_0["session"@] == JsonView::Text(p.session@)
            &&& sent->Object_0["pane_id"@] == JsonView::Text(p.pane_id@)
            &&& sent->Object_0["name"@] == JsonView::Text(p.name@)
        }),
{
    lemma_member_names();
    assert(pane_rename(p)->Object_0.dom() =~= set!["cmd"@, "session"@, "pane_id"@, "name"@]);
}

/// The pane that is resized is the one that was named, in the way and the direction given.
pub proof fn law_resize_pane_names_the_pane(p: ResizePaneParams)
    ensures
        ({
            let sent = pane_resize(p);
            &&& sent is Object
            &&& sent->Object_0.dom() == set!["cmd"@, "session"@, "pane_id"@, "resize"@, "direction"@]
            &&& sent->Object_0["cmd"@] == JsonView::Text("pane.resize"@)
            &&& sent->Object_0["session"@] == JsonView::Text(p.session@)
            &&& sent->Object_0["pane_id"@] == JsonView::Text(p.pane_id@)
            &&& sent->Object_0["resize"@] == JsonView::Text(p.resize@)
            &&& sent->Object_0["direction"@] == (match p.direction {
                Some(text) => JsonView::Text(text@),
                None => JsonView::Null,
            })
        }),
{
    lemma_member_names();
    assert(pane_resize(p)->Object_0.dom() =~= set!["cmd"@, "session"@, "pane_id"@, "resize"@, "direction"@]);
}

/// Text is typed into the pane that was named; only where none was is the pane left open.
pub proof fn law_text_goes_to_the_named_pane(session: Seq<char>, pane_id: Option<Seq<char>>, text: Seq<char>)
    ensures
        ({
            let sent = input_text(session, pane_id, text);
            &&& sent is Object
            &&& sent->Object_0.dom() == set!["cmd"@, "session"@, "pane_id"@, "text"@]
            &&& sent->Object_0["cmd"@] == JsonView::Text("input.text"@)
            &&& sent->Object_0["session"@] == JsonView::Text(session)
            &&& sent->Object_0["pane_id"@] == (match pane_id {
                Some(text) => JsonView::Text(text),
                None => JsonView::Null,
            })
            &&& sent->Object_0["text"@] == JsonView::Text(text)
        }),
{
    lemma_member_names();
    assert(input_text(session, pane_id, text)->Object_0.dom() =~= set!["cmd"@, "session"@, "pane_id"@, "text"@]);
}

/// Keys are sent to the pane that was named, in their order; only where none was named is the pane
/// left open.
pub proof fn law_keys_go_to_the_named_pane(session: Seq<char>, pane_id: Option<Seq<char>>, keys: Seq<String>)
    ensures
        ({
            let sent = input_keys(session, pane_id, keys);
            &&& sent is Object
            &&& sent->Object_0.dom() == set!["cmd"@, "session"@, "pane_id"@, "keys"@]
            &&& sent->Object_0["cmd"@] == JsonView::Text("input.keys"@)
            &&& sent->Object_0["session"@] == JsonView::Text(session)
            &&& sent->Object_0["pane_id"@] == (match pane_id {
                Some(text) => JsonView::Text(text),
                None => JsonView::Null,
            })
            &&& sent->Object_0["keys"@] is Array
            &&& sent->Object_0["keys"@]->Array_0.len() == keys.len()
            &&& forall|i: int|
                0 <= i < keys.len() ==> #[trigger] sent->Object_0["keys"@]->Array_0[i]
                    == JsonView::Text(keys[i]@)
        }),
{
    lemma_member_names();
    assert(input_keys(session, pane_id, keys)->Object_0.dom() =~= set!["cmd"@, "session"@, "pane_id"@, "keys"@]);
}

/// A mouse event is sent with the kind, the column, the row and the button given.
pub proof fn law_mouse_event_is_sent_as_given(
    session: Seq<char>,
    kind: Seq<char>,
    x: u64,
    y: u64,
    button: Option<Seq<char>>,
)
    ensures
        ({
            let sent = input_mouse(session, kind, x, y, button);
            &&& sent is Object
            &&& sent->Object_0.dom() == set!["cmd"@, "session"@, "kind"@, "x"@, "y"@, "button"@]
            &&& sent->Object_0["cmd"@] == JsonView::Text("input.mouse"@)
            &&& sent->Object_0["session"@] == JsonView::Text(session)
            &&& sent->Object_0["kind"@] == JsonView::Text(kind)
            &&& sent->Object_0["x"@] == JsonView::Number(Number::Unsigned(x))
            &&& sent->Object_0["y"@] == JsonView::Number(Number::Unsigned(y))
            &&& sent->Object_0["button"@] == (match button {
                Some(text) => JsonView::Text(text),
                None => JsonView::Null,
            })
        }),
{
    lemma_member_names();
    assert(input_mouse(session, kind, x, y, button)->Object_0.dom() =~= set!["cmd"@, "session"@, "kind"@, "x"@, "y"@, "button"@]);
}

/// The screen that is read is that of the pane that was named; only where none was is the pane left
/// open.
pub proof fn law_snapshot_is_of_the_named_pane(session: Seq<char>, pane_id: Option<Seq<char>>)
    ensures
        ({
            let sent = screen_snapshot(session, pane_id);
            &&& sent is Object
            &&& sent->Object_0.dom() == set!["cmd"@, "session"@, "pane_id"@]
            &&& sent->Object_0["cmd"@] == JsonView::Text("screen.snapshot"@)
            &&& sent->Object_0["session"@] == JsonView::Text(session)
            &&& sent->Object_0["pane_id"@] == (match pane_id {
                Some(text) => JsonView::Text(text),
                None => JsonView::Null,
            })
        }),
{
    lemma_member_names();
    assert(screen_snapshot(session, pane_id)->Object_0.dom() =~= set!["cmd"@, "session"@, "pane_id"@]);
}

/// A subscription to all panes of a session names no pane.
pub proof fn law_subscription_to_all_names_no_pane(session: Seq<char>)
    ensures
        ({
            let sent = screen_subscribe(session, None);
            &&& sent is Object
            &&& sent->Object_0.dom() == set!["cmd"@, "session"@]
            &&& sent->Object_0["cmd"@] == JsonView::Text("screen.subscribe"@)
            &&& sent->Object_0["session"@] == JsonView::Text(session)
        }),
{
    lemma_member_names();
    assert(screen_subscribe(session, None)->Object_0.dom() =~= set!["cmd"@, "session"@]);
}

/// A subscription to one pane names that pane alone.
pub proof fn law_subscription_names_the_pane(session: Seq<char>, pane_id: Seq<char>)
    ensures
        ({
            let sent = screen_subscribe(session, Some(pane_id));
            &&& sent is Object
            &&& sent->Object_0.dom() == set!["cmd"@, "session"@, "pane_ids"@]
            &&& sent->Object_0["cmd"@] == JsonView::Text("screen.subscribe"@)
            &&& sent->Object_0["session"@] == JsonView::Text(session)
            &&& sent->Object_0["pane_ids"@] == JsonView::Array(seq![JsonView::Text(pane_id)])
        }),
{
    lemma_member_names();
    assert(screen_subscribe(session, Some(pane_id))->Object_0.dom() =~= set!["cmd"@, "session"@, "pane_ids"@]);
}

/// The history that is read is that of the pane that was named, from the version and up to the number
/// given.
pub proof fn law_history_is_of_the_named_pane(p: ScreenHistoryParams)
    ensures
        ({
            let sent = pane_history(p);
            &&& sent is Object
            &&& sent->Object_0.dom() == set!["cmd"@, "session"@, "pane_id"@, "since"@, "limit"@]
            &&& sent->Object_0["cmd"@] == JsonView::Text("screen.history"@)
            &&& sent->Object_0["session"@] == JsonView::Text(p.session@)
            &&& sent->Object_0["pane_id"@] == (match p.pane_id {
                Some(text) => JsonView::Text(text@),
                None => JsonView::Null,
            })
            &&& sent->Object_0["since"@] == (match p.since {
                Some(n) => JsonView::Number(Number::Unsigned(n as u64)),
                None => JsonView::Null,
            })
            &&& sent->Object_0["limit"@] == (match p.limit {
                Some(n) => JsonView::Number(Number::Unsigned(n as u64)),
                None => JsonView::Null,
            })
        }),
{
    lemma_member_names();
    assert(pane_history(p)->Object_0.dom() =~= set!["cmd"@, "session"@, "pane_id"@, "since"@, "limit"@]);
}

/// A session is given the rows and the columns asked for, or its own size back where none were.
pub proof fn law_resize_sends_the_size(session: Seq<char>, rows: Option<u64>, cols: Option<u64>)
    ensures
        ({
            let sent = session_resize(session, rows, cols);
            &&& sent is Object
            &&& sent->Object_0.dom() == set!["cmd"@, "session"@, "rows"@, "cols"@]
            &&& sent->Object_0["cmd"@] == JsonView::Text("session.resize"@)
            &&& sent->Object_0["session"@] == JsonView::Text(session)
            &&& sent->Object_0["rows"@] == (match rows {
                Some(n) => JsonView::Number(Number::Unsigned(n as u64)),
                None => JsonView::Null,
            })
            &&& sent->Object_0["cols"@] == (match cols {
                Some(n) => JsonView::Number(Number::Unsigned(n as u64)),
                None => JsonView::Null,
            })
        }),
{
    lemma_member_names();
    assert(session_resize(session, rows, cols)->Object_0.dom() =~= set!["cmd"@, "session"@, "rows"@, "cols"@]);
}

} // verus!
