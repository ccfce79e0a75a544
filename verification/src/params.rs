//! The parameters that a caller gives to each tool.

use vstd::prelude::*;

verus! {

#[derive(Debug)]
pub struct CreateSessionParams {
    /// Name for the new session. Omit to get an auto-generated one.
    pub name: Option<String>,
    /// A built-in layout name, or a path to a layout file.
    pub layout: Option<String>,
    /// Working directory for the session's initial pane.
    pub cwd: Option<String>,
    pub rows: Option<usize>,
    pub cols: Option<usize>,
}

#[derive(Debug)]
pub struct SessionNameParams {
    pub session: String,
}

#[derive(Debug)]
pub struct RenameSessionParams {
    pub session: String,
    pub new_name: String,
}

#[derive(Debug)]
pub struct SessionParams {
    pub session: String,
}

#[derive(Debug)]
pub struct CreateTabParams {
    pub session: String,
    pub name: Option<String>,
    pub cwd: Option<String>,
}

#[derive(Debug)]
pub struct TabIdParams {
    pub session: String,
    pub tab_id: u64,
}

#[derive(Debug)]
pub struct RenameTabParams {
    pub session: String,
    pub tab_id: u64,
    pub name: String,
}

#[derive(Debug)]
pub struct CreatePaneParams {
    pub session: String,
    /// A shell command to run in the new pane.
    pub command: Option<String>,
    /// A plugin URL or alias to run instead of a command. Give either `command` or `plugin`, not
    /// both.
    pub plugin: Option<String>,
    pub args: Vec<String>,
    pub cwd: Option<String>,
    pub floating: bool,
    /// `right`, `left`, `up`, or `down`. Not supported for tiled plugin panes.
    pub direction: Option<String>,
    pub name: Option<String>,
    /// Which tab to create the pane in. Defaults to the session's active tab.
    pub tab_id: Option<u64>,
}

#[derive(Debug)]
pub struct PaneIdParams {
    pub session: String,
    pub pane_id: String,
}

#[derive(Debug)]
pub struct RenamePaneParams {
    pub session: String,
    pub pane_id: String,
    pub name: String,
}

#[derive(Debug)]
pub struct ResizePaneParams {
    pub session: String,
    pub pane_id: String,
    /// `increase` or `decrease`.
    pub resize: String,
    pub direction: Option<String>,
}

#[derive(Debug)]
pub struct SendTextParams {
    pub session: String,
    /// Which pane to type into. Omit to target the focused pane.
    pub pane_id: Option<String>,
    pub text: String,
}

#[derive(Debug)]
pub struct SendKeysParams {
    pub session: String,
    pub pane_id: Option<String>,
    /// Key names in order, such as `ctrl-c`, or `down`, `down`, `enter`.
    pub keys: Vec<String>,
}

#[derive(Debug)]
pub struct SendMouseParams {
    pub session: String,
    /// `press`, `release`, or `motion`.
    pub kind: String,
    /// Column, 0-based.
    pub x: u16,
    /// Row, 0-based.
    pub y: u16,
    /// `left`, `right`, `middle`, `wheel_up`, `wheel_down`. Defaults to `left`.
    pub button: Option<String>,
}

#[derive(Debug)]
pub struct ReadScreenParams {
    pub session: String,
    /// Which pane to read. Omit to target the focused pane.
    pub pane_id: Option<String>,
}

#[derive(Debug)]
pub struct ReadImageParams {
    pub session: String,
    /// Which tab to photograph. Focused before the capture.
    pub tab_id: u64,
    /// Which pane to photograph. Focused before the capture, which also brings its tab forward.
    pub pane_id: String,
}

#[derive(Debug)]
pub struct ScreenHistoryParams {
    pub session: String,
    /// Which pane's history to read. Omit to target the focused pane.
    pub pane_id: Option<String>,
    /// Only diffs newer than this version.
    pub since: Option<u64>,
    pub limit: Option<usize>,
}

} // verus!
