//! How a session is created: claim a name, spawn its server, introduce a first client, wait for
//! the session to come up, and leave it running with nobody attached.

use vstd::prelude::*;
use vstd::string::*;
use crate::sessions::{candidate, reservation, SessionManager, StartingReservation};
use crate::text::{concat2, concat3, contains_char, done_outcome, ends_with, has_suffix, join};
use crate::text::{joined, law_ends_of_text, opt_view, views};

verus! {

/// The size of a session that is created without one. There is no terminal behind it, but its
/// panes still need a size.
pub const DEFAULT_ROWS: usize = 24;

pub const DEFAULT_COLS: usize = 80;

/// How long a freshly spawned session has to come up.
pub const SESSION_START_TIMEOUT_SECS: u64 = 10;

/// Which layout a session starts with.
#[derive(Debug, PartialEq)]
pub enum LayoutInfo {
    /// A layout that comes with the program, by name.
    BuiltIn(String),
    /// A layout file, by path.
    File(String),
}

/// What a [`LayoutInfo`] holds.
pub ghost enum LayoutView {
    BuiltIn(Seq<char>),
    File(Seq<char>),
}

impl LayoutInfo {
    pub open spec fn view(&self) -> LayoutView {
        match self {
            LayoutInfo::BuiltIn(name) => LayoutView::BuiltIn(name@),
            LayoutInfo::File(path) => LayoutView::File(path@),
        }
    }
}

/// Whether a layout parameter names a file: it holds the separator of paths, or ends as layout
/// files do.
pub open spec fn is_path(layout: Seq<char>, separator: char) -> bool {
    layout.contains(separator) || ends_with(layout, ".kdl"@)
}

/// Whether a layout parameter names a file rather than a layout that comes with the program.
pub fn looks_like_a_path(layout: &str, separator: char) -> (yes: bool)
    ensures
        yes == is_path(layout@, separator),
{
    contains_char(layout, separator) || has_suffix(layout, ".kdl")
}

/// The message about a layout file that is not there.
pub open spec fn no_layout_file(path: Seq<char>) -> Seq<char> {
    "no layout file at '"@ + path + "'"@
}

/// What a layout parameter stands for. A session whose layout file is not there would start with
/// the default layout, with no hint that what was asked for was never applied; so that is an error.
pub open spec fn layout_of(layout: Seq<char>, separator: char, found: bool) -> Result<
    LayoutView,
    Seq<char>,
> {
    if !is_path(layout, separator) {
        Ok(LayoutView::BuiltIn(layout))
    } else if found {
        Ok(LayoutView::File(layout))
    } else {
        Err(no_layout_file(layout))
    }
}

/// What a layout or a message in its place comes to.
pub open spec fn layout_outcome(outcome: Result<LayoutInfo, String>) -> Result<
    LayoutView,
    Seq<char>,
> {
    match outcome {
        Ok(layout) => Ok(layout@),
        Err(message) => Err(message@),
    }
}

/// Reads a layout parameter. `found` says whether there is a file at that path, where it is one.
pub fn layout_info_from(layout: &str, separator: char, found: bool) -> (info: Result<
    LayoutInfo,
    String,
>)
    ensures
        layout_outcome(info) == layout_of(layout@, separator, found),
{
    if looks_like_a_path(layout, separator) {
        if !found {
            return Err(concat3("no layout file at '", layout, "'"));
        }
        Ok(LayoutInfo::File(layout.to_owned()))
    } else {
        Ok(LayoutInfo::BuiltIn(layout.to_owned()))
    }
}

/// Whether web clients may attach to a session.
#[derive(Debug, PartialEq, Eq, Clone, Copy, Structural)]
pub enum WebSharing {
    On,
    Off,
    Disabled,
}

/// The options that a session is created with. What is not set comes from the user's own
/// configuration.
#[derive(Debug, PartialEq, Eq, Clone, Copy)]
pub struct SessionOptions {
    pub show_release_notes: Option<bool>,
    pub show_startup_tips: Option<bool>,
    pub web_sharing: Option<WebSharing>,
}

/// No release notes and no startup tip: both open floating panes, which would take the focus from
/// the shell that a program means to drive. Web clients are let in, because they are the only way
/// to see the session as a picture.
pub open spec fn api_options() -> SessionOptions {
    SessionOptions {
        show_release_notes: Some(false),
        show_startup_tips: Some(false),
        web_sharing: Some(WebSharing::On),
    }
}

/// The options of every session that is created here.
pub fn api_session_options() -> (options: SessionOptions)
    ensures
        options == api_options(),
{
    SessionOptions {
        show_release_notes: Some(false),
        show_startup_tips: Some(false),
        web_sharing: Some(WebSharing::On),
    }
}

/// What the first client tells the server of a new session.
#[derive(Debug, PartialEq)]
pub struct SessionAssets {
    pub options: SessionOptions,
    pub layout: Option<LayoutInfo>,
    pub rows: usize,
    pub cols: usize,
    pub cwd: Option<String>,
}

/// What [`SessionAssets`] hold.
pub ghost struct AssetsView {
    pub options: SessionOptions,
    pub layout: Option<LayoutView>,
    pub rows: usize,
    pub cols: usize,
    pub cwd: Option<Seq<char>>,
}

/// What a layout that may be missing holds.
pub open spec fn layout_view(layout: Option<LayoutInfo>) -> Option<LayoutView> {
    match layout {
        Some(layout) => Some(layout@),
        None => None,
    }
}

impl SessionAssets {
    pub open spec fn view(&self) -> AssetsView {
        AssetsView {
            options: self.options,
            layout: layout_view(self.layout),
            rows: self.rows,
            cols: self.cols,
            cwd: opt_view(self.cwd),
        }
    }
}

/// A message from the server of a session that is coming up.
#[derive(Debug)]
pub enum ServerMessage {
    /// The session has ended.
    Exit { reason: String },
    /// The server reports what went wrong.
    LogError { lines: Vec<String> },
    Connected,
    /// The session has laid out its panes.
    Render,
    /// Anything else, such as that a message of ours was passed on, which happens before the
    /// session is up.
    Other,
}

/// What a [`ServerMessage`] holds.
pub ghost enum MessageView {
    Exit(Seq<char>),
    LogError(Seq<Seq<char>>),
    Connected,
    Render,
    Other,
}

impl ServerMessage {
    pub open spec fn view(&self) -> MessageView {
        match self {
            ServerMessage::Exit { reason } => MessageView::Exit(reason@),
            ServerMessage::LogError { lines } => MessageView::LogError(views(lines@)),
            ServerMessage::Connected => MessageView::Connected,
            ServerMessage::Render => MessageView::Render,
            ServerMessage::Other => MessageView::Other,
        }
    }
}

/// What a message that may be missing holds.
pub open spec fn message_view(message: Option<ServerMessage>) -> Option<MessageView> {
    match message {
        Some(message) => Some(message@),
        None => None,
    }
}

/// What is known of a session that is coming up.
#[derive(Debug, PartialEq)]
pub enum StartVerdict {
    Started,
    Failed(String),
    KeepWaiting,
}

/// What a [`StartVerdict`] holds.
pub ghost enum VerdictView {
    Started,
    Failed(Seq<char>),
    KeepWaiting,
}

impl StartVerdict {
    pub open spec fn view(&self) -> VerdictView {
        match self {
            StartVerdict::Started => VerdictView::Started,
            StartVerdict::Failed(message) => VerdictView::Failed(message@),
            StartVerdict::KeepWaiting => VerdictView::KeepWaiting,
        }
    }
}

/// What a message tells of a session that is coming up; no message means that the connection is
/// gone. The deadline counts only against messages that decide nothing.
pub open spec fn start_verdict(message: Option<MessageView>, past_deadline: bool) -> VerdictView {
    match message {
        None => VerdictView::Failed("lost the connection while starting the session"@),
        Some(MessageView::Exit(reason)) => VerdictView::Failed(
            "session exited during startup: "@ + reason,
        ),
        Some(MessageView::LogError(lines)) => VerdictView::Failed(join(lines, "\n"@)),
        Some(MessageView::Connected) | Some(MessageView::Render) => VerdictView::Started,
        Some(MessageView::Other) => if past_deadline {
            VerdictView::Failed("timed out waiting for the session to start"@)
        } else {
            VerdictView::KeepWaiting
        },
    }
}

/// Reads one message of a session that is coming up.
pub fn wait_until_started(message: Option<ServerMessage>, past_deadline: bool) -> (verdict:
    StartVerdict)
    ensures
        verdict@ == start_verdict(message_view(message), past_deadline),
{
    match message {
        None => StartVerdict::Failed("lost the connection while starting the session".to_owned()),
        Some(ServerMessage::Exit { reason }) => StartVerdict::Failed(
            concat2("session exited during startup: ", reason.as_str()),
        ),
        Some(ServerMessage::LogError { lines }) => StartVerdict::Failed(joined(&lines, "\n")),
        Some(ServerMessage::Connected) | Some(ServerMessage::Render) => StartVerdict::Started,
        Some(ServerMessage::Other) => if past_deadline {
            StartVerdict::Failed("timed out waiting for the session to start".to_owned())
        } else {
            StartVerdict::KeepWaiting
        },
    }
}

/// What the host says about a name, and how it writes paths.
#[derive(Debug)]
pub struct HostFacts {
    /// A generated name, where one is needed and was found.
    pub generated: Option<String>,
    /// The most bytes that a name may have for its socket path to fit.
    pub longest_name: usize,
    /// Whether a session of the chosen name is running, where that is known.
    pub running: Option<bool>,
    /// What stands between the parts of a path.
    pub separator: char,
}

/// How far a creation has come.
#[derive(Debug, PartialEq, Eq, Clone, Copy, Structural)]
pub enum CreationPhase {
    Spawning,
    Connecting,
    CheckingLayout,
}

/// A creation under way, before the server is told about the session.
#[derive(Debug)]
pub struct Creation {
    reservation: StartingReservation,
    layout: Option<String>,
    cwd: Option<String>,
    rows: Option<usize>,
    cols: Option<usize>,
    separator: char,
    phase: CreationPhase,
}

/// What a [`Creation`] holds.
pub ghost struct CreationView {
    pub name: Seq<char>,
    pub layout: Option<Seq<char>>,
    pub cwd: Option<Seq<char>>,
    pub rows: Option<usize>,
    pub cols: Option<usize>,
    pub separator: char,
    pub phase: CreationPhase,
}

impl Creation {
    pub closed spec fn view(&self) -> CreationView {
        CreationView {
            name: self.reservation.spec_name(),
            layout: opt_view(self.layout),
            cwd: opt_view(self.cwd),
            rows: self.rows,
            cols: self.cols,
            separator: self.separator,
            phase: self.phase,
        }
    }
}

/// A creation whose server has been told about the session and has not answered yet.
#[derive(Debug)]
pub struct Startup {
    reservation: StartingReservation,
}

impl Startup {
    /// The name of the session.
    pub closed spec fn view(&self) -> Seq<char> {
        self.reservation.spec_name()
    }
}

/// What a creation does next.
#[derive(Debug)]
pub enum CreationStep {
    /// Spawn the server of the session of this name, and hand the outcome to
    /// [`SessionManager::proceed`].
    Spawn { session_name: String, creation: Creation },
    /// Connect to that server, and hand the outcome to [`SessionManager::proceed`].
    Connect { creation: Creation },
    /// Look for a file at this path, and hand to [`SessionManager::proceed`] whether it is there:
    /// an error, whatever it says, means that it is not.
    CheckLayout { path: String, creation: Creation },
    /// Send these to the server, receive a message, and hand it to [`SessionManager::received`].
    Start { assets: SessionAssets, startup: Startup },
    /// Receive another message, and hand it to [`SessionManager::received`].
    Receive { startup: Startup },
    /// The session is up: tell the server that this client leaves. That is the end.
    Started { session_name: String },
    /// The session could not be created. That is the end.
    Failed { message: String },
}

/// What a [`CreationStep`] holds.
pub ghost enum StepView {
    Spawn(Seq<char>, CreationView),
    Connect(CreationView),
    CheckLayout(Seq<char>, CreationView),
    Start(AssetsView, Seq<char>),
    Receive(Seq<char>),
    Started(Seq<char>),
    Failed(Seq<char>),
}

impl CreationStep {
    pub open spec fn view(&self) -> StepView {
        match self {
            CreationStep::Spawn { session_name, creation } => StepView::Spawn(
                session_name@,
                creation@,
            ),
            CreationStep::Connect { creation } => StepView::Connect(creation@),
            CreationStep::CheckLayout { path, creation } => StepView::CheckLayout(path@, creation@),
            CreationStep::Start { assets, startup } => StepView::Start(assets@, startup@),
            CreationStep::Receive { startup } => StepView::Receive(startup@),
            CreationStep::Started { session_name } => StepView::Started(session_name@),
            CreationStep::Failed { message } => StepView::Failed(message@),
        }
    }
}

/// Whether a creation has come to its end.
pub open spec fn is_end(step: StepView) -> bool {
    step is Started || step is Failed
}

/// What a creation whose server is connected tells it.
pub open spec fn assets_of(creation: CreationView, layout: Option<LayoutView>) -> AssetsView {
    AssetsView {
        options: api_options(),
        layout,
        rows: match creation.rows {
            Some(rows) => rows,
            None => DEFAULT_ROWS,
        },
        cols: match creation.cols {
            Some(cols) => cols,
            None => DEFAULT_COLS,
        },
        cwd: creation.cwd,
    }
}

/// The first step of a creation: whether its name can be claimed decides.
pub open spec fn creation_begin(
    claim: Result<Seq<char>, Seq<char>>,
    layout: Option<Seq<char>>,
    cwd: Option<Seq<char>>,
    rows: Option<usize>,
    cols: Option<usize>,
    separator: char,
) -> StepView {
    match claim {
        Err(message) => StepView::Failed(message),
        Ok(name) => StepView::Spawn(
            name,
            CreationView {
                name,
                layout,
                cwd,
                rows,
                cols,
                separator,
                phase: CreationPhase::Spawning,
            },
        ),
    }
}

/// What follows when a creation has done what its phase asks for, or has failed to.
pub open spec fn creation_next(creation: CreationView, outcome: Result<(), Seq<char>>) -> StepView {
    match creation.phase {
        CreationPhase::Spawning => match outcome {
            Ok(()) => StepView::Connect(
                CreationView { phase: CreationPhase::Connecting, ..creation },
            ),
            Err(error) => StepView::Failed("could not spawn the session server: "@ + error),
        },
        CreationPhase::Connecting => match outcome {
            Ok(()) => match creation.layout {
                None => StepView::Start(assets_of(creation, None), creation.name),
                Some(layout) => if is_path(layout, creation.separator) {
                    StepView::CheckLayout(
                        layout,
                        CreationView { phase: CreationPhase::CheckingLayout, ..creation },
                    )
                } else {
                    StepView::Start(
                        assets_of(creation, Some(LayoutView::BuiltIn(layout))),
                        creation.name,
                    )
                },
            },
            Err(error) => StepView::Failed("could not open client IPC: "@ + error),
        },
        CreationPhase::CheckingLayout => match creation.layout {
            None => StepView::Start(assets_of(creation, None), creation.name),
            Some(layout) => match layout_of(layout, creation.separator, outcome is Ok) {
                Ok(info) => StepView::Start(assets_of(creation, Some(info)), creation.name),
                Err(message) => StepView::Failed(message),
            },
        },
    }
}

/// What follows when the server of a new session has spoken, or the connection to it is gone.
pub open spec fn startup_next(
    name: Seq<char>,
    message: Option<MessageView>,
    past_deadline: bool,
) -> StepView {
    match start_verdict(message, past_deadline) {
        VerdictView::Started => StepView::Started(name),
        VerdictView::Failed(message) => StepView::Failed(message),
        VerdictView::KeepWaiting => StepView::Receive(name),
    }
}

/// The names claimed after a step of the creation of `name`: its end gives the name free.
pub open spec fn claimed_after(
    starting: Set<Seq<char>>,
    name: Seq<char>,
    step: StepView,
) -> Set<Seq<char>> {
    if is_end(step) {
        starting.remove(name)
    } else {
        starting
    }
}

impl<L> SessionManager<L> {
    /// Begins to create a session with nobody attached to it. Its name is claimed until the
    /// creation ends.
    pub fn create(
        &mut self,
        name: Option<String>,
        layout: Option<String>,
        cwd: Option<String>,
        rows: Option<usize>,
        cols: Option<usize>,
        host: HostFacts,
    ) -> (step: CreationStep)
        ensures
            final(self).links() == old(self).links(),
            ({
                let claim = reservation(
                    old(self).starting(),
                    candidate(
                        opt_view(name),
                        opt_view(host.generated),
                        host.longest_name as nat,
                    ),
                    host.running,
                );
                &&& step@ == creation_begin(
                    claim,
                    opt_view(layout),
                    opt_view(cwd),
                    rows,
                    cols,
                    host.separator,
                )
                &&& final(self).starting() == match claim {
                    Ok(name) => old(self).starting().insert(name),
                    Err(_) => old(self).starting(),
                }
            }),
    {
        let separator = host.separator;
        match self.reserve_name(name, host.generated, host.longest_name, host.running) {
            Err(message) => CreationStep::Failed { message },
            Ok(reservation) => {
                let session_name = reservation.name();
                CreationStep::Spawn {
                    session_name,
                    creation: Creation {
                        reservation,
                        layout,
                        cwd,
                        rows,
                        cols,
                        separator,
                        phase: CreationPhase::Spawning,
                    },
                }
            },
        }
    }

    /// Ends a creation that failed: its name is free again.
    fn fail(&mut self, reservation: StartingReservation, message: String) -> (step: CreationStep)
        ensures
            final(self).links() == old(self).links(),
            final(self).starting() == old(self).starting().remove(reservation.spec_name()),
            step == (CreationStep::Failed { message }),
    {
        self.release(reservation);
        CreationStep::Failed { message }
    }

    /// Goes on with a creation that has done what its last step asked for.
    pub fn proceed(&mut self, creation: Creation, outcome: Result<(), String>) -> (step:
        CreationStep)
        ensures
            final(self).links() == old(self).links(),
            step@ == creation_next(creation@, done_outcome(outcome)),
            final(self).starting() == claimed_after(
                old(self).starting(),
                creation@.name,
                step@,
            ),
    {
        let Creation { reservation, layout, cwd, rows, cols, separator, phase } = creation;
        match phase {
            CreationPhase::Spawning => match outcome {
                Ok(()) => CreationStep::Connect {
                    creation: Creation {
                        reservation,
                        layout,
                        cwd,
                        rows,
                        cols,
                        separator,
                        phase: CreationPhase::Connecting,
                    },
                },
                Err(error) => {
                    let message = concat2("could not spawn the session server: ", error.as_str());
                    self.fail(reservation, message)
                },
            },
            CreationPhase::Connecting => match outcome {
                Ok(()) => match layout {
                    None => start(reservation, None, cwd, rows, cols),
                    Some(layout) => if looks_like_a_path(layout.as_str(), separator) {
                        let path = layout.clone();
                        CreationStep::CheckLayout {
                            path,
                            creation: Creation {
                                reservation,
                                layout: Some(layout),
                                cwd,
                                rows,
                                cols,
                                separator,
                                phase: CreationPhase::CheckingLayout,
                            },
                        }
                    } else {
                        start(reservation, Some(LayoutInfo::BuiltIn(layout)), cwd, rows, cols)
                    },
                },
                Err(error) => {
                    let message = concat2("could not open client IPC: ", error.as_str());
                    self.fail(reservation, message)
                },
            },
            CreationPhase::CheckingLayout => match layout {
                None => start(reservation, None, cwd, rows, cols),
                Some(layout) => match layout_info_from(
                    layout.as_str(),
                    separator,
                    outcome.is_ok(),
                ) {
                    Ok(info) => start(reservation, Some(info), cwd, rows, cols),
                    Err(message) => self.fail(reservation, message),
                },
            },
        }
    }

    /// Goes on with a creation whose server has spoken, or whose connection is gone.
    pub fn received(
        &mut self,
        startup: Startup,
        message: Option<ServerMessage>,
        past_deadline: bool,
    ) -> (step: CreationStep)
        ensures
            final(self).links() == old(self).links(),
            step@ == startup_next(startup@, message_view(message), past_deadline),
            final(self).starting() == claimed_after(old(self).starting(), startup@, step@),
    {
        match wait_until_started(message, past_deadline) {
            StartVerdict::Started => {
                let session_name = startup.reservation.name();
                self.release(startup.reservation);
                CreationStep::Started { session_name }
            },
            StartVerdict::Failed(message) => self.fail(startup.reservation, message),
            StartVerdict::KeepWaiting => CreationStep::Receive { startup },
        }
    }
}

/// Tells the server of a new session what the session is to be.
fn start(
    reservation: StartingReservation,
    layout: Option<LayoutInfo>,
    cwd: Option<String>,
    rows: Option<usize>,
    cols: Option<usize>,
) -> (step: CreationStep)
    ensures
        step is Start,
        step->Start_startup@ == reservation.spec_name(),
        step->assets@ == (AssetsView {
            options: api_options(),
            layout: layout_view(layout),
            rows: match rows {
                Some(rows) => rows,
                None => DEFAULT_ROWS,
            },
            cols: match cols {
                Some(cols) => cols,
                None => DEFAULT_COLS,
            },
            cwd: opt_view(cwd),
        }),
{
    CreationStep::Start {
        assets: SessionAssets {
            options: api_session_options(),
            layout,
            rows: match rows {
                Some(rows) => rows,
                None => DEFAULT_ROWS,
            },
            cols: match cols {
                Some(cols) => cols,
                None => DEFAULT_COLS,
            },
            cwd,
        },
        startup: Startup { reservation },
    }
}

/// Something that happens to a creation.
pub ghost enum CreationEvent {
    /// What the last step asked for was done, or failed.
    Done(Result<(), Seq<char>>),
    /// The server spoke, or the connection is gone; and whether the deadline is past.
    Message(Option<MessageView>, bool),
}

/// What follows a step when something happens. What the step did not ask for changes nothing.
pub open spec fn creation_step(step: StepView, event: CreationEvent) -> StepView {
    match (step, event) {
        (StepView::Spawn(_, creation), CreationEvent::Done(outcome)) => creation_next(
            creation,
            outcome,
        ),
        (StepView::Connect(creation), CreationEvent::Done(outcome)) => creation_next(
            creation,
            outcome,
        ),
        (StepView::CheckLayout(_, creation), CreationEvent::Done(outcome)) => creation_next(
            creation,
            outcome,
        ),
        (StepView::Start(_, name), CreationEvent::Message(message, past_deadline)) => startup_next(
            name,
            message,
            past_deadline,
        ),
        (StepView::Receive(name), CreationEvent::Message(message, past_deadline)) => startup_next(
            name,
            message,
            past_deadline,
        ),
        _ => step,
    }
}

/// Where a creation stands after all of `events`.
pub open spec fn creation_run(step: StepView, events: Seq<CreationEvent>) -> StepView
    decreases events.len(),
{
    if events.len() == 0 {
        step
    } else {
        creation_step(creation_run(step, events.drop_last()), events.last())
    }
}

/// The names claimed after all of `events` of the creation of `name`.
pub open spec fn creation_claims(
    starting: Set<Seq<char>>,
    name: Seq<char>,
    step: StepView,
    events: Seq<CreationEvent>,
) -> Set<Seq<char>>
    decreases events.len(),
{
    if events.len() == 0 {
        starting
    } else {
        let before = creation_claims(starting, name, step, events.drop_last());
        if is_end(creation_run(step, events.drop_last())) {
            before
        } else {
            claimed_after(before, name, creation_run(step, events))
        }
    }
}

/// The name of the session that a step is about.
pub open spec fn step_name(step: StepView) -> Option<Seq<char>> {
    match step {
        StepView::Spawn(_, creation) => Some(creation.name),
        StepView::Connect(creation) => Some(creation.name),
        StepView::CheckLayout(_, creation) => Some(creation.name),
        StepView::Start(_, name) => Some(name),
        StepView::Receive(name) => Some(name),
        StepView::Started(name) => Some(name),
        StepView::Failed(_) => None,
    }
}

/// A name is claimed for exactly as long as its creation lasts. Whatever happens to it, the
/// creation holds its name until it ends, and however it ends, the names claimed are those of
/// before. A session that was started is the one that was asked for.
pub proof fn law_creation_gives_its_name_back(
    starting: Set<Seq<char>>,
    candidate: Result<Seq<char>, Seq<char>>,
    running: Option<bool>,
    name: Seq<char>,
    layout: Option<Seq<char>>,
    cwd: Option<Seq<char>>,
    rows: Option<usize>,
    cols: Option<usize>,
    separator: char,
    events: Seq<CreationEvent>,
)
    requires
        reservation(starting, candidate, running) == Ok::<Seq<char>, Seq<char>>(name),
    ensures
        ({
            let begin = creation_begin(
                reservation(starting, candidate, running),
                layout,
                cwd,
                rows,
                cols,
                separator,
            );
            let step = creation_run(begin, events);
            let claims = creation_claims(starting.insert(name), name, begin, events);
            &&& step is Failed || step_name(step) == Some(name)
            &&& step is Started || step is Failed ==> claims == starting
            &&& !(step is Started || step is Failed) ==> claims == starting.insert(name)
        }),
    decreases events.len(),
{
    assert(starting.insert(name).remove(name) =~= starting);
    if events.len() > 0 {
        law_creation_gives_its_name_back(
            starting,
            candidate,
            running,
            name,
            layout,
            cwd,
            rows,
            cols,
            separator,
            events.drop_last(),
        );
    }
}

/// Whether the server said that its session is up.
pub open spec fn says_up(event: CreationEvent) -> bool {
    match event {
        CreationEvent::Message(Some(MessageView::Connected), _) => true,
        CreationEvent::Message(Some(MessageView::Render), _) => true,
        _ => false,
    }
}

/// A session is reported as started only when its server said that it is up.
pub proof fn law_started_session_answered(begin: StepView, events: Seq<CreationEvent>)
    requires
        begin is Spawn,
        creation_run(begin, events) is Started,
    ensures
        exists|i: int| 0 <= i < events.len() && says_up(#[trigger] events[i]),
    decreases events.len(),
{
    let before = events.drop_last();
    if creation_run(begin, before) is Started {
        law_started_session_answered(begin, before);
        let i = choose|i: int| 0 <= i < before.len() && says_up(#[trigger] before[i]);
        assert(says_up(events[i]));
    } else {
        assert(says_up(events[events.len() - 1]));
    }
}

/// While the server says nothing that decides, and the deadline is not past, a creation waits; the
/// first message that decides is the one that counts.
pub proof fn law_first_deciding_message_counts(
    begin: StepView,
    name: Seq<char>,
    waiting: Seq<CreationEvent>,
    message: Option<MessageView>,
    past_deadline: bool,
)
    requires
        begin is Start || begin is Receive,
        step_name(begin) == Some(name),
        forall|i: int|
            0 <= i < waiting.len() ==> #[trigger] waiting[i] == CreationEvent::Message(
                Some(MessageView::Other),
                false,
            ),
    ensures
        creation_run(begin, waiting.push(CreationEvent::Message(message, past_deadline)))
            == startup_next(name, message, past_deadline),
    decreases waiting.len(),
{
    let all = waiting.push(CreationEvent::Message(message, past_deadline));
    assert(all.drop_last() =~= waiting);
    reveal_with_fuel(creation_run, 2);
    if waiting.len() > 0 {
        let earlier = waiting.drop_last();
        assert(waiting.last() == CreationEvent::Message(Some(MessageView::Other), false));
        assert forall|i: int| 0 <= i < earlier.len() implies #[trigger] earlier[i]
            == CreationEvent::Message(Some(MessageView::Other), false) by {
            assert(waiting[i] == earlier[i]);
        }
        law_first_deciding_message_counts(
            begin,
            name,
            earlier,
            Some(MessageView::Other),
            false,
        );
        assert(earlier.push(waiting.last()) =~= waiting);
    }
}

/// A creation does not wait for ever: what is received after the deadline ends it, whatever it is.
pub proof fn law_deadline_ends_a_creation(name: Seq<char>, message: Option<MessageView>)
    ensures
        startup_next(name, message, true) is Started || startup_next(name, message, true) is Failed,
{
}

/// What was asked for is what the server is told: a session starts with the layout of its
/// creation, never with another, and with the size and the directory of its creation.
pub proof fn law_layout_is_never_dropped(creation: CreationView, outcome: Result<(), Seq<char>>)
    requires
        creation_next(creation, outcome) is Start,
    ensures
        ({
            let assets = creation_next(creation, outcome)->Start_0;
            &&& assets.layout == match creation.layout {
                None => None,
                Some(layout) => if is_path(layout, creation.separator) {
                    Some(LayoutView::File(layout))
                } else {
                    Some(LayoutView::BuiltIn(layout))
                },
            }
            &&& assets == assets_of(creation, assets.layout)
            &&& creation_next(creation, outcome)->Start_1 == creation.name
        }),
{
}

/// The server of a new session is told what was asked for: whatever happened on the way, and with
/// any layout or none, the directory is the one that the creation was given, the size is the one
/// given or 24 rows by 80 columns, and the layout is the one given, a file where it is written as a
/// path and one that comes with the program where it is not. The greetings are off and web clients
/// are let in. The server that is spawned, and the session that is started, bear the name claimed.
pub proof fn law_server_is_told_what_was_asked(
    name: Seq<char>,
    layout: Option<Seq<char>>,
    cwd: Option<Seq<char>>,
    rows: Option<usize>,
    cols: Option<usize>,
    separator: char,
    events: Seq<CreationEvent>,
)
    ensures
        ({
            let begin = creation_begin(Ok(name), layout, cwd, rows, cols, separator);
            let step = creation_run(begin, events);
            &&& step matches StepView::Start(assets, started) ==> {
                &&& started == name
                &&& assets.cwd == cwd
                &&& assets.rows == match rows {
                    Some(rows) => rows,
                    None => 24,
                }
                &&& assets.cols == match cols {
                    Some(cols) => cols,
                    None => 80,
                }
                &&& assets.layout == match layout {
                    None => None,
                    Some(layout) => if layout.contains(separator) || (exists|rest: Seq<char>|
                        layout == #[trigger] (rest + ".kdl"@)) {
                        Some(LayoutView::File(layout))
                    } else {
                        Some(LayoutView::BuiltIn(layout))
                    },
                }
                &&& assets.options.show_release_notes == Some(false)
                &&& assets.options.show_startup_tips == Some(false)
                &&& assets.options.web_sharing == Some(WebSharing::On)
            }
            &&& step matches StepView::Spawn(spawned, _) ==> spawned == name
            &&& step matches StepView::CheckLayout(path, _) ==> Some(path) == layout
            &&& step matches StepView::Started(started) ==> started == name
        }),
{
    lemma_creation_keeps_its_request(name, layout, cwd, rows, cols, separator, events);
    if let Some(layout) = layout {
        law_ends_of_text(layout, ".kdl"@);
    }
}

/// Every step of a creation is about what was asked for.
spec fn is_about(step: StepView, asked: CreationView) -> bool {
    match step {
        StepView::Spawn(name, creation) => name == asked.name && creation == (CreationView {
            phase: CreationPhase::Spawning,
            ..asked
        }),
        StepView::Connect(creation) => creation == (CreationView {
            phase: CreationPhase::Connecting,
            ..asked
        }),
        StepView::CheckLayout(path, creation) => asked.layout == Some(path) && is_path(
            path,
            asked.separator,
        ) && creation == (CreationView { phase: CreationPhase::CheckingLayout, ..asked }),
        StepView::Start(assets, name) => name == asked.name && assets == assets_of(
            asked,
            match asked.layout {
                None => None,
                Some(layout) => if is_path(layout, asked.separator) {
                    Some(LayoutView::File(layout))
                } else {
                    Some(LayoutView::BuiltIn(layout))
                },
            },
        ),
        StepView::Receive(name) => name == asked.name,
        StepView::Started(name) => name == asked.name,
        StepView::Failed(_) => true,
    }
}

proof fn lemma_creation_keeps_its_request(
    name: Seq<char>,
    layout: Option<Seq<char>>,
    cwd: Option<Seq<char>>,
    rows: Option<usize>,
    cols: Option<usize>,
    separator: char,
    events: Seq<CreationEvent>,
)
    ensures
        is_about(
            creation_run(creation_begin(Ok(name), layout, cwd, rows, cols, separator), events),
            CreationView {
                name,
                layout,
                cwd,
                rows,
                cols,
                separator,
                phase: CreationPhase::Spawning,
            },
        ),
    decreases events.len(),
{
    if events.len() > 0 {
        lemma_creation_keeps_its_request(
            name,
            layout,
            cwd,
            rows,
            cols,
            separator,
            events.drop_last(),
        );
    }
}

/// A creation takes its steps in order: the server is spawned, then connected to, then a layout file
/// is looked for where one was asked for, and then the server is told; each only when the one before
/// it worked. What fails ends the creation with the reason.
pub proof fn law_creation_takes_its_steps_in_order(
    name: Seq<char>,
    layout: Option<Seq<char>>,
    cwd: Option<Seq<char>>,
    rows: Option<usize>,
    cols: Option<usize>,
    separator: char,
    error: Seq<char>,
)
    ensures
        ({
            let begin = creation_begin(Ok(name), layout, cwd, rows, cols, separator);
            let done = CreationEvent::Done(Ok(()));
            let failed = CreationEvent::Done(Err(error));
            let by_file = layout matches Some(layout) && (layout.contains(separator) || (exists|
                rest: Seq<char>,
            | layout == #[trigger] (rest + ".kdl"@)));
            &&& begin is Spawn
            &&& creation_run(begin, seq![done]) is Connect
            &&& creation_run(begin, seq![failed]) == StepView::Failed(
                "could not spawn the session server: "@ + error,
            )
            &&& creation_run(begin, seq![done, failed]) == StepView::Failed(
                "could not open client IPC: "@ + error,
            )
            &&& by_file ==> creation_run(begin, seq![done, done]) is CheckLayout
            &&& by_file ==> creation_run(begin, seq![done, done, done]) is Start
            &&& by_file ==> creation_run(begin, seq![done, done, failed]) == StepView::Failed(
                "no layout file at '"@ + layout->0 + "'"@,
            )
            &&& !by_file ==> creation_run(begin, seq![done, done]) is Start
        }),
{
    let begin = creation_begin(Ok(name), layout, cwd, rows, cols, separator);
    let done = CreationEvent::Done(Ok(()));
    let failed = CreationEvent::Done(Err(error));
    if let Some(layout) = layout {
        law_ends_of_text(layout, ".kdl"@);
    }
    assert(seq![done].drop_last() =~= Seq::<CreationEvent>::empty());
    assert(seq![failed].drop_last() =~= Seq::<CreationEvent>::empty());
    assert(seq![done, failed].drop_last() =~= seq![done]);
    assert(seq![done, done].drop_last() =~= seq![done]);
    assert(seq![done, done, done].drop_last() =~= seq![done, done]);
    assert(seq![done, done, failed].drop_last() =~= seq![done, done]);
    reveal_with_fuel(creation_run, 2);
    assert(creation_run(begin, seq![done]) is Connect);
}

/// A name that cannot be claimed is not created: the reason is the answer, and no server is spawned.
pub proof fn law_refused_name_spawns_nothing(
    message: Seq<char>,
    layout: Option<Seq<char>>,
    cwd: Option<Seq<char>>,
    rows: Option<usize>,
    cols: Option<usize>,
    separator: char,
    events: Seq<CreationEvent>,
)
    ensures
        creation_run(creation_begin(Err(message), layout, cwd, rows, cols, separator), events)
            == StepView::Failed(message),
    decreases events.len(),
{
    if events.len() > 0 {
        law_refused_name_spawns_nothing(
            message,
            layout,
            cwd,
            rows,
            cols,
            separator,
            events.drop_last(),
        );
    }
}

/// What the server says decides, each message in its own way: a session that connected or rendered
/// is up, however late; one that ended, reported errors or fell silent is not; and nothing else
/// decides before the deadline.
pub proof fn law_server_message_decides(message: Option<ServerMessage>, past_deadline: bool)
    ensures
        start_verdict(message_view(message), past_deadline) == match message {
            None => VerdictView::Failed("lost the connection while starting the session"@),
            Some(ServerMessage::Exit { reason }) => VerdictView::Failed(
                "session exited during startup: "@ + reason@,
            ),
            Some(ServerMessage::LogError { lines }) => VerdictView::Failed(
                join(lines@.map_values(|line: String| line@), "\n"@),
            ),
            Some(ServerMessage::Connected) => VerdictView::Started,
            Some(ServerMessage::Render) => VerdictView::Started,
            Some(ServerMessage::Other) => if past_deadline {
                VerdictView::Failed("timed out waiting for the session to start"@)
            } else {
                VerdictView::KeepWaiting
            },
        },
{
    if let Some(ServerMessage::LogError { lines }) = message {
        assert(views(lines@) =~= lines@.map_values(|line: String| line@));
    }
}

/// A layout parameter is a file where it holds a separator or ends with `.kdl`, and then it has to
/// be there; any other is the name of a layout that comes with the program.
pub proof fn law_layout_is_read(layout: Seq<char>, separator: char, found: bool)
    ensures
        ({
            let by_file = layout.contains(separator) || (exists|rest: Seq<char>|
                layout == #[trigger] (rest + ".kdl"@));
            layout_of(layout, separator, found) == if !by_file {
                Ok(LayoutView::BuiltIn(layout))
            } else if found {
                Ok(LayoutView::File(layout))
            } else {
                Err("no layout file at '"@ + layout + "'"@)
            }
        }),
{
    law_ends_of_text(layout, ".kdl"@);
}

/// A layout and what the server is told are seen as what they hold.
pub proof fn law_assets_are_seen_whole(assets: SessionAssets, path: String, message: String)
    ensures
        layout_outcome(Ok(LayoutInfo::File(path))) == Ok::<LayoutView, Seq<char>>(
            LayoutView::File(path@),
        ),
        layout_outcome(Ok(LayoutInfo::BuiltIn(path))) == Ok::<LayoutView, Seq<char>>(
            LayoutView::BuiltIn(path@),
        ),
        layout_outcome(Err(message)) == Err::<LayoutView, Seq<char>>(message@),
        assets@.options == assets.options,
        assets@.rows == assets.rows,
        assets@.cols == assets.cols,
        assets@.cwd == match assets.cwd {
            Some(cwd) => Some(cwd@),
            None => None,
        },
        assets@.layout == match assets.layout {
            Some(LayoutInfo::File(path)) => Some(LayoutView::File(path@)),
            Some(LayoutInfo::BuiltIn(name)) => Some(LayoutView::BuiltIn(name@)),
            None => None,
        },
{
}

} // verus!
