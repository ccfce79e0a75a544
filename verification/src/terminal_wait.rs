//! Waiting until the page shows a terminal, and recovering from the states that it can recover from.

use vstd::prelude::*;
use vstd::string::*;
use crate::text::{concat2, concat3, opt_view, same_text};
use crate::web_capture::WebCaptureConfig;
use crate::web_login::{login_script, login_text};

verus! {

/// What the page is showing. The web UI covers the terminal with a dialog when it cannot show one,
/// so a page that has painted is not yet a page with a terminal on it.
#[derive(Clone, Copy, Debug, PartialEq, Eq, Structural)]
pub enum PageState {
    /// A real terminal with real content: the only state that can be captured.
    Terminal,
    /// The login dialog: the token is missing, wrong, or expired.
    NeedsAuth,
    /// The reconnect dialog: the terminal connection dropped or never opened.
    Disconnected,
    /// Neither dialog, but nothing painted yet.
    Blank,
}

/// The state that the page reports about itself in one word.
pub open spec fn state_named(report: Seq<char>) -> PageState {
    if report == "terminal"@ {
        PageState::Terminal
    } else if report == "auth"@ {
        PageState::NeedsAuth
    } else if report == "disconnected"@ {
        PageState::Disconnected
    } else {
        PageState::Blank
    }
}

/// What came of asking the page what it is showing.
#[derive(Debug)]
pub enum PageReport {
    /// The page could not be asked.
    Unreachable(String),
    /// The page answered with something that is no text.
    Unreadable(String),
    /// The page answered.
    Answer(String),
}

/// The state that a page reports, or why it is not known.
pub open spec fn reported_state(report: PageReport) -> Result<PageState, Seq<char>> {
    match report {
        PageReport::Unreachable(e) => Err("could not inspect the web UI's state: "@ + e@),
        PageReport::Unreadable(e) => Err("the web UI's state was unreadable: "@ + e@),
        PageReport::Answer(text) => Ok(state_named(text@)),
    }
}

/// Reads what a page says about itself.
pub fn page_state(report: PageReport) -> (state: Result<PageState, String>)
    ensures
        match state {
            Ok(state) => reported_state(report) == Ok::<PageState, Seq<char>>(state),
            Err(message) => reported_state(report) == Err::<PageState, Seq<char>>(message@),
        },
{
    match report {
        PageReport::Unreachable(e) => Err(
            concat2("could not inspect the web UI's state: ", e.as_str()),
        ),
        PageReport::Unreadable(e) => Err(
            concat2("the web UI's state was unreadable: ", e.as_str()),
        ),
        PageReport::Answer(text) => {
            let report = text.as_str();
            Ok(
                if same_text(report, "terminal") {
                    PageState::Terminal
                } else if same_text(report, "auth") {
                    PageState::NeedsAuth
                } else if same_text(report, "disconnected") {
                    PageState::Disconnected
                } else {
                    PageState::Blank
                },
            )
        },
    }
}

/// How often the page is reloaded because its connection dropped.
pub const MAX_RELOADS: u64 = 3;

/// How long a terminal that is showing is left to finish its first frame, in milliseconds.
pub const READY_PAUSE_MS: u64 = 250;

/// How long to wait after a dropped connection, in milliseconds.
pub const RECONNECT_PAUSE_MS: u64 = 500;

/// How long to wait after a login, in milliseconds.
pub const LOGIN_PAUSE_MS: u64 = 300;

/// How long to wait for a page that is still blank, in milliseconds.
pub const BLANK_PAUSE_MS: u64 = 200;

/// The least time that a terminal is given to appear, in milliseconds.
pub const MIN_WAIT_MS: u64 = 15000;

/// A wait for a terminal: what the page showed last, and how often it was reloaded because its
/// connection dropped.
#[derive(Clone, Copy, Debug, PartialEq, Eq, Structural)]
pub struct TerminalWait {
    pub last: PageState,
    pub reloads: u64,
}

/// What to do about the state of the page. Each pause comes after everything else.
#[derive(Debug)]
pub enum WaitAction {
    /// A terminal is showing: pause, then capture.
    Ready { pause_ms: u64 },
    /// Reload the page and look again.
    Reload { pause_ms: u64 },
    /// Run the script that logs in, reload the page and look again. A login that fails ends the
    /// wait with its error.
    LogIn { script: String, pause_ms: u64 },
    /// Look again.
    Pause { pause_ms: u64 },
    /// There is no way to a terminal.
    Fail(String),
}

/// What a [`WaitAction`] holds.
pub ghost enum WaitActionView {
    Ready { pause_ms: u64 },
    Reload { pause_ms: u64 },
    LogIn { script: Seq<char>, pause_ms: u64 },
    Pause { pause_ms: u64 },
    Fail(Seq<char>),
}

impl WaitAction {
    pub open spec fn view(&self) -> WaitActionView {
        match self {
            WaitAction::Ready { pause_ms } => WaitActionView::Ready { pause_ms: *pause_ms },
            WaitAction::Reload { pause_ms } => WaitActionView::Reload { pause_ms: *pause_ms },
            WaitAction::LogIn { script, pause_ms } => WaitActionView::LogIn {
                script: script@,
                pause_ms: *pause_ms,
            },
            WaitAction::Pause { pause_ms } => WaitActionView::Pause { pause_ms: *pause_ms },
            WaitAction::Fail(message) => WaitActionView::Fail(message@),
        }
    }
}

/// The wait before anything was seen.
pub open spec fn fresh_wait() -> TerminalWait {
    TerminalWait { last: PageState::Blank, reloads: 0 }
}

/// The wait after the page showed `page`.
pub open spec fn wait_after(wait: TerminalWait, page: PageState) -> TerminalWait {
    TerminalWait {
        last: page,
        reloads: if page is Disconnected && wait.reloads < MAX_RELOADS {
            (wait.reloads + 1) as u64
        } else {
            wait.reloads
        },
    }
}

/// What to do when the page shows `page`.
pub open spec fn wait_action(
    wait: TerminalWait,
    page: PageState,
    token: Option<Seq<char>>,
    binary: Seq<char>,
) -> WaitActionView {
    match page {
        PageState::Terminal => WaitActionView::Ready { pause_ms: READY_PAUSE_MS },
        PageState::Disconnected => if wait.reloads < MAX_RELOADS {
            WaitActionView::Reload { pause_ms: RECONNECT_PAUSE_MS }
        } else {
            WaitActionView::Pause { pause_ms: RECONNECT_PAUSE_MS }
        },
        PageState::NeedsAuth => match token {
            Some(token) => WaitActionView::LogIn {
                script: login_text(token),
                pause_ms: LOGIN_PAUSE_MS,
            },
            None => WaitActionView::Fail(
                "the Zellij web server requires a login token but none is configured \u{2014} create one with `"@
                    + binary + " web --create-token` and pass it as ZELLIJ_WEB_TOKEN"@,
            ),
        },
        PageState::Blank => WaitActionView::Pause { pause_ms: BLANK_PAUSE_MS },
    }
}

/// Why no terminal appeared in time.
pub open spec fn timeout_reason(
    last: PageState,
    session: Seq<char>,
    binary: Seq<char>,
) -> Seq<char> {
    match last {
        PageState::Disconnected => "the web UI could not attach to session "@ + session
            + ": its terminal connection kept dropping. The session exists and the web server is reachable, so this is the web server failing to attach to it \u{2014} check that `"@
            + binary + "` is serving the same Zellij build that owns the session."@,
        PageState::NeedsAuth => "the Zellij web server rejected the configured login token"@,
        _ => "session "@ + session + "'s terminal never painted anything to capture"@,
    }
}

/// How long a terminal is waited for, in milliseconds.
pub fn wait_budget_ms(config: &WebCaptureConfig) -> (ms: u64)
    ensures
        ms == if config.settle_ms >= MIN_WAIT_MS {
            config.settle_ms
        } else {
            MIN_WAIT_MS
        },
        ms >= config.settle_ms,
        ms >= 15000,
        ms == config.settle_ms || ms == 15000,
{
    if config.settle_ms >= MIN_WAIT_MS {
        config.settle_ms
    } else {
        MIN_WAIT_MS
    }
}

impl TerminalWait {
    pub fn new() -> (wait: Self)
        ensures
            wait == fresh_wait(),
    {
        TerminalWait { last: PageState::Blank, reloads: 0 }
    }

    /// Decides what to do about the page that is showing.
    pub fn see(&mut self, page: PageState, config: &WebCaptureConfig) -> (action: WaitAction)
        ensures
            *final(self) == wait_after(*old(self), page),
            action@ == wait_action(*old(self), page, opt_view(config.auth_token), config.binary@),
    {
        self.last = page;
        match page {
            PageState::Terminal => WaitAction::Ready { pause_ms: READY_PAUSE_MS },
            PageState::Disconnected => {
                if self.reloads < MAX_RELOADS {
                    self.reloads = self.reloads + 1;
                    WaitAction::Reload { pause_ms: RECONNECT_PAUSE_MS }
                } else {
                    WaitAction::Pause { pause_ms: RECONNECT_PAUSE_MS }
                }
            },
            PageState::NeedsAuth => match &config.auth_token {
                Some(token) => WaitAction::LogIn {
                    script: login_script(token.as_str()),
                    pause_ms: LOGIN_PAUSE_MS,
                },
                None => WaitAction::Fail(
                    concat3(
                        "the Zellij web server requires a login token but none is configured \u{2014} create one with `",
                        config.binary.as_str(),
                        " web --create-token` and pass it as ZELLIJ_WEB_TOKEN",
                    ),
                ),
            },
            PageState::Blank => WaitAction::Pause { pause_ms: BLANK_PAUSE_MS },
        }
    }

    /// Decides whether to look at the page once more. `in_time` says whether the time for the wait
    /// is not yet used up.
    pub fn look(&self, in_time: bool, session: &str, config: &WebCaptureConfig) -> (again: Result<
        (),
        String,
    >)
        ensures
            match again {
                Ok(()) => another_look(*self, in_time, session@, config.binary@) is Ok,
                Err(message) => another_look(*self, in_time, session@, config.binary@) == Err::<
                    (),
                    Seq<char>,
                >(message@),
            },
    {
        if in_time {
            Ok(())
        } else {
            Err(self.give_up(session, config))
        }
    }

    /// Why no terminal appeared in time.
    fn give_up(&self, session: &str, config: &WebCaptureConfig) -> (message: String)
        ensures
            message@ == timeout_reason(self.last, session@, config.binary@),
    {
        match self.last {
            PageState::Disconnected => {
                let mut message = concat3(
                    "the web UI could not attach to session ",
                    session,
                    ": its terminal connection kept dropping. The session exists and the web server is reachable, so this is the web server failing to attach to it \u{2014} check that `",
                );
                message.append(config.binary.as_str());
                message.append("` is serving the same Zellij build that owns the session.");
                message
            },
            PageState::NeedsAuth => {
                "the Zellij web server rejected the configured login token".to_owned()
            },
            _ => concat3(
                "session ",
                session,
                "'s terminal never painted anything to capture",
            ),
        }
    }
}

/// Whether the page is looked at once more: as long as there is time it is, and afterwards the wait
/// ends with the reason why no terminal appeared.
pub open spec fn another_look(
    wait: TerminalWait,
    in_time: bool,
    session: Seq<char>,
    binary: Seq<char>,
) -> Result<(), Seq<char>> {
    if in_time {
        Ok(())
    } else {
        Err(timeout_reason(wait.last, session, binary))
    }
}

/// A wait that runs out of time says what the page showed last: a dropped connection, a login that
/// was not accepted, or a terminal that never painted.
pub proof fn law_timeout_tells_what_was_seen(
    pages: Seq<PageState>,
    session: Seq<char>,
    binary: Seq<char>,
)
    ensures
        another_look(wait_after_all(fresh_wait(), pages), false, session, binary) == Err::<
            (),
            Seq<char>,
        >(
            timeout_reason(
                if pages.len() == 0 {
                    PageState::Blank
                } else {
                    pages.last()
                },
                session,
                binary,
            ),
        ),
{
}

/// Only a page with a terminal on it is ever captured: a dialog is never taken for a reading.
pub proof fn law_only_a_terminal_is_captured(
    wait: TerminalWait,
    page: PageState,
    token: Option<Seq<char>>,
    binary: Seq<char>,
)
    ensures
        wait_action(wait, page, token, binary) is Ready <==> page is Terminal,
{
}

/// The wait after the page showed these states, one after the other.
pub open spec fn wait_after_all(wait: TerminalWait, pages: Seq<PageState>) -> TerminalWait
    decreases pages.len(),
{
    if pages.len() == 0 {
        wait
    } else {
        wait_after(wait_after_all(wait, pages.drop_last()), pages.last())
    }
}

/// How often the page was reloaded because its connection dropped while it showed these states.
pub open spec fn reload_count(
    wait: TerminalWait,
    pages: Seq<PageState>,
    token: Option<Seq<char>>,
    binary: Seq<char>,
) -> nat
    decreases pages.len(),
{
    if pages.len() == 0 {
        0
    } else {
        let before = wait_after_all(wait, pages.drop_last());
        reload_count(wait, pages.drop_last(), token, binary) + if wait_action(
            before,
            pages.last(),
            token,
            binary,
        ) is Reload {
            1nat
        } else {
            0nat
        }
    }
}

/// However long a wait goes on, the page is reloaded for a dropped connection no more often than
/// the limit, and what the page showed last is what the wait reports in the end.
pub proof fn law_reloads_are_bounded(
    pages: Seq<PageState>,
    token: Option<Seq<char>>,
    binary: Seq<char>,
)
    ensures
        wait_after_all(fresh_wait(), pages).reloads == reload_count(
            fresh_wait(),
            pages,
            token,
            binary,
        ),
        reload_count(fresh_wait(), pages, token, binary) <= 3,
        pages.len() > 0 ==> wait_after_all(fresh_wait(), pages).last == pages.last(),
    decreases pages.len(),
{
    if pages.len() > 0 {
        law_reloads_are_bounded(pages.drop_last(), token, binary);
    }
}

/// The page says in one word what it is showing, and only the word for a terminal is one; what it
/// says otherwise is nothing yet. A page that cannot be asked is an error.
pub proof fn law_page_is_told_by_its_word(text: String, error: String)
    ensures
        ({
            let state = reported_state(PageReport::Answer(text));
            &&& state is Ok
            &&& state->Ok_0 is Terminal <==> text@ == "terminal"@
            &&& state->Ok_0 is NeedsAuth <==> text@ == "auth"@
            &&& state->Ok_0 is Disconnected <==> text@ == "disconnected"@
        }),
        reported_state(PageReport::Unreachable(error)) == Err::<PageState, Seq<char>>(
            "could not inspect the web UI's state: "@ + error@,
        ),
        reported_state(PageReport::Unreadable(error)) == Err::<PageState, Seq<char>>(
            "the web UI's state was unreadable: "@ + error@,
        ),
{
    reveal_strlit("terminal");
    reveal_strlit("auth");
    reveal_strlit("disconnected");
    assert("terminal"@.len() == 8 && "auth"@.len() == 4 && "disconnected"@.len() == 12);
}

/// What is done about the page is decided by what it shows: a terminal is captured after a moment, a
/// dropped connection is reloaded three times at most, a login is made with the token that there is
/// and is an error where there is none, and an empty page is looked at again.
pub proof fn law_wait_acts_on_what_it_sees(
    wait: TerminalWait,
    token: Seq<char>,
    binary: Seq<char>,
    login: Option<Seq<char>>,
)
    ensures
        wait_action(wait, PageState::Terminal, login, binary) == (WaitActionView::Ready {
            pause_ms: 250,
        }),
        wait.reloads < 3 ==> wait_action(wait, PageState::Disconnected, login, binary)
            == (WaitActionView::Reload { pause_ms: 500 }),
        wait.reloads >= 3 ==> wait_action(wait, PageState::Disconnected, login, binary)
            == (WaitActionView::Pause { pause_ms: 500 }),
        wait_action(wait, PageState::NeedsAuth, Some(token), binary) == (WaitActionView::LogIn {
            script: login_text(token),
            pause_ms: 300,
        }),
        wait_action(wait, PageState::NeedsAuth, None, binary) == WaitActionView::Fail(
            "the Zellij web server requires a login token but none is configured \u{2014} create one with `"@
                + binary + " web --create-token` and pass it as ZELLIJ_WEB_TOKEN"@,
        ),
        wait_action(wait, PageState::Blank, login, binary) == (WaitActionView::Pause {
            pause_ms: 200,
        }),
{
}

/// A wait remembers what the page showed last, and counts the reloads for a dropped connection and
/// nothing else.
pub proof fn law_wait_remembers_what_it_saw(wait: TerminalWait, page: PageState)
    ensures
        wait_after(wait, page).last == page,
        page !is Disconnected ==> wait_after(wait, page).reloads == wait.reloads,
        page is Disconnected && wait.reloads < 3 ==> wait_after(wait, page).reloads == wait.reloads
            + 1,
        page is Disconnected && wait.reloads >= 3 ==> wait_after(wait, page).reloads == wait.reloads,
        fresh_wait() == (TerminalWait { last: PageState::Blank, reloads: 0 }),
{
}

/// While there is time the page is looked at again; when there is none left, the reason is what the
/// page showed last, with the session or the binary that it is about.
pub proof fn law_wait_ends_with_its_reason(
    reloads: u64,
    last: PageState,
    session: Seq<char>,
    binary: Seq<char>,
)
    ensures
        ({
            let wait = TerminalWait { last, reloads };
            &&& another_look(wait, true, session, binary) is Ok
            &&& another_look(wait, false, session, binary) == Err::<(), Seq<char>>(
                match last {
                    PageState::Disconnected => "the web UI could not attach to session "@ + session
                        + ": its terminal connection kept dropping. The session exists and the web server is reachable, so this is the web server failing to attach to it \u{2014} check that `"@
                        + binary + "` is serving the same Zellij build that owns the session."@,
                    PageState::NeedsAuth =>
                        "the Zellij web server rejected the configured login token"@,
                    PageState::Blank | PageState::Terminal => "session "@ + session
                        + "'s terminal never painted anything to capture"@,
                },
            )
        }),
{
}

} // verus!
