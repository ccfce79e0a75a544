//! Taking a picture of a session's terminal through the web UI.

use vstd::prelude::*;
use vstd::string::*;
use vstd::utf8::encode_utf8;
use crate::base64_text::{base64_bytes, base64_encode, base64_standard, law_base64_decodes};
use crate::percent::{law_path_segments_are_distinct, path_segment, percent_encode};
use crate::percent::urlencoding_encode;
use crate::text::{chars_of, concat2, concat3, concat4, done_outcome, law_trim_end_char};
use crate::text::{opt_view, string_of, trim_end_char, trimmed_len};
use crate::web_login::{login_script, login_text};

verus! {

/// Where the web server lives, how to authenticate to it, and how the picture is framed.
#[derive(Debug)]
pub struct WebCaptureConfig {
    /// Base URL of the running web server, e.g. `http://127.0.0.1:8082`.
    pub base_url: String,
    /// Login token for that server. `None` if the server has none.
    pub auth_token: Option<String>,
    /// How long a terminal is waited for before the capture is given up, in milliseconds; a shorter
    /// time than the least wait counts as that. A terminal that shows sooner is captured sooner.
    pub settle_ms: u64,
    /// Which binary serves the web UI.
    pub binary: String,
    /// The capture viewport, in pixels: width and height.
    pub viewport: (u32, u32),
}

/// Width of one terminal cell in the web UI, in pixels.
pub const CELL_WIDTH_PX: u32 = 10;

/// Height of one terminal cell in the web UI, in pixels.
pub const CELL_HEIGHT_PX: u32 = 19;

/// Rows that the tab bar and the status bar take.
pub const CHROME_ROWS: u32 = 2;

/// How many columns fit into a window of that width.
pub open spec fn grid_cols(width: u32) -> int {
    width as int / CELL_WIDTH_PX as int
}

/// How many rows fit into a window of that height beside the two bars; none where the bars take all
/// of it.
pub open spec fn grid_rows(height: u32) -> int {
    let fitting = height as int / CELL_HEIGHT_PX as int;
    if fitting >= CHROME_ROWS {
        fitting - CHROME_ROWS
    } else {
        0
    }
}

impl WebCaptureConfig {
    pub fn new(
        base_url: String,
        auth_token: Option<String>,
        settle_ms: u64,
        binary: String,
        viewport: (u32, u32),
    ) -> (config: Self)
        ensures
            config.base_url == base_url,
            config.auth_token == auth_token,
            config.settle_ms == settle_ms,
            config.binary == binary,
            config.viewport == viewport,
    {
        WebCaptureConfig { base_url, auth_token, settle_ms, binary, viewport }
    }

    /// Terminal rows and columns that fill this viewport without overflowing it, with room left
    /// for the tab bar and the status bar.
    pub fn capture_grid(&self) -> (grid: (u32, u32))
        ensures
            grid.0 == grid_rows(self.viewport.1),
            grid.1 == grid_cols(self.viewport.0),
    {
        let cols: u32 = self.viewport.0 / CELL_WIDTH_PX;
        let rows: u32 = (self.viewport.1 / CELL_HEIGHT_PX).saturating_sub(CHROME_ROWS);
        (rows, cols)
    }
}

impl Clone for WebCaptureConfig {
    fn clone(&self) -> (config: Self)
        ensures
            config.base_url@ == self.base_url@,
            opt_view(config.auth_token) == opt_view(self.auth_token),
            config.settle_ms == self.settle_ms,
            config.binary@ == self.binary@,
            config.viewport == self.viewport,
    {
        WebCaptureConfig {
            base_url: self.base_url.clone(),
            auth_token: match &self.auth_token {
                Some(token) => Some(token.clone()),
                None => None,
            },
            settle_ms: self.settle_ms,
            binary: self.binary.clone(),
            viewport: self.viewport,
        }
    }
}

/// The grid fills the viewport without overflowing it, however small the viewport is: all rows and
/// columns fit, and one more column, or one more row beside the two bars, would not. Where there is
/// room for the bars at all, the rows fit together with them.
pub proof fn law_grid_fills_viewport(width: u32, height: u32)
    ensures
        grid_cols(width) * CELL_WIDTH_PX <= width < (grid_cols(width) + 1) * CELL_WIDTH_PX,
        grid_rows(height) * CELL_HEIGHT_PX <= height < (grid_rows(height) + CHROME_ROWS + 1)
            * CELL_HEIGHT_PX,
        height >= CHROME_ROWS * CELL_HEIGHT_PX ==> (grid_rows(height) + CHROME_ROWS)
            * CELL_HEIGHT_PX <= height,
{
}

/// The page of a session in the web UI.
pub open spec fn page_address(base_url: Seq<char>, session: Seq<char>) -> Seq<char> {
    trim_end_char(base_url, '/') + "/"@ + path_segment(session)
}

/// The URL of a session's page.
pub fn session_url(base_url: &str, session: &str) -> (url: String)
    ensures
        url@ == page_address(base_url@, session@),
{
    let chars = chars_of(base_url);
    let len = trimmed_len(&chars, '/');
    let base = string_of(&chars, 0, len);
    assert(base@ =~= chars@.take(len as int));
    concat3(base.as_str(), "/", urlencoding_encode(session).as_str())
}

/// What was done last towards a picture.
#[derive(Clone, Copy, Debug, PartialEq, Eq, Structural)]
pub enum CapturePhase {
    EnsuringServer,
    Configuring,
    Launching,
    Opening,
    LoggingIn,
    Navigating,
    Waiting,
    Scrolling,
    Measuring,
}

/// What a picture shows.
#[derive(Clone, Copy, Debug, PartialEq, Eq, Structural)]
pub enum Framing {
    /// The terminal alone, cut out along its bounds.
    Terminal,
    /// Everything that is on the page.
    WholePage,
}

/// How long the page is given to repaint once it was scrolled, in milliseconds.
pub const SCROLL_PAUSE_MS: u64 = 200;

/// What the picture shows, by whether the bounds of the terminal are known: a picture with margins
/// beats no picture.
pub open spec fn framing_for(measured: bool) -> Framing {
    if measured {
        Framing::Terminal
    } else {
        Framing::WholePage
    }
}

/// Decides what the picture shows.
pub fn frame(measured: bool) -> (framing: Framing)
    ensures
        framing == framing_for(measured),
{
    if measured {
        Framing::Terminal
    } else {
        Framing::WholePage
    }
}

/// What is to be done next towards a picture of a session.
#[derive(Debug)]
pub enum CaptureStep {
    /// Make sure that the web server is up.
    EnsureServer,
    /// Prepare a browser with a window of that size.
    Configure { width: u32, height: u32 },
    /// Start the browser.
    Launch,
    /// Open a page.
    Open { url: String },
    /// Run the script that logs in.
    LogIn { script: String },
    /// Go to the page of the session.
    Navigate { url: String },
    /// Wait until a terminal is showing.
    AwaitTerminal,
    /// Scroll the terminal to its newest output.
    Scroll,
    /// Once `pause_ms` milliseconds have passed, find out the bounds of the terminal.
    Measure { pause_ms: u64 },
    /// Take the picture, as a PNG.
    Screenshot { framing: Framing },
    /// There is no picture.
    Fail(String),
}

/// What a [`CaptureStep`] holds.
pub ghost enum CaptureStepView {
    EnsureServer,
    Configure { width: u32, height: u32 },
    Launch,
    Open { url: Seq<char> },
    LogIn { script: Seq<char> },
    Navigate { url: Seq<char> },
    AwaitTerminal,
    Scroll,
    Measure { pause_ms: u64 },
    Screenshot { framing: Framing },
    Fail(Seq<char>),
}

impl CaptureStep {
    pub open spec fn view(&self) -> CaptureStepView {
        match self {
            CaptureStep::EnsureServer => CaptureStepView::EnsureServer,
            CaptureStep::Configure { width, height } => CaptureStepView::Configure {
                width: *width,
                height: *height,
            },
            CaptureStep::Launch => CaptureStepView::Launch,
            CaptureStep::Open { url } => CaptureStepView::Open { url: url@ },
            CaptureStep::LogIn { script } => CaptureStepView::LogIn { script: script@ },
            CaptureStep::Navigate { url } => CaptureStepView::Navigate { url: url@ },
            CaptureStep::AwaitTerminal => CaptureStepView::AwaitTerminal,
            CaptureStep::Scroll => CaptureStepView::Scroll,
            CaptureStep::Measure { pause_ms } => CaptureStepView::Measure { pause_ms: *pause_ms },
            CaptureStep::Screenshot { framing } => CaptureStepView::Screenshot {
                framing: *framing,
            },
            CaptureStep::Fail(message) => CaptureStepView::Fail(message@),
        }
    }
}

/// Where a capture stands once a step was tried; nothing follows the last ones.
pub open spec fn phase_of(step: CaptureStepView) -> Option<CapturePhase> {
    match step {
        CaptureStepView::EnsureServer => Some(CapturePhase::EnsuringServer),
        CaptureStepView::Configure { .. } => Some(CapturePhase::Configuring),
        CaptureStepView::Launch => Some(CapturePhase::Launching),
        CaptureStepView::Open { .. } => Some(CapturePhase::Opening),
        CaptureStepView::LogIn { .. } => Some(CapturePhase::LoggingIn),
        CaptureStepView::Navigate { .. } => Some(CapturePhase::Navigating),
        CaptureStepView::AwaitTerminal => Some(CapturePhase::Waiting),
        CaptureStepView::Scroll => Some(CapturePhase::Scrolling),
        CaptureStepView::Measure { .. } => Some(CapturePhase::Measuring),
        CaptureStepView::Screenshot { .. } => None,
        CaptureStepView::Fail(_) => None,
    }
}

impl CaptureStep {
    /// Where the capture stands once this step was tried.
    pub fn phase(&self) -> (phase: Option<CapturePhase>)
        ensures
            phase == phase_of(self@),
    {
        match self {
            CaptureStep::EnsureServer => Some(CapturePhase::EnsuringServer),
            CaptureStep::Configure { .. } => Some(CapturePhase::Configuring),
            CaptureStep::Launch => Some(CapturePhase::Launching),
            CaptureStep::Open { .. } => Some(CapturePhase::Opening),
            CaptureStep::LogIn { .. } => Some(CapturePhase::LoggingIn),
            CaptureStep::Navigate { .. } => Some(CapturePhase::Navigating),
            CaptureStep::AwaitTerminal => Some(CapturePhase::Waiting),
            CaptureStep::Scroll => Some(CapturePhase::Scrolling),
            CaptureStep::Measure { .. } => Some(CapturePhase::Measuring),
            CaptureStep::Screenshot { .. } => None,
            CaptureStep::Fail(_) => None,
        }
    }
}

/// Why a step towards a picture did not work: `error` is what the step itself reported.
pub open spec fn capture_error(
    phase: CapturePhase,
    base_url: Seq<char>,
    session: Seq<char>,
    error: Seq<char>,
) -> Seq<char> {
    match phase {
        CapturePhase::Launching =>
            "could not start a headless browser to capture the session: "@ + error,
        CapturePhase::Opening => "could not open the Zellij web server at "@ + base_url
            + " \u{2014} is `zellij web` running? ("@ + error + ")"@,
        CapturePhase::Navigating => "could not open session "@ + session + " in the web UI: "@
            + error,
        _ => error,
    }
}

/// What follows a step that worked.
pub open spec fn capture_next(
    config: WebCaptureConfig,
    session: Seq<char>,
    phase: CapturePhase,
) -> CaptureStepView {
    let page = CaptureStepView::Navigate { url: page_address(config.base_url@, session) };
    match phase {
        CapturePhase::EnsuringServer => CaptureStepView::Configure {
            width: config.viewport.0,
            height: config.viewport.1,
        },
        CapturePhase::Configuring => CaptureStepView::Launch,
        CapturePhase::Launching => CaptureStepView::Open { url: config.base_url@ },
        CapturePhase::Opening => match opt_view(config.auth_token) {
            Some(token) => CaptureStepView::LogIn { script: login_text(token) },
            None => page,
        },
        CapturePhase::LoggingIn => page,
        CapturePhase::Navigating => CaptureStepView::AwaitTerminal,
        CapturePhase::Waiting => CaptureStepView::Scroll,
        CapturePhase::Scrolling => CaptureStepView::Measure { pause_ms: SCROLL_PAUSE_MS },
        CapturePhase::Measuring => CaptureStepView::Screenshot { framing: framing_for(true) },
    }
}

/// Begins to take a picture of a session.
pub fn capture_session() -> (step: CaptureStep)
    ensures
        step@ == CaptureStepView::EnsureServer,
{
    CaptureStep::EnsureServer
}

/// Goes on with what came of the last step.
pub fn capture_with(
    config: &WebCaptureConfig,
    session: &str,
    phase: CapturePhase,
    outcome: Result<(), String>,
) -> (step: CaptureStep)
    ensures
        step@ == capture_after(*config, session@, phase, done_outcome(outcome)),
{
    match outcome {
        Ok(()) => match phase {
            CapturePhase::EnsuringServer => CaptureStep::Configure {
                width: config.viewport.0,
                height: config.viewport.1,
            },
            CapturePhase::Configuring => CaptureStep::Launch,
            CapturePhase::Launching => CaptureStep::Open { url: config.base_url.clone() },
            CapturePhase::Opening => match &config.auth_token {
                Some(token) => CaptureStep::LogIn { script: login_script(token.as_str()) },
                None => CaptureStep::Navigate {
                    url: session_url(config.base_url.as_str(), session),
                },
            },
            CapturePhase::LoggingIn => CaptureStep::Navigate {
                url: session_url(config.base_url.as_str(), session),
            },
            CapturePhase::Navigating => CaptureStep::AwaitTerminal,
            CapturePhase::Waiting => CaptureStep::Scroll,
            CapturePhase::Scrolling => CaptureStep::Measure { pause_ms: SCROLL_PAUSE_MS },
            CapturePhase::Measuring => CaptureStep::Screenshot { framing: frame(true) },
        },
        Err(e) => {
            let message = match phase {
                CapturePhase::Scrolling => {
                    return CaptureStep::Measure { pause_ms: 0 };
                },
                CapturePhase::Measuring => {
                    return CaptureStep::Screenshot { framing: frame(false) };
                },
                CapturePhase::Launching => concat2(
                    "could not start a headless browser to capture the session: ",
                    e.as_str(),
                ),
                CapturePhase::Opening => {
                    let mut message = concat4(
                        "could not open the Zellij web server at ",
                        config.base_url.as_str(),
                        " \u{2014} is `zellij web` running? (",
                        e.as_str(),
                    );
                    message.append(")");
                    message
                },
                CapturePhase::Navigating => concat4(
                    "could not open session ",
                    session,
                    " in the web UI: ",
                    e.as_str(),
                ),
                _ => e,
            };
            CaptureStep::Fail(message)
        },
    }
}

/// The picture that a screenshot brought, base64-encoded, or why there is none.
pub open spec fn capture_result(png: Result<Vec<u8>, String>) -> Result<Seq<char>, Seq<char>> {
    match png {
        Ok(bytes) => Ok(base64_standard(bytes@)),
        Err(e) => Err("could not capture the session's screen: "@ + e@),
    }
}

/// Turns what the screenshot brought into the result of the capture.
pub fn finish_capture(png: Result<Vec<u8>, String>) -> (captured: Result<String, String>)
    requires
        png matches Ok(bytes) ==> 4 * ((bytes@.len() + 2) / 3) <= isize::MAX,
    ensures
        match captured {
            Ok(data) => capture_result(png) == Ok::<Seq<char>, Seq<char>>(data@),
            Err(message) => capture_result(png) == Err::<Seq<char>, Seq<char>>(message@),
        },
{
    match png {
        Ok(bytes) => Ok(base64_encode(&bytes)),
        Err(e) => Err(concat2("could not capture the session's screen: ", e.as_str())),
    }
}

/// What follows the outcome of a step. A picture is worth taking without the scrolling, and with
/// margins: a failure of the last two steps is no failure of the capture.
pub open spec fn capture_after(
    config: WebCaptureConfig,
    session: Seq<char>,
    phase: CapturePhase,
    outcome: Result<(), Seq<char>>,
) -> CaptureStepView {
    match outcome {
        Ok(()) => capture_next(config, session, phase),
        Err(e) => match phase {
            CapturePhase::Scrolling => CaptureStepView::Measure { pause_ms: 0 },
            CapturePhase::Measuring => CaptureStepView::Screenshot { framing: framing_for(false) },
            _ => CaptureStepView::Fail(capture_error(phase, config.base_url@, session, e)),
        },
    }
}

/// Where a capture stands when its steps have these outcomes, one after the other.
pub open spec fn capture_run(
    config: WebCaptureConfig,
    session: Seq<char>,
    step: CaptureStepView,
    outcomes: Seq<Result<(), Seq<char>>>,
) -> CaptureStepView
    decreases outcomes.len(),
{
    match phase_of(step) {
        Some(phase) if outcomes.len() > 0 => capture_run(
            config,
            session,
            capture_after(config, session, phase, outcomes[0]),
            outcomes.drop_first(),
        ),
        _ => step,
    }
}

/// How many steps of a capture have to work: with a token there is one more, the login.
pub open spec fn needed_steps(config: WebCaptureConfig) -> nat {
    if opt_view(config.auth_token) is Some {
        7
    } else {
        6
    }
}

/// A picture is only taken when everything that it needs has worked: the server is up, the browser
/// is running, the page is open, the login went through where there is a token, the session's page
/// was opened and a terminal is showing. Any of these that does not work ends the capture with an
/// error. The two steps behind them, scrolling and measuring, never do: whatever comes of them, one
/// picture is taken, of the terminal where it was measured and of the whole page where it was not.
pub proof fn law_picture_follows_every_step(
    config: WebCaptureConfig,
    session: Seq<char>,
    outcomes: Seq<Result<(), Seq<char>>>,
)
    ensures
        ({
            let end = capture_run(config, session, CaptureStepView::EnsureServer, outcomes);
            let needed = needed_steps(config) as int;
            &&& end is Screenshot <==> outcomes.len() >= needed + 2 && forall|i: int|
                0 <= i < needed ==> (#[trigger] outcomes[i]) is Ok
            &&& end is Screenshot ==> end == CaptureStepView::Screenshot {
                framing: framing_for(outcomes[needed + 1] is Ok),
            }
            &&& end is Fail <==> exists|i: int|
                0 <= i < outcomes.len() && i < needed && (#[trigger] outcomes[i]) is Err
        }),
{
    lemma_capture_run(config, session, CaptureStepView::EnsureServer, outcomes);
}

/// How many of the steps from this one on have to work.
spec fn needed_from(config: WebCaptureConfig, step: CaptureStepView) -> int {
    let login = needed_steps(config) - 6;
    match step {
        CaptureStepView::EnsureServer => 6 + login,
        CaptureStepView::Configure { .. } => 5 + login,
        CaptureStepView::Launch => 4 + login,
        CaptureStepView::Open { .. } => 3 + login,
        CaptureStepView::LogIn { .. } => 3,
        CaptureStepView::Navigate { .. } => 2,
        CaptureStepView::AwaitTerminal => 1,
        _ => 0,
    }
}

/// How many steps there are from this one on, up to the picture.
spec fn steps_from(config: WebCaptureConfig, step: CaptureStepView) -> int {
    match step {
        CaptureStepView::Screenshot { .. } => 0,
        CaptureStepView::Measure { .. } => 1,
        _ => needed_from(config, step) + 2,
    }
}

/// From any step on, the picture is taken when all that have to work have worked.
proof fn lemma_capture_run(
    config: WebCaptureConfig,
    session: Seq<char>,
    step: CaptureStepView,
    outcomes: Seq<Result<(), Seq<char>>>,
)
    requires
        step !is Fail,
    ensures
        ({
            let end = capture_run(config, session, step, outcomes);
            let needed = needed_from(config, step);
            let steps = steps_from(config, step);
            &&& end is Screenshot <==> outcomes.len() >= steps && forall|i: int|
                0 <= i < needed ==> (#[trigger] outcomes[i]) is Ok
            &&& end is Screenshot && steps > 0 ==> end == CaptureStepView::Screenshot {
                framing: framing_for(outcomes[steps - 1] is Ok),
            }
            &&& end is Fail <==> exists|i: int|
                0 <= i < outcomes.len() && i < needed && (#[trigger] outcomes[i]) is Err
        }),
    decreases outcomes.len(),
{
    let needed = needed_from(config, step);
    if phase_of(step) is Some && outcomes.len() > 0 {
        let phase = phase_of(step)->0;
        let next = capture_after(config, session, phase, outcomes[0]);
        let rest = outcomes.drop_first();
        if needed == 0 {
            lemma_capture_run(config, session, next, rest);
        } else if outcomes[0] is Ok {
            lemma_capture_run(config, session, next, rest);
            assert(needed_from(config, next) == needed - 1);
            if forall|i: int| 0 <= i < needed - 1 && i < rest.len() ==> (#[trigger] rest[i]) is Ok {
                assert forall|i: int| 0 <= i < needed && i < outcomes.len() implies (
                #[trigger] outcomes[i]) is Ok by {
                    if i > 0 {
                        assert(rest[i - 1] is Ok);
                    }
                }
            }
            if exists|i: int|
                0 <= i < outcomes.len() && i < needed && (#[trigger] outcomes[i]) is Err {
                let i = choose|i: int|
                    0 <= i < outcomes.len() && i < needed && (#[trigger] outcomes[i]) is Err;
                assert(rest[i - 1] is Err);
            }
            if exists|i: int|
                0 <= i < rest.len() && i < needed - 1 && (#[trigger] rest[i]) is Err {
                let i = choose|i: int|
                    0 <= i < rest.len() && i < needed - 1 && (#[trigger] rest[i]) is Err;
                assert(outcomes[i + 1] is Err);
            }
        } else {
            assert(outcomes[0] is Err);
            assert(capture_run(config, session, next, rest) == next) by {
                reveal_with_fuel(capture_run, 2);
            }
        }
    } else {
        assert(capture_run(config, session, step, outcomes) == step);
    }
}

/// Every session has a page of its own, whatever its name: the page of another session is another
/// URL.
pub proof fn law_page_addresses_are_distinct(
    base_url: Seq<char>,
    session: Seq<char>,
    other: Seq<char>,
)
    requires
        page_address(base_url, session) == page_address(base_url, other),
    ensures
        session == other,
{
    let front = trim_end_char(base_url, '/') + "/"@;
    let n = front.len() as int;
    assert(page_address(base_url, session).skip(n) =~= path_segment(session));
    assert(page_address(base_url, other).skip(n) =~= path_segment(other));
    law_path_segments_are_distinct(session, other);
}

/// The steps that a capture asks for when they have these outcomes, one after the other.
pub open spec fn capture_steps(
    config: WebCaptureConfig,
    session: Seq<char>,
    step: CaptureStepView,
    outcomes: Seq<Result<(), Seq<char>>>,
) -> Seq<CaptureStepView>
    decreases outcomes.len(),
{
    match phase_of(step) {
        Some(phase) if outcomes.len() > 0 => seq![step] + capture_steps(
            config,
            session,
            capture_after(config, session, phase, outcomes[0]),
            outcomes.drop_first(),
        ),
        _ => seq![step],
    }
}

/// The page of a session: the base URL without the slashes at its end, a slash and the
/// percent-encoded name of the session.
pub open spec fn is_page_of(url: Seq<char>, base_url: Seq<char>, session: Seq<char>) -> bool {
    exists|front: Seq<char>, slashes: Seq<char>|
        {
            &&& base_url == #[trigger] (front + slashes)
            &&& forall|i: int| 0 <= i < slashes.len() ==> slashes[i] == '/'
            &&& front.len() > 0 ==> front.last() != '/'
            &&& url == front + seq!['/'] + percent_encode(encode_utf8(session))
        }
}

/// The URL of a session's page is made of the base URL and the session's name.
pub proof fn law_page_address_is_of_the_session(base_url: Seq<char>, session: Seq<char>)
    ensures
        is_page_of(page_address(base_url, session), base_url, session),
{
    reveal_strlit("/");
    law_trim_end_char(base_url, '/');
    let front = trim_end_char(base_url, '/');
    let slashes = choose|slashes: Seq<char>|
        base_url == #[trigger] (front + slashes) && forall|i: int|
            0 <= i < slashes.len() ==> slashes[i] == '/';
    assert("/"@ =~= seq!['/']);
    assert(base_url == front + slashes);
}

/// A picture is of the session that was asked for: with a token or without one, the only page that
/// a capture ever goes to is that session's own, it goes there once at most, and where it comes to
/// taking the picture it has gone there.
pub proof fn law_picture_is_of_the_session_asked_for(
    config: WebCaptureConfig,
    session: Seq<char>,
    outcomes: Seq<Result<(), Seq<char>>>,
)
    ensures
        ({
            let steps = capture_steps(config, session, CaptureStepView::EnsureServer, outcomes);
            &&& forall|i: int|
                0 <= i < steps.len() && (#[trigger] steps[i]) is Navigate ==> is_page_of(
                    steps[i]->Navigate_url,
                    config.base_url@,
                    session,
                )
            &&& forall|i: int, j: int|
                0 <= i < j < steps.len() && (#[trigger] steps[i]) is Navigate ==> (
                #[trigger] steps[j]) !is Navigate
            &&& steps.last() is Screenshot ==> exists|i: int|
                0 <= i < steps.len() && (#[trigger] steps[i]) is Navigate
        }),
{
    lemma_navigations(config, session, CaptureStepView::EnsureServer, outcomes);
}

/// Whether the page of the session is still to be opened.
spec fn before_page(step: CaptureStepView) -> bool {
    match step {
        CaptureStepView::EnsureServer => true,
        CaptureStepView::Configure { .. } => true,
        CaptureStepView::Launch => true,
        CaptureStepView::Open { .. } => true,
        CaptureStepView::LogIn { .. } => true,
        _ => false,
    }
}

proof fn lemma_navigations(
    config: WebCaptureConfig,
    session: Seq<char>,
    step: CaptureStepView,
    outcomes: Seq<Result<(), Seq<char>>>,
)
    requires
        step is Navigate ==> is_page_of(step->Navigate_url, config.base_url@, session),
    ensures
        ({
            let steps = capture_steps(config, session, step, outcomes);
            &&& steps.len() > 0
            &&& steps[0] == step
            &&& forall|i: int|
                0 <= i < steps.len() && (#[trigger] steps[i]) is Navigate ==> is_page_of(
                    steps[i]->Navigate_url,
                    config.base_url@,
                    session,
                )
            &&& forall|i: int, j: int|
                0 <= i < j < steps.len() && (#[trigger] steps[i]) is Navigate ==> (
                #[trigger] steps[j]) !is Navigate
            &&& !before_page(step) ==> forall|i: int|
                0 < i < steps.len() ==> (#[trigger] steps[i]) !is Navigate
            &&& before_page(step) && steps.last() is Screenshot ==> exists|i: int|
                0 <= i < steps.len() && (#[trigger] steps[i]) is Navigate
        }),
    decreases outcomes.len(),
{
    let steps = capture_steps(config, session, step, outcomes);
    if phase_of(step) is Some && outcomes.len() > 0 {
        let next = capture_after(config, session, phase_of(step)->0, outcomes[0]);
        let rest = outcomes.drop_first();
        let later = capture_steps(config, session, next, rest);
        law_page_address_is_of_the_session(config.base_url@, session);
        lemma_navigations(config, session, next, rest);
        assert(steps == seq![step] + later);
        assert forall|i: int| 0 < i < steps.len() implies #[trigger] steps[i] == later[i - 1] by {}
        assert forall|i: int, j: int|
            0 <= i < j < steps.len() && (#[trigger] steps[i]) is Navigate implies (
        #[trigger] steps[j]) !is Navigate by {
            assert(steps[j] == later[j - 1]);
            if i > 0 {
                assert(later[i - 1] is Navigate);
            }
        }
        if before_page(step) && steps.last() is Screenshot {
            assert(later.last() == steps.last());
            let i = if before_page(next) {
                choose|i: int| 0 <= i < later.len() && (#[trigger] later[i]) is Navigate
            } else {
                0
            };
            if !before_page(next) {
                assert(later[0] == next);
                assert(next is Navigate || next is Fail);
                if next is Fail {
                    assert(later =~= seq![next]);
                }
            }
            assert(steps[i + 1] is Navigate);
        }
    }
}

/// A capture that comes to taking the picture has asked for these steps and no others, in this
/// order: a browser window of the size of the viewport, the base URL, the login exactly where there
/// is a token, the session's page, a terminal, its newest output, its bounds.
pub proof fn law_picture_takes_these_steps(
    config: WebCaptureConfig,
    session: Seq<char>,
    outcomes: Seq<Result<(), Seq<char>>>,
)
    requires
        capture_steps(
            config,
            session,
            CaptureStepView::EnsureServer,
            outcomes,
        ).last() is Screenshot,
    ensures
        ({
            let steps = capture_steps(config, session, CaptureStepView::EnsureServer, outcomes);
            let n: int = if config.auth_token is Some {
                5
            } else {
                4
            };
            &&& steps.len() == n + 5
            &&& steps[0] is EnsureServer
            &&& steps[1] == CaptureStepView::Configure {
                width: config.viewport.0,
                height: config.viewport.1,
            }
            &&& steps[2] is Launch
            &&& steps[3] == CaptureStepView::Open { url: config.base_url@ }
            &&& config.auth_token matches Some(token) ==> steps[4] == CaptureStepView::LogIn {
                script: login_text(token@),
            }
            &&& steps[n] is Navigate
            &&& steps[n + 1] is AwaitTerminal
            &&& steps[n + 2] is Scroll
            &&& steps[n + 3] is Measure
            &&& steps[n + 4] == CaptureStepView::Screenshot {
                framing: if outcomes[n + 3] is Ok {
                    Framing::Terminal
                } else {
                    Framing::WholePage
                },
            }
        }),
{
    let start = CaptureStepView::EnsureServer;
    let steps = capture_steps(config, session, start, outcomes);
    lemma_last_step(config, session, start, outcomes);
    law_picture_follows_every_step(config, session, outcomes);
    let needed = needed_steps(config) as int;
    assert forall|i: int| 0 <= i < needed implies (#[trigger] outcomes[i]) is Ok by {}
    let o1 = outcomes.drop_first();
    let o2 = o1.drop_first();
    let o3 = o2.drop_first();
    let o4 = o3.drop_first();
    let o5 = o4.drop_first();
    let o6 = o5.drop_first();
    let o7 = o6.drop_first();
    let o8 = o7.drop_first();
    let o9 = o8.drop_first();
    assert(outcomes[0] is Ok);
    assert(o1[0] == outcomes[1] && o2[0] == outcomes[2] && o3[0] == outcomes[3]);
    assert(o4[0] == outcomes[4] && o5[0] == outcomes[5] && o6[0] == outcomes[6]);
    assert(o7[0] == outcomes[7]);
    if config.auth_token is Some {
        assert(o8[0] == outcomes[8]);
    }
    reveal_with_fuel(capture_steps, 10);
}

/// The last of the steps is where the capture stands.
proof fn lemma_last_step(
    config: WebCaptureConfig,
    session: Seq<char>,
    step: CaptureStepView,
    outcomes: Seq<Result<(), Seq<char>>>,
)
    ensures
        capture_steps(config, session, step, outcomes).len() > 0,
        capture_steps(config, session, step, outcomes).last() == capture_run(
            config,
            session,
            step,
            outcomes,
        ),
    decreases outcomes.len(),
{
    if phase_of(step) is Some && outcomes.len() > 0 {
        lemma_last_step(
            config,
            session,
            capture_after(config, session, phase_of(step)->0, outcomes[0]),
            outcomes.drop_first(),
        );
    }
}

/// A step that fails tells what the step itself reported, and where it was: at the server, at the
/// session's page, or in the browser. The page is given time to repaint when it was scrolled.
pub proof fn law_failed_step_is_reported(
    config: WebCaptureConfig,
    session: Seq<char>,
    error: Seq<char>,
)
    ensures
        capture_after(config, session, CapturePhase::EnsuringServer, Err(error))
            == CaptureStepView::Fail(error),
        capture_after(config, session, CapturePhase::Configuring, Err(error))
            == CaptureStepView::Fail(error),
        capture_after(config, session, CapturePhase::Launching, Err(error))
            == CaptureStepView::Fail(
            "could not start a headless browser to capture the session: "@ + error,
        ),
        capture_after(config, session, CapturePhase::Opening, Err(error)) == CaptureStepView::Fail(
            "could not open the Zellij web server at "@ + config.base_url@
                + " \u{2014} is `zellij web` running? ("@ + error + ")"@,
        ),
        capture_after(config, session, CapturePhase::LoggingIn, Err(error))
            == CaptureStepView::Fail(error),
        capture_after(config, session, CapturePhase::Navigating, Err(error))
            == CaptureStepView::Fail(
            "could not open session "@ + session + " in the web UI: "@ + error,
        ),
        capture_after(config, session, CapturePhase::Waiting, Err(error)) == CaptureStepView::Fail(
            error,
        ),
        capture_after(config, session, CapturePhase::Scrolling, Err(error))
            == (CaptureStepView::Measure { pause_ms: 0 }),
        capture_after(config, session, CapturePhase::Scrolling, Ok(()))
            == (CaptureStepView::Measure { pause_ms: 200 }),
{
}

/// The result of a capture is the picture that the screenshot brought: whoever decodes it finds its
/// bytes. Without a picture it is the error of the screenshot.
pub proof fn law_capture_hands_out_the_picture(png: Vec<u8>, error: String)
    ensures
        capture_result(Ok(png)) is Ok,
        base64_bytes(capture_result(Ok(png))->Ok_0) == Some(png@),
        capture_result(Err(error)) == Err::<Seq<char>, Seq<char>>(
            "could not capture the session's screen: "@ + error@,
        ),
{
    law_base64_decodes(png@);
}

} // verus!
