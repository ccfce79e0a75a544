//! Finding the web server, and starting it when it is not there.

use vstd::prelude::*;
use vstd::string::*;
use crate::text::{chars_of, concat4, decimal, find, has_prefix};
use crate::text::{first_position, last_position, law_ends_of_text, law_find_is_the_first};
use crate::text::{law_trim_end_char, lemma_decimal_reads_back, lemma_found, occurs_at};
use crate::text::{parse_u16, position, starts_with, string_of, trim, trim_end_char, trimmed};
use crate::text::{trimmed_len, u16_of, views};

verus! {

/// The part of a base URL that names the server: what stands behind `://`, or the whole text where
/// there is none, up to the next slash.
pub open spec fn authority(base_url: Seq<char>) -> Seq<char> {
    let without_slashes = trim_end_char(base_url, '/');
    let rest = match find(without_slashes, "://"@) {
        Some(i) => without_slashes.skip(i + 3),
        None => base_url,
    };
    match rest.index_of_first('/') {
        Some(i) => rest.take(i),
        None => rest,
    }
}

/// The port of a base URL that names none.
pub open spec fn default_port(base_url: Seq<char>) -> u16 {
    if starts_with(base_url, "https"@) {
        443
    } else {
        80
    }
}

/// The host and the port that a base URL stands for; `None` where what stands behind the last colon
/// is no port.
pub open spec fn server_address(base_url: Seq<char>) -> Option<(Seq<char>, u16)> {
    let name = authority(base_url);
    match name.index_of_last(':') {
        Some(i) => match parse_u16(name.skip(i + 1)) {
            Some(port) => Some((name.take(i), port)),
            None => None,
        },
        None => Some((name, default_port(base_url))),
    }
}

/// Host and port to probe, from a base URL, defaulting the port by scheme.
pub fn host_and_port(base_url: &str) -> (address: Option<(String, u16)>)
    ensures
        match address {
            Some((host, port)) => server_address(base_url@) == Some((host@, port)),
            None => server_address(base_url@) is None,
        },
{
    let chars = chars_of(base_url);
    let len = trimmed_len(&chars, '/');
    let separator = chars_of("://");
    proof {
        reveal_strlit("://");
    }
    let (from, to): (usize, usize) = match position(&chars, len, &separator) {
        Some(i) => (i + 3, len),
        None => (0, chars.len()),
    };
    let rest = chars_of(string_of(&chars, from, to).as_str());
    let ghost without_slashes = trim_end_char(base_url@, '/');
    proof {
        if find(without_slashes, "://"@) is Some {
            assert(rest@ =~= without_slashes.skip(find(without_slashes, "://"@)->0 + 3));
        } else {
            assert(rest@ =~= base_url@);
        }
    }
    let end: usize = match first_position(&rest, '/') {
        Some(i) => i,
        None => rest.len(),
    };
    let name = chars_of(string_of(&rest, 0, end).as_str());
    assert(name@ =~= authority(base_url@));
    match last_position(&name, ':') {
        Some(i) => match u16_of(&name, i + 1) {
            Some(port) => {
                let host = string_of(&name, 0, i);
                assert(host@ =~= name@.take(i as int));
                Some((host, port))
            },
            None => None,
        },
        None => {
            let host = string_of(&name, 0, name.len());
            assert(host@ =~= name@);
            let port: u16 = if has_prefix(base_url, "https") {
                443
            } else {
                80
            };
            Some((host, port))
        },
    }
}

/// Everything that stands behind the scheme of a URL without a trailing slash is the rest of it.
proof fn lemma_behind_scheme(scheme: Seq<char>, rest: Seq<char>)
    requires
        !scheme.contains(':'),
        !rest.contains('/'),
        rest.len() > 0,
    ensures
        authority(scheme + "://"@ + rest) == rest,
{
    reveal_strlit("://");
    let url = scheme + "://"@ + rest;
    let n = scheme.len() as int;
    assert(url.last() == rest.last());
    assert(rest.contains(rest.last()));
    assert(trim_end_char(url, '/') == url);
    assert(url.subrange(n, n + 3) =~= "://"@);
    assert forall|i: int| 0 <= i < n implies !occurs_at(url, "://"@, i) by {
        assert(scheme.contains(scheme[i]));
        assert(url[i] == scheme[i]);
        if i + 3 <= url.len() {
            assert(url.subrange(i, i + 3)[0] == url[i]);
            assert("://"@[0] == ':');
        }
    }
    lemma_found(url, "://"@, 0, n);
    assert(url.skip(n + 3) =~= rest);
    rest.index_of_first_ensures('/');
}

/// A URL made of a scheme, a host and a port leads to that host and that port. The host may hold
/// colons of its own.
pub proof fn law_address_reads_back(scheme: Seq<char>, host: Seq<char>, port: u16)
    requires
        !scheme.contains(':'),
        !host.contains('/'),
    ensures
        server_address(scheme + "://"@ + (host + ":"@ + decimal(port as nat))) == Some((host, port)),
{
    reveal_strlit(":");
    let digits = decimal(port as nat);
    let name = host + ":"@ + digits;
    lemma_decimal_reads_back(port as nat);
    assert forall|i: int| 0 <= i < name.len() implies name[i] != '/' by {
        if i < host.len() {
            assert(name[i] == host[i]);
            assert(host.contains(host[i]));
        } else if i == host.len() {
            assert(name[i] == ":"@[0]);
        } else {
            assert(name[i] == digits[i - host.len() - 1]);
        }
    }
    assert(!name.contains('/'));
    lemma_behind_scheme(scheme, name);
    let n = host.len() as int;
    assert(name[n] == ":"@[0]);
    assert(name.contains(':'));
    name.index_of_last_ensures(':');
    let at = name.index_of_last(':')->0;
    if at > n {
        assert(name[at] == digits[at - n - 1]);
    }
    assert(at == n);
    assert(name.skip(n + 1) =~= digits);
    assert(name.take(n) =~= host);
    assert(digits[0] != '+');
}

/// A URL that names no port leads to the default port of its scheme.
pub proof fn law_address_defaults_by_scheme(scheme: Seq<char>, host: Seq<char>)
    requires
        !scheme.contains(':'),
        !host.contains('/'),
        !host.contains(':'),
        host.len() > 0,
    ensures
        server_address(scheme + "://"@ + host) == Some(
            (host, default_port(scheme + "://"@ + host)),
        ),
        scheme == "https"@ ==> default_port(scheme + "://"@ + host) == 443,
        scheme == "http"@ ==> default_port(scheme + "://"@ + host) == 80,
{
    let url = scheme + "://"@ + host;
    lemma_behind_scheme(scheme, host);
    host.index_of_last_ensures(':');
    reveal_strlit("https");
    reveal_strlit("http");
    reveal_strlit("://");
    if scheme == "https"@ {
        assert(url.take(5) =~= "https"@);
    }
    if scheme == "http"@ {
        assert(url[4] == "://"@[0]);
        assert(url.take(5)[4] == ':');
        assert("https"@[4] == 's');
    }
}

/// How often the port is probed after the server was started.
pub const START_POLLS: u64 = 20;

/// How long to wait between two probes, in milliseconds.
pub const START_POLL_MS: u64 = 250;

/// Why the port is being probed.
#[derive(Clone, Copy, Debug, PartialEq, Eq, Structural)]
pub enum ProbePhase {
    /// To see whether the server is there at all.
    First,
    /// Because it was started; `failed` probes have found nothing since.
    Started { failed: u64 },
}

/// What is to be done to have a web server.
#[derive(Debug)]
pub enum ServerStep {
    /// Once `delay_ms` milliseconds have passed, see whether anything is listening.
    Probe { delay_ms: u64, phase: ProbePhase },
    /// Run a program with arguments and wait for it to return.
    Run { program: String, args: Vec<String> },
    /// The server is up.
    Ready,
    /// Once `delay_ms` milliseconds have passed, give up.
    Fail { delay_ms: u64, message: String },
}

/// What a [`ServerStep`] holds.
pub ghost enum ServerStepView {
    Probe { delay_ms: u64, phase: ProbePhase },
    Run { program: Seq<char>, args: Seq<Seq<char>> },
    Ready,
    Fail { delay_ms: u64, message: Seq<char> },
}

impl ServerStep {
    pub open spec fn view(&self) -> ServerStepView {
        match self {
            ServerStep::Probe { delay_ms, phase } => ServerStepView::Probe {
                delay_ms: *delay_ms,
                phase: *phase,
            },
            ServerStep::Run { program, args } => ServerStepView::Run {
                program: program@,
                args: views(args@),
            },
            ServerStep::Ready => ServerStepView::Ready,
            ServerStep::Fail { delay_ms, message } => ServerStepView::Fail {
                delay_ms: *delay_ms,
                message: message@,
            },
        }
    }
}

/// How the program that starts the server ended.
#[derive(Debug)]
pub enum RunOutcome {
    /// It could not be run.
    NotRun(String),
    /// It reported failure; what it wrote to standard error.
    Failed(String),
    Succeeded,
}

/// The way to start the server: a binary's own `web` command, in the background.
pub open spec fn start_server(binary: Seq<char>) -> ServerStepView {
    ServerStepView::Run { program: binary, args: seq!["web"@, "--start"@, "-d"@] }
}

/// What follows a probe.
pub open spec fn server_probed(
    base_url: Seq<char>,
    binary: Seq<char>,
    phase: ProbePhase,
    listening: bool,
) -> ServerStepView {
    match phase {
        _ if listening => ServerStepView::Ready,
        ProbePhase::First => start_server(binary),
        ProbePhase::Started { failed } => if failed + 1 < START_POLLS {
            ServerStepView::Probe {
                delay_ms: START_POLL_MS,
                phase: ProbePhase::Started { failed: (failed + 1) as u64 },
            }
        } else {
            ServerStepView::Fail {
                delay_ms: START_POLL_MS,
                message: "started `"@ + binary + " web` but nothing came up at "@ + base_url,
            }
        },
    }
}

/// What follows the program that starts the server. It leaves the server in the background, so its
/// return is not the same as the port being open.
pub open spec fn server_run(binary: Seq<char>, outcome: RunOutcome) -> ServerStepView {
    match outcome {
        RunOutcome::NotRun(e) => ServerStepView::Fail {
            delay_ms: 0,
            message: "could not run `"@ + binary + " web --start` to bring the web UI up: "@ + e@,
        },
        RunOutcome::Failed(stderr) => ServerStepView::Fail {
            delay_ms: 0,
            message: "`"@ + binary + " web --start` failed: "@ + trim(stderr@),
        },
        RunOutcome::Succeeded => ServerStepView::Probe {
            delay_ms: 0,
            phase: ProbePhase::Started { failed: 0 },
        },
    }
}

/// Begins to make sure that a web server is up.
pub fn ensure_web_server() -> (step: ServerStep)
    ensures
        step@ == (ServerStepView::Probe { delay_ms: 0, phase: ProbePhase::First }),
{
    ServerStep::Probe { delay_ms: 0, phase: ProbePhase::First }
}

/// Goes on with what a probe found.
pub fn probed(base_url: &str, binary: &str, phase: ProbePhase, listening: bool) -> (step:
    ServerStep)
    ensures
        step@ == server_probed(base_url@, binary@, phase, listening),
{
    if listening {
        return ServerStep::Ready;
    }
    match phase {
        ProbePhase::First => {
            let mut args: Vec<String> = Vec::new();
            args.push("web".to_owned());
            args.push("--start".to_owned());
            args.push("-d".to_owned());
            assert(views(args@) =~= seq!["web"@, "--start"@, "-d"@]);
            ServerStep::Run { program: binary.to_owned(), args }
        },
        ProbePhase::Started { failed } => {
            if failed < START_POLLS - 1 {
                ServerStep::Probe {
                    delay_ms: START_POLL_MS,
                    phase: ProbePhase::Started { failed: failed + 1 },
                }
            } else {
                let message = concat4("started `", binary, " web` but nothing came up at ", base_url);
                ServerStep::Fail { delay_ms: START_POLL_MS, message }
            }
        },
    }
}

/// Goes on with how the program that starts the server ended.
pub fn program_ended(binary: &str, outcome: RunOutcome) -> (step: ServerStep)
    ensures
        step@ == server_run(binary@, outcome),
{
    match outcome {
        RunOutcome::NotRun(e) => ServerStep::Fail {
            delay_ms: 0,
            message: concat4(
                "could not run `",
                binary,
                " web --start` to bring the web UI up: ",
                e.as_str(),
            ),
        },
        RunOutcome::Failed(stderr) => ServerStep::Fail {
            delay_ms: 0,
            message: concat4(
                "`",
                binary,
                " web --start` failed: ",
                trimmed(stderr.as_str()).as_str(),
            ),
        },
        RunOutcome::Succeeded => ServerStep::Probe {
            delay_ms: 0,
            phase: ProbePhase::Started { failed: 0 },
        },
    }
}

/// Where things stand when the probes from this step on have found these, one after the other.
pub open spec fn after_polls(
    base_url: Seq<char>,
    binary: Seq<char>,
    step: ServerStepView,
    found: Seq<bool>,
) -> ServerStepView
    decreases found.len(),
{
    match step {
        ServerStepView::Probe { phase, .. } if found.len() > 0 => after_polls(
            base_url,
            binary,
            server_probed(base_url, binary, phase, found[0]),
            found.drop_first(),
        ),
        _ => step,
    }
}

/// A server that is already listening is left alone: the first probe decides, and only one that
/// finds nothing leads to the server being started.
pub proof fn law_server_is_started_only_when_absent(
    base_url: Seq<char>,
    binary: Seq<char>,
    phase: ProbePhase,
    listening: bool,
)
    ensures
        server_probed(base_url, binary, phase, listening) is Run <==> !listening && phase is First,
        listening ==> server_probed(base_url, binary, phase, listening) is Ready,
{
}

/// From a probe after `failed` others on, `misses` more misses lead to the next probe or to an
/// error, and a hit after them to the server.
proof fn lemma_polls(
    base_url: Seq<char>,
    binary: Seq<char>,
    delay_ms: u64,
    failed: u64,
    misses: nat,
)
    requires
        failed + misses <= START_POLLS,
        failed < START_POLLS,
    ensures
        ({
            let step = ServerStepView::Probe { delay_ms, phase: ProbePhase::Started { failed } };
            let end = after_polls(base_url, binary, step, Seq::new(misses, |i: int| false));
            &&& misses == 0 ==> end == step
            &&& 0 < misses && failed + misses < START_POLLS ==> end == ServerStepView::Probe {
                delay_ms: START_POLL_MS,
                phase: ProbePhase::Started { failed: (failed + misses) as u64 },
            }
            &&& failed + misses == START_POLLS ==> end == ServerStepView::Fail {
                delay_ms: START_POLL_MS,
                message: "started `"@ + binary + " web` but nothing came up at "@ + base_url,
            }
            &&& failed + misses < START_POLLS ==> after_polls(
                base_url,
                binary,
                step,
                Seq::new(misses, |i: int| false) + seq![true],
            ) is Ready
        }),
    decreases misses,
{
    let none = Seq::new(misses, |i: int| false);
    let found = none + seq![true];
    reveal_with_fuel(after_polls, 2);
    if misses > 0 {
        let fewer = (misses - 1) as nat;
        assert(!none[0] && !found[0]);
        assert(none.drop_first() =~= Seq::new(fewer, |i: int| false));
        assert(found.drop_first() =~= Seq::new(fewer, |i: int| false) + seq![true]);
        if failed + 1 < START_POLLS {
            lemma_polls(base_url, binary, START_POLL_MS, (failed + 1) as u64, fewer);
        }
    } else {
        assert(found[0]);
    }
}

/// A started server is waited for until a probe finds it: after each miss the next probe comes
/// later by the time between two of them, and when as many probes as the limit have found nothing,
/// that is an error.
pub proof fn law_started_server_is_polled(base_url: Seq<char>, binary: Seq<char>, misses: nat)
    requires
        misses <= 20,
    ensures
        ({
            let begin = server_run(binary, RunOutcome::Succeeded);
            let missed = Seq::new(misses, |i: int| false);
            let end = after_polls(base_url, binary, begin, missed);
            &&& 0 < misses < 20 ==> end == ServerStepView::Probe {
                delay_ms: 250,
                phase: ProbePhase::Started { failed: misses as u64 },
            }
            &&& misses == 20 ==> end == ServerStepView::Fail {
                delay_ms: 250,
                message: "started `"@ + binary + " web` but nothing came up at "@ + base_url,
            }
            &&& misses < 20 ==> after_polls(
                base_url,
                binary,
                begin,
                missed + seq![true],
            ) is Ready
        }),
{
    lemma_polls(base_url, binary, 0, 0, misses);
}

/// A slash at the end of a base URL changes nothing.
pub proof fn law_trailing_slash_changes_nothing(base_url: Seq<char>)
    ensures
        server_address(base_url.push('/')) == server_address(base_url),
{
    let longer = base_url.push('/');
    assert(longer.drop_last() =~= base_url);
    assert(trim_end_char(longer, '/') == trim_end_char(base_url, '/'));
    base_url.index_of_first_ensures('/');
    longer.index_of_first_ensures('/');
    assert(longer[base_url.len() as int] == '/');
    assert(longer.contains('/'));
    let i = longer.index_of_first('/')->0;
    match base_url.index_of_first('/') {
        Some(j) => {
            assert(longer[j] == base_url[j]);
            if i < j {
                assert(longer[i] == base_url[i]);
            }
            assert(longer.take(j) =~= base_url.take(j));
        },
        None => {
            if i < base_url.len() {
                assert(base_url[i] == '/');
                assert(base_url.contains('/'));
            }
            assert(longer.take(base_url.len() as int) =~= base_url);
        },
    }
    assert(authority(longer) == authority(base_url));
    reveal_strlit("https");
    if base_url.len() >= 5 {
        assert(longer.take(5) =~= base_url.take(5));
    } else if longer.len() == 5 {
        assert(longer.take(5)[4] == '/');
        assert("https"@[4] == 's');
    }
}

/// A path behind the server's name is ignored: what names the server stands between the scheme and
/// the next slash.
pub proof fn law_path_is_ignored(scheme: Seq<char>, name: Seq<char>, path: Seq<char>)
    requires
        !scheme.contains(':'),
        !name.contains('/'),
        name.len() > 0,
    ensures
        authority(scheme + "://"@ + name + "/"@ + path) == name,
        authority(scheme + "://"@ + name) == name,
{
    lemma_behind_scheme(scheme, name);
    reveal_strlit("://");
    reveal_strlit("/");
    let front = scheme + "://"@ + name;
    let url = front + "/"@ + path;
    let n = scheme.len() as int;
    let kept = trim_end_char(url, '/');
    law_trim_end_char(url, '/');
    let slashes = choose|slashes: Seq<char>|
        url == #[trigger] (kept + slashes) && forall|i: int|
            0 <= i < slashes.len() ==> slashes[i] == '/';
    assert(name.contains(name.last()));
    assert(url[front.len() - 1] == name.last());
    if kept.len() < front.len() {
        assert(url[front.len() - 1] == slashes[front.len() - 1 - kept.len()]);
    }
    assert forall|i: int| 0 <= i < kept.len() implies #[trigger] kept[i] == url[i] by {}
    assert(kept.subrange(n, n + 3) =~= "://"@);
    assert forall|i: int| 0 <= i < n implies !occurs_at(kept, "://"@, i) by {
        assert(scheme.contains(scheme[i]));
        assert(kept[i] == scheme[i]);
        if i + 3 <= kept.len() {
            assert(kept.subrange(i, i + 3)[0] == kept[i]);
            assert("://"@[0] == ':');
        }
    }
    lemma_found(kept, "://"@, 0, n);
    let rest = kept.skip(n + 3);
    lemma_first_part(rest, name);
}

/// A text that begins with a name without slashes, and goes on with a slash or ends there, has that
/// name in front of its first slash.
proof fn lemma_first_part(rest: Seq<char>, name: Seq<char>)
    requires
        !name.contains('/'),
        rest.len() >= name.len(),
        forall|i: int| 0 <= i < name.len() ==> #[trigger] rest[i] == name[i],
        rest.len() > name.len() ==> rest[name.len() as int] == '/',
    ensures
        (match rest.index_of_first('/') {
            Some(i) => rest.take(i),
            None => rest,
        }) == name,
{
    rest.index_of_first_ensures('/');
    match rest.index_of_first('/') {
        Some(i) => {
            if i < name.len() {
                assert(name[i] == rest[i]);
                assert(name.contains('/'));
            }
            assert(rest.take(i) =~= name);
        },
        None => {
            if rest.len() > name.len() {
                assert(rest.contains('/'));
            }
            assert(rest =~= name);
        },
    }
}

/// Without a scheme the server's name is what stands in front of the first slash.
pub proof fn law_scheme_may_be_missing(name: Seq<char>, path: Seq<char>)
    requires
        !name.contains('/'),
        forall|i: int| !occurs_at(#[trigger] (name + "/"@ + path), "://"@, i),
    ensures
        authority(name + "/"@ + path) == name,
        authority(name) == name,
{
    reveal_strlit("/");
    reveal_strlit("://");
    let url = name + "/"@ + path;
    lemma_no_scheme(url);
    lemma_first_part(url, name);
    assert forall|i: int| !occurs_at(name, "://"@, i) by {
        if occurs_at(name, "://"@, i) {
            assert(name.subrange(i, i + 3)[1] == name[i + 1]);
            assert("://"@[1] == '/');
            assert(name.contains('/'));
        }
    }
    lemma_no_scheme(name);
    lemma_first_part(name, name);
}

/// Where a text holds no scheme, neither does what is left of it without the slashes at its end.
proof fn lemma_no_scheme(url: Seq<char>)
    requires
        forall|i: int| !occurs_at(url, "://"@, i),
    ensures
        find(trim_end_char(url, '/'), "://"@) is None,
{
    let kept = trim_end_char(url, '/');
    law_trim_end_char(url, '/');
    law_find_is_the_first(kept, "://"@);
    let slashes = choose|slashes: Seq<char>|
        url == #[trigger] (kept + slashes) && forall|i: int|
            0 <= i < slashes.len() ==> slashes[i] == '/';
    if let Some(at) = find(kept, "://"@) {
        let n = "://"@.len();
        assert(url.subrange(at, at + n) =~= kept.subrange(at, at + n));
        assert(occurs_at(url, "://"@, at));
    }
}

/// The host is what stands in front of the last colon of the server's name, and the port what stands
/// behind it; a name without a colon is the host, and its port that of the scheme. What is no port
/// leads nowhere.
pub proof fn law_port_stands_behind_the_last_colon(
    base_url: Seq<char>,
    host: Seq<char>,
    port: Seq<char>,
)
    ensures
        authority(base_url) == host + seq![':'] + port && !port.contains(':') ==> server_address(
            base_url,
        ) == match parse_u16(port) {
            Some(number) => Some((host, number)),
            None => None,
        },
        authority(base_url) == host && !host.contains(':') ==> server_address(base_url) == Some(
            (
                host,
                if exists|rest: Seq<char>| base_url == #[trigger] ("https"@ + rest) {
                    443u16
                } else {
                    80u16
                },
            ),
        ),
{
    law_ends_of_text(base_url, "https"@);
    let name = authority(base_url);
    name.index_of_last_ensures(':');
    if name == host + seq![':'] + port && !port.contains(':') {
        let n = host.len() as int;
        assert(name[n] == ':');
        assert(name.contains(':'));
        let at = name.index_of_last(':')->0;
        if at > n {
            assert(name[at] == port[at - n - 1]);
            assert(port.contains(':'));
        }
        assert(at == n);
        assert(name.skip(n + 1) =~= port);
        assert(name.take(n) =~= host);
    }
}

/// The server is started with the binary that was configured, by its own command for that, and what
/// the program reported is what is told where that fails.
pub proof fn law_server_is_started_with_its_binary(
    base_url: Seq<char>,
    binary: Seq<char>,
    error: String,
)
    ensures
        server_probed(base_url, binary, ProbePhase::First, false) == (ServerStepView::Run {
            program: binary,
            args: seq!["web"@, "--start"@, "-d"@],
        }),
        server_run(binary, RunOutcome::NotRun(error)) == (ServerStepView::Fail {
            delay_ms: 0,
            message: "could not run `"@ + binary + " web --start` to bring the web UI up: "@ + error@,
        }),
        server_run(binary, RunOutcome::Failed(error)) == (ServerStepView::Fail {
            delay_ms: 0,
            message: "`"@ + binary + " web --start` failed: "@ + trim(error@),
        }),
        server_run(binary, RunOutcome::Succeeded) == (ServerStepView::Probe {
            delay_ms: 0,
            phase: ProbePhase::Started { failed: 0 },
        }),
{
}

} // verus!
