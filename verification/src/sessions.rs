//! The sessions that one server drives: one link per session, and one creation at a time per name.

use vstd::prelude::*;
use vstd::string::*;
use vstd::utf8::encode_utf8;
use crate::listing::{all_sessions, is_listing_of, list_sessions, summaries_view, SessionSummary};
use crate::names::NameMap;
use crate::text::{concat2, concat3, decimal, decimal_of, is_blank, opt_view, text_outcome, views};

verus! {

/// What is wrong with a session name, whatever sessions there are. A name becomes the name of a
/// socket file, so it may not be one that leaves the directory of the sockets.
pub open spec fn name_fault(name: Seq<char>) -> Option<Seq<char>> {
    if is_blank(name) {
        Some("Session name cannot be empty. Please provide a specific session name."@)
    } else if name == "."@ || name == ".."@ {
        Some("Invalid session name: \""@ + name + "\"."@)
    } else if name.contains('/') {
        Some("Session name cannot contain '/'."@)
    } else {
        None
    }
}

/// `zellij_utils::sessions::validate_session_name`: refuses a name of white space alone, the names
/// of the two directories that every directory holds, and a name with a slash, each with its own
/// message, in this order.
#[verifier::external_body]
fn validate_session_name(name: &str) -> (verdict: Result<(), String>)
    ensures
        match verdict {
            Ok(()) => name_fault(name@) is None,
            Err(message) => name_fault(name@) == Some(message@),
        },
{
    zellij_utils::sessions::validate_session_name(name)
}

/// The message about a name whose socket path would be longer than the system allows.
pub open spec fn too_long(longest_name: nat) -> Seq<char> {
    "session name must be less than "@ + decimal(longest_name + 1) + " characters"@
}

/// The most bytes that a session name may have where the directory of the sockets takes
/// `directory_len` and a socket path has to be shorter than `max_len`: a separator stands between
/// the two.
pub fn longest_name(directory_len: usize, max_len: usize) -> (n: usize)
    ensures
        n == if max_len >= directory_len + 2 {
            max_len - directory_len - 2
        } else {
            0
        },
        max_len >= directory_len + 2 ==> directory_len + 1 + n < max_len && directory_len + 1 + n + 1
            >= max_len,
{
    if max_len >= 2 && max_len - 2 >= directory_len {
        max_len - 2 - directory_len
    } else {
        0
    }
}

/// The name of a session that is to be created: the one that was asked for, or else a generated
/// one; an error where there is none, or where no session can have it. `longest_name` is the most
/// bytes that a name may have for its socket path to fit.
pub open spec fn candidate(
    wanted: Option<Seq<char>>,
    generated: Option<Seq<char>>,
    longest_name: nat,
) -> Result<Seq<char>, Seq<char>> {
    let chosen = if wanted is Some {
        wanted
    } else {
        generated
    };
    match chosen {
        None => Err("could not generate a session name"@),
        Some(name) => match name_fault(name) {
            Some(message) => Err(message),
            None => if encode_utf8(name).len() > longest_name {
                Err(too_long(longest_name))
            } else {
                Ok(name)
            },
        },
    }
}

/// Picks the name of a session that is to be created, and refuses one that no session can have.
/// `generated` is looked at only where no name is wanted.
pub fn candidate_name(
    wanted: Option<String>,
    generated: Option<String>,
    longest_name: usize,
) -> (name: Result<String, String>)
    ensures
        text_outcome(name) == candidate(
            opt_view(wanted),
            opt_view(generated),
            longest_name as nat,
        ),
{
    let chosen = match wanted {
        Some(name) => Some(name),
        None => generated,
    };
    let name = match chosen {
        Some(name) => name,
        None => {
            return Err("could not generate a session name".to_owned());
        },
    };
    if let Err(message) = validate_session_name(name.as_str()) {
        return Err(message);
    }
    if name.as_str().as_bytes().len() > longest_name {
        let limit: usize = longest_name + 1;
        let number = decimal_of(limit as u64);
        return Err(
            concat3("session name must be less than ", number.as_str(), " characters"),
        );
    }
    Ok(name)
}

/// The message about a name that is taken.
pub open spec fn already_exists(name: Seq<char>) -> Seq<char> {
    "session '"@ + name + "' already exists"@
}

/// The name that a creation may claim, where some names are claimed already; an error where the
/// candidate is one of them or the name of a running session. Where it cannot be told whether the
/// session is running, it is taken not to be.
pub open spec fn reservation(
    starting: Set<Seq<char>>,
    candidate: Result<Seq<char>, Seq<char>>,
    running: Option<bool>,
) -> Result<Seq<char>, Seq<char>> {
    match candidate {
        Err(message) => Err(message),
        Ok(name) => if starting.contains(name) || running == Some(true) {
            Err(already_exists(name))
        } else {
            Ok(name)
        },
    }
}

/// The claim of a creation to a name.
#[derive(Debug)]
pub struct StartingReservation {
    name: String,
}

impl StartingReservation {
    pub closed spec fn spec_name(&self) -> Seq<char> {
        self.name@
    }

    /// The name that is claimed.
    pub fn name(&self) -> (name: String)
        ensures
            name@ == self.spec_name(),
    {
        self.name.clone()
    }
}

/// What the outcome of a reservation comes to: the claimed name or the message.
pub open spec fn reservation_outcome(outcome: Result<StartingReservation, String>) -> Result<
    Seq<char>,
    Seq<char>,
> {
    match outcome {
        Ok(reservation) => Ok(reservation.spec_name()),
        Err(message) => Err(message@),
    }
}

/// What getting the link to a session takes.
#[derive(Debug)]
pub enum LinkStep<'a, L> {
    /// The session is linked, by this link.
    Linked(&'a L),
    /// The session is to be connected to, and the outcome to be handed to
    /// [`SessionManager::connected`]. A link that went dead is to be shut down first.
    Connect { dead: Option<L> },
}

/// What killing a session takes.
#[derive(Debug)]
pub enum KillStep<L> {
    /// The session cannot be killed.
    Refused(String),
    /// The link, where there was one, is to be shut down; then the session is to be told to end,
    /// and what came of opening the connection for it to be handed to [`kill_sent`].
    Send { dropped: Option<L> },
}

/// The links to sessions, and the names of the sessions being created.
#[derive(Debug)]
pub struct SessionManager<L> {
    links: NameMap<L>,
    starting: NameMap<()>,
}

impl<L> Default for SessionManager<L> {
    fn default() -> (manager: Self)
        ensures
            manager.links() == Map::<Seq<char>, L>::empty(),
            manager.starting() == Set::<Seq<char>>::empty(),
    {
        SessionManager::new()
    }
}

/// Why a session is not killed; nothing where it is. One that is not known to be running is not.
pub open spec fn kill_refusal(name: Seq<char>, running: Option<bool>) -> Option<Seq<char>> {
    if running == Some(true) {
        None
    } else {
        Some("session '"@ + name + "' is not running"@)
    }
}

/// What a map holds for a name.
pub open spec fn held<L>(map: Map<Seq<char>, L>, name: Seq<char>) -> Option<L> {
    if map.contains_key(name) {
        Some(map[name])
    } else {
        None
    }
}

/// The link that is handed out for a session: the one that there is, unless it is dead.
pub open spec fn usable_link<L>(links: Map<Seq<char>, L>, name: Seq<char>, alive: bool) -> Option<
    L,
> {
    if alive {
        held(links, name)
    } else {
        None
    }
}

impl<L> SessionManager<L> {
    /// The link of each linked session.
    pub closed spec fn links(&self) -> Map<Seq<char>, L> {
        self.links@
    }

    /// The names of the sessions being created.
    pub closed spec fn starting(&self) -> Set<Seq<char>> {
        self.starting@.dom()
    }

    /// No links, and nothing being created.
    pub fn new() -> (manager: Self)
        ensures
            manager.links() == Map::<Seq<char>, L>::empty(),
            manager.starting() == Set::<Seq<char>>::empty(),
    {
        SessionManager { links: NameMap::new(), starting: NameMap::new() }
    }

    /// All sessions by name: those that are running and those that can be resurrected, with their
    /// ages in seconds. Where the running ones could not be found out, there are none.
    pub fn list(
        &self,
        running: Option<Vec<(String, u64)>>,
        resurrectable: Vec<(String, u64)>,
    ) -> (listed: Vec<SessionSummary>)
        ensures
            is_listing_of(
                summaries_view(listed@),
                all_sessions(
                    match running {
                        Some(running) => running@,
                        None => Seq::empty(),
                    },
                    resurrectable@,
                ),
            ),
    {
        let running = match running {
            Some(running) => running,
            None => Vec::new(),
        };
        list_sessions(running, resurrectable)
    }

    /// Gets the link to a session. `alive` says whether the link that there is, if any, still
    /// works: a dead one is given up, never handed out.
    pub fn link(&mut self, session_name: &str, alive: bool) -> (step: LinkStep<'_, L>)
        ensures
            final(self).starting() == old(self).starting(),
            match step {
                LinkStep::Linked(link) => usable_link(old(self).links(), session_name@, alive)
                    == Some(*link) && final(self).links() == old(self).links(),
                LinkStep::Connect { dead } => usable_link(old(self).links(), session_name@, alive)
                    is None && dead == held(old(self).links(), session_name@) && final(self).links()
                    == old(self).links().remove(session_name@),
            },
    {
        if !self.links.contains(session_name) {
            assert(self.links() =~= self.links().remove(session_name@));
            return LinkStep::Connect { dead: None };
        }
        if !alive {
            let dead = self.links.remove(session_name);
            return LinkStep::Connect { dead };
        }
        LinkStep::Linked(self.links.get(session_name).unwrap())
    }

    /// Keeps the link that connecting to a session gave. Where connecting failed, nothing is kept.
    pub fn connected(&mut self, session_name: &str, outcome: Result<L, String>) -> (link: Result<
        &L,
        String,
    >)
        ensures
            final(self).starting() == old(self).starting(),
            match link {
                Ok(link) => outcome == Ok::<L, String>(*link) && final(self).links() == old(
                    self,
                ).links().insert(session_name@, *link),
                Err(message) => outcome == Err::<L, String>(message) && final(self).links() == old(
                    self,
                ).links(),
            },
    {
        match outcome {
            Ok(link) => {
                self.links.insert(session_name, link);
                Ok(self.links.get(session_name).unwrap())
            },
            Err(message) => Err(message),
        }
    }

    /// The link to a session, if one is open. None is opened.
    pub fn existing_link(&self, session_name: &str) -> (link: Option<&L>)
        ensures
            match link {
                Some(link) => held(self.links(), session_name@) == Some(*link),
                None => held(self.links(), session_name@) is None,
            },
    {
        self.links.get(session_name)
    }

    /// Gives up the link to a session, and hands it out to be shut down.
    pub fn drop_link(&mut self, session_name: &str) -> (link: Option<L>)
        ensures
            link == held(old(self).links(), session_name@),
            final(self).links() == old(self).links().remove(session_name@),
            final(self).starting() == old(self).starting(),
    {
        self.links.remove(session_name)
    }

    /// The names of the linked sessions, each of them once, in no particular order.
    pub fn linked_sessions(&self) -> (names: Vec<String>)
        ensures
            views(names@).no_duplicates(),
            views(names@).to_set() == self.links().dom(),
    {
        self.links.names()
    }

    /// Claims a name for a session that is to be created: the wanted one, or else the generated
    /// one. `running` says whether a session of that name is running, where that is known.
    pub fn reserve_name(
        &mut self,
        wanted: Option<String>,
        generated: Option<String>,
        longest_name: usize,
        running: Option<bool>,
    ) -> (outcome: Result<StartingReservation, String>)
        ensures
            final(self).links() == old(self).links(),
            reservation_outcome(outcome) == reservation(
                old(self).starting(),
                candidate(opt_view(wanted), opt_view(generated), longest_name as nat),
                running,
            ),
            final(self).starting() == match outcome {
                Ok(reservation) => old(self).starting().insert(reservation.spec_name()),
                Err(_) => old(self).starting(),
            },
    {
        let name = match candidate_name(wanted, generated, longest_name) {
            Ok(name) => name,
            Err(message) => {
                return Err(message);
            },
        };
        let alive = match running {
            Some(running) => running,
            None => false,
        };
        if alive || self.starting.contains(name.as_str()) {
            return Err(concat3("session '", name.as_str(), "' already exists"));
        }
        self.starting.insert(name.as_str(), ());
        assert(self.starting() =~= old(self).starting().insert(name@));
        Ok(StartingReservation { name })
    }

    /// Gives a claimed name free.
    pub fn release(&mut self, reservation: StartingReservation)
        ensures
            final(self).links() == old(self).links(),
            final(self).starting() == old(self).starting().remove(reservation.spec_name()),
    {
        let _claim = self.starting.remove(reservation.name.as_str());
        assert(self.starting() =~= old(self).starting().remove(reservation.spec_name()));
    }

    /// Begins to kill a session. `running` says whether it is running, where that is known.
    pub fn kill(&mut self, session_name: &str, running: Option<bool>) -> (step: KillStep<L>)
        ensures
            final(self).starting() == old(self).starting(),
            match step {
                KillStep::Refused(message) => kill_refusal(session_name@, running) == Some(message@)
                    && final(self).links() == old(self).links(),
                KillStep::Send { dropped } => kill_refusal(session_name@, running) is None && dropped
                    == held(old(self).links(), session_name@) && final(self).links() == old(
                    self,
                ).links().remove(session_name@),
            },
    {
        let alive = match running {
            Some(running) => running,
            None => false,
        };
        if !alive {
            return KillStep::Refused(concat3("session '", session_name, "' is not running"));
        }
        let dropped = self.drop_link(session_name);
        KillStep::Send { dropped }
    }
}

/// What came of killing a session, by what came of opening the connection to tell it to end.
pub fn kill_sent(opened: Result<(), String>) -> (outcome: Result<(), String>)
    ensures
        match opened {
            Ok(()) => outcome is Ok,
            Err(error) => outcome is Err && outcome->Err_0@ == "could not open client IPC: "@
                + error@,
        },
{
    match opened {
        Ok(()) => Ok(()),
        Err(error) => Err(concat2("could not open client IPC: ", error.as_str())),
    }
}

/// A session has one link: once it is linked, and as long as the link works, that same link is
/// what every further request for it gets, and the links of other sessions are not touched.
pub proof fn law_link_is_reused<L>(
    links: Map<Seq<char>, L>,
    name: Seq<char>,
    link: L,
    other: Seq<char>,
)
    ensures
        usable_link(links.insert(name, link), name, true) == Some(link),
        other != name ==> held(links.insert(name, link), other) == held(links, other),
{
}

/// A session that cannot be linked leaves nothing behind: when no link can be handed out and
/// connecting fails, no link is kept for it, and those of other sessions stay.
pub proof fn law_failed_link_keeps_nothing<L>(
    links: Map<Seq<char>, L>,
    name: Seq<char>,
    alive: bool,
    other: Seq<char>,
)
    requires
        usable_link(links, name, alive) is None,
    ensures
        held(links.remove(name), name) is None,
        usable_link(links.remove(name), name, true) is None,
        other != name ==> held(links.remove(name), other) == held(links, other),
{
}

/// The names claimed, and the claims that are held, one after the other.
pub ghost struct Claims {
    pub starting: Set<Seq<char>>,
    pub held: Seq<Seq<char>>,
}

/// Something that happens to claims.
pub ghost enum ClaimEvent {
    /// A creation asks for a name.
    Reserve { candidate: Result<Seq<char>, Seq<char>>, running: Option<bool> },
    /// The holder of the claim at this place gives it back.
    Release { at: int },
}

/// The claims after one event.
pub open spec fn claims_after(claims: Claims, event: ClaimEvent) -> Claims {
    match event {
        ClaimEvent::Reserve { candidate, running } => match reservation(
            claims.starting,
            candidate,
            running,
        ) {
            Ok(name) => Claims {
                starting: claims.starting.insert(name),
                held: claims.held.push(name),
            },
            Err(_) => claims,
        },
        ClaimEvent::Release { at } => if 0 <= at < claims.held.len() {
            Claims {
                starting: claims.starting.remove(claims.held[at]),
                held: claims.held.remove(at),
            }
        } else {
            claims
        },
    }
}

/// The claims after all of `events`, beginning with none.
pub open spec fn claims_run(events: Seq<ClaimEvent>) -> Claims
    decreases events.len(),
{
    if events.len() == 0 {
        Claims { starting: Set::empty(), held: Seq::empty() }
    } else {
        claims_after(claims_run(events.drop_last()), events.last())
    }
}

/// However creations overlap, no two of them hold the same name at the same time, and the names
/// claimed are exactly those that some creation holds.
pub proof fn law_overlapping_claims_never_collide(events: Seq<ClaimEvent>)
    ensures
        claims_run(events).held.no_duplicates(),
        forall|name: Seq<char>| #[trigger]
            claims_run(events).starting.contains(name) <==> claims_run(events).held.contains(name),
    decreases events.len(),
{
    if events.len() > 0 {
        let before = claims_run(events.drop_last());
        let after = claims_run(events);
        law_overlapping_claims_never_collide(events.drop_last());
        match events.last() {
            ClaimEvent::Reserve { candidate, running } => {
                if let Ok(claimed) = reservation(before.starting, candidate, running) {
                    assert(!before.held.contains(claimed));
                    assert forall|name: Seq<char>| #[trigger]
                        after.starting.contains(name) <==> after.held.contains(name) by {
                        if after.held.contains(name) {
                            let i = after.held.index_of(name);
                            if i < before.held.len() {
                                assert(before.held[i] == name);
                            }
                        }
                        if before.held.contains(name) {
                            let i = before.held.index_of(name);
                            assert(after.held[i] == name);
                        }
                        assert(after.held[before.held.len() as int] == claimed);
                    }
                }
            },
            ClaimEvent::Release { at } => {
                if 0 <= at < before.held.len() {
                    let freed = before.held[at];
                    assert forall|i: int| 0 <= i < after.held.len() implies #[trigger] after.held[i]
                        == before.held[if i < at {
                        i
                    } else {
                        i + 1
                    }] by {}
                    assert forall|name: Seq<char>| #[trigger]
                        after.starting.contains(name) <==> after.held.contains(name) by {
                        if after.held.contains(name) {
                            let i = after.held.index_of(name);
                            let j = if i < at {
                                i
                            } else {
                                i + 1
                            };
                            assert(before.held[j] == name);
                        }
                        if before.held.contains(name) && name != freed {
                            let j = before.held.index_of(name);
                            let i = if j < at {
                                j
                            } else {
                                j - 1
                            };
                            assert(after.held[i] == name);
                        }
                    }
                }
            },
        }
    }
}

/// A name that is free again can be claimed again: once a creation has given its name back, the
/// same request is answered as it was.
pub proof fn law_released_name_can_be_claimed(
    starting: Set<Seq<char>>,
    candidate: Result<Seq<char>, Seq<char>>,
    running: Option<bool>,
    name: Seq<char>,
)
    requires
        reservation(starting, candidate, running) == Ok::<Seq<char>, Seq<char>>(name),
    ensures
        starting.insert(name).remove(name) == starting,
        reservation(starting.insert(name).remove(name), candidate, running) == Ok::<
            Seq<char>,
            Seq<char>,
        >(name),
{
    assert(starting.insert(name).remove(name) =~= starting);
}

/// A claimed name is the name of one file in the directory of the sockets: it holds no slash, is
/// not blank and is neither of the names that stand for a directory. Its socket path fits.
pub proof fn law_claimed_name_stays_in_its_directory(
    starting: Set<Seq<char>>,
    wanted: Option<Seq<char>>,
    generated: Option<Seq<char>>,
    longest_name: nat,
    running: Option<bool>,
    name: Seq<char>,
)
    requires
        reservation(starting, candidate(wanted, generated, longest_name), running) == Ok::<
            Seq<char>,
            Seq<char>,
        >(name),
    ensures
        !name.contains('/'),
        !is_blank(name),
        name != "."@,
        name != ".."@,
        encode_utf8(name).len() <= longest_name,
        wanted is Some ==> name == wanted->0,
        wanted is None ==> Some(name) == generated,
{
}

/// The name that is asked for is the one that is tried, and a generated one only where none is asked
/// for. It is refused when it is blank, stands for a directory, holds a slash or does not fit, and
/// for no other reason.
pub proof fn law_name_is_refused_only_for_cause(
    wanted: Option<Seq<char>>,
    generated: Option<Seq<char>>,
    other: Option<Seq<char>>,
    longest_name: nat,
)
    ensures
        wanted is None && generated is None ==> candidate(wanted, generated, longest_name) == Err::<
            Seq<char>,
            Seq<char>,
        >("could not generate a session name"@),
        wanted is Some ==> candidate(wanted, generated, longest_name) == candidate(
            wanted,
            other,
            longest_name,
        ),
        wanted is Some ==> candidate(None, wanted, longest_name) == candidate(
            wanted,
            generated,
            longest_name,
        ),
        wanted matches Some(name) ==> {
            let sound = !is_blank(name) && name != "."@ && name != ".."@ && !name.contains('/');
            let fits = encode_utf8(name).len() <= longest_name;
            &&& candidate(wanted, generated, longest_name) is Ok <==> sound && fits
            &&& sound && fits ==> candidate(wanted, generated, longest_name)->Ok_0 == name
            &&& sound && !fits ==> candidate(wanted, generated, longest_name)->Err_0
                == "session name must be less than "@ + decimal(longest_name + 1) + " characters"@
            &&& is_blank(name) ==> candidate(wanted, generated, longest_name)->Err_0
                == "Session name cannot be empty. Please provide a specific session name."@
            &&& !is_blank(name) && (name == "."@ || name == ".."@) ==> candidate(
                wanted,
                generated,
                longest_name,
            )->Err_0 == "Invalid session name: \""@ + name + "\"."@
            &&& !is_blank(name) && name != "."@ && name != ".."@ && name.contains('/') ==> candidate(
                wanted,
                generated,
                longest_name,
            )->Err_0 == "Session name cannot contain '/'."@
        },
{
}

/// A sound name is claimed unless a creation under way holds it or a session of that name is
/// running; it is then said to exist. A name that is refused stays refused.
pub proof fn law_free_name_is_claimed(
    starting: Set<Seq<char>>,
    name: Seq<char>,
    message: Seq<char>,
    running: Option<bool>,
)
    ensures
        reservation(starting, Err(message), running) == Err::<Seq<char>, Seq<char>>(message),
        !starting.contains(name) && running != Some(true) ==> reservation(
            starting,
            Ok(name),
            running,
        ) == Ok::<Seq<char>, Seq<char>>(name),
        starting.contains(name) || running == Some(true) ==> reservation(
            starting,
            Ok(name),
            running,
        ) == Err::<Seq<char>, Seq<char>>("session '"@ + name + "' already exists"@),
{
}

/// A link is handed out exactly where the session has one and it works; a dead one never is.
pub proof fn law_only_a_live_link_is_handed_out<L>(
    links: Map<Seq<char>, L>,
    name: Seq<char>,
    alive: bool,
)
    ensures
        usable_link(links, name, alive) is Some <==> alive && links.contains_key(name),
        usable_link(links, name, alive) is Some ==> usable_link(links, name, alive)->0 == links[name],
        held(links, name) is Some <==> links.contains_key(name),
        links.contains_key(name) ==> held(links, name)->0 == links[name],
{
}

/// Exactly a session that is known to be running is killed; of any other it is said that it is not
/// running. The links of other sessions are not touched, and its own is gone.
pub proof fn law_only_a_running_session_is_killed<L>(
    links: Map<Seq<char>, L>,
    name: Seq<char>,
    other: Seq<char>,
)
    ensures
        kill_refusal(name, Some(true)) is None,
        kill_refusal(name, Some(false)) == Some("session '"@ + name + "' is not running"@),
        kill_refusal(name, None) == Some("session '"@ + name + "' is not running"@),
        held(links.remove(name), name) is None,
        other != name ==> held(links.remove(name), other) == held(links, other),
{
}

} // verus!
