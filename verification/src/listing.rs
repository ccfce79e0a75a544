//! The list of sessions: running ones and dead ones that can be resurrected, by name.

use vstd::prelude::*;
use vstd::string::*;
use crate::text::{chars_of, views};

verus! {

/// One session in a listing.
#[derive(Debug, Clone, PartialEq)]
pub struct SessionSummary {
    pub name: String,
    /// Seconds since the session was created.
    pub age_secs: u64,
    /// A dead session that can be resurrected rather than a running one.
    pub resurrectable: bool,
}

/// What a [`SessionSummary`] holds.
pub ghost struct SummaryView {
    pub name: Seq<char>,
    pub age_secs: u64,
    pub resurrectable: bool,
}

impl SessionSummary {
    pub open spec fn view(&self) -> SummaryView {
        SummaryView {
            name: self.name@,
            age_secs: self.age_secs,
            resurrectable: self.resurrectable,
        }
    }
}

/// What each summary holds.
pub open spec fn summaries_view(summaries: Seq<SessionSummary>) -> Seq<SummaryView> {
    summaries.map_values(|s: SessionSummary| s@)
}

/// The order of names: by the first character in which they differ, a name before any longer one
/// that begins with it. Characters are ordered by their code points, which is also the order of
/// their UTF-8 bytes.
pub open spec fn name_le(a: Seq<char>, b: Seq<char>) -> bool
    decreases a.len(),
{
    if a.len() == 0 {
        true
    } else if b.len() == 0 {
        false
    } else if a[0] != b[0] {
        a[0] < b[0]
    } else {
        name_le(a.drop_first(), b.drop_first())
    }
}

/// Of two names one comes first.
pub proof fn lemma_name_order_total(a: Seq<char>, b: Seq<char>)
    ensures
        name_le(a, b) || name_le(b, a),
    decreases a.len(),
{
    if a.len() > 0 && b.len() > 0 && a[0] == b[0] {
        lemma_name_order_total(a.drop_first(), b.drop_first());
    }
}

/// Two names that come before each other are the same.
pub proof fn lemma_name_order_antisymmetric(a: Seq<char>, b: Seq<char>)
    requires
        name_le(a, b),
        name_le(b, a),
    ensures
        a == b,
    decreases a.len(),
{
    if a.len() > 0 {
        lemma_name_order_antisymmetric(a.drop_first(), b.drop_first());
        assert(a =~= seq![a[0]] + a.drop_first());
        assert(b =~= seq![b[0]] + b.drop_first());
    } else {
        assert(a =~= b);
    }
}

/// The order carries over from one name to the next.
pub proof fn lemma_name_order_transitive(a: Seq<char>, b: Seq<char>, c: Seq<char>)
    requires
        name_le(a, b),
        name_le(b, c),
    ensures
        name_le(a, c),
    decreases a.len(),
{
    if a.len() > 0 && a[0] == b[0] && b[0] == c[0] {
        lemma_name_order_transitive(a.drop_first(), b.drop_first(), c.drop_first());
    }
}

/// Whether name `a` comes before name `b`, or is the same.
fn at_most(a: &str, b: &str) -> (yes: bool)
    ensures
        yes == name_le(a@, b@),
{
    let left = chars_of(a);
    let right = chars_of(b);
    let mut i: usize = 0;
    assert(left@.skip(0) =~= left@);
    assert(right@.skip(0) =~= right@);
    while i < left.len() && i < right.len()
        invariant
            i <= left.len(),
            i <= right.len(),
            left@ == a@,
            right@ == b@,
            name_le(a@, b@) == name_le(left@.skip(i as int), right@.skip(i as int)),
        decreases left.len() - i,
    {
        assert(left@.skip(i as int).drop_first() =~= left@.skip(i + 1));
        assert(right@.skip(i as int).drop_first() =~= right@.skip(i + 1));
        if left[i] != right[i] {
            return left[i] < right[i];
        }
        i = i + 1;
    }
    i == left.len()
}

/// Summaries in the order of their names.
pub open spec fn sorted_by_name(summaries: Seq<SummaryView>) -> bool {
    forall|i: int, j: int|
        0 <= i <= j < summaries.len() ==> name_le(
            #[trigger] summaries[i].name,
            #[trigger] summaries[j].name,
        )
}

/// The summaries of one name, in the order in which they stand.
pub open spec fn named(summaries: Seq<SummaryView>, name: Seq<char>) -> Seq<SummaryView> {
    summaries.filter(|s: SummaryView| s.name == name)
}

/// `listed` holds what `summaries` holds, ordered by name; those of the same name keep the order
/// that they have among `summaries`.
pub open spec fn is_listing_of(listed: Seq<SummaryView>, summaries: Seq<SummaryView>) -> bool {
    &&& sorted_by_name(listed)
    &&& forall|name: Seq<char>| #[trigger] named(listed, name) == named(summaries, name)
}

/// The names of the running sessions.
pub open spec fn running_names(running: Seq<(String, u64)>) -> Seq<Seq<char>> {
    running.map_values(|entry: (String, u64)| entry.0@)
}

/// A running session, by its name and its age in seconds.
pub open spec fn running_summary(entry: (String, u64)) -> SummaryView {
    SummaryView { name: entry.0@, age_secs: entry.1, resurrectable: false }
}

/// A dead session that can be resurrected, by its name and its age in seconds.
pub open spec fn dead_summary(entry: (String, u64)) -> SummaryView {
    SummaryView { name: entry.0@, age_secs: entry.1, resurrectable: true }
}

/// All sessions: the running ones, and the resurrectable ones that no running one has the name of.
pub open spec fn all_sessions(
    running: Seq<(String, u64)>,
    resurrectable: Seq<(String, u64)>,
) -> Seq<SummaryView> {
    running.map_values(|entry: (String, u64)| running_summary(entry)) + dead_sessions(
        running,
        resurrectable,
    )
}

/// The resurrectable sessions that no running one has the name of.
pub open spec fn dead_sessions(
    running: Seq<(String, u64)>,
    resurrectable: Seq<(String, u64)>,
) -> Seq<SummaryView> {
    resurrectable.filter(
        |entry: (String, u64)| !running_names(running).contains(entry.0@),
    ).map_values(|entry: (String, u64)| dead_summary(entry))
}

/// Putting a summary behind all that come before it or have its name keeps a listing a listing.
proof fn lemma_listing_insert(
    listed: Seq<SummaryView>,
    summaries: Seq<SummaryView>,
    at: int,
    new: SummaryView,
)
    requires
        is_listing_of(listed, summaries),
        0 <= at <= listed.len(),
        forall|i: int| 0 <= i < at ==> name_le(#[trigger] listed[i].name, new.name),
        forall|i: int| at <= i < listed.len() ==> !name_le(#[trigger] listed[i].name, new.name),
    ensures
        is_listing_of(listed.insert(at, new), summaries.push(new)),
{
    let result = listed.insert(at, new);
    let front = listed.take(at);
    let back = listed.skip(at);
    assert(listed =~= front + back);
    assert(result =~= front + seq![new] + back);
    lemma_name_order_total(new.name, new.name);
    assert forall|i: int, j: int| 0 <= i <= j < result.len() implies name_le(
        #[trigger] result[i].name,
        #[trigger] result[j].name,
    ) by {
        let a = if i < at {
            i
        } else {
            i - 1
        };
        let b = if j < at {
            j
        } else {
            j - 1
        };
        if i == at && j == at {
        } else if i == at {
            assert(!name_le(listed[b].name, new.name));
            lemma_name_order_total(listed[b].name, new.name);
        } else if j == at {
            assert(name_le(listed[a].name, new.name));
        } else {
            assert(name_le(listed[a].name, listed[b].name));
        }
    }
    assert forall|name: Seq<char>| #[trigger] named(result, name) == named(
        summaries.push(new),
        name,
    ) by {
        let pred = |s: SummaryView| s.name == name;
        Seq::filter_distributes_over_add(front, back, pred);
        Seq::filter_distributes_over_add(front, seq![new], pred);
        Seq::filter_distributes_over_add(front + seq![new], back, pred);
        summaries.lemma_filter_push(new, pred);
        assert(named(listed, name) == named(summaries, name));
        let none = Seq::<SummaryView>::empty();
        assert(seq![new] =~= none.push(new));
        none.lemma_filter_push(new, pred);
        assert(none.filter(pred) =~= none);
        if pred(new) {
            assert forall|i: int| 0 <= i < back.len() implies !pred(#[trigger] back[i]) by {
                assert(!name_le(listed[at + i].name, new.name));
            }
            back.lemma_all_neg_filter_empty(pred);
            assert(named(result, name) =~= front.filter(pred).push(new));
            assert(named(listed, name) =~= front.filter(pred));
        } else {
            assert(named(result, name) =~= front.filter(pred) + back.filter(pred));
        }
    }
}

/// Puts a summary in its place among summaries that are in order.
fn add_in_order(listed: &mut Vec<SessionSummary>, new: SessionSummary)
    ensures
        forall|summaries: Seq<SummaryView>| #[trigger]
            is_listing_of(summaries_view(old(listed)@), summaries) ==> is_listing_of(
                summaries_view(final(listed)@),
                summaries.push(new@),
            ),
{
    let ghost before = summaries_view(listed@);
    let mut at: usize = listed.len();
    while at > 0 && !at_most(listed[at - 1].name.as_str(), new.name.as_str())
        invariant
            at <= listed.len(),
            before == summaries_view(listed@),
            forall|i: int| at <= i < before.len() ==> !name_le(#[trigger] before[i].name, new@.name),
        decreases at,
    {
        assert(before[at - 1].name == listed@[at - 1].name@);
        at = at - 1;
    }
    proof {
        assert forall|summaries: Seq<SummaryView>| #[trigger]
            is_listing_of(before, summaries) implies is_listing_of(
            before.insert(at as int, new@),
            summaries.push(new@),
        ) by {
            assert forall|i: int| 0 <= i < at implies name_le(
                #[trigger] before[i].name,
                new@.name,
            ) by {
                assert(before[at - 1].name == listed@[at - 1].name@);
                assert(name_le(before[i].name, before[at - 1].name));
                lemma_name_order_transitive(before[i].name, before[at - 1].name, new@.name);
            }
            lemma_listing_insert(before, summaries, at as int, new@);
        }
    }
    listed.insert(at, new);
    assert(summaries_view(listed@) =~= before.insert(at as int, new@));
}

/// Whether `name` is among `names`.
fn has_name(names: &Vec<String>, name: &String) -> (found: bool)
    ensures
        found == views(names@).contains(name@),
{
    for i in 0..names.len()
        invariant
            forall|j: int| 0 <= j < i ==> #[trigger] names@[j]@ != name@,
    {
        if names[i] == *name {
            assert(views(names@)[i as int] == name@);
            return true;
        }
    }
    assert forall|j: int| 0 <= j < views(names@).len() implies views(names@)[j] != name@ by {
        assert(names@[j]@ != name@);
    }
    false
}

/// Lists the running sessions and the resurrectable ones that are not running, by name, each with
/// its age in seconds.
pub fn list_sessions(running: Vec<(String, u64)>, resurrectable: Vec<(String, u64)>) -> (listed:
    Vec<SessionSummary>)
    ensures
        is_listing_of(summaries_view(listed@), all_sessions(running@, resurrectable@)),
{
    let mut listed: Vec<SessionSummary> = Vec::new();
    let mut names: Vec<String> = Vec::new();
    let ghost alive = running@.map_values(|entry: (String, u64)| running_summary(entry));
    proof {
        assert(summaries_view(listed@) =~= Seq::<SummaryView>::empty());
        assert(alive.take(0) =~= Seq::<SummaryView>::empty());
        assert(views(names@) =~= running_names(running@).take(0));
    }
    for entry in it: running
        invariant
            it.seq() == running@,
            alive == running@.map_values(|entry: (String, u64)| running_summary(entry)),
            views(names@) == running_names(running@).take(it.index() as int),
            is_listing_of(summaries_view(listed@), alive.take(it.index() as int)),
    {
        let ghost at = it.index() as int;
        let (name, age_secs) = entry;
        let copy = name.clone();
        let ghost seen = names@;
        names.push(copy);
        let summary = SessionSummary { name, age_secs, resurrectable: false };
        proof {
            assert(running@[at] == (name, age_secs));
            assert(alive.take(at + 1) =~= alive.take(at).push(summary@));
            assert(views(names@) =~= views(seen).push(name@));
            assert(running_names(running@).take(at + 1) =~= running_names(running@).take(at).push(
                name@,
            ));
        }
        add_in_order(&mut listed, summary);
    }
    let ghost absent = |entry: (String, u64)| !running_names(running@).contains(entry.0@);
    let ghost dead = |entry: (String, u64)| dead_summary(entry);
    proof {
        assert(alive.take(running@.len() as int) =~= alive);
        assert(running_names(running@).take(running@.len() as int) =~= running_names(running@));
        let none = resurrectable@.take(0).filter(absent).map_values(dead);
        assert(none =~= Seq::<SummaryView>::empty());
        assert(alive + none =~= alive);
    }
    for entry in it: resurrectable
        invariant
            it.seq() == resurrectable@,
            absent == (|entry: (String, u64)| !running_names(running@).contains(entry.0@)),
            dead == (|entry: (String, u64)| dead_summary(entry)),
            views(names@) == running_names(running@),
            is_listing_of(
                summaries_view(listed@),
                alive + resurrectable@.take(it.index() as int).filter(absent).map_values(dead),
            ),
    {
        let ghost at = it.index() as int;
        let ghost so_far = resurrectable@.take(at);
        let ghost base = alive + so_far.filter(absent).map_values(dead);
        proof {
            assert(resurrectable@[at] == entry);
            assert(resurrectable@.take(at + 1) =~= so_far.push(entry));
            so_far.lemma_filter_push(entry, absent);
        }
        let (name, age_secs) = entry;
        if !has_name(&names, &name) {
            let summary = SessionSummary { name, age_secs, resurrectable: true };
            proof {
                assert(summary@ == dead_summary(entry));
                assert(absent(entry));
                assert(alive + resurrectable@.take(at + 1).filter(absent).map_values(dead)
                    =~= base.push(summary@));
            }
            add_in_order(&mut listed, summary);
        } else {
            assert(!absent(entry));
            assert(alive + resurrectable@.take(at + 1).filter(absent).map_values(dead) =~= base);
        }
    }
    proof {
        assert(resurrectable@.take(resurrectable@.len() as int) =~= resurrectable@);
        assert(alive + resurrectable@.filter(absent).map_values(dead) =~= all_sessions(
            running@,
            resurrectable@,
        ));
    }
    listed
}

/// A listing holds a summary if and only if it is among what is listed.
proof fn lemma_listing_contains(
    listed: Seq<SummaryView>,
    summaries: Seq<SummaryView>,
    summary: SummaryView,
)
    requires
        is_listing_of(listed, summaries),
    ensures
        listed.contains(summary) <==> summaries.contains(summary),
{
    let pred = |s: SummaryView| s.name == summary.name;
    assert(named(listed, summary.name) == named(summaries, summary.name));
    if listed.contains(summary) {
        let i = listed.index_of(summary);
        listed.lemma_filter_contains(pred, i);
        summaries.lemma_filter_contains_rev(pred, summary);
    }
    if summaries.contains(summary) {
        let i = summaries.index_of(summary);
        summaries.lemma_filter_contains(pred, i);
        listed.lemma_filter_contains_rev(pred, summary);
    }
}

/// Every session is listed with its age: each running one, and each resurrectable one that is not
/// running. A session that is running is never listed as a dead one.
pub proof fn law_listing_covers_every_session(
    listed: Seq<SummaryView>,
    running: Seq<(String, u64)>,
    resurrectable: Seq<(String, u64)>,
)
    requires
        is_listing_of(listed, all_sessions(running, resurrectable)),
    ensures
        forall|i: int|
            0 <= i < running.len() ==> listed.contains(#[trigger] running_summary(running[i])),
        forall|i: int|
            0 <= i < resurrectable.len() && !running_names(running).contains(
                (#[trigger] resurrectable[i]).0@,
            ) ==> listed.contains(dead_summary(resurrectable[i])),
        forall|i: int|
            0 <= i < listed.len() && (#[trigger] listed[i]).resurrectable ==> !running_names(
                running,
            ).contains(listed[i].name),
{
    let all = all_sessions(running, resurrectable);
    let alive = running.map_values(|entry: (String, u64)| running_summary(entry));
    let absent = |entry: (String, u64)| !running_names(running).contains(entry.0@);
    let dead = resurrectable.filter(absent);
    assert forall|i: int| 0 <= i < running.len() implies listed.contains(
        #[trigger] running_summary(running[i]),
    ) by {
        assert(all[i] == running_summary(running[i]));
        lemma_listing_contains(listed, all, running_summary(running[i]));
    }
    assert forall|i: int|
        0 <= i < resurrectable.len() && !running_names(running).contains(
            (#[trigger] resurrectable[i]).0@,
        ) implies listed.contains(dead_summary(resurrectable[i])) by {
        resurrectable.lemma_filter_contains(absent, i);
        let k = dead.index_of(resurrectable[i]);
        assert(all[alive.len() + k] == dead_summary(resurrectable[i]));
        lemma_listing_contains(listed, all, dead_summary(resurrectable[i]));
    }
    assert forall|i: int|
        0 <= i < listed.len() && (#[trigger] listed[i]).resurrectable implies !running_names(
        running,
    ).contains(listed[i].name) by {
        assert(listed.contains(listed[i]));
        lemma_listing_contains(listed, all, listed[i]);
        let k = all.index_of(listed[i]);
        if k < alive.len() {
            assert(all[k] == running_summary(running[k]));
        } else {
            resurrectable.lemma_filter_pred(absent, k - alive.len());
            assert(all[k] == dead_summary(dead[k - alive.len()]));
        }
    }
}

/// A listing is decided by what it lists: two listings of the same sessions are the same.
pub proof fn law_listing_is_unique(
    first: Seq<SummaryView>,
    second: Seq<SummaryView>,
    summaries: Seq<SummaryView>,
)
    requires
        is_listing_of(first, summaries),
        is_listing_of(second, summaries),
    ensures
        first == second,
    decreases first.len(),
{
    assert forall|name: Seq<char>| #[trigger] named(first, name) == named(second, name) by {
        assert(named(first, name) == named(summaries, name));
        assert(named(second, name) == named(summaries, name));
    }
    lemma_same_listing(first, second);
}

/// Two ordered sequences with the same summaries under each name are the same.
proof fn lemma_same_listing(first: Seq<SummaryView>, second: Seq<SummaryView>)
    requires
        sorted_by_name(first),
        sorted_by_name(second),
        forall|name: Seq<char>| #[trigger] named(first, name) == named(second, name),
    ensures
        first == second,
    decreases first.len() + second.len(),
{
    if first.len() == 0 && second.len() == 0 {
        assert(first =~= second);
    } else if first.len() == 0 || second.len() == 0 {
        let other = if first.len() == 0 {
            second
        } else {
            first
        };
        let name = other.last().name;
        let pred = |s: SummaryView| s.name == name;
        assert(other =~= other.drop_last().push(other.last()));
        other.drop_last().lemma_filter_push(other.last(), pred);
        assert(named(first, name) == named(second, name));
        let none = Seq::<SummaryView>::empty();
        assert(none.filter(pred) =~= none);
        assert(first.len() == 0 ==> first =~= none);
        assert(second.len() == 0 ==> second =~= none);
        assert(named(other, name).len() > 0);
    } else {
        let a = first.last();
        let b = second.last();
        lemma_last_name_is_largest(first, second);
        lemma_last_name_is_largest(second, first);
        lemma_name_order_antisymmetric(a.name, b.name);
        let rest_first = first.drop_last();
        let rest_second = second.drop_last();
        assert(first =~= rest_first.push(a));
        assert(second =~= rest_second.push(b));
        assert forall|name: Seq<char>| #[trigger] named(rest_first, name) == named(
            rest_second,
            name,
        ) by {
            let pred = |s: SummaryView| s.name == name;
            rest_first.lemma_filter_push(a, pred);
            rest_second.lemma_filter_push(b, pred);
            assert(named(first, name) == named(second, name));
            if name == a.name {
                assert(named(first, name).drop_last() =~= named(rest_first, name));
                assert(named(second, name).drop_last() =~= named(rest_second, name));
            }
        }
        assert(a == b) by {
            let pred = |s: SummaryView| s.name == a.name;
            rest_first.lemma_filter_push(a, pred);
            rest_second.lemma_filter_push(b, pred);
            assert(named(first, a.name) == named(second, a.name));
            assert(named(first, a.name).last() == a);
            assert(named(second, a.name).last() == b);
        }
        assert forall|i: int, j: int| 0 <= i <= j < rest_first.len() implies name_le(
            #[trigger] rest_first[i].name,
            #[trigger] rest_first[j].name,
        ) by {
            assert(name_le(first[i].name, first[j].name));
        }
        assert forall|i: int, j: int| 0 <= i <= j < rest_second.len() implies name_le(
            #[trigger] rest_second[i].name,
            #[trigger] rest_second[j].name,
        ) by {
            assert(name_le(second[i].name, second[j].name));
        }
        lemma_same_listing(rest_first, rest_second);
    }
}

/// A name of one sequence comes before the last name of an ordered one with the same names.
proof fn lemma_last_name_is_largest(first: Seq<SummaryView>, second: Seq<SummaryView>)
    requires
        first.len() > 0,
        second.len() > 0,
        sorted_by_name(second),
        forall|name: Seq<char>| #[trigger] named(first, name) == named(second, name),
    ensures
        name_le(first.last().name, second.last().name),
{
    let name = first.last().name;
    let pred = |s: SummaryView| s.name == name;
    first.drop_last().lemma_filter_push(first.last(), pred);
    assert(first =~= first.drop_last().push(first.last()));
    assert(named(first, name) == named(second, name));
    assert(named(second, name).len() > 0);
    let found = named(second, name)[0];
    second.lemma_filter_pred(pred, 0);
    second.lemma_filter_contains_rev(pred, found);
    let i = choose|i: int| 0 <= i < second.len() && second[i] == found;
    assert(name_le(second[i].name, second[second.len() - 1].name));
}

/// Names are ordered by the first character in which they differ, by its code point, and a name
/// comes before the longer ones that begin with it.
pub proof fn law_names_are_ordered_by_first_difference(
    common: Seq<char>,
    a: char,
    b: char,
    x: Seq<char>,
    y: Seq<char>,
)
    ensures
        name_le(common, common + x),
        x.len() > 0 ==> !name_le(common + x, common),
        a != b ==> (name_le(common + seq![a] + x, common + seq![b] + y) <==> (a as int) < (b as int)),
    decreases common.len(),
{
    if common.len() == 0 {
        assert((common + seq![a] + x)[0] == a);
        assert((common + seq![b] + y)[0] == b);
    } else {
        let rest = common.drop_first();
        law_names_are_ordered_by_first_difference(rest, a, b, x, y);
        assert((common + x).drop_first() =~= rest + x);
        assert((common + seq![a] + x).drop_first() =~= rest + seq![a] + x);
        assert((common + seq![b] + y).drop_first() =~= rest + seq![b] + y);
    }
}

/// A listing is in the order of names, and under each name it holds what is listed of that name:
/// the running sessions with their ages, in the order in which they were found, or, where none of
/// that name is running, the resurrectable ones with theirs.
pub proof fn law_listing_holds_each_session_under_its_name(
    listed: Seq<SummaryView>,
    running: Seq<(String, u64)>,
    resurrectable: Seq<(String, u64)>,
    name: Seq<char>,
)
    requires
        is_listing_of(listed, all_sessions(running, resurrectable)),
    ensures
        forall|i: int, j: int|
            0 <= i <= j < listed.len() ==> name_le(
                #[trigger] listed[i].name,
                #[trigger] listed[j].name,
            ),
        listed.filter(|s: SummaryView| s.name == name) == running.filter(
            |entry: (String, u64)| entry.0@ == name,
        ).map_values(
            |entry: (String, u64)|
                SummaryView { name: entry.0@, age_secs: entry.1, resurrectable: false },
        ) + (if exists|i: int| 0 <= i < running.len() && #[trigger] running[i].0@ == name {
            Seq::empty()
        } else {
            resurrectable.filter(|entry: (String, u64)| entry.0@ == name).map_values(
                |entry: (String, u64)|
                    SummaryView { name: entry.0@, age_secs: entry.1, resurrectable: true },
            )
        }),
{
    let by_name = |s: SummaryView| s.name == name;
    let of_name = |entry: (String, u64)| entry.0@ == name;
    let absent = |entry: (String, u64)| !running_names(running).contains(entry.0@);
    let alive = |entry: (String, u64)| running_summary(entry);
    let dead = |entry: (String, u64)| dead_summary(entry);
    let alive_entry = |entry: (String, u64)|
        SummaryView { name: entry.0@, age_secs: entry.1, resurrectable: false };
    let dead_entry = |entry: (String, u64)|
        SummaryView { name: entry.0@, age_secs: entry.1, resurrectable: true };
    let left = resurrectable.filter(absent);
    assert(named(listed, name) == named(all_sessions(running, resurrectable), name));
    Seq::filter_distributes_over_add(
        running.map_values(alive),
        left.map_values(dead),
        by_name,
    );
    lemma_filter_mapped(running, alive, name);
    lemma_filter_mapped(left, dead, name);
    lemma_filter_absent(resurrectable, running, name);
    assert(running.filter(of_name).map_values(alive) =~= running.filter(of_name).map_values(
        alive_entry,
    ));
    let found = exists|i: int| 0 <= i < running.len() && #[trigger] running[i].0@ == name;
    assert(running_names(running).contains(name) <==> found) by {
        if found {
            let i = choose|i: int| 0 <= i < running.len() && #[trigger] running[i].0@ == name;
            assert(running_names(running)[i] == name);
        }
        if running_names(running).contains(name) {
            let i = running_names(running).index_of(name);
            assert(running[i].0@ == name);
        }
    }
    if found {
        assert(left.filter(of_name).map_values(dead) =~= Seq::<SummaryView>::empty());
    } else {
        assert(left.filter(of_name).map_values(dead) =~= resurrectable.filter(of_name).map_values(
            dead_entry,
        ));
    }
}

/// Summaries of one name come from the entries of that name.
proof fn lemma_filter_mapped(
    entries: Seq<(String, u64)>,
    summary: spec_fn((String, u64)) -> SummaryView,
    name: Seq<char>,
)
    requires
        forall|entry: (String, u64)| (#[trigger] summary(entry)).name == entry.0@,
    ensures
        entries.map_values(summary).filter(|s: SummaryView| s.name == name) == entries.filter(
            |entry: (String, u64)| entry.0@ == name,
        ).map_values(summary),
    decreases entries.len(),
{
    let by_name = |s: SummaryView| s.name == name;
    let of_name = |entry: (String, u64)| entry.0@ == name;
    if entries.len() == 0 {
        assert(entries.map_values(summary) =~= Seq::<SummaryView>::empty());
        assert(entries.map_values(summary).filter(by_name) =~= Seq::<SummaryView>::empty());
        assert(entries.filter(of_name).map_values(summary) =~= Seq::<SummaryView>::empty());
    } else {
        let rest = entries.drop_last();
        let last = entries.last();
        lemma_filter_mapped(rest, summary, name);
        assert(entries =~= rest.push(last));
        assert(entries.map_values(summary) =~= rest.map_values(summary).push(summary(last)));
        rest.lemma_filter_push(last, of_name);
        rest.map_values(summary).lemma_filter_push(summary(last), by_name);
        assert(summary(last).name == last.0@);
        assert(entries.map_values(summary).filter(by_name) =~= entries.filter(of_name).map_values(
            summary,
        ));
    }
}

/// Of one name, either all entries are left or none.
proof fn lemma_filter_absent(
    entries: Seq<(String, u64)>,
    running: Seq<(String, u64)>,
    name: Seq<char>,
)
    ensures
        entries.filter(
            |entry: (String, u64)| !running_names(running).contains(entry.0@),
        ).filter(|entry: (String, u64)| entry.0@ == name) == if running_names(running).contains(
            name,
        ) {
            Seq::empty()
        } else {
            entries.filter(|entry: (String, u64)| entry.0@ == name)
        },
    decreases entries.len(),
{
    let absent = |entry: (String, u64)| !running_names(running).contains(entry.0@);
    let of_name = |entry: (String, u64)| entry.0@ == name;
    let none = Seq::<(String, u64)>::empty();
    assert(none.filter(of_name) =~= none);
    assert(none.filter(absent) =~= none);
    if entries.len() == 0 {
        assert(entries =~= none);
    } else {
        let rest = entries.drop_last();
        let last = entries.last();
        lemma_filter_absent(rest, running, name);
        assert(entries =~= rest.push(last));
        rest.lemma_filter_push(last, absent);
        rest.lemma_filter_push(last, of_name);
        rest.filter(absent).lemma_filter_push(last, of_name);
    }
}

/// A summary is seen as what it holds.
pub proof fn law_summaries_are_seen_whole(summaries: Seq<SessionSummary>)
    ensures
        summaries_view(summaries).len() == summaries.len(),
        forall|i: int|
            0 <= i < summaries.len() ==> {
                let seen = #[trigger] summaries_view(summaries)[i];
                seen.name == summaries[i].name@ && seen.age_secs == summaries[i].age_secs
                    && seen.resurrectable == summaries[i].resurrectable
            },
{
}

} // verus!
