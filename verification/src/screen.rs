//! What a caller is shown of a pane's screen.

use vstd::prelude::*;
use vstd::string::*;
use crate::json::{items_view, lemma_items_index, lemma_items_push, member};
use crate::json::{members_view, put, take_member, Json, JsonView};
use crate::text::{blank, concat3, decimal, decimal_of, is_blank, is_whitespace};

verus! {

/// How many consecutive blank lines are let through verbatim before the run is replaced by one
/// placeholder line. A pane's canvas is padded out to its full terminal size, so real content is
/// often followed by hundreds of empty rows that carry no information.
pub const BLANK_RUN_THRESHOLD: usize = 3;

/// A line that is text with nothing but white space in it.
pub open spec fn is_blank_line(line: JsonView) -> bool {
    line matches JsonView::Text(s) && is_blank(s)
}

/// How many blank lines stand in front.
pub open spec fn leading_blanks(lines: Seq<JsonView>) -> nat
    decreases lines.len(),
{
    if lines.len() > 0 && is_blank_line(lines[0]) {
        1 + leading_blanks(lines.drop_first())
    } else {
        0
    }
}

/// The line that stands for a run of `n` blank lines.
pub open spec fn run_marker(n: nat) -> JsonView {
    JsonView::Text("... "@ + decimal(n) + " blank lines ..."@)
}

/// What is shown of a run of blank lines.
pub open spec fn shown_run(run: Seq<JsonView>) -> Seq<JsonView> {
    if run.len() <= BLANK_RUN_THRESHOLD {
        run
    } else {
        seq![run_marker(run.len())]
    }
}

/// The lines with every long run of blank lines replaced by its marker.
pub open spec fn collapse(lines: Seq<JsonView>) -> Seq<JsonView>
    decreases lines.len(),
    via collapse_decreases
{
    if lines.len() == 0 {
        Seq::empty()
    } else if is_blank_line(lines[0]) {
        let n = leading_blanks(lines) as int;
        shown_run(lines.take(n)) + collapse(lines.skip(n))
    } else {
        seq![lines[0]] + collapse(lines.skip(1))
    }
}

#[via_fn]
proof fn collapse_decreases(lines: Seq<JsonView>) {
    lemma_leading_blanks(lines);
}

/// The value with its `lines` collapsed, where it is an object with an array of that name.
pub open spec fn collapsed(value: JsonView) -> JsonView {
    match value {
        JsonView::Object(members) => match member(value, "lines"@) {
            JsonView::Array(lines) => JsonView::Object(
                members.insert("lines"@, JsonView::Array(collapse(lines))),
            ),
            _ => value,
        },
        _ => value,
    }
}

/// The leading blank lines are blank, and the line behind them is not.
proof fn lemma_leading_blanks(lines: Seq<JsonView>)
    ensures
        leading_blanks(lines) <= lines.len(),
        forall|i: int| 0 <= i < leading_blanks(lines) ==> is_blank_line(#[trigger] lines[i]),
        leading_blanks(lines) < lines.len() ==> !is_blank_line(
            lines[leading_blanks(lines) as int],
        ),
    decreases lines.len(),
{
    if lines.len() > 0 && is_blank_line(lines[0]) {
        let rest = lines.drop_first();
        lemma_leading_blanks(rest);
        assert forall|i: int| 0 <= i < leading_blanks(lines) implies is_blank_line(
            #[trigger] lines[i],
        ) by {
            if i > 0 {
                assert(is_blank_line(rest[i - 1]));
            }
        }
    }
}

/// A run of blank lines up to the end, or up to a line that is not blank, is counted in full.
proof fn lemma_leading_blanks_exact(lines: Seq<JsonView>, n: nat)
    requires
        n <= lines.len(),
        forall|i: int| 0 <= i < n ==> is_blank_line(#[trigger] lines[i]),
        n < lines.len() ==> !is_blank_line(lines[n as int]),
    ensures
        leading_blanks(lines) == n,
{
    lemma_leading_blanks(lines);
    let m = leading_blanks(lines);
    if m < n {
        assert(is_blank_line(lines[m as int]));
    }
    if n < m {
        assert(is_blank_line(lines[n as int]));
    }
}

/// A run of blank lines in front of a line that is not blank, or of nothing, is shown on its own.
proof fn lemma_collapse_run(run: Seq<JsonView>, rest: Seq<JsonView>)
    requires
        forall|i: int| 0 <= i < run.len() ==> is_blank_line(#[trigger] run[i]),
        rest.len() > 0 ==> !is_blank_line(rest[0]),
    ensures
        collapse(run + rest) == shown_run(run) + collapse(rest),
{
    let lines = run + rest;
    if run.len() == 0 {
        assert(lines =~= rest);
        assert(shown_run(run) + collapse(rest) =~= collapse(rest));
    } else {
        assert(is_blank_line(run[0]));
        assert forall|i: int| 0 <= i < run.len() implies is_blank_line(#[trigger] lines[i]) by {
            assert(lines[i] == run[i]);
        }
        if rest.len() > 0 {
            assert(lines[run.len() as int] == rest[0]);
        }
        lemma_leading_blanks_exact(lines, run.len());
        assert(lines.take(run.len() as int) =~= run);
        assert(lines.skip(run.len() as int) =~= rest);
    }
}

/// Appends what is shown of a finished run of blank lines.
fn flush(shown: &mut Vec<Json>, run: Vec<Json>)
    ensures
        items_view(final(shown)@) == items_view(old(shown)@) + shown_run(items_view(run@)),
{
    proof {
        lemma_items_index(run@);
    }
    if run.len() <= BLANK_RUN_THRESHOLD {
        for line in it: run
            invariant
                it.seq() == run@,
                items_view(shown@) == items_view(old(shown)@) + items_view(run@).take(
                    it.index() as int,
                ),
                items_view(run@).len() == run@.len(),
        {
            proof {
                lemma_items_index(run@);
                lemma_items_push(shown@, line);
                assert(items_view(run@).take(it.index() + 1) =~= items_view(run@).take(
                    it.index() as int,
                ).push(line@));
            }
            shown.push(line);
            assert(items_view(shown@) =~= items_view(old(shown)@) + items_view(run@).take(
                it.index() + 1,
            ));
        }
        assert(items_view(run@).take(run@.len() as int) =~= items_view(run@));
    } else {
        let count = decimal_of(run.len() as u64);
        let marker = Json::Text(concat3("... ", count.as_str(), " blank lines ..."));
        proof {
            lemma_items_push(shown@, marker);
        }
        shown.push(marker);
        assert(items_view(shown@) =~= items_view(old(shown)@) + shown_run(items_view(run@)));
    }
}

/// Collapses the long runs of blank lines among `lines`.
fn collapse_lines(lines: Vec<Json>) -> (shown: Vec<Json>)
    ensures
        items_view(shown@) == collapse(items_view(lines@)),
{
    let ghost all = items_view(lines@);
    proof {
        lemma_items_index(lines@);
    }
    let mut shown: Vec<Json> = Vec::new();
    let mut run: Vec<Json> = Vec::new();
    assert(all.skip(0) =~= all);
    assert(items_view(shown@) + collapse(all) =~= collapse(all));
    for line in it: lines
        invariant
            it.seq() == lines@,
            all == items_view(lines@),
            all.len() == lines@.len(),
            run.len() <= it.index(),
            items_view(run@).len() == run.len(),
            items_view(run@) == all.subrange(it.index() - run.len(), it.index() as int),
            forall|i: int| 0 <= i < run.len() ==> is_blank_line(#[trigger] items_view(run@)[i]),
            items_view(shown@) + collapse(all.skip(it.index() - run.len())) == collapse(all),
    {
        let ghost at = it.index() as int;
        let ghost from = at - run.len();
        proof {
            lemma_items_index(lines@);
            assert(all[at] == line@);
        }
        let is_blank = match &line {
            Json::Text(s) => blank(s.as_str()),
            _ => false,
        };
        if is_blank {
            proof {
                lemma_items_push(run@, line);
                assert(items_view(run@).push(line@) =~= all.subrange(from, at + 1));
            }
            run.push(line);
        } else {
            let finished = run;
            run = Vec::new();
            proof {
                assert(all.skip(from) =~= items_view(finished@) + all.skip(at));
                assert(all.skip(at)[0] == all[at]);
                lemma_collapse_run(items_view(finished@), all.skip(at));
                assert(all.skip(at).skip(1) =~= all.skip(at + 1));
            }
            let ghost before = items_view(shown@);
            flush(&mut shown, finished);
            proof {
                lemma_items_push(shown@, line);
            }
            shown.push(line);
            assert(items_view(shown@) + collapse(all.skip(at + 1)) =~= before + collapse(
                all.skip(from),
            ));
            assert(items_view(run@) =~= all.subrange(at + 1, at + 1));
        }
    }
    proof {
        let ghost n = lines@.len() as int;
        let ghost none = all.skip(n);
        assert(all.skip(n - run.len()) =~= items_view(run@) + none);
        lemma_collapse_run(items_view(run@), none);
        assert(collapse(none) =~= Seq::<JsonView>::empty());
        assert(shown_run(items_view(run@)) + collapse(none) =~= shown_run(items_view(run@)));
    }
    flush(&mut shown, run);
    shown
}

/// Collapses the long runs of blank lines in the `lines` of a screen snapshot and leaves
/// everything else in the value as it is.
pub fn collapse_blank_lines(value: Json) -> (shown: Json)
    ensures
        shown@ == collapsed(value@),
{
    match value {
        Json::Object(members) => {
            let ghost before = members_view(members@);
            let (rest, found) = take_member(members, "lines");
            let mut rest = rest;
            match found {
                Some(Json::Array(lines)) => {
                    put(&mut rest, "lines", Json::Array(collapse_lines(lines)));
                    assert(members_view(rest@) =~= before.insert(
                        "lines"@,
                        JsonView::Array(collapse(items_view(lines@))),
                    ));
                },
                Some(other) => {
                    put(&mut rest, "lines", other);
                    assert(members_view(rest@) =~= before);
                },
                None => {
                    assert(members_view(rest@) =~= before);
                },
            }
            Json::Object(rest)
        },
        other => other,
    }
}

/// A marker is not blank.
proof fn lemma_marker_is_shown(n: nat)
    ensures
        !is_blank_line(run_marker(n)),
{
    reveal_strlit("... ");
    let s = "... "@ + decimal(n) + " blank lines ..."@;
    assert(s[0] == '.');
    assert(!is_whitespace(s[0]));
}

/// Lines that begin with one that is not blank still begin with it when they are collapsed.
proof fn lemma_collapse_first(lines: Seq<JsonView>)
    requires
        lines.len() > 0,
        !is_blank_line(lines[0]),
    ensures
        collapse(lines).len() > 0,
        collapse(lines)[0] == lines[0],
{
}

/// The rest of the lines behind the blank ones in front is empty or begins with a line that is
/// not blank.
proof fn lemma_split(lines: Seq<JsonView>) -> (n: int)
    requires
        lines.len() > 0,
        is_blank_line(lines[0]),
    ensures
        n == leading_blanks(lines),
        0 < n <= lines.len(),
        forall|i: int| 0 <= i < n ==> is_blank_line(#[trigger] lines.take(n)[i]),
        lines.skip(n).len() > 0 ==> !is_blank_line(lines.skip(n)[0]),
        lines =~= lines.take(n) + lines.skip(n),
{
    lemma_leading_blanks(lines);
    let n = leading_blanks(lines) as int;
    assert forall|i: int| 0 <= i < n implies is_blank_line(#[trigger] lines.take(n)[i]) by {
        assert(is_blank_line(lines[i]));
    }
    n
}

/// Collapsing what is already collapsed changes nothing.
pub proof fn law_collapse_is_idempotent(lines: Seq<JsonView>)
    ensures
        collapse(collapse(lines)) == collapse(lines),
    decreases lines.len(),
{
    if lines.len() == 0 {
    } else if is_blank_line(lines[0]) {
        let n = lemma_split(lines);
        let run = lines.take(n);
        let rest = lines.skip(n);
        let tail = collapse(rest);
        law_collapse_is_idempotent(rest);
        if rest.len() > 0 {
            lemma_collapse_first(rest);
        }
        if run.len() <= BLANK_RUN_THRESHOLD {
            lemma_collapse_run(run, tail);
        } else {
            lemma_marker_is_shown(run.len());
            let marker = seq![run_marker(run.len())];
            assert((marker + tail).skip(1) =~= tail);
        }
    } else {
        let rest = lines.skip(1);
        law_collapse_is_idempotent(rest);
        assert((seq![lines[0]] + collapse(rest)).skip(1) =~= collapse(rest));
    }
}

/// Collapsing never makes a screen longer.
pub proof fn law_collapse_never_adds_lines(lines: Seq<JsonView>)
    ensures
        collapse(lines).len() <= lines.len(),
    decreases lines.len(),
{
    if lines.len() == 0 {
    } else if is_blank_line(lines[0]) {
        let n = lemma_split(lines);
        law_collapse_never_adds_lines(lines.skip(n));
    } else {
        law_collapse_never_adds_lines(lines.skip(1));
    }
}

/// The lines that hold something, without the markers that stand for blank runs, are all kept, in
/// their order: what is shown is each of them with the runs around it replaced.
pub proof fn law_collapse_keeps_content(lines: Seq<JsonView>, i: int)
    requires
        0 <= i < lines.len(),
        !is_blank_line(lines[i]),
    ensures
        collapse(lines) == collapse(lines.take(i)) + seq![lines[i]] + collapse(lines.skip(i + 1)),
    decreases lines.len(),
{
    let whole = collapse(lines.take(i)) + seq![lines[i]] + collapse(lines.skip(i + 1));
    if is_blank_line(lines[0]) {
        let n = lemma_split(lines);
        let run = lines.take(n);
        let rest = lines.skip(n);
        if i < n {
            assert(is_blank_line(run[i]));
        }
        law_collapse_keeps_content(rest, i - n);
        assert(rest.skip(i - n + 1) =~= lines.skip(i + 1));
        assert(lines.take(i) =~= run + rest.take(i - n));
        if i > n {
            assert(rest.take(i - n)[0] == rest[0]);
        }
        lemma_collapse_run(run, rest.take(i - n));
        assert(collapse(lines) =~= whole);
    } else if i == 0 {
        assert(lines.take(0) =~= Seq::<JsonView>::empty());
        assert(collapse(lines) =~= whole);
    } else {
        let rest = lines.skip(1);
        law_collapse_keeps_content(rest, i - 1);
        assert(rest.skip(i) =~= lines.skip(i + 1));
        assert(lines.take(i).skip(1) =~= rest.take(i - 1));
        assert(collapse(lines) =~= whole);
    }
}

/// No run of blank lines longer than the threshold is left.
pub proof fn law_collapse_leaves_no_long_run(lines: Seq<JsonView>, at: int)
    requires
        0 <= at,
        at + BLANK_RUN_THRESHOLD < collapse(lines).len(),
    ensures
        exists|i: int|
            at <= i <= at + BLANK_RUN_THRESHOLD && !is_blank_line(#[trigger] collapse(lines)[i]),
    decreases lines.len(),
{
    let shown = collapse(lines);
    if lines.len() > 0 {
        let (head, rest) = if is_blank_line(lines[0]) {
            let n = lemma_split(lines);
            (shown_run(lines.take(n)), lines.skip(n))
        } else {
            (seq![lines[0]], lines.skip(1))
        };
        let h = head.len() as int;
        assert(shown == head + collapse(rest));
        if at >= h {
            law_collapse_leaves_no_long_run(rest, at - h);
            let i = choose|i: int|
                at - h <= i <= at - h + BLANK_RUN_THRESHOLD && !is_blank_line(
                    #[trigger] collapse(rest)[i],
                );
            assert(shown[h + i] == collapse(rest)[i]);
        } else if !is_blank_line(lines[0]) {
            assert(shown[0] == lines[0]);
        } else if lines.take(leading_blanks(lines) as int).len() <= BLANK_RUN_THRESHOLD {
            lemma_split(lines);
            if collapse(rest).len() > 0 {
                if rest.len() > 0 {
                    lemma_collapse_first(rest);
                }
                assert(shown[h] == collapse(rest)[0]);
            }
        } else {
            lemma_marker_is_shown(lines.take(leading_blanks(lines) as int).len());
            assert(shown[0] == head[0]);
        }
    }
}

/// A run of blank lines between two lines that hold something, or at an end of the screen, is shown
/// verbatim where it has three lines at most; a longer one is shown as one line that tells how many
/// lines it had. What stands in front of the run and behind it is shown as it would be alone.
pub proof fn law_blank_run_is_shown_or_counted(
    before: Seq<JsonView>,
    run: Seq<JsonView>,
    after: Seq<JsonView>,
)
    requires
        forall|i: int|
            0 <= i < run.len() ==> (#[trigger] run[i]) is Text && is_blank(run[i]->Text_0),
        before.len() > 0 ==> !(before.last() is Text && is_blank(before.last()->Text_0)),
        after.len() > 0 ==> !(after[0] is Text && is_blank(after[0]->Text_0)),
    ensures
        collapse(before + run + after) == collapse(before) + (if run.len() <= 3 {
            run
        } else {
            seq![JsonView::Text("... "@ + decimal(run.len()) + " blank lines ..."@)]
        }) + collapse(after),
{
    let all = before + run + after;
    assert forall|i: int| 0 <= i < run.len() implies is_blank_line(#[trigger] run[i]) by {
        assert(run[i] is Text);
    }
    lemma_collapse_run(run, after);
    if before.len() > 0 {
        let n = before.len() - 1;
        law_collapse_keeps_content(all, n);
        law_collapse_keeps_content(before, n);
        assert(all.take(n) =~= before.take(n));
        assert(all.skip(n + 1) =~= run + after);
        assert(before.skip(n + 1) =~= Seq::<JsonView>::empty());
        assert(collapse(before.skip(n + 1)) =~= Seq::<JsonView>::empty());
        assert(collapse(all) =~= collapse(before) + shown_run(run) + collapse(after));
    } else {
        assert(all =~= run + after);
        assert(collapse(before) =~= Seq::<JsonView>::empty());
        assert(collapse(all) =~= collapse(before) + shown_run(run) + collapse(after));
    }
}

/// A line that holds something is shown where it stands: what is in front of it and what is behind
/// it do not touch it. Only text of white space alone holds nothing.
pub proof fn law_line_with_content_is_shown(
    before: Seq<JsonView>,
    line: JsonView,
    after: Seq<JsonView>,
)
    requires
        line is Text ==> exists|i: int|
            0 <= i < line->Text_0.len() && !is_whitespace(#[trigger] line->Text_0[i]),
    ensures
        collapse(before + seq![line] + after) == collapse(before) + seq![line] + collapse(after),
        collapse(Seq::<JsonView>::empty()) == Seq::<JsonView>::empty(),
{
    let all = before + seq![line] + after;
    let n = before.len() as int;
    assert(all[n] == line);
    law_collapse_keeps_content(all, n);
    assert(all.take(n) =~= before);
    assert(all.skip(n + 1) =~= after);
}

/// Only the lines of a snapshot are rewritten: every other member is handed back as it came, none
/// is added and none is lost. What has no list of lines is handed back whole.
pub proof fn law_snapshot_keeps_its_members(value: JsonView, key: Seq<char>)
    ensures
        value is Object <==> collapsed(value) is Object,
        value !is Object ==> collapsed(value) == value,
        value is Object ==> {
            let members = value->Object_0;
            let shown = collapsed(value)->Object_0;
            &&& shown.contains_key(key) <==> members.contains_key(key)
            &&& key != "lines"@ && members.contains_key(key) ==> shown[key] == members[key]
            &&& members.contains_key("lines"@) && members["lines"@] is Array ==> shown["lines"@]
                == JsonView::Array(collapse(members["lines"@]->Array_0))
            &&& members.contains_key("lines"@) && members["lines"@] !is Array ==> shown["lines"@]
                == members["lines"@]
        },
{
}

} // verus!
