//! The summary line, help line and git spans of the pane switcher.
use crate::overview_tui_helpers::{truncate, truncate_spec};
use crate::panes::PaneSnapshot;
use crate::panes_support::{state_name, task_state_label};
use crate::style::{
    accent, fg, fg_bold, good, muted, pane_text, plain, red, span, span_owned, span_views, warn,
    StyledLine, StyledSpan, TextStyle,
};
use crate::text::{append_chars, append_str, chars_eq_str, chars_of, from_chars, split_ws, starts_with, tokens, trim, trim_chars};
use vstd::prelude::*;

verus! {

/// How a token of a git summary is coloured: changes, deletions and new
/// files by kind, line counts muted, anything else as body text.
pub open spec fn token_style(t: Seq<char>) -> TextStyle {
    if "chg"@.is_prefix_of(t) {
        fg_bold(warn())
    } else if "del"@.is_prefix_of(t) {
        fg_bold(red())
    } else if "new"@.is_prefix_of(t) {
        fg_bold(good())
    } else if "+"@.is_prefix_of(t) || "-"@.is_prefix_of(t) {
        fg(muted())
    } else {
        fg(pane_text())
    }
}

/// The tokens, each in its style, with a plain space between each two.
pub open spec fn token_spans(ts: Seq<Seq<char>>) -> Seq<(Seq<char>, TextStyle)>
    decreases ts.len(),
{
    if ts.len() == 0 {
        Seq::empty()
    } else {
        let before = token_spans(ts.drop_last());
        let before = if ts.len() == 1 {
            before
        } else {
            before.push((" "@, plain()))
        };
        before.push((ts.last(), token_style(ts.last())))
    }
}

/// The spans of a git summary label: `n/a` when there is none, `loading`
/// while it is being read, `clean` (bright only once loaded), or each token
/// coloured by [`token_style`].
pub open spec fn git_spans_spec(label: Seq<char>, loaded: bool) -> Seq<(Seq<char>, TextStyle)> {
    let l = trim(label);
    if l.len() == 0 || l == "n/a"@ {
        seq![("n/a"@, fg(muted()))]
    } else if l == "loading"@ {
        seq![("loading"@, fg(warn()))]
    } else if l == "clean"@ {
        seq![("clean"@, fg(if loaded { good() } else { muted() }))]
    } else {
        token_spans(tokens(l))
    }
}

fn token_style_of(t: &Vec<char>) -> (s: TextStyle)
    ensures
        s == token_style(t@),
{
    if starts_with(t, "chg") {
        fg_bold(warn())
    } else if starts_with(t, "del") {
        fg_bold(red())
    } else if starts_with(t, "new") {
        fg_bold(good())
    } else if starts_with(t, "+") || starts_with(t, "-") {
        fg(muted())
    } else {
        fg(pane_text())
    }
}

pub fn git_summary_spans(label: &str, loaded: bool) -> (r: Vec<StyledSpan>)
    ensures
        span_views(r@) == git_spans_spec(label@, loaded),
{
    let l = trim_chars(&chars_of(label));
    if l.len() == 0 || chars_eq_str(&l, "n/a") {
        proof {
            reveal_strlit("n/a");
        }
        let r = vec![span("n/a", fg(muted()))];
        assert(span_views(r@) =~= git_spans_spec(label@, loaded));
        return r;
    }
    if chars_eq_str(&l, "loading") {
        let r = vec![span("loading", fg(warn()))];
        assert(span_views(r@) =~= git_spans_spec(label@, loaded));
        return r;
    }
    if chars_eq_str(&l, "clean") {
        let r = vec![span("clean", fg(if loaded { good() } else { muted() }))];
        assert(span_views(r@) =~= git_spans_spec(label@, loaded));
        return r;
    }
    let toks = split_ws(&l);
    let ghost ts = tokens(l@);
    let mut spans: Vec<StyledSpan> = Vec::new();
    let mut i: usize = 0;
    while i < toks.len()
        invariant
            toks@.len() == ts.len(),
            forall|k: int| 0 <= k < toks@.len() ==> #[trigger] toks@[k]@ == ts[k],
            i <= toks@.len(),
            span_views(spans@) == token_spans(ts.take(i as int)),
        decreases toks.len() - i,
    {
        proof {
            assert(ts.take(i + 1).drop_last() =~= ts.take(i as int));
            assert(ts.take(i + 1).last() == toks@[i as int]@);
        }
        if i > 0 {
            spans.push(span(" ", plain()));
        }
        let style = token_style_of(&toks[i]);
        spans.push(span_owned(from_chars(&toks[i]), style));
        proof {
            let prev = token_spans(ts.take(i as int));
            if i > 0 {
                assert(span_views(spans@) =~= prev.push((" "@, plain())).push(
                    (ts[i as int], token_style(ts[i as int])),
                ));
            } else {
                assert(span_views(spans@) =~= prev.push((ts[i as int], token_style(ts[i as int]))));
            }
        }
        i += 1;
    }
    proof {
        assert(ts.take(ts.len() as int) =~= ts);
    }
    spans
}

/// `repo@branch`, or just `repo` when the branch is empty.
pub open spec fn repo_with_branch(repo: Seq<char>, branch: Seq<char>) -> Seq<char> {
    if branch.len() == 0 {
        repo
    } else {
        repo + "@"@ + branch
    }
}

pub fn join_repo_branch(repo: &str, branch: &str) -> (r: String)
    ensures
        r@ == repo_with_branch(repo@, branch@),
{
    let b = chars_of(branch);
    if b.len() == 0 {
        return String::from_str(repo);
    }
    let mut out = chars_of(repo);
    append_str(&mut out, "@");
    append_chars(&mut out, &b);
    from_chars(&out)
}

pub open spec fn or_text(o: Option<String>, fallback: Seq<char>) -> Seq<char> {
    match o {
        Some(s) => s@,
        None => fallback,
    }
}

/// The fields the summary line shows of the selected pane: its git label,
/// `repo@branch`, task state and whether a task runs there.
pub open spec fn summary_fields(snapshot: Option<PaneSnapshot>, ready: bool) -> (
    Seq<char>,
    Seq<char>,
    Seq<char>,
    bool,
) {
    match snapshot {
        Some(s) => (
            match s.git {
                Some(g) => g.label@,
                None => if ready {
                    "n/a"@
                } else {
                    "loading"@
                },
            },
            repo_with_branch(or_text(s.repo, "n/a"@), or_text(s.branch, ""@)),
            match s.task {
                Some(t) => state_name(t.state),
                None => "unmanaged"@,
            },
            s.task is Some,
        ),
        None => ("n/a"@, "n/a"@, "unmanaged"@, false),
    }
}

/// The summary line over the pane table: switcher state, the selected
/// pane's repository, git summary and task state.
pub open spec fn header_spans_spec(snapshot: Option<PaneSnapshot>, status: Seq<char>) -> Seq<
    (Seq<char>, TextStyle),
> {
    let ready = status == "ready"@;
    let f = summary_fields(snapshot, ready);
    seq![
        ("state "@, fg(muted())),
        (status, fg(if ready { good() } else { warn() })),
        ("  "@, plain()),
        ("repo "@, fg(muted())),
        (truncate_spec(f.1, 28), fg(good())),
        ("  "@, plain()),
        ("git "@, fg(muted())),
    ] + git_spans_spec(f.0, ready) + seq![
        ("   "@, plain()),
        ("task "@, fg(muted())),
        (f.2, fg(if f.3 { accent() } else { muted() })),
    ]
}

fn opt_text<'a>(o: &'a Option<String>, fallback: &'a str) -> (r: &'a str)
    ensures
        r@ == or_text(*o, fallback@),
{
    match o {
        Some(s) => s.as_str(),
        None => fallback,
    }
}

pub fn header_summary_line(snapshot: Option<&PaneSnapshot>, status: &str) -> (r: StyledLine)
    ensures
        span_views(r.spans@) == header_spans_spec(
            match snapshot {
                Some(s) => Some(*s),
                None => None,
            },
            status@,
        ),
        r.style == plain(),
{
    let ready = chars_eq_str(&chars_of(status), "ready");
    let ghost snap = match snapshot {
        Some(s) => Some(*s),
        None => None,
    };
    let ghost f = summary_fields(snap, ready);
    let (git_label, repo, task_state, task_active): (String, String, String, bool) = match snapshot {
        Some(s) => {
            let git_label = match &s.git {
                Some(g) => g.label.clone(),
                None => String::from_str(if ready { "n/a" } else { "loading" }),
            };
            let repo = join_repo_branch(opt_text(&s.repo, "n/a"), opt_text(&s.branch, ""));
            let task_state = match &s.task {
                Some(t) => String::from_str(task_state_label(&t.state)),
                None => String::from_str("unmanaged"),
            };
            (git_label, repo, task_state, s.task.is_some())
        },
        None => (String::from_str("n/a"), String::from_str("n/a"), String::from_str("unmanaged"), false),
    };
    assert(git_label@ == f.0 && repo@ == f.1 && task_state@ == f.2 && task_active == f.3);
    let mut spans: Vec<StyledSpan> = vec![
        span("state ", fg(muted())),
        span(status, fg(if ready { good() } else { warn() })),
        span("  ", plain()),
        span("repo ", fg(muted())),
        span_owned(truncate(repo.as_str(), 28), fg(good())),
        span("  ", plain()),
        span("git ", fg(muted())),
    ];
    let ghost head = span_views(spans@);
    let mut git = git_summary_spans(git_label.as_str(), ready);
    spans.append(&mut git);
    let ghost mid = span_views(spans@);
    assert(mid =~= head + git_spans_spec(f.0, ready));
    spans.push(span("   ", plain()));
    spans.push(span("task ", fg(muted())));
    spans.push(span_owned(task_state, fg(if task_active { accent() } else { muted() })));
    let r = StyledLine { spans, style: plain() };
    assert(span_views(r.spans@) =~= header_spans_spec(snap, status@));
    r
}

/// The help line under the pane table.
pub open spec fn footer_spans_spec() -> Seq<(Seq<char>, TextStyle)> {
    seq![
        ("j/k"@, fg_bold(accent())),
        (" moves  "@, fg(muted())),
        ("enter"@, fg_bold(accent())),
        (" activates the selected pane  "@, fg(muted())),
        ("Esc"@, fg_bold(accent())),
        (" or "@, fg(muted())),
        ("q"@, fg_bold(accent())),
        (" quits"@, fg(muted())),
    ]
}

pub fn footer_line() -> (r: StyledLine)
    ensures
        span_views(r.spans@) == footer_spans_spec(),
        r.style == plain(),
{
    let spans = vec![
        span("j/k", fg_bold(accent())),
        span(" moves  ", fg(muted())),
        span("enter", fg_bold(accent())),
        span(" activates the selected pane  ", fg(muted())),
        span("Esc", fg_bold(accent())),
        span(" or ", fg(muted())),
        span("q", fg_bold(accent())),
        span(" quits", fg(muted())),
    ];
    let r = StyledLine { spans, style: plain() };
    assert(span_views(r.spans@) =~= footer_spans_spec());
    r
}

} // verus!
