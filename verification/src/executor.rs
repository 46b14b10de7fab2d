//! Routing of one command's output.
//!
//! Given a command's structured result and its redirection, the router
//! decides which writes the interpreter performs: to its own standard
//! streams, or to the redirection's target file.  A truncating redirection
//! creates or empties its target before any conditional write, so the
//! target exists and holds exactly the selected payload afterwards even
//! when that payload is absent; an appending redirection creates its target
//! if absent and extends it.  The payload of the stream a redirection does
//! not select goes to the interpreter's own matching stream.  The router
//! only decides; the surrounding program performs the writes in order.
//!
//! Input redirection is parsed but has no executor-side implementation: a
//! command that carries one is routed as if it had no redirection, so no
//! command's turn can abort the interpreter.

use vstd::prelude::*;

use crate::command::CommandOutput;
use crate::command::CommandOutputView;
use crate::command::RedirectCode;
use crate::command::Redirection;
use crate::command::RedirectionView;

verus! {

/// One write the interpreter performs after a command.
#[derive(Debug, Clone, PartialEq)]
pub enum WriteAction {
    /// Write the text to the interpreter's standard output.
    Stdout(String),
    /// Write the text to the interpreter's standard error.
    Stderr(String),
    /// Create the file, or discard its existing content.
    TruncateFile(String),
    /// Create the file empty if it does not exist; leave it alone otherwise.
    EnsureFile(String),
    /// Append the text to the file, creating it if absent.
    AppendFile(String, String),
}

/// The mathematical value of a [`WriteAction`].
pub ghost enum WriteActionView {
    Stdout(Seq<char>),
    Stderr(Seq<char>),
    TruncateFile(Seq<char>),
    EnsureFile(Seq<char>),
    AppendFile(Seq<char>, Seq<char>),
}

impl View for WriteAction {
    type V = WriteActionView;

    open spec fn view(&self) -> WriteActionView {
        match self {
            WriteAction::Stdout(s) => WriteActionView::Stdout(s@),
            WriteAction::Stderr(s) => WriteActionView::Stderr(s@),
            WriteAction::TruncateFile(f) => WriteActionView::TruncateFile(f@),
            WriteAction::EnsureFile(f) => WriteActionView::EnsureFile(f@),
            WriteAction::AppendFile(f, s) => WriteActionView::AppendFile(f@, s@),
        }
    }
}

impl DeepView for WriteAction {
    type V = WriteActionView;

    open spec fn deep_view(&self) -> WriteActionView {
        self.view()
    }
}

/// A write of the payload to standard output, when it is present.
pub open spec fn opt_stdout(payload: Option<Seq<char>>) -> Seq<WriteActionView> {
    match payload {
        Some(s) => seq![WriteActionView::Stdout(s)],
        None => seq![],
    }
}

/// A write of the payload to standard error, when it is present.
pub open spec fn opt_stderr(payload: Option<Seq<char>>) -> Seq<WriteActionView> {
    match payload {
        Some(s) => seq![WriteActionView::Stderr(s)],
        None => seq![],
    }
}

/// An append of the payload to the file, when it is present.
pub open spec fn opt_append(f: Seq<char>, payload: Option<Seq<char>>) -> Seq<WriteActionView> {
    match payload {
        Some(s) => seq![WriteActionView::AppendFile(f, s)],
        None => seq![],
    }
}

/// The writes the router decides on: the output-routing decision table.
/// Input redirection has no executor-side implementation and routes as if
/// there were no redirection.
pub open spec fn spec_route(out: CommandOutputView, r: Option<RedirectionView>) -> Seq<
    WriteActionView,
> {
    match r {
        None => opt_stdout(out.success) + opt_stderr(out.error),
        Some(RedirectionView::OutputTruncate(RedirectCode::One, f)) => seq![
            WriteActionView::TruncateFile(f),
        ] + opt_append(f, out.success) + opt_stderr(out.error),
        Some(RedirectionView::OutputTruncate(RedirectCode::Two, f)) => seq![
            WriteActionView::TruncateFile(f),
        ] + opt_append(f, out.error) + opt_stdout(out.success),
        Some(RedirectionView::OutputAppend(RedirectCode::One, f)) => seq![
            WriteActionView::EnsureFile(f),
        ] + opt_append(f, out.success) + opt_stderr(out.error),
        Some(RedirectionView::OutputAppend(RedirectCode::Two, f)) => seq![
            WriteActionView::EnsureFile(f),
        ] + opt_append(f, out.error) + opt_stdout(out.success),
        Some(RedirectionView::Input(_)) => opt_stdout(out.success) + opt_stderr(out.error),
    }
}

/// Performer of the routing decision for each command of a line.
pub struct Executor;

impl Executor {
    /// Routes one command's output according to its redirection, returning
    /// the writes to perform, in order.
    pub fn process_output(output: CommandOutput, redirection: Option<Redirection>) -> (acts: Vec<
        WriteAction,
    >)
        ensures
            acts.deep_view() == spec_route(output@, redirection.deep_view()),
    {
        let ghost ov = output@;
        let ghost rv = redirection.deep_view();
        let mut acts: Vec<WriteAction> = Vec::new();
        match redirection {
            None => {
                if let Some(s) = output.success {
                    acts.push(WriteAction::Stdout(s));
                }
                if let Some(e) = output.error {
                    acts.push(WriteAction::Stderr(e));
                }
            },
            Some(Redirection::OutputTruncate(RedirectCode::One, f)) => {
                acts.push(WriteAction::TruncateFile(f.clone()));
                if let Some(s) = output.success {
                    acts.push(WriteAction::AppendFile(f, s));
                }
                if let Some(e) = output.error {
                    acts.push(WriteAction::Stderr(e));
                }
            },
            Some(Redirection::OutputTruncate(RedirectCode::Two, f)) => {
                acts.push(WriteAction::TruncateFile(f.clone()));
                if let Some(e) = output.error {
                    acts.push(WriteAction::AppendFile(f, e));
                }
                if let Some(s) = output.success {
                    acts.push(WriteAction::Stdout(s));
                }
            },
            Some(Redirection::OutputAppend(RedirectCode::One, f)) => {
                acts.push(WriteAction::EnsureFile(f.clone()));
                if let Some(s) = output.success {
                    acts.push(WriteAction::AppendFile(f, s));
                }
                if let Some(e) = output.error {
                    acts.push(WriteAction::Stderr(e));
                }
            },
            Some(Redirection::OutputAppend(RedirectCode::Two, f)) => {
                acts.push(WriteAction::EnsureFile(f.clone()));
                if let Some(e) = output.error {
                    acts.push(WriteAction::AppendFile(f, e));
                }
                if let Some(s) = output.success {
                    acts.push(WriteAction::Stdout(s));
                }
            },
            Some(Redirection::Input(_)) => {
                if let Some(s) = output.success {
                    acts.push(WriteAction::Stdout(s));
                }
                if let Some(e) = output.error {
                    acts.push(WriteAction::Stderr(e));
                }
            },
        }
        proof {
            assert(acts.deep_view() =~= spec_route(ov, rv));
        }
        acts
    }
}

// ---------------------------------------------------------------------------
// What the routed writes do
// ---------------------------------------------------------------------------

/// The payload's text, or nothing when it is absent.
pub open spec fn payload_or_empty(p: Option<Seq<char>>) -> Seq<char> {
    match p {
        Some(s) => s,
        None => Seq::empty(),
    }
}

/// The payload a redirection selects: standard output for `One`, standard
/// error for `Two`.
pub open spec fn selected_payload(out: CommandOutputView, sel: RedirectCode) -> Option<Seq<char>> {
    match sel {
        RedirectCode::One => out.success,
        RedirectCode::Two => out.error,
    }
}

/// The content of the file at `path` after one action, `None` meaning the
/// file does not exist.
pub open spec fn file_step(a: WriteActionView, path: Seq<char>, cur: Option<Seq<char>>) -> Option<
    Seq<char>,
> {
    match a {
        WriteActionView::TruncateFile(p) => if p == path {
            Some(Seq::empty())
        } else {
            cur
        },
        WriteActionView::EnsureFile(p) => if p == path {
            Some(payload_or_empty(cur))
        } else {
            cur
        },
        WriteActionView::AppendFile(p, s) => if p == path {
            Some(payload_or_empty(cur) + s)
        } else {
            cur
        },
        _ => cur,
    }
}

/// The content of the file at `path` after the actions run in order,
/// starting from `init`.
pub open spec fn spec_file_after(
    acts: Seq<WriteActionView>,
    path: Seq<char>,
    init: Option<Seq<char>>,
) -> Option<Seq<char>>
    decreases acts.len(),
{
    if acts.len() == 0 {
        init
    } else {
        spec_file_after(acts.skip(1), path, file_step(acts[0], path, init))
    }
}

/// Everything the actions write to the interpreter's standard output.
pub open spec fn spec_console_out(acts: Seq<WriteActionView>) -> Seq<char>
    decreases acts.len(),
{
    if acts.len() == 0 {
        Seq::empty()
    } else {
        (match acts[0] {
            WriteActionView::Stdout(s) => s,
            _ => Seq::empty(),
        }) + spec_console_out(acts.skip(1))
    }
}

/// Everything the actions write to the interpreter's standard error.
pub open spec fn spec_console_err(acts: Seq<WriteActionView>) -> Seq<char>
    decreases acts.len(),
{
    if acts.len() == 0 {
        Seq::empty()
    } else {
        (match acts[0] {
            WriteActionView::Stderr(s) => s,
            _ => Seq::empty(),
        }) + spec_console_err(acts.skip(1))
    }
}

/// Without a redirection, the success payload goes to the interpreter's
/// standard output, the error payload to its standard error, and no file is
/// touched.
pub proof fn lemma_route_none(out: CommandOutputView, path: Seq<char>, init: Option<Seq<char>>)
    ensures
        spec_console_out(spec_route(out, None)) == payload_or_empty(out.success),
        spec_console_err(spec_route(out, None)) == payload_or_empty(out.error),
        spec_file_after(spec_route(out, None), path, init) == init,
{
    let acts = spec_route(out, None);
    let a = opt_stdout(out.success);
    let b = opt_stderr(out.error);
    assert(acts == a + b);
    lemma_file_after_add(a, b, path, init);
    lemma_console_add(a, b);
    lemma_sem_groups(path, out.success, path, init);
    lemma_sem_groups(path, out.error, path, init);
    assert(payload_or_empty(out.success) + Seq::<char>::empty() =~= payload_or_empty(
        out.success,
    ));
    assert(Seq::<char>::empty() + payload_or_empty(out.error) =~= payload_or_empty(out.error));
}

/// Input redirection has no executor-side implementation: both payloads
/// pass through to the interpreter's own streams, and no file is touched.
pub proof fn lemma_route_input(
    out: CommandOutputView,
    f: Seq<char>,
    path: Seq<char>,
    init: Option<Seq<char>>,
)
    ensures
        spec_console_out(spec_route(out, Some(RedirectionView::Input(f)))) == payload_or_empty(
            out.success,
        ),
        spec_console_err(spec_route(out, Some(RedirectionView::Input(f)))) == payload_or_empty(
            out.error,
        ),
        spec_file_after(spec_route(out, Some(RedirectionView::Input(f))), path, init) == init,
{
    let acts = spec_route(out, Some(RedirectionView::Input(f)));
    let a = opt_stdout(out.success);
    let b = opt_stderr(out.error);
    assert(acts == a + b);
    lemma_file_after_add(a, b, path, init);
    lemma_console_add(a, b);
    lemma_sem_groups(path, out.success, path, init);
    lemma_sem_groups(path, out.error, path, init);
    assert(payload_or_empty(out.success) + Seq::<char>::empty() =~= payload_or_empty(
        out.success,
    ));
    assert(Seq::<char>::empty() + payload_or_empty(out.error) =~= payload_or_empty(out.error));
}

/// Running concatenated actions runs the first group, then the second.
proof fn lemma_file_after_add(
    a: Seq<WriteActionView>,
    b: Seq<WriteActionView>,
    path: Seq<char>,
    init: Option<Seq<char>>,
)
    ensures
        spec_file_after(a + b, path, init) == spec_file_after(
            b,
            path,
            spec_file_after(a, path, init),
        ),
    decreases a.len(),
{
    if a.len() == 0 {
        assert(a + b =~= b);
    } else {
        assert((a + b)[0] == a[0]);
        assert((a + b).skip(1) =~= a.skip(1) + b);
        lemma_file_after_add(a.skip(1), b, path, file_step(a[0], path, init));
    }
}

/// Console output of concatenated actions is the concatenation of the
/// groups' console output.
proof fn lemma_console_add(a: Seq<WriteActionView>, b: Seq<WriteActionView>)
    ensures
        spec_console_out(a + b) == spec_console_out(a) + spec_console_out(b),
        spec_console_err(a + b) == spec_console_err(a) + spec_console_err(b),
    decreases a.len(),
{
    if a.len() == 0 {
        assert(a + b =~= b);
        assert(spec_console_out(a) + spec_console_out(b) =~= spec_console_out(b));
        assert(spec_console_err(a) + spec_console_err(b) =~= spec_console_err(b));
    } else {
        assert((a + b)[0] == a[0]);
        assert((a + b).skip(1) =~= a.skip(1) + b);
        lemma_console_add(a.skip(1), b);
        let h_out = match a[0] {
            WriteActionView::Stdout(s) => s,
            _ => Seq::<char>::empty(),
        };
        let h_err = match a[0] {
            WriteActionView::Stderr(s) => s,
            _ => Seq::<char>::empty(),
        };
        assert(h_out + (spec_console_out(a.skip(1)) + spec_console_out(b)) =~= (h_out
            + spec_console_out(a.skip(1))) + spec_console_out(b));
        assert(h_err + (spec_console_err(a.skip(1)) + spec_console_err(b)) =~= (h_err
            + spec_console_err(a.skip(1))) + spec_console_err(b));
    }
}

/// The semantics of a single action.
proof fn lemma_sem_one(a: WriteActionView, path: Seq<char>, init: Option<Seq<char>>)
    ensures
        spec_file_after(seq![a], path, init) == file_step(a, path, init),
        spec_console_out(seq![a]) == (match a {
            WriteActionView::Stdout(s) => s,
            _ => Seq::<char>::empty(),
        }),
        spec_console_err(seq![a]) == (match a {
            WriteActionView::Stderr(s) => s,
            _ => Seq::<char>::empty(),
        }),
{
    assert(seq![a].skip(1) =~= Seq::<WriteActionView>::empty());
    assert(spec_console_out(Seq::<WriteActionView>::empty()) == Seq::<char>::empty());
    assert(spec_console_err(Seq::<WriteActionView>::empty()) == Seq::<char>::empty());
    assert(spec_file_after(Seq::<WriteActionView>::empty(), path, file_step(a, path, init))
        == file_step(a, path, init));
    assert(spec_console_out(seq![a]) =~= match a {
        WriteActionView::Stdout(s) => s,
        _ => Seq::<char>::empty(),
    });
    assert(spec_console_err(seq![a]) =~= match a {
        WriteActionView::Stderr(s) => s,
        _ => Seq::<char>::empty(),
    });
}

/// The semantics of the optional-payload action groups.
proof fn lemma_sem_groups(f: Seq<char>, p: Option<Seq<char>>, path: Seq<char>, init: Option<
    Seq<char>,
>)
    ensures
        spec_file_after(opt_append(f, p), path, init) == (if path == f && p is Some {
            Some(payload_or_empty(init) + payload_or_empty(p))
        } else {
            init
        }),
        spec_console_out(opt_append(f, p)) == Seq::<char>::empty(),
        spec_console_err(opt_append(f, p)) == Seq::<char>::empty(),
        spec_file_after(opt_stdout(p), path, init) == init,
        spec_console_out(opt_stdout(p)) == payload_or_empty(p),
        spec_console_err(opt_stdout(p)) == Seq::<char>::empty(),
        spec_file_after(opt_stderr(p), path, init) == init,
        spec_console_out(opt_stderr(p)) == Seq::<char>::empty(),
        spec_console_err(opt_stderr(p)) == payload_or_empty(p),
{
    match p {
        Some(s) => {
            lemma_sem_one(WriteActionView::AppendFile(f, s), path, init);
            lemma_sem_one(WriteActionView::Stdout(s), path, init);
            lemma_sem_one(WriteActionView::Stderr(s), path, init);
        },
        None => {
        },
    }
}

/// A truncating redirection leaves its target holding exactly the selected
/// payload (empty when that payload is absent), touches no other file, and
/// sends only the unselected payload to its matching console stream.
pub proof fn lemma_route_truncate(
    out: CommandOutputView,
    sel: RedirectCode,
    f: Seq<char>,
    init: Option<Seq<char>>,
)
    ensures
        spec_file_after(spec_route(out, Some(RedirectionView::OutputTruncate(sel, f))), f, init)
            == Some(payload_or_empty(selected_payload(out, sel))),
        forall|q: Seq<char>, i2: Option<Seq<char>>|
            q != f ==> #[trigger] spec_file_after(
                spec_route(out, Some(RedirectionView::OutputTruncate(sel, f))),
                q,
                i2,
            ) == i2,
        spec_console_out(spec_route(out, Some(RedirectionView::OutputTruncate(sel, f)))) == (
        match sel {
            RedirectCode::One => Seq::<char>::empty(),
            RedirectCode::Two => payload_or_empty(out.success),
        }),
        spec_console_err(spec_route(out, Some(RedirectionView::OutputTruncate(sel, f)))) == (
        match sel {
            RedirectCode::One => payload_or_empty(out.error),
            RedirectCode::Two => Seq::<char>::empty(),
        }),
{
    let acts = spec_route(out, Some(RedirectionView::OutputTruncate(sel, f)));
    let selected = selected_payload(out, sel);
    let head = seq![WriteActionView::TruncateFile(f)];
    let mid = opt_append(f, selected);
    let tail = match sel {
        RedirectCode::One => opt_stderr(out.error),
        RedirectCode::Two => opt_stdout(out.success),
    };
    assert(acts == (head + mid) + tail);
    assert forall|q: Seq<char>, i2: Option<Seq<char>>| true implies #[trigger] spec_file_after(
        acts,
        q,
        i2,
    ) == (if q == f {
        Some(payload_or_empty(selected))
    } else {
        i2
    }) by {
        lemma_file_after_add(head + mid, tail, q, i2);
        lemma_file_after_add(head, mid, q, i2);
        lemma_sem_one(WriteActionView::TruncateFile(f), q, i2);
        lemma_sem_groups(f, selected, q, spec_file_after(head, q, i2));
        match sel {
            RedirectCode::One => lemma_sem_groups(f, out.error, q, spec_file_after(head + mid, q, i2)),
            RedirectCode::Two => lemma_sem_groups(f, out.success, q, spec_file_after(head + mid, q, i2)),
        }
        if q == f && selected is Some {
            assert(Seq::<char>::empty() + payload_or_empty(selected) =~= payload_or_empty(
                selected,
            ));
        }
    }
    lemma_console_add(head + mid, tail);
    lemma_console_add(head, mid);
    lemma_sem_one(WriteActionView::TruncateFile(f), f, init);
    lemma_sem_groups(f, selected, f, init);
    match sel {
        RedirectCode::One => lemma_sem_groups(f, out.error, f, init),
        RedirectCode::Two => lemma_sem_groups(f, out.success, f, init),
    }
    assert(spec_console_out(acts) =~= spec_console_out(tail));
    assert(spec_console_err(acts) =~= spec_console_err(tail));
}

/// An appending redirection extends its target (created empty when absent)
/// with the selected payload, touches no other file, and sends only the
/// unselected payload to its matching console stream.
pub proof fn lemma_route_append(
    out: CommandOutputView,
    sel: RedirectCode,
    f: Seq<char>,
    init: Option<Seq<char>>,
)
    ensures
        spec_file_after(spec_route(out, Some(RedirectionView::OutputAppend(sel, f))), f, init)
            == Some(payload_or_empty(init) + payload_or_empty(selected_payload(out, sel))),
        forall|q: Seq<char>, i2: Option<Seq<char>>|
            q != f ==> #[trigger] spec_file_after(
                spec_route(out, Some(RedirectionView::OutputAppend(sel, f))),
                q,
                i2,
            ) == i2,
        spec_console_out(spec_route(out, Some(RedirectionView::OutputAppend(sel, f)))) == (
        match sel {
            RedirectCode::One => Seq::<char>::empty(),
            RedirectCode::Two => payload_or_empty(out.success),
        }),
        spec_console_err(spec_route(out, Some(RedirectionView::OutputAppend(sel, f)))) == (
        match sel {
            RedirectCode::One => payload_or_empty(out.error),
            RedirectCode::Two => Seq::<char>::empty(),
        }),
{
    let acts = spec_route(out, Some(RedirectionView::OutputAppend(sel, f)));
    let selected = selected_payload(out, sel);
    let head = seq![WriteActionView::EnsureFile(f)];
    let mid = opt_append(f, selected);
    let tail = match sel {
        RedirectCode::One => opt_stderr(out.error),
        RedirectCode::Two => opt_stdout(out.success),
    };
    assert(acts == (head + mid) + tail);
    assert forall|q: Seq<char>, i2: Option<Seq<char>>| true implies #[trigger] spec_file_after(
        acts,
        q,
        i2,
    ) == (if q == f {
        Some(payload_or_empty(i2) + payload_or_empty(selected))
    } else {
        i2
    }) by {
        lemma_file_after_add(head + mid, tail, q, i2);
        lemma_file_after_add(head, mid, q, i2);
        lemma_sem_one(WriteActionView::EnsureFile(f), q, i2);
        lemma_sem_groups(f, selected, q, spec_file_after(head, q, i2));
        match sel {
            RedirectCode::One => lemma_sem_groups(f, out.error, q, spec_file_after(head + mid, q, i2)),
            RedirectCode::Two => lemma_sem_groups(f, out.success, q, spec_file_after(head + mid, q, i2)),
        }
        if q == f && selected is None {
            assert(payload_or_empty(i2) + Seq::<char>::empty() =~= payload_or_empty(i2));
        }
    }
    lemma_console_add(head + mid, tail);
    lemma_console_add(head, mid);
    lemma_sem_one(WriteActionView::EnsureFile(f), f, init);
    lemma_sem_groups(f, selected, f, init);
    match sel {
        RedirectCode::One => lemma_sem_groups(f, out.error, f, init),
        RedirectCode::Two => lemma_sem_groups(f, out.success, f, init),
    }
    assert(spec_console_out(acts) =~= spec_console_out(tail));
    assert(spec_console_err(acts) =~= spec_console_err(tail));
}

} // verus!
