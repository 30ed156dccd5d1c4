//! How git is invoked, and the text produced around an invocation.
//!
//! The library never starts a process itself: each git operation is described
//! by a [`GitCommand`], which the caller runs and whose output it hands back.

use vstd::prelude::*;

use crate::text::{owned, push_str, trim, trimmed, views};

verus! {

/// Whether git's output is read back or left on the terminal.
#[derive(Debug, Clone, Copy, PartialEq, Eq, Structural)]
pub enum OutputMode {
    /// stdout and stderr are captured and returned to the library.
    Captured,
    /// stdout and stderr go to the user's terminal; only success is reported.
    Inherited,
}

/// One invocation of `git`.
pub struct GitCommand {
    /// The arguments after `git`.
    pub args: Vec<String>,
    /// The directory to run in; `None` for the current one.
    pub cwd: Option<String>,
    pub mode: OutputMode,
}

impl GitCommand {
    /// The arguments, as character sequences.
    pub open spec fn arg_views(&self) -> Seq<Seq<char>> {
        views(self.args@)
    }

    /// The working directory, as a character sequence.
    pub open spec fn cwd_view(&self) -> Option<Seq<char>> {
        self.cwd.deep_view()
    }
}

/// A string slice option, viewed.
pub open spec fn opt_view(o: Option<&str>) -> Option<Seq<char>> {
    match o {
        Some(s) => Some(s@),
        None => None,
    }
}

/// An owned copy of an optional string slice.
pub fn owned_opt(o: Option<&str>) -> (r: Option<String>)
    ensures
        r.deep_view() == opt_view(o),
{
    match o {
        Some(s) => Some(owned(s)),
        None => None,
    }
}

/// `a` followed by `b`.
pub fn concat(a: &str, b: &str) -> (r: String)
    ensures
        r@ == a@ + b@,
{
    let mut r = owned(a);
    push_str(&mut r, b);
    r
}

/// The words of `ws` with `sep` between each two.
pub open spec fn join_with(ws: Seq<Seq<char>>, sep: Seq<char>) -> Seq<char>
    decreases ws.len(),
{
    if ws.len() == 0 {
        seq![]
    } else if ws.len() == 1 {
        ws[0]
    } else {
        join_with(ws.drop_last(), sep) + sep + ws.last()
    }
}

/// The strings of `ws` joined with `sep`, as `[..].join(sep)` does.
pub fn join_strings(ws: &Vec<String>, sep: &str) -> (r: String)
    ensures
        r@ == join_with(views(ws@), sep@),
{
    let mut r = String::new();
    let mut i: usize = 0;
    while i < ws.len()
        invariant
            i <= ws.len(),
            r@ == join_with(views(ws@).take(i as int), sep@),
        decreases ws.len() - i,
    {
        assert(views(ws@).take(i + 1).drop_last() =~= views(ws@).take(i as int));
        if i > 0 {
            push_str(&mut r, sep);
        } else {
            assert(r@ =~= Seq::<char>::empty());
        }
        push_str(&mut r, ws[i].as_str());
        i = i + 1;
    }
    assert(views(ws@).take(ws.len() as int) =~= views(ws@));
    r
}

/// The text a captured stream is read as: trimmed of surrounding whitespace.
pub fn captured_text(raw: &str) -> (r: String)
    ensures
        r@ == trim(raw@),
{
    trimmed(raw)
}

/// The error reported when git could not be started at all.
pub fn launch_failure_message(args: &Vec<String>) -> (r: String)
    ensures
        r@ == "failed to run: git "@ + join_with(views(args@), " "@),
{
    let joined = join_strings(args, " ");
    concat("failed to run: git ", joined.as_str())
}

/// The error reported when a captured git invocation fails.
pub fn failure_message(args: &Vec<String>, stderr: &str) -> (r: String)
    ensures
        r@ == "git "@ + join_with(views(args@), " "@) + " failed: "@ + trim(stderr@),
{
    let joined = join_strings(args, " ");
    let mut r = concat("git ", joined.as_str());
    push_str(&mut r, " failed: ");
    let t = trimmed(stderr);
    push_str(&mut r, t.as_str());
    r
}

/// The error reported when an inherited git invocation exits unsuccessfully.
pub fn exit_failure_message(args: &Vec<String>, status: &str) -> (r: String)
    ensures
        r@ == "git "@ + join_with(views(args@), " "@) + " exited with status "@ + status@,
{
    let joined = join_strings(args, " ");
    let mut r = concat("git ", joined.as_str());
    push_str(&mut r, " exited with status ");
    push_str(&mut r, status);
    r
}

} // verus!
