//! `arbor init`: which shell, which startup file, and the line that wires
//! arbor into it.

use vstd::prelude::*;

use crate::git::runner::concat;
use crate::paths::{join, joined};
use crate::text::{contains, contains_seq, lines, owned, push_str, split_lines, starts_with, trim_start, trimmed_start, views, has_prefix, ends_with, has_suffix, str_eq};

verus! {

/// The shells arbor integrates with.
#[derive(Debug, Clone, Copy, PartialEq, Eq, Structural)]
pub enum Shell {
    Bash,
    Zsh,
    Fish,
}

/// The name a shell goes by.
pub open spec fn shell_name(s: Shell) -> Seq<char> {
    match s {
        Shell::Bash => "bash"@,
        Shell::Zsh => "zsh"@,
        Shell::Fish => "fish"@,
    }
}

/// Why no shell could be chosen.
#[derive(Debug, PartialEq, Eq)]
pub enum InitError {
    /// A shell was named that arbor does not support.
    UnsupportedShell { name: String },
    /// `$SHELL` is unset or empty.
    ShellNotDetected,
    /// `$SHELL` names a shell arbor does not support.
    UnsupportedDetectedShell { name: String },
}

impl InitError {
    /// The message shown for this error.
    pub fn message(&self) -> (r: String)
        ensures
            self matches InitError::UnsupportedShell { name } ==> r@ == "Unsupported shell: "@
                + name@ + " (supported: bash, zsh, fish)"@,
            self matches InitError::ShellNotDetected ==> r@
                == "Could not detect shell. Specify it explicitly: arbor init bash|zsh|fish"@,
            self matches InitError::UnsupportedDetectedShell { name } ==> r@
                == "Unsupported shell: "@ + name@ + ". Specify it explicitly: arbor init bash|zsh|fish"@,
    {
        match self {
            InitError::UnsupportedShell { name } => {
                let mut r = concat("Unsupported shell: ", name.as_str());
                push_str(&mut r, " (supported: bash, zsh, fish)");
                r
            },
            InitError::ShellNotDetected => owned(
                "Could not detect shell. Specify it explicitly: arbor init bash|zsh|fish",
            ),
            InitError::UnsupportedDetectedShell { name } => {
                let mut r = concat("Unsupported shell: ", name.as_str());
                push_str(&mut r, ". Specify it explicitly: arbor init bash|zsh|fish");
                r
            },
        }
    }
}

/// The shell a name designates.
pub open spec fn shell_named(name: Seq<char>) -> Option<Shell> {
    if name == "bash"@ {
        Some(Shell::Bash)
    } else if name == "zsh"@ {
        Some(Shell::Zsh)
    } else if name == "fish"@ {
        Some(Shell::Fish)
    } else {
        None
    }
}

impl Shell {
    /// The shell named `s`: `bash`, `zsh` or `fish`.
    pub fn parse(s: &str) -> (r: Result<Shell, InitError>)
        ensures
            match shell_named(s@) {
                Some(sh) => r == Ok::<Shell, InitError>(sh),
                None => r matches Err(InitError::UnsupportedShell { name }) && name@ == s@,
            },
    {
        if str_eq(s, "bash") {
            Ok(Shell::Bash)
        } else if str_eq(s, "zsh") {
            Ok(Shell::Zsh)
        } else if str_eq(s, "fish") {
            Ok(Shell::Fish)
        } else {
            Err(InitError::UnsupportedShell { name: owned(s) })
        }
    }

    /// The shell's name.
    pub fn name(&self) -> (r: &'static str)
        ensures
            r@ == shell_name(*self),
    {
        match self {
            Shell::Bash => "bash",
            Shell::Zsh => "zsh",
            Shell::Fish => "fish",
        }
    }
}

/// The program name at the end of a `$SHELL` path.
pub open spec fn program_name(path: Seq<char>) -> Seq<char> {
    path.skip(crate::paths::rfind(path, '/') + 1)
}

/// The shell named by the value of `$SHELL` (`None` when unset).
pub fn shell_from_env(env: Option<&str>) -> (r: Result<Shell, InitError>)
    ensures
        match env {
            Some(v) => if v@.len() == 0 {
                r == Err::<Shell, InitError>(InitError::ShellNotDetected)
            } else {
                match shell_named(program_name(v@)) {
                    Some(sh) => r == Ok::<Shell, InitError>(sh),
                    None => r matches Err(InitError::UnsupportedDetectedShell { name }) && name@
                        == program_name(v@),
                }
            },
            None => r == Err::<Shell, InitError>(InitError::ShellNotDetected),
        },
{
    match env {
        Some(v) => {
            if v.is_empty() {
                return Err(InitError::ShellNotDetected);
            }
            let chars = crate::text::chars_of(v);
            proof {
                crate::paths::lemma_rfind_bounds(v@, '/');
            }
            let mut k = chars.len();
            while k > 0 && chars[k - 1] != '/'
                invariant
                    chars@ == v@,
                    k <= chars.len(),
                    forall|j: int| k <= j < chars.len() ==> chars@[j] != '/',
                decreases k,
            {
                k = k - 1;
            }
            proof {
                if k > 0 {
                    crate::paths::lemma_rfind_is(v@, '/', k - 1);
                } else {
                    crate::paths::lemma_rfind_none(v@, '/');
                }
            }
            let name = crate::text::string_from_range(&chars, k, chars.len());
            assert(name@ =~= program_name(v@));
            match Shell::parse(name.as_str()) {
                Ok(sh) => Ok(sh),
                Err(_) => Err(InitError::UnsupportedDetectedShell { name }),
            }
        },
        None => Err(InitError::ShellNotDetected),
    }
}

/// The startup file of a shell, relative to the home directory.
pub open spec fn startup_file(s: Shell) -> Seq<char> {
    match s {
        Shell::Bash => ".bashrc"@,
        Shell::Zsh => ".zshrc"@,
        Shell::Fish => ".config/fish/config.fish"@,
    }
}

/// The startup file of a shell under the home directory.
pub fn config_file_path(shell: Shell, home: &str) -> (r: String)
    ensures
        r@ == joined(home@, startup_file(shell)),
{
    match shell {
        Shell::Bash => join(home, ".bashrc"),
        Shell::Zsh => join(home, ".zshrc"),
        Shell::Fish => join(home, ".config/fish/config.fish"),
    }
}

/// The line that activates arbor in a shell's startup file.
pub open spec fn eval_line_of(s: Shell) -> Seq<char> {
    match s {
        Shell::Bash => "eval \"$(arbor init bash)\""@,
        Shell::Zsh => "eval \"$(arbor init zsh)\""@,
        Shell::Fish => "arbor init fish | source"@,
    }
}

/// The line that activates arbor in the shell's startup file.
pub fn eval_line(shell: Shell) -> (r: &'static str)
    ensures
        r@ == eval_line_of(shell),
{
    match shell {
        Shell::Bash => "eval \"$(arbor init bash)\"",
        Shell::Zsh => "eval \"$(arbor init zsh)\"",
        Shell::Fish => "arbor init fish | source",
    }
}

/// What marks a startup file as set up: `arbor init <shell>`.
pub open spec fn setup_marker(s: Shell) -> Seq<char> {
    "arbor init "@ + shell_name(s)
}

/// A line that activates arbor: not a comment, and mentioning the marker.
pub open spec fn activates(line: Seq<char>, s: Shell) -> bool {
    !starts_with(trim_start(line), seq!['#']) && contains_seq(line, setup_marker(s))
}

/// A startup file is set up when one of its lines activates arbor.
pub open spec fn configured(content: Seq<char>, s: Shell) -> bool {
    exists|i: int| 0 <= i < lines(content).len() && activates(#[trigger] lines(content)[i], s)
}

/// A line that activates arbor makes the file set up.
pub proof fn lemma_configured_by(c: Seq<char>, s: Shell, i: int)
    requires
        0 <= i < lines(c).len(),
        activates(lines(c)[i], s),
    ensures
        configured(c, s),
{
}

/// Whether the startup file (its content, or `None` when it does not exist)
/// already sets up arbor for `shell`.
pub fn already_configured(content: Option<&str>, shell: Shell) -> (r: bool)
    ensures
        r == match content {
            Some(c) => configured(c@, shell),
            None => false,
        },
{
    match content {
        Some(c) => {
            let needle = concat("arbor init ", shell.name());
            let ls = split_lines(c);
            let ghost lv = lines(c@);
            let mut i: usize = 0;
            while i < ls.len()
                invariant
                    views(ls@) == lv,
                    lv == lines(c@),
                    content == Some(c),
                    needle@ == setup_marker(shell),
                    i <= ls.len(),
                    forall|j: int| 0 <= j < i ==> !activates(#[trigger] lv[j], shell),
                decreases ls.len() - i,
            {
                assert(lv[i as int] == ls@[i as int]@);
                let t = trimmed_start(ls[i].as_str());
                let comment = has_prefix(t.as_str(), "#");
                proof {
                    reveal_strlit("#");
                    assert("#"@ =~= seq!['#']);
                }
                if !comment && contains(ls[i].as_str(), needle.as_str()) {
                    assert(activates(lv[i as int], shell));
                    assert(lv.len() == ls@.len());
                    assert(0 <= i < lines(c@).len() && activates(lines(c@)[i as int], shell));
                    proof {
                        lemma_configured_by(c@, shell, i as int);
                    }
                    return true;
                }
                i = i + 1;
            }
            false
        },
        None => false,
    }
}

/// A startup file's content with arbor's lines appended: a newline first if
/// the content does not end with one, then `# arbor` and `line`, each ended.
pub open spec fn with_integration_of(content: Seq<char>, line: Seq<char>) -> Seq<char> {
    let base = if content.len() > 0 && content.last() != '\n' {
        content.push('\n')
    } else {
        content
    };
    base + "# arbor\n"@ + line + "\n"@
}

/// The content to write back to a startup file to set up arbor.
pub fn with_integration(content: &str, line: &str) -> (r: String)
    ensures
        r@ == with_integration_of(content@, line@),
{
    let mut r = owned(content);
    let v = crate::text::chars_of(content);
    if v.len() > 0 && v[v.len() - 1] != '\n' {
        crate::text::push_char(&mut r, '\n');
    }
    push_str(&mut r, "# arbor\n");
    push_str(&mut r, line);
    push_str(&mut r, "\n");
    r
}

/// Splitting text that ends a line (or is empty) from what follows it
/// splits its lines the same way.
pub proof fn lemma_lines_append(a: Seq<char>, b: Seq<char>)
    requires
        a.len() == 0 || a.last() == '\n',
    ensures
        lines(a + b) == lines(a) + lines(b),
    decreases a.len(),
{
    if a.len() == 0 {
        assert(a + b =~= b);
        assert(lines(a) + lines(b) =~= lines(b));
    } else {
        let k = crate::text::find_from(a, '\n', 0);
        crate::text::lemma_find_from_bounds(a, '\n', 0);
        assert(0 <= k < a.len());
        crate::text::lemma_find_from_at(a + b, '\n', 0, k);
        assert((a + b).take(k) =~= a.take(k));
        assert((a + b).skip(k + 1) =~= a.skip(k + 1) + b);
        lemma_lines_append(a.skip(k + 1), b);
        assert(lines(a) == seq![crate::text::chomp_cr(a.take(k))] + lines(a.skip(k + 1)));
        assert(lines(a + b) == seq![crate::text::chomp_cr(a.take(k))] + lines(a.skip(k + 1) + b));
        assert(lines(a + b) =~= lines(a) + lines(b));
    }
}

/// A line without `\n`, not ending in `\r`, followed by `\n`, is one line.
pub proof fn lemma_lines_terminated(l: Seq<char>)
    requires
        forall|j: int| 0 <= j < l.len() ==> l[j] != '\n',
        l.len() > 0 ==> l.last() != '\r',
    ensures
        lines(l + seq!['\n']) == seq![l],
{
    let t = l + seq!['\n'];
    crate::text::lemma_find_from_at(t, '\n', 0, l.len() as int);
    assert(t.take(l.len() as int) =~= l);
    assert(t.skip(l.len() as int + 1) =~= Seq::<char>::empty());
    assert(crate::text::chomp_cr(l) == l);
    assert(lines(t.skip(l.len() as int + 1)) =~= Seq::<Seq<char>>::empty());
    assert(lines(t) =~= seq![l]);
}

/// The facts about each activation line that the law below needs.
proof fn lemma_eval_line_shape(s: Shell)
    ensures
        eval_line_of(s).len() > 0,
        forall|j: int| 0 <= j < eval_line_of(s).len() ==> eval_line_of(s)[j] != '\n',
        eval_line_of(s).last() != '\r',
        !crate::text::is_space(eval_line_of(s)[0]),
        eval_line_of(s)[0] != '#',
        contains_seq(eval_line_of(s), setup_marker(s)),
{
    reveal_strlit("arbor init ");
    reveal_strlit("bash");
    reveal_strlit("zsh");
    reveal_strlit("fish");
    reveal_strlit("eval \"$(arbor init bash)\"");
    reveal_strlit("eval \"$(arbor init zsh)\"");
    reveal_strlit("arbor init fish | source");
    let l = eval_line_of(s);
    let m = setup_marker(s);
    match s {
        Shell::Bash => {
            assert(l.subrange(8, 8 + m.len() as int) =~= m);
            assert(crate::text::occurs_at(l, m, 8));
        },
        Shell::Zsh => {
            assert(l.subrange(8, 8 + m.len() as int) =~= m);
            assert(crate::text::occurs_at(l, m, 8));
        },
        Shell::Fish => {
            assert(l.subrange(0, m.len() as int) =~= m);
            assert(crate::text::occurs_at(l, m, 0));
        },
    }
}

/// After arbor's lines are appended to a startup file, the file counts as
/// set up: running `arbor init --inject` a second time changes nothing.
pub proof fn law_integration_is_detected(content: Seq<char>, s: Shell)
    ensures
        configured(with_integration_of(content, eval_line_of(s)), s),
{
    let l = eval_line_of(s);
    lemma_eval_line_shape(s);
    let base = if content.len() > 0 && content.last() != '\n' {
        content.push('\n')
    } else {
        content
    };
    reveal_strlit("# arbor\n");
    reveal_strlit("\n");
    let head = "# arbor\n"@;
    assert(head =~= seq!['#', ' ', 'a', 'r', 'b', 'o', 'r'] + seq!['\n']);
    let tail = l + seq!['\n'];
    assert("\n"@ =~= seq!['\n']);
    let whole = with_integration_of(content, l);
    assert(whole =~= base + (head + tail));
    lemma_lines_append(base, head + tail);
    lemma_lines_append(head, tail);
    lemma_lines_terminated(seq!['#', ' ', 'a', 'r', 'b', 'o', 'r']);
    lemma_lines_terminated(l);
    let k = lines(base).len() + 1;
    assert(lines(whole) =~= lines(base) + (seq![seq!['#', ' ', 'a', 'r', 'b', 'o', 'r']] + seq![l]));
    assert(lines(whole)[k as int] == l);
    crate::text::lemma_trim_start_at(l, 0);
    assert(l.skip(0) =~= l);
    assert(!starts_with(trim_start(l), seq!['#']));
    lemma_configured_by(whole, s, k as int);
}

/// Every shell's name parses back to that shell.
pub proof fn law_shell_name_roundtrip(s: Shell)
    ensures
        shell_named(shell_name(s)) == Some(s),
{
    reveal_strlit("bash");
    reveal_strlit("zsh");
    reveal_strlit("fish");
    assert("bash"@.len() != "zsh"@.len());
    assert("bash"@[0] != "fish"@[0]);
    assert("zsh"@.len() != "fish"@.len());
}

/// Setting up arbor only appends: the startup file's previous content is
/// kept whole at its start.
pub proof fn law_integration_keeps_content(content: Seq<char>, line: Seq<char>)
    ensures
        starts_with(with_integration_of(content, line), content),
{
    let r = with_integration_of(content, line);
    assert(r.subrange(0, content.len() as int) =~= content);
}

} // verus!
