//! Commands, built-in operations, and dispatch decisions.
//!
//! A [`Command`] is a program name, its arguments, and at most one
//! redirection.  [`Command::execute`] decides how the command is handled:
//! the pure built-ins (`echo`, `pwd`, a builtin `type` query, `exit`) are
//! answered directly; `cd` and external programs need something from the
//! outside world (a directory change, a search of the executable path, a
//! spawned process), so for them the dispatcher returns the precise outside
//! action to perform, and verified functions in this module turn the outside
//! answer into the command's output.
//!
//! Process-wide state (working directory, `HOME`, `PATH`) is modelled by the
//! explicit [`ShellState`] context, so every decision here is a pure function
//! of its arguments.

use vstd::prelude::*;
use vstd::string::StrSliceExecFns;
use vstd::string::StringExecFns;

verus! {

/// Which standard stream a redirection captures: `One` is standard output,
/// `Two` is standard error.
#[derive(Debug, Clone, Copy, PartialEq, Eq, Structural)]
pub enum RedirectCode {
    One,
    Two,
}

/// A redirection directive: a target file and a mode.
#[derive(Debug, Clone, PartialEq)]
pub enum Redirection {
    /// `< file`: read input from the file (parsed, but never executed).
    Input(String),
    /// `> file`: create or empty the file, then write the selected stream
    /// to it.  The standard-error selector comes from the `RedirectErrOut`
    /// token, which the grammar carries for the parser.
    OutputTruncate(RedirectCode, String),
    /// `>> file`: create the file if absent and append the selected stream
    /// to it.
    OutputAppend(RedirectCode, String),
}

/// The mathematical value of a [`Redirection`].
pub ghost enum RedirectionView {
    Input(Seq<char>),
    OutputTruncate(RedirectCode, Seq<char>),
    OutputAppend(RedirectCode, Seq<char>),
}

impl View for Redirection {
    type V = RedirectionView;

    open spec fn view(&self) -> RedirectionView {
        match self {
            Redirection::Input(f) => RedirectionView::Input(f@),
            Redirection::OutputTruncate(code, f) => RedirectionView::OutputTruncate(*code, f@),
            Redirection::OutputAppend(code, f) => RedirectionView::OutputAppend(*code, f@),
        }
    }
}

impl DeepView for Redirection {
    type V = RedirectionView;

    open spec fn deep_view(&self) -> RedirectionView {
        self.view()
    }
}

/// One command of a pipeline: a program name, its arguments in order, and
/// an optional redirection (the last one written before the next pipe wins).
#[derive(Debug, Clone, PartialEq)]
pub struct Command {
    pub program: String,
    pub args: Vec<String>,
    pub redirection: Option<Redirection>,
}

/// The mathematical value of a [`Command`].
pub ghost struct CommandView {
    pub program: Seq<char>,
    pub args: Seq<Seq<char>>,
    pub redirection: Option<RedirectionView>,
}

impl View for Command {
    type V = CommandView;

    open spec fn view(&self) -> CommandView {
        CommandView {
            program: self.program@,
            args: self.args.deep_view(),
            redirection: self.redirection.deep_view(),
        }
    }
}

impl DeepView for Command {
    type V = CommandView;

    open spec fn deep_view(&self) -> CommandView {
        self.view()
    }
}

/// What one built-in produced: a payload on exactly one of the two output
/// channels (either may be empty).
#[derive(Debug, Clone, PartialEq)]
pub enum OutputType {
    /// Content destined for standard output, if any.
    Success(Option<String>),
    /// Content destined for standard error, if any.
    Error(Option<String>),
}

/// The mathematical value of an [`OutputType`].
pub ghost enum OutputTypeView {
    Success(Option<Seq<char>>),
    Error(Option<Seq<char>>),
}

impl View for OutputType {
    type V = OutputTypeView;

    open spec fn view(&self) -> OutputTypeView {
        match self {
            OutputType::Success(s) => OutputTypeView::Success(s.deep_view()),
            OutputType::Error(e) => OutputTypeView::Error(e.deep_view()),
        }
    }
}

impl DeepView for OutputType {
    type V = OutputTypeView;

    open spec fn deep_view(&self) -> OutputTypeView {
        self.view()
    }
}

/// The structured result of running one command: an optional captured
/// standard-output payload and an optional standard-error payload.
#[derive(Debug, Clone, PartialEq)]
pub struct CommandOutput {
    pub success: Option<String>,
    pub error: Option<String>,
}

/// The mathematical value of a [`CommandOutput`].
pub ghost struct CommandOutputView {
    pub success: Option<Seq<char>>,
    pub error: Option<Seq<char>>,
}

impl View for CommandOutput {
    type V = CommandOutputView;

    open spec fn view(&self) -> CommandOutputView {
        CommandOutputView { success: self.success.deep_view(), error: self.error.deep_view() }
    }
}

impl DeepView for CommandOutput {
    type V = CommandOutputView;

    open spec fn deep_view(&self) -> CommandOutputView {
        self.view()
    }
}

impl OutputType {
    /// Spreads a one-channel result over the two-channel form consumed by
    /// the output router.
    pub fn into_output(self) -> (r: CommandOutput)
        ensures
            self@ matches OutputTypeView::Success(s) ==> r@ == (CommandOutputView {
                success: s,
                error: None,
            }),
            self@ matches OutputTypeView::Error(e) ==> r@ == (CommandOutputView {
                success: None,
                error: e,
            }),
    {
        match self {
            OutputType::Success(s) => CommandOutput { success: s, error: None },
            OutputType::Error(e) => CommandOutput { success: None, error: e },
        }
    }
}

/// The process-wide state the interpreter consults: the current working
/// directory and the two environment variables it reads.  `cwd` is `None`
/// when the working directory could not be queried; `home` is `None` when
/// `HOME` is unset; `path` is the raw colon-separated `PATH` value (empty
/// when unset).
#[derive(Debug, Clone, PartialEq)]
pub struct ShellState {
    pub cwd: Option<String>,
    pub home: Option<String>,
    pub path: String,
}

/// The mathematical value of a [`ShellState`].
pub ghost struct ShellStateView {
    pub cwd: Option<Seq<char>>,
    pub home: Option<Seq<char>>,
    pub path: Seq<char>,
}

impl View for ShellState {
    type V = ShellStateView;

    open spec fn view(&self) -> ShellStateView {
        ShellStateView {
            cwd: self.cwd.deep_view(),
            home: self.home.deep_view(),
            path: self.path@,
        }
    }
}

impl DeepView for ShellState {
    type V = ShellStateView;

    open spec fn deep_view(&self) -> ShellStateView {
        self.view()
    }
}

// ---------------------------------------------------------------------------
// Messages
// ---------------------------------------------------------------------------

/// `type` answer for a built-in name.
pub open spec fn msg_builtin(name: Seq<char>) -> Seq<char> {
    name + " is a shell builtin\n"@
}

/// `type` answer for a name resolved on the search path.
pub open spec fn msg_located(name: Seq<char>, path: Seq<char>) -> Seq<char> {
    name + " is "@ + path + "\n"@
}

/// `type` answer for a name that resolves to nothing.
pub open spec fn msg_not_found(name: Seq<char>) -> Seq<char> {
    name + ": not found\n"@
}

/// Error for a program name that is neither a built-in nor on the path.
pub open spec fn msg_command_not_found(name: Seq<char>) -> Seq<char> {
    name + ": command not found\n"@
}

/// Error for a `cd` whose target directory cannot be entered.
pub open spec fn msg_cd_failed(target: Seq<char>) -> Seq<char> {
    "cd: "@ + target + ": No such file or directory\n"@
}

/// Diagnostic for a `type` with no argument.
pub open spec fn msg_type_missing() -> Seq<char> {
    "type: missing argument\n"@
}

/// Error for a `pwd` whose working directory could not be queried.
pub open spec fn msg_pwd_failed() -> Seq<char> {
    "Error getting current directory\n"@
}

// ---------------------------------------------------------------------------
// Built-in dispatch set
// ---------------------------------------------------------------------------

/// The fixed set of built-in command names.
pub open spec fn spec_is_builtin(name: Seq<char>) -> bool {
    ||| name == "exit"@
    ||| name == "echo"@
    ||| name == "type"@
    ||| name == "pwd"@
    ||| name == "cd"@
}

/// Whether `name` is one of the interpreter's built-ins.
pub fn is_builtin(name: &str) -> (r: bool)
    ensures
        r == spec_is_builtin(name@),
{
    crate::strutil::str_eq(name, "exit") || crate::strutil::str_eq(name, "echo")
        || crate::strutil::str_eq(name, "type") || crate::strutil::str_eq(name, "pwd")
        || crate::strutil::str_eq(name, "cd")
}

// ---------------------------------------------------------------------------
// echo
// ---------------------------------------------------------------------------

/// The arguments joined by single spaces.
pub open spec fn spec_join_spaces(args: Seq<Seq<char>>) -> Seq<char>
    decreases args.len(),
{
    if args.len() == 0 {
        Seq::empty()
    } else if args.len() == 1 {
        args[0]
    } else {
        args[0] + " "@ + spec_join_spaces(args.skip(1))
    }
}

/// What `echo` prints: the arguments joined by spaces, plus a newline.
pub open spec fn spec_echo_line(args: Seq<Seq<char>>) -> Seq<char> {
    spec_join_spaces(args) + "\n"@
}

/// Joining distributes over appending one more word at the right.
proof fn lemma_join_push(args: Seq<Seq<char>>, w: Seq<char>)
    ensures
        spec_join_spaces(args.push(w)) == if args.len() == 0 {
            w
        } else {
            spec_join_spaces(args) + " "@ + w
        },
    decreases args.len(),
{
    if args.len() == 0 {
        assert(spec_join_spaces(args.push(w)) == args.push(w)[0]);
        assert(args.push(w)[0] == w);
    } else if args.len() == 1 {
        assert(args.push(w).len() == 2);
        assert(args.push(w)[0] == args[0]);
        assert(args.push(w).skip(1) =~= seq![w]);
        assert(spec_join_spaces(seq![w]) == seq![w][0]);
        assert(seq![w][0] == w);
        assert(spec_join_spaces(args) == args[0]);
    } else {
        assert(args.push(w).skip(1) =~= args.skip(1).push(w));
        lemma_join_push(args.skip(1), w);
        assert(args.push(w)[0] == args[0]);
        assert(spec_join_spaces(args) == args[0] + " "@ + spec_join_spaces(args.skip(1)));
        assert(spec_join_spaces(args.push(w)) == args[0] + " "@ + (spec_join_spaces(args.skip(1))
            + " "@ + w));
        assert(args[0] + " "@ + (spec_join_spaces(args.skip(1)) + " "@ + w) =~= (args[0] + " "@
            + spec_join_spaces(args.skip(1))) + " "@ + w);
    }
}

/// The `echo` built-in: succeeds with the arguments joined by single spaces
/// and a trailing newline, and never writes to the error channel.
pub fn run_echo(args: &Vec<String>) -> (r: OutputType)
    ensures
        r@ == OutputTypeView::Success(Some(spec_echo_line(args.deep_view()))),
{
    let mut out = String::new();
    let mut i: usize = 0;
    proof {
        assert(args.deep_view().take(0) =~= Seq::<Seq<char>>::empty());
    }
    while i < args.len()
        invariant
            i <= args@.len(),
            out@ == spec_join_spaces(args.deep_view().take(i as int)),
        decreases args@.len() - i,
    {
        proof {
            assert(args.deep_view().take(i + 1) =~= args.deep_view().take(i as int).push(
                args.deep_view()[i as int],
            ));
            lemma_join_push(args.deep_view().take(i as int), args.deep_view()[i as int]);
        }
        if i > 0 {
            out.append(" ");
        }
        out.append(args[i].as_str());
        i = i + 1;
    }
    proof {
        assert(args.deep_view().take(args@.len() as int) =~= args.deep_view());
    }
    OutputType::Success(Some(out.concat("\n")))
}

// ---------------------------------------------------------------------------
// type
// ---------------------------------------------------------------------------

/// What a `type` query answers once the path search (if any) is done:
/// built-ins answer directly; otherwise `found` is the first executable
/// match on the search path, or `None`.
pub open spec fn spec_get_type(name: Seq<char>, found: Option<Seq<char>>) -> OutputTypeView {
    if spec_is_builtin(name) {
        OutputTypeView::Success(Some(msg_builtin(name)))
    } else {
        match found {
            Some(p) => OutputTypeView::Success(Some(msg_located(name, p))),
            None => OutputTypeView::Error(Some(msg_not_found(name))),
        }
    }
}

/// Answers a `type` query for `name`, given the result of the executable
/// search (ignored for built-ins).
pub fn get_type(name: &String, found: &Option<String>) -> (r: OutputType)
    ensures
        r@ == spec_get_type(name@, found.deep_view()),
{
    if is_builtin(name.as_str()) {
        OutputType::Success(Some(name.clone().concat(" is a shell builtin\n")))
    } else {
        match found {
            Some(p) => OutputType::Success(
                Some(name.clone().concat(" is ").concat(p.as_str()).concat("\n")),
            ),
            None => OutputType::Error(Some(name.clone().concat(": not found\n"))),
        }
    }
}

// ---------------------------------------------------------------------------
// pwd and cd
// ---------------------------------------------------------------------------

/// What `pwd` answers: the working directory and a trailing newline, or an
/// error payload when the directory could not be queried.
pub open spec fn spec_pwd_output(cwd: Option<Seq<char>>) -> OutputTypeView {
    match cwd {
        Some(d) => OutputTypeView::Success(Some(d + "\n"@)),
        None => OutputTypeView::Error(Some(msg_pwd_failed())),
    }
}

/// The `pwd` built-in.
pub fn run_pwd(state: &ShellState) -> (r: OutputType)
    ensures
        r@ == spec_pwd_output(state@.cwd),
{
    match &state.cwd {
        Some(d) => OutputType::Success(Some(d.clone().concat("\n"))),
        None => OutputType::Error(
            Some(crate::strutil::to_owned_str("Error getting current directory\n")),
        ),
    }
}

/// Where `cd` goes: no argument or a literal `~` means `HOME` (falling back
/// to `/` when unset); anything else is taken literally.
pub open spec fn spec_cd_target(args: Seq<Seq<char>>, home: Option<Seq<char>>) -> Seq<char> {
    if args.len() == 0 || args[0] == "~"@ {
        match home {
            Some(h) => h,
            None => "/"@,
        }
    } else {
        args[0]
    }
}

/// Resolves the directory a `cd` command asks for.
pub fn cd_target(args: &Vec<String>, home: &Option<String>) -> (t: String)
    ensures
        t@ == spec_cd_target(args.deep_view(), home.deep_view()),
{
    if args.len() == 0 || crate::strutil::str_eq(args[0].as_str(), "~") {
        match home {
            Some(h) => h.clone(),
            None => crate::strutil::to_owned_str("/"),
        }
    } else {
        args[0].clone()
    }
}

/// Applies the outcome of a directory change to the shell context.
///
/// `new_cwd` is the working directory reported after a successful change,
/// or `None` when the change failed.  On failure the context is left
/// untouched and the error payload names the attempted target; on success
/// `cd` emits nothing.
pub fn finish_cd(state: &mut ShellState, target: &String, new_cwd: Option<String>) -> (r:
    OutputType)
    ensures
        new_cwd matches Some(c) ==> final(state)@ == (ShellStateView {
            cwd: Some(c@),
            ..old(state)@
        }) && r@ == OutputTypeView::Success(None),
        new_cwd is None ==> *final(state) == *old(state) && r@ == OutputTypeView::Error(
            Some(msg_cd_failed(target@)),
        ),
{
    match new_cwd {
        Some(c) => {
            state.cwd = Some(c);
            OutputType::Success(None)
        },
        None => OutputType::Error(
            Some(
                crate::strutil::to_owned_str("cd: ").concat(target.as_str()).concat(
                    ": No such file or directory\n",
                ),
            ),
        ),
    }
}

// ---------------------------------------------------------------------------
// exit
// ---------------------------------------------------------------------------

/// Whether `c` is a decimal digit.
pub open spec fn spec_is_digit(c: char) -> bool {
    '0' as int <= c as int && c as int <= '9' as int
}

/// The numeric value of a decimal digit.
pub open spec fn spec_digit_val(c: char) -> int {
    c as int - '0' as int
}

/// Whether every character of `s` is a decimal digit.
pub open spec fn spec_all_digits(s: Seq<char>) -> bool {
    forall|i: int| 0 <= i < s.len() ==> spec_is_digit(#[trigger] s[i])
}

/// The base-ten value of a digit string.
pub open spec fn spec_digits_value(s: Seq<char>) -> int
    decreases s.len(),
{
    if s.len() == 0 {
        0
    } else {
        spec_digits_value(s.drop_last()) * 10 + spec_digit_val(s.last())
    }
}

/// Reading `s` as a 32-bit integer: an optional single `+` or `-`, then one
/// or more decimal digits and nothing else, with the signed value in range.
pub open spec fn spec_parse_i32(s: Seq<char>) -> Option<int> {
    let negative = s.len() > 0 && s[0] == '-';
    let signed = s.len() > 0 && (s[0] == '-' || s[0] == '+');
    let digits = if signed {
        s.skip(1)
    } else {
        s
    };
    if digits.len() == 0 || !spec_all_digits(digits) {
        None
    } else {
        let v = if negative {
            -spec_digits_value(digits)
        } else {
            spec_digits_value(digits)
        };
        if i32::MIN <= v && v <= i32::MAX {
            Some(v)
        } else {
            None
        }
    }
}

/// A digit string's value is never negative.
proof fn lemma_digits_nonneg(s: Seq<char>)
    requires
        spec_all_digits(s),
    ensures
        spec_digits_value(s) >= 0,
    decreases s.len(),
{
    if s.len() > 0 {
        assert(spec_all_digits(s.drop_last())) by {
            assert(forall|i: int|
                0 <= i < s.len() - 1 ==> s.drop_last()[i] == #[trigger] s[i]);
        }
        lemma_digits_nonneg(s.drop_last());
        assert(spec_is_digit(s.last()));
    }
}

/// Appending further digits never shrinks a digit string's value.
proof fn lemma_digits_extend(s: Seq<char>, k: int)
    requires
        spec_all_digits(s),
        0 <= k <= s.len(),
    ensures
        spec_digits_value(s) >= spec_digits_value(s.take(k)),
    decreases s.len() - k,
{
    if k == s.len() {
        assert(s.take(k) =~= s);
    } else {
        assert(s.take(k + 1).drop_last() =~= s.take(k));
        assert(s.take(k + 1).last() == s[k]);
        assert(spec_all_digits(s.take(k + 1))) by {
            assert(forall|i: int|
                0 <= i < k + 1 ==> s.take(k + 1)[i] == #[trigger] s[i]);
        }
        lemma_digits_nonneg(s.take(k));
        assert(spec_digits_value(s.take(k + 1)) >= spec_digits_value(s.take(k)));
        lemma_digits_extend(s, k + 1);
    }
}

/// The decimal digit a character denotes, if any.
fn digit_of(c: char) -> (r: Option<i64>)
    ensures
        r matches Some(d) ==> spec_is_digit(c) && d == spec_digit_val(c),
        r is None ==> !spec_is_digit(c),
{
    match c {
        '0' => Some(0),
        '1' => Some(1),
        '2' => Some(2),
        '3' => Some(3),
        '4' => Some(4),
        '5' => Some(5),
        '6' => Some(6),
        '7' => Some(7),
        '8' => Some(8),
        '9' => Some(9),
        _ => {
            proof {
                if spec_is_digit(c) {
                    assert(c as int == 48 || c as int == 49 || c as int == 50 || c as int == 51
                        || c as int == 52 || c as int == 53 || c as int == 54 || c as int == 55
                        || c as int == 56 || c as int == 57);
                }
            }
            None
        },
    }
}

/// Reads a 32-bit integer from a string, accepting exactly what
/// [`spec_parse_i32`] describes.
pub fn parse_i32(s: &str) -> (r: Option<i32>)
    ensures
        r matches Some(v) ==> spec_parse_i32(s@) == Some(v as int),
        r is None ==> spec_parse_i32(s@) is None,
{
    let chars = crate::strutil::chars_of(s);
    let n = chars.len();
    if n == 0 {
        return None;
    }
    let c0 = chars[0];
    let negative = c0 == '-';
    let signed = negative || c0 == '+';
    let start: usize = if signed {
        1
    } else {
        0
    };
    if start == n {
        return None;
    }
    let ghost digits = if signed {
        s@.skip(1)
    } else {
        s@
    };
    proof {
        assert(digits.take(0) =~= Seq::<char>::empty());
    }
    let mut acc: i64 = 0;
    let mut i: usize = start;
    while i < n
        invariant
            start <= i <= n,
            n == s@.len(),
            chars@ == s@,
            signed == (s@.len() > 0 && (s@[0] == '-' || s@[0] == '+')),
            start == if signed {
                1int
            } else {
                0int
            },
            digits == if signed {
                s@.skip(1)
            } else {
                s@
            },
            digits.len() == n - start,
            spec_all_digits(digits.take(i - start)),
            acc == spec_digits_value(digits.take(i - start)),
            0 <= acc <= 0x8000_0000,
        decreases n - i,
    {
        let c = chars[i];
        proof {
            assert(digits[i - start] == s@[i as int]);
        }
        let d = match digit_of(c) {
            Some(d) => d,
            None => {
                proof {
                    assert(!spec_is_digit(digits[i - start]));
                }
                return None;
            },
        };
        proof {
            assert(d == spec_digit_val(c));
            assert(digits.take(i + 1 - start) =~= digits.take(i - start).push(
                digits[i - start],
            ));
            assert(digits.take(i + 1 - start).drop_last() =~= digits.take(i - start));
            assert(digits.take(i + 1 - start).last() == digits[i - start]);
            assert(spec_all_digits(digits.take(i + 1 - start))) by {
                assert(forall|j: int|
                    0 <= j < i + 1 - start ==> digits.take(i + 1 - start)[j] == #[trigger] digits[
                        j
                    ]);
            }
        }
        acc = acc * 10 + d;
        if acc > 0x8000_0000 {
            proof {
                if spec_all_digits(digits) {
                    lemma_digits_extend(digits, i + 1 - start);
                }
            }
            return None;
        }
        i = i + 1;
    }
    proof {
        assert(digits.take(n - start) =~= digits);
    }
    if negative {
        let v: i64 = -acc;
        Some(v as i32)
    } else {
        if acc > 0x7FFF_FFFF {
            return None;
        }
        Some(acc as i32)
    }
}

/// The `exit` built-in's status: the first argument read as a 32-bit
/// integer, or 1 when the argument is missing or unreadable.
pub open spec fn spec_exit_code(args: Seq<Seq<char>>) -> int {
    if args.len() == 0 {
        1
    } else {
        match spec_parse_i32(args[0]) {
            Some(v) => v,
            None => 1,
        }
    }
}

/// Decides the status `exit` terminates with.
pub fn run_exit(args: &Vec<String>) -> (code: i32)
    ensures
        code as int == spec_exit_code(args.deep_view()),
{
    if args.len() == 0 {
        return 1;
    }
    match parse_i32(args[0].as_str()) {
        Some(v) => v,
        None => 1,
    }
}

// ---------------------------------------------------------------------------
// External program output capture
// ---------------------------------------------------------------------------

/// Places the captured streams of a finished external program into the
/// structured result: each stream verbatim, an empty stream becoming an
/// absent payload rather than an empty one.
pub fn capture_output(stdout: String, stderr: String) -> (r: CommandOutput)
    ensures
        r@.success == if stdout@.len() == 0 {
            Option::<Seq<char>>::None
        } else {
            Some(stdout@)
        },
        r@.error == if stderr@.len() == 0 {
            Option::<Seq<char>>::None
        } else {
            Some(stderr@)
        },
{
    let success: Option<String> = if stdout.as_str().is_empty() {
        None
    } else {
        Some(stdout)
    };
    let error: Option<String> = if stderr.as_str().is_empty() {
        None
    } else {
        Some(stderr)
    };
    CommandOutput { success, error }
}

// ---------------------------------------------------------------------------
// Executable search
// ---------------------------------------------------------------------------

/// Splits the rest of `s` at colons, continuing a piece `cur` already begun
/// after pieces `acc`: there is always at least one (possibly empty) piece.
pub open spec fn split_colon_from(s: Seq<char>, cur: Seq<char>, acc: Seq<Seq<char>>) -> Seq<
    Seq<char>,
>
    decreases s.len(),
{
    if s.len() == 0 {
        acc.push(cur)
    } else if s[0] == ':' {
        split_colon_from(s.skip(1), Seq::empty(), acc.push(cur))
    } else {
        split_colon_from(s.skip(1), cur.push(s[0]), acc)
    }
}

/// The colon-separated pieces of `s`, in order.
pub open spec fn spec_split_colon(s: Seq<char>) -> Seq<Seq<char>> {
    split_colon_from(s, Seq::empty(), Seq::empty())
}

/// The file names the executable search tries for `name`: `<dir>/<name>`
/// for each piece of the colon-separated search path, left to right.
pub open spec fn spec_candidates(name: Seq<char>, path: Seq<char>) -> Seq<Seq<char>> {
    spec_split_colon(path).map_values(|d: Seq<char>| d + "/"@ + name)
}

/// Builds the candidate file names for resolving `name` on the search path.
pub fn search_candidates(name: &str, path: &str) -> (r: Vec<String>)
    ensures
        r.deep_view() == spec_candidates(name@, path@),
{
    let chars = crate::strutil::chars_of(path);
    let n = chars.len();
    let mut r: Vec<String> = Vec::new();
    let mut cur = String::new();
    let ghost mut pieces = Seq::<Seq<char>>::empty();
    let mut i: usize = 0;
    proof {
        assert(path@.skip(0) =~= path@);
    }
    while i < n
        invariant
            i <= n,
            n == path@.len(),
            chars@ == path@,
            spec_split_colon(path@) == split_colon_from(path@.skip(i as int), cur@, pieces),
            r.deep_view().len() == pieces.len(),
            forall|j: int|
                0 <= j < pieces.len() ==> r.deep_view()[j] == #[trigger] pieces[j] + "/"@ + name@,
        decreases n - i,
    {
        let ghost pre = path@.skip(i as int);
        proof {
            assert(pre[0] == path@[i as int]);
            assert(pre.skip(1) =~= path@.skip(i as int + 1));
        }
        let c = chars[i];
        if c == ':' {
            let ghost curv = cur@;
            r.push(cur.concat("/").concat(name));
            cur = String::new();
            proof {
                pieces = pieces.push(curv);
            }
        } else {
            crate::strutil::push_char(&mut cur, c);
        }
        i = i + 1;
    }
    proof {
        assert(path@.skip(n as int) =~= Seq::<char>::empty());
    }
    let ghost curv = cur@;
    r.push(cur.concat("/").concat(name));
    proof {
        pieces = pieces.push(curv);
        assert(spec_split_colon(path@) == pieces);
        assert forall|j: int| 0 <= j < pieces.len() implies spec_candidates(name@, path@)[j]
            == pieces[j] + "/"@ + name@ by {
            assert(spec_candidates(name@, path@)[j] == (|d: Seq<char>| d + "/"@ + name@)(
                pieces[j],
            ));
        }
        assert(r.deep_view() =~= spec_candidates(name@, path@));
    }
    r
}

/// Whether a file's permission bits include some execute bit.
pub open spec fn spec_has_execute_bit(mode: u32) -> bool {
    mode & 0o111 != 0
}

/// The executable test on a probed file's permission bits: any of the
/// three execute bits qualifies.  The caller reads the bits from the
/// filesystem and hands them in.
pub fn is_executable(mode: u32) -> (r: bool)
    ensures
        r == spec_has_execute_bit(mode),
{
    mode & 0o111 != 0
}

/// The first candidate whose flag is set, scanning left to right.
pub open spec fn spec_first_match(cands: Seq<Seq<char>>, flags: Seq<bool>) -> Option<Seq<char>>
    decreases cands.len(),
{
    if cands.len() == 0 {
        None
    } else if flags[0] {
        Some(cands[0])
    } else {
        spec_first_match(cands.skip(1), flags.skip(1))
    }
}

/// Resolves the executable search.  `candidates` are the file names in
/// search-path order and `flags[i]` reports whether candidate `i` names an
/// existing file with an execute permission bit; the first match wins.
pub fn search_in_path(candidates: &Vec<String>, flags: &Vec<bool>) -> (r: Option<String>)
    requires
        flags@.len() == candidates@.len(),
    ensures
        r.deep_view() == spec_first_match(candidates.deep_view(), flags@),
{
    let mut i: usize = 0;
    proof {
        assert(candidates.deep_view().skip(0) =~= candidates.deep_view());
        assert(flags@.skip(0) =~= flags@);
    }
    while i < candidates.len()
        invariant
            i <= candidates@.len(),
            flags@.len() == candidates@.len(),
            spec_first_match(candidates.deep_view(), flags@) == spec_first_match(
                candidates.deep_view().skip(i as int),
                flags@.skip(i as int),
            ),
        decreases candidates@.len() - i,
    {
        proof {
            assert(candidates.deep_view().skip(i as int)[0] == candidates.deep_view()[i as int]);
            assert(flags@.skip(i as int)[0] == flags@[i as int]);
            assert(candidates.deep_view().skip(i as int).skip(1) =~= candidates.deep_view().skip(
                i as int + 1,
            ));
            assert(flags@.skip(i as int).skip(1) =~= flags@.skip(i as int + 1));
        }
        if flags[i] {
            return Some(candidates[i].clone());
        }
        i = i + 1;
    }
    None
}

// ---------------------------------------------------------------------------
// Dispatch
// ---------------------------------------------------------------------------

/// What an executable search is for: answering a `type` query, or running
/// the program.
#[derive(Debug, Clone, Copy, PartialEq, Eq, Structural)]
pub enum SearchPurpose {
    TypeQuery,
    Run,
}

/// A request to spawn an external program: the resolved executable path,
/// the unresolved invoked name handed to the program as its argument zero,
/// and the arguments.
#[derive(Debug, Clone, PartialEq)]
pub struct SpawnRequest {
    pub path: String,
    pub argv0: String,
    pub args: Vec<String>,
}

/// The mathematical value of a [`SpawnRequest`].
pub ghost struct SpawnRequestView {
    pub path: Seq<char>,
    pub argv0: Seq<char>,
    pub args: Seq<Seq<char>>,
}

impl View for SpawnRequest {
    type V = SpawnRequestView;

    open spec fn view(&self) -> SpawnRequestView {
        SpawnRequestView { path: self.path@, argv0: self.argv0@, args: self.args.deep_view() }
    }
}

impl DeepView for SpawnRequest {
    type V = SpawnRequestView;

    open spec fn deep_view(&self) -> SpawnRequestView {
        self.view()
    }
}

/// The dispatcher's decision for one command.
#[derive(Debug, Clone, PartialEq)]
pub enum Dispatch {
    /// The command is fully answered; nothing outside is needed.
    Done(OutputType),
    /// `exit`: the interpreter terminates with this status.
    Terminate(i32),
    /// `cd`: attempt to change the working directory to this target.
    Chdir(String),
    /// The executable search path must be probed for `name`, trying
    /// `candidates` in order.
    Search { name: String, candidates: Vec<String>, purpose: SearchPurpose },
}

/// The mathematical value of a [`Dispatch`].
pub ghost enum DispatchView {
    Done(OutputTypeView),
    Terminate(int),
    Chdir(Seq<char>),
    Search { name: Seq<char>, candidates: Seq<Seq<char>>, purpose: SearchPurpose },
}

impl View for Dispatch {
    type V = DispatchView;

    open spec fn view(&self) -> DispatchView {
        match self {
            Dispatch::Done(o) => DispatchView::Done(o@),
            Dispatch::Terminate(code) => DispatchView::Terminate(*code as int),
            Dispatch::Chdir(t) => DispatchView::Chdir(t@),
            Dispatch::Search { name, candidates, purpose } => DispatchView::Search {
                name: name@,
                candidates: candidates.deep_view(),
                purpose: *purpose,
            },
        }
    }
}

/// The decision for one command against a shell context: dispatch is by
/// exact program-name match against the fixed built-in set, and any other
/// name is treated as an external program.
pub open spec fn spec_dispatch(c: CommandView, st: ShellStateView) -> DispatchView {
    if c.program == "exit"@ {
        DispatchView::Terminate(spec_exit_code(c.args))
    } else if c.program == "echo"@ {
        DispatchView::Done(OutputTypeView::Success(Some(spec_echo_line(c.args))))
    } else if c.program == "type"@ {
        if c.args.len() == 0 {
            DispatchView::Done(OutputTypeView::Error(Some(msg_type_missing())))
        } else if spec_is_builtin(c.args[0]) {
            DispatchView::Done(OutputTypeView::Success(Some(msg_builtin(c.args[0]))))
        } else {
            DispatchView::Search {
                name: c.args[0],
                candidates: spec_candidates(c.args[0], st.path),
                purpose: SearchPurpose::TypeQuery,
            }
        }
    } else if c.program == "pwd"@ {
        DispatchView::Done(spec_pwd_output(st.cwd))
    } else if c.program == "cd"@ {
        DispatchView::Chdir(spec_cd_target(c.args, st.home))
    } else {
        DispatchView::Search {
            name: c.program,
            candidates: spec_candidates(c.program, st.path),
            purpose: SearchPurpose::Run,
        }
    }
}

impl Command {
    /// Decides how this command is handled.  Built-ins whose answer needs
    /// nothing from the outside world are answered at once; `exit` becomes
    /// a termination request; `cd` and external programs become the precise
    /// outside action the caller must perform.
    pub fn execute(&self, state: &ShellState) -> (d: Dispatch)
        ensures
            d@ == spec_dispatch(self@, state@),
    {
        if crate::strutil::str_eq(self.program.as_str(), "exit") {
            Dispatch::Terminate(run_exit(&self.args))
        } else if crate::strutil::str_eq(self.program.as_str(), "echo") {
            Dispatch::Done(run_echo(&self.args))
        } else if crate::strutil::str_eq(self.program.as_str(), "type") {
            if self.args.len() == 0 {
                Dispatch::Done(
                    OutputType::Error(
                        Some(crate::strutil::to_owned_str("type: missing argument\n")),
                    ),
                )
            } else if is_builtin(self.args[0].as_str()) {
                Dispatch::Done(
                    OutputType::Success(
                        Some(self.args[0].clone().concat(" is a shell builtin\n")),
                    ),
                )
            } else {
                Dispatch::Search {
                    name: self.args[0].clone(),
                    candidates: search_candidates(self.args[0].as_str(), state.path.as_str()),
                    purpose: SearchPurpose::TypeQuery,
                }
            }
        } else if crate::strutil::str_eq(self.program.as_str(), "pwd") {
            Dispatch::Done(run_pwd(state))
        } else if crate::strutil::str_eq(self.program.as_str(), "cd") {
            Dispatch::Chdir(cd_target(&self.args, &state.home))
        } else {
            Dispatch::Search {
                name: self.program.clone(),
                candidates: search_candidates(self.program.as_str(), state.path.as_str()),
                purpose: SearchPurpose::Run,
            }
        }
    }
}

/// The next step for an external command once the search finished.
#[derive(Debug, Clone, PartialEq)]
pub enum ExternalPlan {
    /// Nothing to spawn: the name resolves to no executable.
    NotFound(OutputType),
    /// Spawn the resolved program and capture its streams.
    Spawn(SpawnRequest),
}

/// The mathematical value of an [`ExternalPlan`].
pub ghost enum ExternalPlanView {
    NotFound(OutputTypeView),
    Spawn(SpawnRequestView),
}

impl View for ExternalPlan {
    type V = ExternalPlanView;

    open spec fn view(&self) -> ExternalPlanView {
        match self {
            ExternalPlan::NotFound(o) => ExternalPlanView::NotFound(o@),
            ExternalPlan::Spawn(req) => ExternalPlanView::Spawn(req@),
        }
    }
}

/// What follows the search for an external command: spawn the first match
/// with argument zero set to the invoked name, or report the lookup
/// failure.
pub open spec fn spec_plan_external(
    program: Seq<char>,
    args: Seq<Seq<char>>,
    found: Option<Seq<char>>,
) -> ExternalPlanView {
    match found {
        Some(p) => ExternalPlanView::Spawn(SpawnRequestView { path: p, argv0: program, args }),
        None => ExternalPlanView::NotFound(
            OutputTypeView::Error(Some(msg_command_not_found(program))),
        ),
    }
}

/// Turns the search result for an external command into its spawn request,
/// or into the `command not found` error when the search failed.
pub fn plan_external(program: &String, args: &Vec<String>, found: Option<String>) -> (r:
    ExternalPlan)
    ensures
        r@ == spec_plan_external(program@, args.deep_view(), found.deep_view()),
{
    match found {
        Some(p) => ExternalPlan::Spawn(
            SpawnRequest {
                path: p,
                argv0: program.clone(),
                args: crate::strutil::clone_strings(args),
            },
        ),
        None => ExternalPlan::NotFound(
            OutputType::Error(Some(program.clone().concat(": command not found\n"))),
        ),
    }
}

} // verus!
