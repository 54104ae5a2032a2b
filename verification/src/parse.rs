//! Tokenizer for one line of shell input.
//!
//! The tokenizer is a character-level finite-state machine that honours
//! single quotes, double quotes and backslash escaping, and that recognises
//! the output-redirection operators `>`, `>>`, `1>`, `2>`, `>&2`, `2>&1`,
//! `&>` and `&>>` embedded in the word stream.
//!
//! The meaning of the machine is written down once, as the spec functions
//! [`spec_step`], [`spec_run`] and [`spec_tokenize`]; the executable
//! [`parse_input`] is proved to return exactly what [`spec_tokenize`] says.

use crate::errors::InvalidInputError;
use vstd::prelude::*;

verus! {

/// Quoting and escaping state of the tokenizer.
///
/// Exactly one state is active at any time. `Unquoted` is the only state in
/// which an input line may end; ending in any other state is a parse error.
#[derive(Clone, Copy, Debug, PartialEq, Eq, Structural)]
pub enum Fsm {
    /// No quotes are active.
    Unquoted,
    /// A single quote is open.
    Single,
    /// A double quote is open.
    Double,
    /// No quotes are active and a backslash escape is pending.
    UnquotedEscape,
    /// A double quote is open and a backslash escape is pending.
    DoubleEscape,
}

/// Which stream's redirection target is currently being collected.
///
/// This is a small second state machine embedded in the main one; it only
/// changes in the `Unquoted` state. While a stream is selected, completed
/// words become target paths of that stream instead of command arguments.
#[derive(Clone, Copy, Debug, PartialEq, Eq, Structural)]
pub enum RedirectionFsm {
    /// Words are ordinary command arguments.
    Inactive,
    /// Words are target paths of the standard output stream.
    Stdout,
    /// Words are target paths of the standard error stream.
    Stderr,
    /// Words are target paths of both streams at once, as opened by the
    /// combined redirection `&>` or `&>>`.
    Both,
}

/// Whether one stream was merged into the other on this line, as by `2>&1`
/// or `1>&2`.
///
/// The merge redirects the donor stream to whatever the other stream's
/// target and mode currently are — read at apply time, not copied — and
/// clears the donor's own mode. The cleared mode alone cannot be told from
/// an unredirected stream, so the merge is recorded here; it is honoured
/// only while the donor's mode is still clear, since a later explicit
/// redirection of the donor replaces it.
#[derive(Clone, Copy, Debug, PartialEq, Eq, Structural)]
pub enum FdMerge {
    /// No merge happened.
    Off,
    /// `1>&2` (or `>&2`): standard output joins standard error's destination.
    StdoutIntoStderr,
    /// `2>&1`: standard error joins standard output's destination.
    StderrIntoStdout,
}

/// The mode of a redirection, tracked independently for each stream.
#[derive(Clone, Copy, Debug, PartialEq, Eq, Structural)]
pub enum RedirectionMode {
    /// No redirection.
    Off,
    /// Redirection that overwrites the target file.
    Overwrite,
    /// Redirection that appends to the target file.
    Append,
}

/// Mathematical value of one stream's redirection: its mode and the ordered
/// target paths collected so far.
#[verifier::ext_equal]
pub ghost struct StreamSpec {
    pub mode: RedirectionMode,
    pub targets: Seq<Seq<char>>,
}

/// The redirection of the standard output stream.
///
/// When the same stream is redirected more than once on one line, every
/// target is recorded in encounter order; only the last one receives data,
/// but the earlier ones are still created and truncated.
#[derive(Clone, Debug, PartialEq, Eq)]
pub struct Stdout {
    pub kind: RedirectionMode,
    pub paths: Vec<String>,
}

/// The redirection of the standard error stream.
///
/// Target handling is the same as for [`Stdout`].
#[derive(Clone, Debug, PartialEq, Eq)]
pub struct Stderr {
    pub kind: RedirectionMode,
    pub paths: Vec<String>,
}

impl View for Stdout {
    type V = StreamSpec;

    open spec fn view(&self) -> StreamSpec {
        StreamSpec { mode: self.kind, targets: self.paths.deep_view() }
    }
}

impl View for Stderr {
    type V = StreamSpec;

    open spec fn view(&self) -> StreamSpec {
        StreamSpec { mode: self.kind, targets: self.paths.deep_view() }
    }
}

impl Stdout {
    /// A fresh stream redirection: no mode, no targets.
    pub fn new() -> (r: Self)
        ensures
            r@ == (StreamSpec { mode: RedirectionMode::Off, targets: Seq::<Seq<char>>::empty() }),
    {
        let r = Stdout { kind: RedirectionMode::Off, paths: Vec::new() };
        proof {
            assert(r@.targets =~= Seq::<Seq<char>>::empty());
        }
        r
    }

    /// Records one more target path for this stream.
    pub fn add_path(&mut self, path: String)
        ensures
            final(self)@ == (StreamSpec {
                mode: old(self)@.mode,
                targets: old(self)@.targets.push(path@),
            }),
    {
        self.paths.push(path);
        proof {
            assert(self@.targets =~= old(self)@.targets.push(path@));
        }
    }
}

impl Stderr {
    /// A fresh stream redirection: no mode, no targets.
    pub fn new() -> (r: Self)
        ensures
            r@ == (StreamSpec { mode: RedirectionMode::Off, targets: Seq::<Seq<char>>::empty() }),
    {
        let r = Stderr { kind: RedirectionMode::Off, paths: Vec::new() };
        proof {
            assert(r@.targets =~= Seq::<Seq<char>>::empty());
        }
        r
    }

    /// Records one more target path for this stream.
    pub fn add_path(&mut self, path: String)
        ensures
            final(self)@ == (StreamSpec {
                mode: old(self)@.mode,
                targets: old(self)@.targets.push(path@),
            }),
    {
        self.paths.push(path);
        proof {
            assert(self@.targets =~= old(self)@.targets.push(path@));
        }
    }
}

/// The redirections of both output streams of one command line, and the
/// fd-merge between them, if one was requested.
#[verifier::ext_equal]
pub ghost struct RedirSpec {
    pub stdout: StreamSpec,
    pub stderr: StreamSpec,
    pub merge: FdMerge,
}

/// The complete redirection record produced by tokenizing one line.
#[derive(Clone, Debug, PartialEq, Eq)]
pub struct Redirections {
    /// Redirection of the standard output stream.
    pub stdout: Stdout,
    /// Redirection of the standard error stream.
    pub stderr: Stderr,
    /// The fd-merge between the streams, if the line requested one.
    pub merge: FdMerge,
}

impl View for Redirections {
    type V = RedirSpec;

    open spec fn view(&self) -> RedirSpec {
        RedirSpec { stdout: self.stdout@, stderr: self.stderr@, merge: self.merge }
    }
}

impl Redirections {
    /// Combines the two per-stream records into one value, with no merge.
    pub fn from(stdout: Stdout, stderr: Stderr) -> (r: Self)
        ensures
            r@ == (RedirSpec { stdout: stdout@, stderr: stderr@, merge: FdMerge::Off }),
    {
        Redirections { stdout, stderr, merge: FdMerge::Off }
    }
}

/// The reasons tokenizing an input line can fail.
#[derive(Clone, Copy, Debug, PartialEq, Eq, Structural)]
pub enum LexErr {
    /// End of input inside a single-quoted part.
    UnmatchedSingleQuote,
    /// End of input inside a double-quoted part.
    UnmatchedDoubleQuote,
    /// End of input right after a backslash.
    UnmatchedEscape,
    /// A third `>` applied to the stream just opened, as in `>>>`.
    UnexpectedGt,
    /// An `&` where none may stand, as in `&>&` or `>&&`.
    UnexpectedAmp,
    /// A combined redirection with nothing after it, as in a trailing `&>`.
    UnexpectedNewline,
    /// The background operator `&`, which this shell does not implement.
    UnimplementedBackground,
    /// The logical AND operator `&&`, which this shell does not implement.
    UnimplementedAnd,
}

/// The diagnostic text the shell reports for each failure reason.
pub open spec fn error_text(k: LexErr) -> Seq<char> {
    match k {
        LexErr::UnmatchedSingleQuote => "unmatched single quotes\n"@,
        LexErr::UnmatchedDoubleQuote => "unmatched double quotes\n"@,
        LexErr::UnmatchedEscape => "unmatched escape character\n"@,
        LexErr::UnexpectedGt => "shell: syntax error near unexpected token `>'\n"@,
        LexErr::UnexpectedAmp => "shell: syntax error near unexpected token `&'\n"@,
        LexErr::UnexpectedNewline => "shell: syntax error near unexpected token `newline'\n"@,
        LexErr::UnimplementedBackground => "shell: unimplemented `&'\n"@,
        LexErr::UnimplementedAnd => "shell: unimplemented `&&'\n"@,
    }
}

/// Builds the error value carrying the diagnostic for the given reason.
pub fn lex_error(k: LexErr) -> (r: InvalidInputError)
    ensures
        r.reason@ == error_text(k),
{
    match k {
        LexErr::UnmatchedSingleQuote => InvalidInputError::from("unmatched single quotes\n"),
        LexErr::UnmatchedDoubleQuote => InvalidInputError::from("unmatched double quotes\n"),
        LexErr::UnmatchedEscape => InvalidInputError::from("unmatched escape character\n"),
        LexErr::UnexpectedGt => InvalidInputError::from(
            "shell: syntax error near unexpected token `>'\n",
        ),
        LexErr::UnexpectedAmp => InvalidInputError::from(
            "shell: syntax error near unexpected token `&'\n",
        ),
        LexErr::UnexpectedNewline => InvalidInputError::from(
            "shell: syntax error near unexpected token `newline'\n",
        ),
        LexErr::UnimplementedBackground => InvalidInputError::from("shell: unimplemented `&'\n"),
        LexErr::UnimplementedAnd => InvalidInputError::from("shell: unimplemented `&&'\n"),
    }
}

/// The whole state of the tokenizer between two characters: the completed
/// tokens, the word being accumulated, the redirection selector, both
/// streams' redirections, the fd-merge, and the quoting state.
#[verifier::ext_equal]
pub ghost struct LexSpec {
    pub items: Seq<Seq<char>>,
    pub item: Seq<char>,
    pub sel: RedirectionFsm,
    pub out: StreamSpec,
    pub err: StreamSpec,
    pub merge: FdMerge,
    pub state: Fsm,
}

/// The state in which tokenizing starts: everything empty, nothing redirected.
pub open spec fn spec_init() -> LexSpec {
    LexSpec {
        items: Seq::empty(),
        item: Seq::empty(),
        sel: RedirectionFsm::Inactive,
        out: StreamSpec { mode: RedirectionMode::Off, targets: Seq::empty() },
        err: StreamSpec { mode: RedirectionMode::Off, targets: Seq::empty() },
        merge: FdMerge::Off,
        state: Fsm::Unquoted,
    }
}

/// The whitespace characters at which unquoted words end.
pub open spec fn is_shell_ws(c: char) -> bool {
    c == ' ' || c == '\t' || c == '\n'
}

/// Files the pending word as a token or as a redirection target, according
/// to the selector, and clears the word buffer.
pub open spec fn spec_push_word(s: LexSpec) -> LexSpec {
    match s.sel {
        RedirectionFsm::Inactive => LexSpec {
            items: s.items.push(s.item),
            item: Seq::empty(),
            ..s
        },
        RedirectionFsm::Stdout => LexSpec {
            out: StreamSpec { targets: s.out.targets.push(s.item), ..s.out },
            item: Seq::empty(),
            ..s
        },
        RedirectionFsm::Stderr => LexSpec {
            err: StreamSpec { targets: s.err.targets.push(s.item), ..s.err },
            item: Seq::empty(),
            ..s
        },
        RedirectionFsm::Both => LexSpec {
            out: StreamSpec { targets: s.out.targets.push(s.item), ..s.out },
            err: StreamSpec { targets: s.err.targets.push(s.item), ..s.err },
            item: Seq::empty(),
            ..s
        },
    }
}

/// Effect of an unquoted whitespace character: a non-empty pending word is
/// filed and the selector is released; otherwise nothing happens.
pub open spec fn spec_ws_flush(s: LexSpec) -> LexSpec {
    if s.item.len() > 0 {
        LexSpec { sel: RedirectionFsm::Inactive, ..spec_push_word(s) }
    } else {
        s
    }
}

/// Effect of `>` seen in the unquoted state.
///
/// With no stream selected, the just-read word decides the stream: exactly
/// `1` selects standard output, exactly `2` selects standard error (the
/// digit is discarded), anything else is filed as an ordinary token and
/// standard output is selected; the chosen stream's mode becomes overwrite.
/// With a stream already selected, a second `>` promotes overwrite to
/// append, and a third is a syntax error.
pub open spec fn spec_angle(s: LexSpec) -> Result<LexSpec, LexErr> {
    match s.sel {
        RedirectionFsm::Inactive => {
            if s.item == seq!['1'] {
                Ok(LexSpec {
                    item: Seq::empty(),
                    sel: RedirectionFsm::Stdout,
                    out: StreamSpec { mode: RedirectionMode::Overwrite, ..s.out },
                    ..s
                })
            } else if s.item == seq!['2'] {
                Ok(LexSpec {
                    item: Seq::empty(),
                    sel: RedirectionFsm::Stderr,
                    err: StreamSpec { mode: RedirectionMode::Overwrite, ..s.err },
                    ..s
                })
            } else {
                let s1 = if s.item.len() > 0 {
                    LexSpec { items: s.items.push(s.item), item: Seq::empty(), ..s }
                } else {
                    s
                };
                Ok(LexSpec {
                    sel: RedirectionFsm::Stdout,
                    out: StreamSpec { mode: RedirectionMode::Overwrite, ..s1.out },
                    ..s1
                })
            }
        }
        RedirectionFsm::Stdout => {
            if s.out.mode == RedirectionMode::Overwrite {
                Ok(LexSpec { out: StreamSpec { mode: RedirectionMode::Append, ..s.out }, ..s })
            } else {
                Err(LexErr::UnexpectedGt)
            }
        }
        RedirectionFsm::Stderr => {
            if s.err.mode == RedirectionMode::Overwrite {
                Ok(LexSpec { err: StreamSpec { mode: RedirectionMode::Append, ..s.err }, ..s })
            } else {
                Err(LexErr::UnexpectedGt)
            }
        }
        RedirectionFsm::Both => {
            if s.out.mode == RedirectionMode::Overwrite && s.err.mode
                == RedirectionMode::Overwrite {
                Ok(LexSpec {
                    out: StreamSpec { mode: RedirectionMode::Append, ..s.out },
                    err: StreamSpec { mode: RedirectionMode::Append, ..s.err },
                    ..s
                })
            } else {
                Err(LexErr::UnexpectedGt)
            }
        }
    }
}

/// What `&` does to the redirection state: the new selector, the new
/// per-stream redirections, and how many further characters were consumed.
/// What `&` does: the redirection state it leaves behind, how many further
/// characters it consumed, and the failure it raises, if any. The state is
/// meaningful on failure too: it is what the scan had built when the
/// offending character was found.
#[verifier::ext_equal]
pub ghost struct AmpOutcome {
    pub sel: RedirectionFsm,
    pub out: StreamSpec,
    pub err: StreamSpec,
    pub merge: FdMerge,
    pub advance: int,
    pub fail: Option<LexErr>,
}

/// Effect of `&` seen in the unquoted state, with `i` the position of the
/// character after the `&` (at end of input a space is assumed).
///
/// A lone `&` on a word boundary is the unimplemented background operator;
/// `&&` is the unimplemented logical AND. `&>` (and `&>>`) opens a combined
/// redirection: both streams in overwrite (append) mode, the forthcoming
/// word the target of both; it must be followed by something. After `>` a
/// `&2`, and after `2>` a `&1`, is an fd-merge: the open stream joins
/// whatever the other stream's target and mode currently are — read at
/// apply time, the other stream's record stays as it is — its own mode is
/// cleared, the merge is recorded, and later target words extend the merged
/// destination. Any other `&` is dropped.
pub open spec fn spec_amp(
    item: Seq<char>,
    sel: RedirectionFsm,
    out: StreamSpec,
    err: StreamSpec,
    merge: FdMerge,
    input: Seq<char>,
    i: int,
) -> AmpOutcome {
    let unchanged = AmpOutcome { sel, out, err, merge, advance: 0, fail: None };
    let peek = if 0 <= i < input.len() {
        input[i]
    } else {
        ' '
    };
    if item.len() == 0 && is_shell_ws(peek) {
        AmpOutcome { fail: Some(LexErr::UnimplementedBackground), ..unchanged }
    } else if peek == '&' {
        if sel != RedirectionFsm::Inactive {
            AmpOutcome { fail: Some(LexErr::UnexpectedAmp), ..unchanged }
        } else {
            AmpOutcome { fail: Some(LexErr::UnimplementedAnd), ..unchanged }
        }
    } else {
        match sel {
            RedirectionFsm::Inactive => {
                if peek == '>' {
                    let opened = AmpOutcome {
                        sel: RedirectionFsm::Both,
                        out: StreamSpec { mode: RedirectionMode::Overwrite, ..out },
                        err: StreamSpec { mode: RedirectionMode::Overwrite, ..err },
                        merge,
                        advance: 1,
                        fail: None,
                    };
                    if i + 1 < input.len() {
                        if input[i + 1] == '>' {
                            let appended = AmpOutcome {
                                out: StreamSpec { mode: RedirectionMode::Append, ..out },
                                err: StreamSpec { mode: RedirectionMode::Append, ..err },
                                advance: 2,
                                ..opened
                            };
                            if i + 2 >= input.len() {
                                AmpOutcome { fail: Some(LexErr::UnexpectedNewline), ..appended }
                            } else {
                                appended
                            }
                        } else if input[i + 1] == '&' {
                            AmpOutcome { fail: Some(LexErr::UnexpectedAmp), ..opened }
                        } else {
                            opened
                        }
                    } else {
                        AmpOutcome { fail: Some(LexErr::UnexpectedNewline), ..opened }
                    }
                } else {
                    unchanged
                }
            }
            RedirectionFsm::Stdout => {
                if peek == '2' {
                    AmpOutcome {
                        sel: RedirectionFsm::Stderr,
                        out: StreamSpec { mode: RedirectionMode::Off, ..out },
                        err,
                        merge: FdMerge::StdoutIntoStderr,
                        advance: 1,
                        fail: None,
                    }
                } else {
                    unchanged
                }
            }
            RedirectionFsm::Stderr => {
                if peek == '1' {
                    AmpOutcome {
                        sel: RedirectionFsm::Stdout,
                        out,
                        err: StreamSpec { mode: RedirectionMode::Off, ..err },
                        merge: FdMerge::StderrIntoStdout,
                        advance: 1,
                        fail: None,
                    }
                } else {
                    unchanged
                }
            }
            RedirectionFsm::Both => unchanged,
        }
    }
}

/// Replaces the pending backslash at the end of the word with the escaped
/// character itself.
pub open spec fn spec_unescape(item: Seq<char>, c: char) -> Seq<char> {
    if item.len() > 0 {
        item.drop_last().push(c)
    } else {
        item.push(c)
    }
}

/// One step of the tokenizer at position `i`: the state after the step and
/// the number of characters consumed (more than one only when `&` consumes
/// lookahead).
pub open spec fn spec_step(s: LexSpec, input: Seq<char>, i: int) -> Result<(LexSpec, int), LexErr>
    recommends
        0 <= i < input.len(),
{
    let c = input[i];
    match s.state {
        Fsm::Unquoted => {
            if is_shell_ws(c) {
                Ok((spec_ws_flush(s), 1))
            } else if c == '\'' {
                Ok((LexSpec { state: Fsm::Single, sel: RedirectionFsm::Inactive, ..s }, 1))
            } else if c == '"' {
                Ok((LexSpec { state: Fsm::Double, sel: RedirectionFsm::Inactive, ..s }, 1))
            } else if c == '\\' {
                Ok((
                    LexSpec {
                        item: s.item.push('\\'),
                        state: Fsm::UnquotedEscape,
                        sel: RedirectionFsm::Inactive,
                        ..s
                    },
                    1,
                ))
            } else if c == '>' {
                match spec_angle(s) {
                    Ok(s1) => Ok((s1, 1)),
                    Err(e) => Err(e),
                }
            } else if c == '&' {
                let o = spec_amp(s.item, s.sel, s.out, s.err, s.merge, input, i + 1);
                match o.fail {
                    Some(k) => Err(k),
                    None => Ok((
                        LexSpec { sel: o.sel, out: o.out, err: o.err, merge: o.merge, ..s },
                        1 + o.advance,
                    )),
                }
            } else {
                Ok((LexSpec { item: s.item.push(c), ..s }, 1))
            }
        }
        Fsm::Single => {
            if c == '\'' {
                Ok((LexSpec { state: Fsm::Unquoted, ..s }, 1))
            } else {
                Ok((LexSpec { item: s.item.push(c), ..s }, 1))
            }
        }
        Fsm::Double => {
            if c == '"' {
                Ok((LexSpec { state: Fsm::Unquoted, ..s }, 1))
            } else if c == '\\' {
                Ok((LexSpec { item: s.item.push('\\'), state: Fsm::DoubleEscape, ..s }, 1))
            } else {
                Ok((LexSpec { item: s.item.push(c), ..s }, 1))
            }
        }
        Fsm::UnquotedEscape => {
            Ok((LexSpec { item: spec_unescape(s.item, c), state: Fsm::Unquoted, ..s }, 1))
        }
        Fsm::DoubleEscape => {
            if c == '"' || c == '\\' || c == '$' || c == '`' || c == '\n' {
                Ok((LexSpec { item: spec_unescape(s.item, c), state: Fsm::Double, ..s }, 1))
            } else {
                Ok((LexSpec { item: s.item.push(c), state: Fsm::Double, ..s }, 1))
            }
        }
    }
}

/// Runs the tokenizer from position `i` to the end of the input.
///
/// Each step consumes at least one character, so the run ends.
pub open spec fn spec_run(s: LexSpec, input: Seq<char>, i: int) -> Result<LexSpec, LexErr>
    decreases input.len() - i,
{
    if i < 0 || i >= input.len() {
        Ok(s)
    } else {
        match spec_step(s, input, i) {
            Ok((s1, n)) => {
                let j = if i + 1 <= i + n <= input.len() {
                    i + n
                } else {
                    i + 1
                };
                spec_run(s1, input, j)
            }
            Err(e) => Err(e),
        }
    }
}

/// What tokenizing one line yields: the tokens and both streams' redirections.
#[verifier::ext_equal]
pub ghost struct TokensSpec {
    pub items: Seq<Seq<char>>,
    pub out: StreamSpec,
    pub err: StreamSpec,
    pub merge: FdMerge,
}

/// End of input: a non-empty pending word is filed, then the quoting state
/// decides between success and the matching unmatched-quote or
/// unmatched-escape error.
pub open spec fn spec_finalize(s: LexSpec) -> Result<TokensSpec, LexErr> {
    let s1 = if s.item.len() > 0 {
        spec_push_word(s)
    } else {
        s
    };
    match s.state {
        Fsm::Unquoted => Ok(TokensSpec { items: s1.items, out: s1.out, err: s1.err, merge: s1.merge }),
        Fsm::Single => Err(LexErr::UnmatchedSingleQuote),
        Fsm::Double => Err(LexErr::UnmatchedDoubleQuote),
        Fsm::UnquotedEscape => Err(LexErr::UnmatchedEscape),
        Fsm::DoubleEscape => Err(LexErr::UnmatchedEscape),
    }
}

/// The meaning of tokenizing one line, stated over the character sequence.
pub open spec fn spec_tokenize(input: Seq<char>) -> Result<TokensSpec, LexErr> {
    match spec_run(spec_init(), input, 0) {
        Ok(s) => spec_finalize(s),
        Err(e) => Err(e),
    }
}

/// The characters of the string, in order, as a vector.
fn str_chars(s: &str) -> (r: Vec<char>)
    ensures
        r@ == s@,
{
    let n = s.unicode_len();
    let mut r: Vec<char> = Vec::new();
    let mut i: usize = 0;
    while i < n
        invariant
            n == s@.len(),
            i <= n,
            r@ == s@.take(i as int),
        decreases n - i,
    {
        r.push(s.get_char(i));
        i += 1;
        proof {
            assert(r@ =~= s@.take(i as int));
        }
    }
    proof {
        assert(s@.take(n as int) =~= s@);
    }
    r
}

/// Relies on String's FromIterator over char: collecting characters yields
/// the string of exactly those characters, in order.
#[verifier::external_body]
fn chars_to_string(v: &Vec<char>) -> (r: String)
    ensures
        r@ == v@,
{
    v.iter().collect()
}

/// A successful step at `i` carries the run from `i` to the step's result.
proof fn lemma_run_step(s: LexSpec, input: Seq<char>, i: int, s1: LexSpec, n: int)
    requires
        0 <= i < input.len(),
        spec_step(s, input, i) == Ok::<(LexSpec, int), LexErr>((s1, n)),
        1 <= n,
        i + n <= input.len(),
    ensures
        spec_run(s, input, i) == spec_run(s1, input, i + n),
{
}

/// A failing step at `i` makes the whole run from `i` fail the same way.
proof fn lemma_run_err(s: LexSpec, input: Seq<char>, i: int, k: LexErr)
    requires
        0 <= i < input.len(),
        spec_step(s, input, i) == Err::<(LexSpec, int), LexErr>(k),
    ensures
        spec_run(s, input, i) == Err::<LexSpec, LexErr>(k),
{
}

/// Handles `>` received in the unquoted state, as [`spec_angle`] says: it
/// selects the redirected stream from the just-read word and updates that
/// stream's mode, or reports the syntax error for a `>` too many. The
/// target path itself is parsed later, outside of this function.
pub fn handle_closing_angle_bracket_unquoted(
    items: &mut Vec<String>,
    item: &mut Vec<char>,
    redirection: &mut RedirectionFsm,
    stdout: &mut Stdout,
    stderr: &mut Stderr,
) -> (r: Result<(), InvalidInputError>)
    ensures
        ({
            let pre = (LexSpec {
                items: old(items).deep_view(),
                item: old(item)@,
                sel: *old(redirection),
                out: old(stdout)@,
                err: old(stderr)@,
                merge: FdMerge::Off,
                state: Fsm::Unquoted,
            });
            let post = (LexSpec {
                items: final(items).deep_view(),
                item: final(item)@,
                sel: *final(redirection),
                out: final(stdout)@,
                err: final(stderr)@,
                merge: FdMerge::Off,
                state: Fsm::Unquoted,
            });
            match spec_angle(pre) {
                Ok(s1) => r is Ok && post == s1,
                Err(k) => r is Err && r->Err_0.reason@ == error_text(k) && post == pre,
            }
        }),
{
    let ghost pre = (LexSpec {
        items: items.deep_view(),
        item: item@,
        sel: *redirection,
        out: stdout@,
        err: stderr@,
        merge: FdMerge::Off,
        state: Fsm::Unquoted,
    });
    match *redirection {
        RedirectionFsm::Inactive => {
            if item.len() == 1 && item[0] == '1' {
                proof {
                    assert(pre.item =~= seq!['1']);
                }
                item.clear();
                *redirection = RedirectionFsm::Stdout;
                stdout.kind = RedirectionMode::Overwrite;
            } else if item.len() == 1 && item[0] == '2' {
                proof {
                    assert(pre.item =~= seq!['2']);
                }
                item.clear();
                *redirection = RedirectionFsm::Stderr;
                stderr.kind = RedirectionMode::Overwrite;
            } else {
                proof {
                    if pre.item == seq!['1'] {
                        assert(pre.item.len() == 1 && pre.item[0] == '1');
                    }
                    if pre.item == seq!['2'] {
                        assert(pre.item.len() == 1 && pre.item[0] == '2');
                    }
                }
                if item.len() > 0 {
                    let w = chars_to_string(item);
                    items.push(w);
                    item.clear();
                    proof {
                        assert(items.deep_view() =~= pre.items.push(pre.item));
                    }
                }
                *redirection = RedirectionFsm::Stdout;
                stdout.kind = RedirectionMode::Overwrite;
            }
            proof {
                assert((LexSpec {
                    items: items.deep_view(),
                    item: item@,
                    sel: *redirection,
                    out: stdout@,
                    err: stderr@,
                    merge: FdMerge::Off,
                    state: Fsm::Unquoted,
                }) =~= spec_angle(pre)->Ok_0);
            }
            Ok(())
        }
        RedirectionFsm::Stdout => {
            if stdout.kind == RedirectionMode::Overwrite {
                stdout.kind = RedirectionMode::Append;
                proof {
                    assert((LexSpec {
                        items: items.deep_view(),
                        item: item@,
                        sel: *redirection,
                        out: stdout@,
                        err: stderr@,
                        merge: FdMerge::Off,
                        state: Fsm::Unquoted,
                    }) =~= spec_angle(pre)->Ok_0);
                }
                Ok(())
            } else {
                Err(lex_error(LexErr::UnexpectedGt))
            }
        }
        RedirectionFsm::Stderr => {
            if stderr.kind == RedirectionMode::Overwrite {
                stderr.kind = RedirectionMode::Append;
                proof {
                    assert((LexSpec {
                        items: items.deep_view(),
                        item: item@,
                        sel: *redirection,
                        out: stdout@,
                        err: stderr@,
                        merge: FdMerge::Off,
                        state: Fsm::Unquoted,
                    }) =~= spec_angle(pre)->Ok_0);
                }
                Ok(())
            } else {
                Err(lex_error(LexErr::UnexpectedGt))
            }
        }
        RedirectionFsm::Both => {
            if stdout.kind == RedirectionMode::Overwrite && stderr.kind
                == RedirectionMode::Overwrite {
                stdout.kind = RedirectionMode::Append;
                stderr.kind = RedirectionMode::Append;
                proof {
                    assert((LexSpec {
                        items: items.deep_view(),
                        item: item@,
                        sel: *redirection,
                        out: stdout@,
                        err: stderr@,
                        merge: FdMerge::Off,
                        state: Fsm::Unquoted,
                    }) =~= spec_angle(pre)->Ok_0);
                }
                Ok(())
            } else {
                Err(lex_error(LexErr::UnexpectedGt))
            }
        }
    }
}

/// Handles `&` received in the unquoted state, as [`spec_amp`] says.
///
/// `input` is the whole line and `i` the cursor just past the `&`; the
/// function advances `i` over the lookahead it consumes. The token list is
/// untouched: `&` opens a combined redirection, records an fd-merge, is
/// dropped, or fails — and on failure it leaves behind exactly the state
/// the scan had built, as the outcome of [`spec_amp`] states.
pub fn handle_ampersand_unquoted(
    input: &Vec<char>,
    i: &mut usize,
    item: &Vec<char>,
    redirection: &mut RedirectionFsm,
    stdout: &mut Stdout,
    stderr: &mut Stderr,
    merge: &mut FdMerge,
) -> (r: Result<(), InvalidInputError>)
    ensures
        ({
            let o = spec_amp(
                item@,
                *old(redirection),
                old(stdout)@,
                old(stderr)@,
                *old(merge),
                input@,
                *old(i) as int,
            );
            *final(redirection) == o.sel && final(stdout)@ == o.out && final(stderr)@ == o.err
                && *final(merge) == o.merge && *final(i) == *old(i) + o.advance && (match o.fail {
                Some(k) => r is Err && r->Err_0.reason@ == error_text(k),
                None => r is Ok,
            })
        }),
        *old(i) <= input@.len() ==> *final(i) <= input@.len(),
{
    let n = input.len();
    let peek: char = if *i < n {
        input[*i]
    } else {
        ' '
    };
    if item.len() == 0 && (peek == ' ' || peek == '\t' || peek == '\n') {
        return Err(lex_error(LexErr::UnimplementedBackground));
    }
    if peek == '&' {
        if *redirection != RedirectionFsm::Inactive {
            return Err(lex_error(LexErr::UnexpectedAmp));
        } else {
            return Err(lex_error(LexErr::UnimplementedAnd));
        }
    }
    match *redirection {
        RedirectionFsm::Inactive => {
            if peek == '>' {
                *redirection = RedirectionFsm::Both;
                stdout.kind = RedirectionMode::Overwrite;
                stderr.kind = RedirectionMode::Overwrite;
                *i += 1;
                if *i < n {
                    let c2 = input[*i];
                    if c2 == '>' {
                        stdout.kind = RedirectionMode::Append;
                        stderr.kind = RedirectionMode::Append;
                        *i += 1;
                        if *i >= n {
                            return Err(lex_error(LexErr::UnexpectedNewline));
                        }
                    } else if c2 == '&' {
                        return Err(lex_error(LexErr::UnexpectedAmp));
                    }
                } else {
                    return Err(lex_error(LexErr::UnexpectedNewline));
                }
            }
        }
        RedirectionFsm::Stdout => {
            if peek == '2' {
                *redirection = RedirectionFsm::Stderr;
                stdout.kind = RedirectionMode::Off;
                *merge = FdMerge::StdoutIntoStderr;
                *i += 1;
            }
        }
        RedirectionFsm::Stderr => {
            if peek == '1' {
                *redirection = RedirectionFsm::Stdout;
                stderr.kind = RedirectionMode::Off;
                *merge = FdMerge::StderrIntoStdout;
                *i += 1;
            }
        }
        RedirectionFsm::Both => {},
    }
    Ok(())
}

/// Tokenizes one line of shell input.
///
/// On success the result holds the command and its arguments, in order,
/// together with the redirections of both output streams; on failure it
/// holds the diagnostic for the first problem found. Both cases are exactly
/// what [`spec_tokenize`] says for the line.
pub fn parse_input(input: &str) -> (r: Result<(Vec<String>, Redirections), InvalidInputError>)
    ensures
        ({
            match spec_tokenize(input@) {
                Ok(t) => r is Ok && r->Ok_0.0.deep_view() == t.items && r->Ok_0.1@ == (RedirSpec {
                    stdout: t.out,
                    stderr: t.err,
                    merge: t.merge,
                }),
                Err(k) => r is Err && r->Err_0.reason@ == error_text(k),
            }
        }),
{
    let chars = str_chars(input);
    let n = chars.len();
    let mut items: Vec<String> = Vec::new();
    let mut item: Vec<char> = Vec::new();
    let mut redirection = RedirectionFsm::Inactive;
    let mut stdout = Stdout::new();
    let mut stderr = Stderr::new();
    let mut merge = FdMerge::Off;
    let mut state = Fsm::Unquoted;
    let mut i: usize = 0;

    proof {
        assert((LexSpec {
            items: items.deep_view(),
            item: item@,
            sel: redirection,
            out: stdout@,
            err: stderr@,
            merge: merge,
            state: state,
        }) =~= spec_init());
    }

    while i < n
        invariant
            n == chars@.len(),
            chars@ == input@,
            i <= n,
            spec_run(
                (LexSpec {
                    items: items.deep_view(),
                    item: item@,
                    sel: redirection,
                    out: stdout@,
                    err: stderr@,
                    merge: merge,
                    state: state,
                }),
                input@,
                i as int,
            ) == spec_run(spec_init(), input@, 0),
        decreases n - i,
    {
        let ghost pre = (LexSpec {
            items: items.deep_view(),
            item: item@,
            sel: redirection,
            out: stdout@,
            err: stderr@,
            merge: merge,
            state: state,
        });
        let ghost i0 = i as int;
        let c = chars[i];
        match state {
            Fsm::Unquoted => {
                if c == ' ' || c == '\t' || c == '\n' {
                    if item.len() > 0 {
                        let w = chars_to_string(&item);
                        match redirection {
                            RedirectionFsm::Inactive => items.push(w),
                            RedirectionFsm::Stdout => stdout.add_path(w),
                            RedirectionFsm::Stderr => stderr.add_path(w),
                            RedirectionFsm::Both => {
                                stdout.add_path(w.clone());
                                stderr.add_path(w);
                            }
                        }
                        item.clear();
                        redirection = RedirectionFsm::Inactive;
                    }
                    i += 1;
                    proof {
                        let post = (LexSpec {
                            items: items.deep_view(),
                            item: item@,
                            sel: redirection,
                            out: stdout@,
                            err: stderr@,
                            merge: merge,
                            state: state,
                        });
                        if pre.item.len() > 0 && pre.sel is Inactive {
                            assert(items.deep_view() =~= pre.items.push(pre.item));
                        }
                        assert(post =~= spec_ws_flush(pre));
                        assert(spec_step(pre, input@, i0) == Ok::<(LexSpec, int), LexErr>((
                            spec_ws_flush(pre),
                            1,
                        )));
                        lemma_run_step(pre, input@, i0, spec_ws_flush(pre), 1);
                    }
                } else if c == '\'' {
                    state = Fsm::Single;
                    redirection = RedirectionFsm::Inactive;
                    i += 1;
                    proof {
                        lemma_run_step(
                            pre,
                            input@,
                            i0,
                            (LexSpec { state: Fsm::Single, sel: RedirectionFsm::Inactive, ..pre }),
                            1,
                        );
                    }
                } else if c == '"' {
                    state = Fsm::Double;
                    redirection = RedirectionFsm::Inactive;
                    i += 1;
                    proof {
                        lemma_run_step(
                            pre,
                            input@,
                            i0,
                            (LexSpec { state: Fsm::Double, sel: RedirectionFsm::Inactive, ..pre }),
                            1,
                        );
                    }
                } else if c == '\\' {
                    item.push('\\');
                    state = Fsm::UnquotedEscape;
                    redirection = RedirectionFsm::Inactive;
                    i += 1;
                    proof {
                        lemma_run_step(
                            pre,
                            input@,
                            i0,
                            (LexSpec {
                                item: pre.item.push('\\'),
                                state: Fsm::UnquotedEscape,
                                sel: RedirectionFsm::Inactive,
                                ..pre
                            }),
                            1,
                        );
                    }
                } else if c == '>' {
                    let res = handle_closing_angle_bracket_unquoted(
                        &mut items,
                        &mut item,
                        &mut redirection,
                        &mut stdout,
                        &mut stderr,
                    );
                    match res {
                        Ok(()) => {
                            i += 1;
                            proof {
                                let post = (LexSpec {
                                    items: items.deep_view(),
                                    item: item@,
                                    sel: redirection,
                                    out: stdout@,
                                    err: stderr@,
                                    merge: merge,
                                    state: state,
                                });
                                assert(spec_step(pre, input@, i0) == Ok::<
                                    (LexSpec, int),
                                    LexErr,
                                >((post, 1)));
                                lemma_run_step(pre, input@, i0, post, 1);
                            }
                        }
                        Err(e) => {
                            proof {
                                let k = spec_angle(pre)->Err_0;
                                assert(spec_step(pre, input@, i0) == Err::<
                                    (LexSpec, int),
                                    LexErr,
                                >(k));
                                lemma_run_err(pre, input@, i0, k);
                            }
                            return Err(e);
                        }
                    }
                } else if c == '&' {
                    i += 1;
                    let res = handle_ampersand_unquoted(
                        &chars,
                        &mut i,
                        &item,
                        &mut redirection,
                        &mut stdout,
                        &mut stderr,
                        &mut merge,
                    );
                    match res {
                        Ok(()) => {
                            proof {
                                let o = spec_amp(
                                    pre.item,
                                    pre.sel,
                                    pre.out,
                                    pre.err,
                                    pre.merge,
                                    input@,
                                    i0 + 1,
                                );
                                let post = (LexSpec {
                                    items: items.deep_view(),
                                    item: item@,
                                    sel: redirection,
                                    out: stdout@,
                                    err: stderr@,
                                    merge: merge,
                                    state: state,
                                });
                                assert(post =~= (LexSpec {
                                    sel: o.sel,
                                    out: o.out,
                                    err: o.err,
                                    merge: o.merge,
                                    ..pre
                                }));
                                assert(spec_step(pre, input@, i0) == Ok::<
                                    (LexSpec, int),
                                    LexErr,
                                >((post, 1 + o.advance)));
                                lemma_run_step(pre, input@, i0, post, 1 + o.advance);
                            }
                        }
                        Err(e) => {
                            proof {
                                let k = spec_amp(
                                    pre.item,
                                    pre.sel,
                                    pre.out,
                                    pre.err,
                                    pre.merge,
                                    input@,
                                    i0 + 1,
                                ).fail->0;
                                assert(spec_step(pre, input@, i0) == Err::<
                                    (LexSpec, int),
                                    LexErr,
                                >(k));
                                lemma_run_err(pre, input@, i0, k);
                            }
                            return Err(e);
                        }
                    }
                } else {
                    item.push(c);
                    i += 1;
                    proof {
                        lemma_run_step(
                            pre,
                            input@,
                            i0,
                            (LexSpec { item: pre.item.push(c), ..pre }),
                            1,
                        );
                    }
                }
            }
            Fsm::Single => {
                if c == '\'' {
                    state = Fsm::Unquoted;
                    i += 1;
                    proof {
                        lemma_run_step(pre, input@, i0, (LexSpec { state: Fsm::Unquoted, ..pre }), 1);
                    }
                } else {
                    item.push(c);
                    i += 1;
                    proof {
                        lemma_run_step(
                            pre,
                            input@,
                            i0,
                            (LexSpec { item: pre.item.push(c), ..pre }),
                            1,
                        );
                    }
                }
            }
            Fsm::Double => {
                if c == '"' {
                    state = Fsm::Unquoted;
                    i += 1;
                    proof {
                        lemma_run_step(pre, input@, i0, (LexSpec { state: Fsm::Unquoted, ..pre }), 1);
                    }
                } else if c == '\\' {
                    item.push('\\');
                    state = Fsm::DoubleEscape;
                    i += 1;
                    proof {
                        lemma_run_step(
                            pre,
                            input@,
                            i0,
                            (LexSpec { item: pre.item.push('\\'), state: Fsm::DoubleEscape, ..pre }),
                            1,
                        );
                    }
                } else {
                    item.push(c);
                    i += 1;
                    proof {
                        lemma_run_step(
                            pre,
                            input@,
                            i0,
                            (LexSpec { item: pre.item.push(c), ..pre }),
                            1,
                        );
                    }
                }
            }
            Fsm::UnquotedEscape => {
                item.pop();
                item.push(c);
                state = Fsm::Unquoted;
                i += 1;
                proof {
                    assert(item@ =~= spec_unescape(pre.item, c));
                    lemma_run_step(
                        pre,
                        input@,
                        i0,
                        (LexSpec { item: spec_unescape(pre.item, c), state: Fsm::Unquoted, ..pre }),
                        1,
                    );
                }
            }
            Fsm::DoubleEscape => {
                if c == '"' || c == '\\' || c == '$' || c == '`' || c == '\n' {
                    item.pop();
                    item.push(c);
                    state = Fsm::Double;
                    i += 1;
                    proof {
                        assert(item@ =~= spec_unescape(pre.item, c));
                        lemma_run_step(
                            pre,
                            input@,
                            i0,
                            (LexSpec {
                                item: spec_unescape(pre.item, c),
                                state: Fsm::Double,
                                ..pre
                            }),
                            1,
                        );
                    }
                } else {
                    item.push(c);
                    state = Fsm::Double;
                    i += 1;
                    proof {
                        lemma_run_step(
                            pre,
                            input@,
                            i0,
                            (LexSpec { item: pre.item.push(c), state: Fsm::Double, ..pre }),
                            1,
                        );
                    }
                }
            }
        }
    }

    let ghost end = (LexSpec {
        items: items.deep_view(),
        item: item@,
        sel: redirection,
        out: stdout@,
        err: stderr@,
        merge: merge,
        state: state,
    });
    proof {
        assert(spec_run(end, input@, i as int) == Ok::<LexSpec, LexErr>(end));
        assert(spec_tokenize(input@) == spec_finalize(end));
    }

    if item.len() > 0 {
        let w = chars_to_string(&item);
        match redirection {
            RedirectionFsm::Inactive => items.push(w),
            RedirectionFsm::Stdout => stdout.add_path(w),
            RedirectionFsm::Stderr => stderr.add_path(w),
            RedirectionFsm::Both => {
                stdout.add_path(w.clone());
                stderr.add_path(w);
            }
        }
        proof {
            if end.sel is Inactive {
                assert(items.deep_view() =~= end.items.push(end.item));
            }
        }
    }
    proof {
        let fin = spec_push_word(end);
        if end.item.len() > 0 {
            assert(items.deep_view() == fin.items && stdout@ == fin.out && stderr@ == fin.err);
        }
    }

    let redirections = Redirections { stdout, stderr, merge };
    match state {
        Fsm::Unquoted => Ok((items, redirections)),
        Fsm::Single => Err(lex_error(LexErr::UnmatchedSingleQuote)),
        Fsm::Double => Err(lex_error(LexErr::UnmatchedDoubleQuote)),
        Fsm::UnquotedEscape => Err(lex_error(LexErr::UnmatchedEscape)),
        Fsm::DoubleEscape => Err(lex_error(LexErr::UnmatchedEscape)),
    }
}

} // verus!
