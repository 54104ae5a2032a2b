//! Command output and the builtin handlers that are pure computations.
//!
//! The builtins that touch the process environment (`cd`, `exit`, `pwd`)
//! and the search for external programs live outside this crate; they hand
//! the functions here plain values and take an [`Output`] back.

use vstd::prelude::*;
use vstd::slice::slice_to_vec;
use vstd::string::StrSliceExecFns;
use vstd::string::StringExecFns;
use vstd::string::StringSliceAdditionalSpecFns;
use vstd::utf8::encode_utf8;

verus! {

/// What one command wrote: the bytes of its two output streams.
#[verifier::ext_equal]
pub ghost struct OutputSpec {
    pub stdout: Seq<u8>,
    pub stderr: Seq<u8>,
}

/// The output of a command: raw byte buffers for standard output and
/// standard error. Commands may emit bytes that are not valid text.
#[derive(Debug)]
pub struct Output {
    /// The data that the command wrote to `stdout`.
    stdout: Vec<u8>,
    /// The data that the command wrote to `stderr`.
    stderr: Vec<u8>,
}

impl View for Output {
    type V = OutputSpec;

    closed spec fn view(&self) -> OutputSpec {
        OutputSpec { stdout: self.stdout@, stderr: self.stderr@ }
    }
}

impl Output {
    /// Builds an output value from the two streams' bytes.
    pub fn new(stdout: &[u8], stderr: &[u8]) -> (r: Self)
        ensures
            r@ == (OutputSpec { stdout: stdout@, stderr: stderr@ }),
    {
        Output { stdout: slice_to_vec(stdout), stderr: slice_to_vec(stderr) }
    }

    /// Hands the `stdout` and `stderr` data out for reading.
    pub fn get(self) -> (r: (Vec<u8>, Vec<u8>))
        ensures
            r.0@ == self@.stdout,
            r.1@ == self@.stderr,
    {
        (self.stdout, self.stderr)
    }
}

/// The arguments joined by single spaces.
pub open spec fn spec_join_spaces(args: Seq<Seq<char>>) -> Seq<char>
    decreases args.len(),
{
    if args.len() == 0 {
        Seq::empty()
    } else if args.len() == 1 {
        args[0]
    } else {
        spec_join_spaces(args.drop_last()) + seq![' '] + args.last()
    }
}

/// The characters `echo` writes: its arguments joined by single spaces,
/// with a newline appended.
pub open spec fn spec_echo_chars(args: Seq<Seq<char>>) -> Seq<char> {
    spec_join_spaces(args).push('\n')
}

/// Handler for the `echo` builtin: writes the arguments joined by single
/// spaces, followed by a newline, to standard output; standard error stays
/// empty.
pub fn handle_echo(args: &[&str]) -> (r: Output)
    ensures
        r@ == (OutputSpec {
            stdout: encode_utf8(spec_echo_chars(args.deep_view())),
            stderr: Seq::empty(),
        }),
{
    let mut line = String::new();
    let n = args.len();
    let mut k: usize = 0;
    while k < n
        invariant
            n == args@.len(),
            k <= n,
            line@ == spec_join_spaces(args.deep_view().take(k as int)),
        decreases n - k,
    {
        if k > 0 {
            line.append(" ");
        }
        line.append(args[k]);
        k += 1;
        proof {
            reveal_strlit(" ");
            let a = args.deep_view();
            assert(a.take(k as int).drop_last() =~= a.take(k as int - 1));
            assert(a.take(k as int).last() == a[k as int - 1]);
            if k > 1 {
                assert(" "@ =~= seq![' ']);
                assert(line@ =~= spec_join_spaces(a.take(k as int)));
            } else {
                assert(line@ =~= a[0]);
                assert(line@ =~= spec_join_spaces(a.take(1)));
            }
        }
    }
    line.append("\n");
    proof {
        reveal_strlit("\n");
        let a = args.deep_view();
        assert(a.take(n as int) =~= a);
        assert("\n"@ =~= seq!['\n']);
        assert(line@ =~= spec_echo_chars(a));
    }
    let bytes = line.as_str().as_bytes_vec();
    let empty: Vec<u8> = Vec::new();
    Output { stdout: bytes, stderr: empty }
}

/// Relies on str's PartialEq: two string slices are equal exactly when
/// their character sequences are.
#[verifier::external_body]
fn str_eq(a: &str, b: &str) -> (r: bool)
    ensures
        r == (a@ == b@),
{
    a == b
}

/// The names of the shell's builtin commands.
pub open spec fn spec_is_builtin(name: Seq<char>) -> bool {
    ||| name == "cd"@
    ||| name == "echo"@
    ||| name == "exit"@
    ||| name == "pwd"@
    ||| name == "type"@
}

/// True exactly when the name is one of the shell's builtin commands.
pub fn is_builtin(name: &str) -> (r: bool)
    ensures
        r == spec_is_builtin(name@),
{
    str_eq(name, "cd") || str_eq(name, "echo") || str_eq(name, "exit") || str_eq(name, "pwd")
        || str_eq(name, "type")
}

/// What the `type` builtin reports for the given arguments, `found` being
/// the full path of the executable of that name on the search path, if any.
pub open spec fn spec_type_output(args: Seq<Seq<char>>, found: Option<Seq<char>>) -> OutputSpec {
    if args.len() == 0 {
        OutputSpec { stdout: encode_utf8("\n"@), stderr: Seq::empty() }
    } else {
        let name = args[0];
        if spec_is_builtin(name) {
            OutputSpec { stdout: encode_utf8(name + " is a shell builtin\n"@), stderr: Seq::empty() }
        } else {
            match found {
                Some(p) => OutputSpec {
                    stdout: encode_utf8(name + " is "@ + p + "\n"@),
                    stderr: Seq::empty(),
                },
                None => OutputSpec {
                    stdout: Seq::empty(),
                    stderr: encode_utf8(name + ": not found\n"@),
                },
            }
        }
    }
}

/// Handler for the `type` builtin.
///
/// Identifies the first argument as a shell builtin or as the executable
/// file at `found`; a command that exists both as a builtin and as a file
/// is identified as the builtin. The search over the `PATH` directories is
/// a collaborator's job: its result is handed in as `found`, the full path
/// of the file, if one exists.
pub fn handle_type(arg: &[&str], found: Option<&str>) -> (r: Output)
    ensures
        r@ == spec_type_output(
            arg.deep_view(),
            match found {
                Some(p) => Some(p@),
                None => None,
            },
        ),
{
    if arg.len() == 0 {
        let mut line = String::new();
        line.append("\n");
        let bytes = line.as_str().as_bytes_vec();
        let empty: Vec<u8> = Vec::new();
        proof {
            assert(line@ =~= "\n"@);
        }
        Output { stdout: bytes, stderr: empty }
    } else {
        let name = arg[0];
        if is_builtin(name) {
            let mut line = String::from_str(name);
            line.append(" is a shell builtin\n");
            let bytes = line.as_str().as_bytes_vec();
            let empty: Vec<u8> = Vec::new();
            proof {
                assert(line@ =~= name@ + " is a shell builtin\n"@);
            }
            Output { stdout: bytes, stderr: empty }
        } else {
            match found {
                Some(p) => {
                    let mut line = String::from_str(name);
                    line.append(" is ");
                    line.append(p);
                    line.append("\n");
                    let bytes = line.as_str().as_bytes_vec();
                    let empty: Vec<u8> = Vec::new();
                    proof {
                        assert(line@ =~= name@ + " is "@ + p@ + "\n"@);
                    }
                    Output { stdout: bytes, stderr: empty }
                }
                None => {
                    let mut line = String::from_str(name);
                    line.append(": not found\n");
                    let bytes = line.as_str().as_bytes_vec();
                    let empty: Vec<u8> = Vec::new();
                    proof {
                        assert(line@ =~= name@ + ": not found\n"@);
                    }
                    Output { stdout: empty, stderr: bytes }
                }
            }
        }
    }
}

} // verus!
