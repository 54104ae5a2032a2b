//! The redirection engine: deciding where output bytes go.
//!
//! Given the [`Redirections`] parsed from a line and the [`Output`] a
//! command produced, [`handle_redirections`] computes the complete write
//! plan: which files must be created and truncated, which file receives
//! which bytes in which mode, and what is left for the console. Performing
//! the file writes is a collaborator's job; everything decided here is
//! stated by [`spec_plan`].

use crate::cmd::Output;
use crate::parse::{FdMerge, RedirSpec, RedirectionMode, Redirections, StreamSpec};
use vstd::prelude::*;

verus! {

/// One file action of a redirection plan.
#[verifier::ext_equal]
pub ghost struct FileWriteSpec {
    pub path: Seq<char>,
    pub append: bool,
    pub data: Seq<u8>,
}

/// One file action: create the file and write `data` to it, truncating
/// first unless `append` holds. A truncation alone is a write of no bytes.
#[derive(Debug, PartialEq, Eq)]
pub struct FileWrite {
    pub path: String,
    pub append: bool,
    pub data: Vec<u8>,
}

impl View for FileWrite {
    type V = FileWriteSpec;

    open spec fn view(&self) -> FileWriteSpec {
        FileWriteSpec { path: self.path@, append: self.append, data: self.data@ }
    }
}

/// The views of a sequence of file actions.
pub open spec fn files_view(s: Seq<FileWrite>) -> Seq<FileWriteSpec> {
    Seq::new(s.len(), |i: int| s[i]@)
}

/// Everything the shell must do with one command's output: the file
/// actions, in order, and the bytes for the console's two streams.
#[verifier::ext_equal]
pub ghost struct PlanSpec {
    pub files: Seq<FileWriteSpec>,
    pub console_stdout: Seq<u8>,
    pub console_stderr: Seq<u8>,
}

/// The write plan for one command's output.
#[derive(Debug, PartialEq, Eq)]
pub struct RedirectionPlan {
    /// File actions to perform, in order.
    pub files: Vec<FileWrite>,
    /// Bytes to write to the process's own standard output.
    pub console_stdout: Vec<u8>,
    /// Bytes to write to the process's own standard error.
    pub console_stderr: Vec<u8>,
}

impl View for RedirectionPlan {
    type V = PlanSpec;

    open spec fn view(&self) -> PlanSpec {
        PlanSpec {
            files: files_view(self.files@),
            console_stdout: self.console_stdout@,
            console_stderr: self.console_stderr@,
        }
    }
}

/// A stream falls back to the console when it is redirected but no usable
/// target was named: no target at all, or a trailing redirection operator
/// that left the last target empty.
pub open spec fn spec_falls_back(s: StreamSpec) -> bool {
    s.mode != RedirectionMode::Off && (s.targets.len() == 0 || s.targets.last().len() == 0)
}

/// All targets of a chain but the last one.
pub open spec fn spec_front(targets: Seq<Seq<char>>) -> Seq<Seq<char>> {
    if targets.len() > 0 {
        targets.drop_last()
    } else {
        targets
    }
}

/// Create-and-truncate actions for the named targets, in order, skipping
/// empty names.
pub open spec fn spec_touches(targets: Seq<Seq<char>>) -> Seq<FileWriteSpec>
    decreases targets.len(),
{
    if targets.len() == 0 {
        Seq::empty()
    } else {
        spec_touches(targets.drop_last()) + (if targets.last().len() > 0 {
            seq![FileWriteSpec { path: targets.last(), append: false, data: Seq::empty() }]
        } else {
            Seq::empty()
        })
    }
}

/// The mode a stream is actually applied with: a redirected stream whose
/// chain names no usable target — none at all, or an empty last one — falls
/// back to the console.
pub open spec fn spec_effective_mode(s: StreamSpec) -> RedirectionMode {
    if spec_falls_back(s) {
        RedirectionMode::Off
    } else {
        s.mode
    }
}

/// All file actions of one applied stream: every named target of the chain
/// but the last is created and truncated, then the last target receives the
/// bytes, appending when `append` holds. A stream that is not applied to a
/// file has no actions.
pub open spec fn spec_stream_files(
    redirected: bool,
    append: bool,
    targets: Seq<Seq<char>>,
    data: Seq<u8>,
) -> Seq<FileWriteSpec> {
    if !redirected {
        Seq::empty()
    } else {
        spec_touches(spec_front(targets)) + (if targets.len() > 0 {
            seq![FileWriteSpec { path: targets.last(), append, data }]
        } else {
            Seq::empty()
        })
    }
}

/// The whole plan for one command's output.
///
/// Each stream is applied with its effective mode: a redirected stream with
/// no usable target falls back to its own console. A recorded fd-merge —
/// honoured while the donor stream's own mode is still clear — sends the
/// donor's bytes to the surviving stream's destination, after that stream's
/// own bytes, and the donor itself prints and writes nothing. A stream
/// applied to a file gets the actions of [`spec_stream_files`] over its own
/// targets; when both streams end at the same last target, as a combined
/// `&>` redirection does, the stderr write appends so that both byte
/// buffers survive, standard output's first. A stream whose effective mode
/// is off sends its bytes to its own console stream.
pub open spec fn spec_plan(r: RedirSpec, out_data: Seq<u8>, err_data: Seq<u8>) -> PlanSpec {
    let out_mode = spec_effective_mode(r.stdout);
    let err_mode = spec_effective_mode(r.stderr);
    let out_merged_away = r.merge == FdMerge::StdoutIntoStderr && r.stdout.mode
        == RedirectionMode::Off;
    let err_merged_away = r.merge == FdMerge::StderrIntoStdout && r.stderr.mode
        == RedirectionMode::Off;
    let out_dest_data = (if out_merged_away {
        Seq::<u8>::empty()
    } else {
        out_data
    }) + (if err_merged_away {
        err_data
    } else {
        Seq::<u8>::empty()
    });
    let err_dest_data = (if out_merged_away {
        out_data
    } else {
        Seq::<u8>::empty()
    }) + (if err_merged_away {
        Seq::<u8>::empty()
    } else {
        err_data
    });
    let shared_last = out_mode != RedirectionMode::Off && err_mode != RedirectionMode::Off
        && r.stdout.targets.len() > 0 && r.stderr.targets.len() > 0 && r.stdout.targets.last()
        == r.stderr.targets.last();
    PlanSpec {
        files: spec_stream_files(
            out_mode != RedirectionMode::Off,
            out_mode == RedirectionMode::Append,
            r.stdout.targets,
            out_dest_data,
        ) + spec_stream_files(
            err_mode != RedirectionMode::Off,
            err_mode == RedirectionMode::Append || shared_last,
            r.stderr.targets,
            err_dest_data,
        ),
        console_stdout: if out_mode == RedirectionMode::Off {
            out_dest_data
        } else {
            Seq::empty()
        },
        console_stderr: if err_mode == RedirectionMode::Off {
            err_dest_data
        } else {
            Seq::empty()
        },
    }
}

/// Appending one action appends its view.
proof fn lemma_files_view_push(s: Seq<FileWrite>, w: FileWrite)
    ensures
        files_view(s.push(w)) == files_view(s).push(w@),
{
    assert(files_view(s.push(w)) =~= files_view(s).push(w@));
}

/// One more target extends the truncate actions by at most one.
proof fn lemma_touches_snoc(t: Seq<Seq<char>>, k: int)
    requires
        0 < k <= t.len(),
    ensures
        spec_touches(t.take(k)) == spec_touches(t.take(k - 1)) + (if t[k - 1].len() > 0 {
            seq![FileWriteSpec { path: t[k - 1], append: false, data: Seq::empty() }]
        } else {
            Seq::<FileWriteSpec>::empty()
        }),
{
    assert(t.take(k).drop_last() =~= t.take(k - 1));
    assert(t.take(k).last() == t[k - 1]);
}

/// Appends the create-and-truncate actions for all targets but the last.
fn push_touches(files: &mut Vec<FileWrite>, targets: &Vec<String>)
    ensures
        files_view(final(files)@) == files_view(old(files)@) + spec_touches(
            spec_front(targets.deep_view()),
        ),
{
    let n = targets.len();
    let front_len = if n > 0 {
        n - 1
    } else {
        0
    };
    proof {
        assert(spec_front(targets.deep_view()) =~= targets.deep_view().take(front_len as int));
        assert(targets.deep_view().take(0) =~= Seq::<Seq<char>>::empty());
        assert(files_view(files@) =~= files_view(old(files)@) + spec_touches(
            targets.deep_view().take(0),
        ));
    }
    let mut k: usize = 0;
    while k < front_len
        invariant
            front_len <= targets@.len(),
            n == targets@.len(),
            k <= front_len,
            files_view(files@) == files_view(old(files)@) + spec_touches(
                targets.deep_view().take(k as int),
            ),
        decreases front_len - k,
    {
        let ghost prev = files@;
        if !targets[k].as_str().is_empty() {
            let w = FileWrite { path: targets[k].clone(), append: false, data: Vec::new() };
            proof {
                assert(w@ == (FileWriteSpec {
                    path: targets.deep_view()[k as int],
                    append: false,
                    data: Seq::<u8>::empty(),
                }));
                lemma_files_view_push(files@, w);
            }
            files.push(w);
        }
        k += 1;
        proof {
            let t = targets.deep_view();
            lemma_touches_snoc(t, k as int);
            assert(files_view(files@) =~= files_view(old(files)@) + spec_touches(
                t.take(k as int),
            ));
        }
    }
}

/// Decides where one command's output goes, as [`spec_plan`] says.
///
/// Nothing is written here: the returned plan lists every file action and
/// the console bytes, and a collaborator carries them out in order.
pub fn handle_redirections(redirections: Redirections, output: Output) -> (plan: RedirectionPlan)
    ensures
        plan@ == spec_plan(redirections@, output@.stdout, output@.stderr),
{
    let ghost r = redirections@;
    let ghost out_data0 = output@.stdout;
    let ghost err_data0 = output@.stderr;
    let (out_bytes_in, err_bytes_in) = output.get();
    let mut out_bytes = out_bytes_in;
    let mut err_bytes = err_bytes_in;
    let merge = redirections.merge;
    let out_kind = redirections.stdout.kind;
    let err_kind = redirections.stderr.kind;
    let out_targets = redirections.stdout.paths;
    let err_targets = redirections.stderr.paths;

    let out_fb = out_kind != RedirectionMode::Off && (out_targets.len() == 0 || out_targets[
        out_targets.len() - 1
    ].as_str().is_empty());
    let err_fb = err_kind != RedirectionMode::Off && (err_targets.len() == 0 || err_targets[
        err_targets.len() - 1
    ].as_str().is_empty());
    let out_mode = if out_fb {
        RedirectionMode::Off
    } else {
        out_kind
    };
    let err_mode = if err_fb {
        RedirectionMode::Off
    } else {
        err_kind
    };
    proof {
        assert(out_mode == spec_effective_mode(r.stdout));
        assert(err_mode == spec_effective_mode(r.stderr));
    }

    let out_merged_away = merge == FdMerge::StdoutIntoStderr && out_kind == RedirectionMode::Off;
    let err_merged_away = merge == FdMerge::StderrIntoStdout && err_kind == RedirectionMode::Off;

    let (out_dest, err_dest): (Vec<u8>, Vec<u8>) = if out_merged_away {
        let mut joined = out_bytes;
        joined.append(&mut err_bytes);
        (Vec::new(), joined)
    } else if err_merged_away {
        let mut joined = out_bytes;
        joined.append(&mut err_bytes);
        (joined, Vec::new())
    } else {
        (out_bytes, err_bytes)
    };
    let ghost d_out = out_dest@;
    let ghost d_err = err_dest@;
    proof {
        assert(d_out =~= (if out_merged_away {
            Seq::<u8>::empty()
        } else {
            out_data0
        }) + (if err_merged_away {
            err_data0
        } else {
            Seq::<u8>::empty()
        }));
        assert(d_err =~= (if out_merged_away {
            out_data0
        } else {
            Seq::<u8>::empty()
        }) + (if err_merged_away {
            Seq::<u8>::empty()
        } else {
            err_data0
        }));
    }

    let shared_last = out_mode != RedirectionMode::Off && err_mode != RedirectionMode::Off
        && out_targets.len() > 0 && err_targets.len() > 0 && out_targets[
        out_targets.len() - 1
    ].eq(&err_targets[err_targets.len() - 1]);

    let mut files: Vec<FileWrite> = Vec::new();
    let mut console_stdout: Vec<u8> = Vec::new();
    let mut console_stderr: Vec<u8> = Vec::new();
    proof {
        assert(files_view(files@) =~= Seq::<FileWriteSpec>::empty());
    }

    if out_mode == RedirectionMode::Off {
        console_stdout = out_dest;
    } else {
        push_touches(&mut files, &out_targets);
        if out_targets.len() > 0 {
            let p = out_targets[out_targets.len() - 1].clone();
            let w = FileWrite {
                path: p,
                append: out_mode == RedirectionMode::Append,
                data: out_dest,
            };
            proof {
                lemma_files_view_push(files@, w);
            }
            files.push(w);
        }
    }
    proof {
        assert(files_view(files@) =~= spec_stream_files(
            out_mode != RedirectionMode::Off,
            out_mode == RedirectionMode::Append,
            r.stdout.targets,
            d_out,
        ));
    }
    let ghost after_out = files_view(files@);

    if err_mode == RedirectionMode::Off {
        console_stderr = err_dest;
    } else {
        push_touches(&mut files, &err_targets);
        if err_targets.len() > 0 {
            let p = err_targets[err_targets.len() - 1].clone();
            let w = FileWrite {
                path: p,
                append: err_mode == RedirectionMode::Append || shared_last,
                data: err_dest,
            };
            proof {
                lemma_files_view_push(files@, w);
            }
            files.push(w);
        }
    }
    proof {
        assert(files_view(files@) =~= after_out + spec_stream_files(
            err_mode != RedirectionMode::Off,
            err_mode == RedirectionMode::Append || shared_last,
            r.stderr.targets,
            d_err,
        ));
    }

    let plan = RedirectionPlan { files, console_stdout, console_stderr };
    proof {
        assert(plan@ =~= spec_plan(r, out_data0, err_data0));
    }
    plan
}

/// An fd-merge writes once. After `2>&1` — standard error's mode cleared by
/// the merge, with no stderr targets of its own — the plan holds no file
/// action for the stderr chain and prints nothing separately for it:
/// standard output's bytes, the merged stderr bytes after them, reach the
/// stdout destination exactly once — the last file of the stdout chain, or
/// the console's standard output when it has none.
pub proof fn lemma_merge_single_destination(r: RedirSpec, out_data: Seq<u8>, err_data: Seq<u8>)
    requires
        r.merge == FdMerge::StderrIntoStdout,
        r.stderr.mode == RedirectionMode::Off,
        r.stderr.targets.len() == 0,
    ensures
        spec_plan(r, out_data, err_data).console_stderr == Seq::<u8>::empty(),
        spec_plan(r, out_data, err_data).files == spec_stream_files(
            spec_effective_mode(r.stdout) != RedirectionMode::Off,
            spec_effective_mode(r.stdout) == RedirectionMode::Append,
            r.stdout.targets,
            out_data + err_data,
        ),
        spec_plan(r, out_data, err_data).console_stdout == (if spec_effective_mode(r.stdout)
            == RedirectionMode::Off {
            out_data + err_data
        } else {
            Seq::<u8>::empty()
        }),
{
    let out_mode = spec_effective_mode(r.stdout);
    assert(spec_effective_mode(r.stderr) == RedirectionMode::Off);
    assert(out_data + err_data =~= (if false {
        Seq::<u8>::empty()
    } else {
        out_data
    }) + (if true {
        err_data
    } else {
        Seq::<u8>::empty()
    }));
    assert(spec_plan(r, out_data, err_data).files =~= spec_stream_files(
        out_mode != RedirectionMode::Off,
        out_mode == RedirectionMode::Append,
        r.stdout.targets,
        out_data + err_data,
    ));
}

} // verus!
