//! Driving text and keystrokes into a freshly spawned application.
//!
//! The automation tool is invoked with a window-locator prefix keyed by the
//! child's process id (search for a visible window of that pid, synchronize,
//! focus it), followed by a `type` or `key` command. [`exec_invocations`]
//! computes the exact argument lists, one invocation per external-tool run,
//! each bounded by the exec step's timeout; the caller spawns the tool and
//! waits with that deadline.
//!
//! [`input_step_outcome`] fixes the timeout policy: an invocation that exits
//! within its deadline succeeds whatever its exit status; one that does not
//! is killed and the step fails. A failed step ends that application's exec
//! list only — the caller goes on to the next application, which
//! [`continue_with_next_application`] pins down.

use vstd::prelude::*;

use crate::errors::ErrorKind;
use crate::types::{Duration, Exec, ExecType, clone_strings};

verus! {

/// Spec-level model of an [`Invocation`].
#[verifier::ext_equal]
pub struct InvocationV {
    /// The automation tool's arguments.
    pub args: Seq<Seq<char>>,
    /// The deadline for this run.
    pub timeout: Duration,
}

/// One run of the automation tool: its full argument list and its deadline.
pub struct Invocation {
    /// The automation tool's arguments.
    pub args: Vec<String>,
    /// The deadline for this run.
    pub timeout: Duration,
}

impl View for Invocation {
    type V = InvocationV;

    open spec fn view(&self) -> InvocationV {
        InvocationV { args: self.args.deep_view(), timeout: self.timeout }
    }
}

/// The window-locator prefix shared by every invocation: search for any
/// visible window of the child's pid, synchronize until it appears, focus it.
pub open spec fn spec_base_parameters(pid: Seq<char>) -> Seq<Seq<char>> {
    seq![
        "search"@,
        "--sync"@,
        "--onlyvisible"@,
        "--any"@,
        "--pid"@,
        pid,
        "ignorepattern"@,
        "windowfocus"@,
        "--sync"@,
        "%1"@,
    ]
}

/// The arguments that type `text` into the focused window.
pub open spec fn spec_text_invocation(
    pid: Seq<char>,
    text: Seq<char>,
    timeout: Duration,
) -> InvocationV {
    InvocationV {
        args: spec_base_parameters(pid) + seq!["type"@, "--window"@, "%1"@, text],
        timeout,
    }
}

/// The arguments that press the key sequences `keys` in the focused window.
pub open spec fn spec_key_invocation(
    pid: Seq<char>,
    keys: Seq<Seq<char>>,
    timeout: Duration,
) -> InvocationV {
    InvocationV {
        args: spec_base_parameters(pid) + seq!["key"@, "--window"@, "%1"@] + keys,
        timeout,
    }
}

/// The invocations for text commands, each followed by a `Return` press.
pub open spec fn spec_text_invs(
    pid: Seq<char>,
    cmds: Seq<Seq<char>>,
    timeout: Duration,
) -> Seq<InvocationV>
    decreases cmds.len(),
{
    if cmds.len() == 0 {
        Seq::empty()
    } else {
        seq![
            spec_text_invocation(pid, cmds[0], timeout),
            spec_key_invocation(pid, seq!["Return"@], timeout),
        ] + spec_text_invs(pid, cmds.drop_first(), timeout)
    }
}

/// The invocations for text commands without a trailing `Return`.
pub open spec fn spec_text_no_return_invs(
    pid: Seq<char>,
    cmds: Seq<Seq<char>>,
    timeout: Duration,
) -> Seq<InvocationV>
    decreases cmds.len(),
{
    if cmds.len() == 0 {
        Seq::empty()
    } else {
        seq![spec_text_invocation(pid, cmds[0], timeout)] + spec_text_no_return_invs(
            pid,
            cmds.drop_first(),
            timeout,
        )
    }
}

/// The invocations an exec step runs, in order: per command a `type` and a
/// `Return` press for `Text`; per command a `type` alone for `TextNoReturn`;
/// one `key` run with all commands as key sequences for `Keys`.
pub open spec fn spec_exec_invocations(pid: Seq<char>, e: crate::types::ExecV) -> Seq<
    InvocationV,
> {
    match e.exec_type {
        ExecType::Text => spec_text_invs(pid, e.commands, e.timeout),
        ExecType::TextNoReturn => spec_text_no_return_invs(pid, e.commands, e.timeout),
        ExecType::Keys => seq![spec_key_invocation(pid, e.commands, e.timeout)],
    }
}

/// Builds the window-locator prefix for the child's pid.
fn base_parameters(pid: &String) -> (r: Vec<String>)
    ensures
        r.deep_view() == spec_base_parameters(pid@),
{
    let mut r: Vec<String> = Vec::new();
    r.push(String::from_str("search"));
    r.push(String::from_str("--sync"));
    r.push(String::from_str("--onlyvisible"));
    r.push(String::from_str("--any"));
    r.push(String::from_str("--pid"));
    r.push(pid.clone());
    r.push(String::from_str("ignorepattern"));
    r.push(String::from_str("windowfocus"));
    r.push(String::from_str("--sync"));
    r.push(String::from_str("%1"));
    proof {
        assert(r.deep_view() =~= spec_base_parameters(pid@));
    }
    r
}

/// Builds the invocation that types `text`.
fn text_invocation(pid: &String, text: &String, timeout: Duration) -> (r: Invocation)
    ensures
        r@ == spec_text_invocation(pid@, text@, timeout),
{
    let mut args = base_parameters(pid);
    args.push(String::from_str("type"));
    args.push(String::from_str("--window"));
    args.push(String::from_str("%1"));
    args.push(text.clone());
    let r = Invocation { args, timeout };
    proof {
        assert(r@.args =~= spec_text_invocation(pid@, text@, timeout).args);
        assert(r@ =~= spec_text_invocation(pid@, text@, timeout));
    }
    r
}

/// Builds the invocation that presses the key sequences `keys`.
fn key_invocation(pid: &String, keys: &Vec<String>, timeout: Duration) -> (r: Invocation)
    ensures
        r@ == spec_key_invocation(pid@, keys.deep_view(), timeout),
{
    let mut args = base_parameters(pid);
    args.push(String::from_str("key"));
    args.push(String::from_str("--window"));
    args.push(String::from_str("%1"));
    let mut ks = clone_strings(keys);
    args.append(&mut ks);
    let r = Invocation { args, timeout };
    proof {
        assert(r@.args =~= spec_key_invocation(pid@, keys.deep_view(), timeout).args);
        assert(r@ =~= spec_key_invocation(pid@, keys.deep_view(), timeout));
    }
    r
}

/// Computes the automation-tool runs for one application's exec step, keyed
/// by the spawned child's process id.
#[verifier::rlimit(30)]
pub fn exec_invocations(pid: &String, e: &Exec) -> (r: Vec<Invocation>)
    ensures
        Seq::new(r@.len(), |i: int| r@[i]@) == spec_exec_invocations(pid@, e@),
{
    let ghost ev = e@;
    let mut out: Vec<Invocation> = Vec::new();
    match e.exec_type {
        ExecType::Text => {
            proof {
                assert(ev.commands.skip(0) =~= ev.commands);
                assert(Seq::new(out@.len(), |k: int| out@[k]@) + spec_text_invs(
                    pid@,
                    ev.commands,
                    ev.timeout,
                ) =~= spec_text_invs(pid@, ev.commands, ev.timeout));
            }
            let mut i: usize = 0;
            while i < e.commands.len()
                invariant
                    0 <= i <= e.commands.len(),
                    ev == e@,
                    ev.commands.len() == e.commands.len(),
                    Seq::new(out@.len(), |k: int| out@[k]@) + spec_text_invs(
                        pid@,
                        ev.commands.skip(i as int),
                        ev.timeout,
                    ) =~= spec_text_invs(pid@, ev.commands, ev.timeout),
                decreases e.commands.len() - i,
            {
                let ghost before = Seq::new(out@.len(), |k: int| out@[k]@);
                let mut return_key: Vec<String> = Vec::new();
                return_key.push(String::from_str("Return"));
                proof {
                    assert(return_key.deep_view() =~= seq!["Return"@]);
                    let rest = ev.commands.skip(i as int);
                    assert(rest[0] == ev.commands[i as int]);
                    assert(rest.drop_first() =~= ev.commands.skip(i + 1));
                }
                let ti = text_invocation(pid, &e.commands[i], e.timeout);
                out.push(ti);
                let ki = key_invocation(pid, &return_key, e.timeout);
                out.push(ki);
                proof {
                    assert(ev.commands[i as int] == e.commands@[i as int]@);
                    assert(Seq::new(out@.len(), |k: int| out@[k]@) =~= before + seq![
                        spec_text_invocation(pid@, ev.commands[i as int], ev.timeout),
                        spec_key_invocation(pid@, seq!["Return"@], ev.timeout),
                    ]);
                    assert(Seq::new(out@.len(), |k: int| out@[k]@) + spec_text_invs(
                        pid@,
                        ev.commands.skip(i + 1),
                        ev.timeout,
                    ) =~= spec_text_invs(pid@, ev.commands, ev.timeout));
                }
                i = i + 1;
            }
            proof {
                assert(ev.commands.skip(ev.commands.len() as int) =~= Seq::<Seq<char>>::empty());
                assert(Seq::new(out@.len(), |k: int| out@[k]@) =~= spec_exec_invocations(
                    pid@,
                    ev,
                ));
            }
        },
        ExecType::TextNoReturn => {
            proof {
                assert(ev.commands.skip(0) =~= ev.commands);
                assert(Seq::new(out@.len(), |k: int| out@[k]@) + spec_text_no_return_invs(
                    pid@,
                    ev.commands,
                    ev.timeout,
                ) =~= spec_text_no_return_invs(pid@, ev.commands, ev.timeout));
            }
            let mut i: usize = 0;
            while i < e.commands.len()
                invariant
                    0 <= i <= e.commands.len(),
                    ev == e@,
                    ev.commands.len() == e.commands.len(),
                    Seq::new(out@.len(), |k: int| out@[k]@) + spec_text_no_return_invs(
                        pid@,
                        ev.commands.skip(i as int),
                        ev.timeout,
                    ) =~= spec_text_no_return_invs(pid@, ev.commands, ev.timeout),
                decreases e.commands.len() - i,
            {
                let ghost before = Seq::new(out@.len(), |k: int| out@[k]@);
                proof {
                    let rest = ev.commands.skip(i as int);
                    assert(rest[0] == ev.commands[i as int]);
                    assert(rest.drop_first() =~= ev.commands.skip(i + 1));
                }
                let ti = text_invocation(pid, &e.commands[i], e.timeout);
                out.push(ti);
                proof {
                    assert(ev.commands[i as int] == e.commands@[i as int]@);
                    assert(Seq::new(out@.len(), |k: int| out@[k]@) =~= before + seq![
                        spec_text_invocation(pid@, ev.commands[i as int], ev.timeout),
                    ]);
                    assert(Seq::new(out@.len(), |k: int| out@[k]@) + spec_text_no_return_invs(
                        pid@,
                        ev.commands.skip(i + 1),
                        ev.timeout,
                    ) =~= spec_text_no_return_invs(pid@, ev.commands, ev.timeout));
                }
                i = i + 1;
            }
            proof {
                assert(ev.commands.skip(ev.commands.len() as int) =~= Seq::<Seq<char>>::empty());
                assert(Seq::new(out@.len(), |k: int| out@[k]@) =~= spec_exec_invocations(
                    pid@,
                    ev,
                ));
            }
        },
        ExecType::Keys => {
            let ki = key_invocation(pid, &e.commands, e.timeout);
            out.push(ki);
            proof {
                assert(Seq::new(out@.len(), |k: int| out@[k]@) =~= spec_exec_invocations(
                    pid@,
                    ev,
                ));
            }
        },
    }
    out
}

/// The timeout policy for one automation-tool run: exiting within the
/// deadline (with any exit status) is success; not exiting is failure — the
/// caller kills and reaps the tool and the step fails.
pub fn input_step_outcome(exited_within_timeout: bool) -> (r: Result<(), ErrorKind>)
    ensures
        r == if exited_within_timeout {
            Ok::<(), ErrorKind>(())
        } else {
            Err::<(), ErrorKind>(ErrorKind::TextOrKeyInputFailed)
        },
{
    if exited_within_timeout {
        Ok(())
    } else {
        Err(ErrorKind::TextOrKeyInputFailed)
    }
}

/// How one application's start can fail.
#[derive(Debug, Clone, Copy, PartialEq, Eq, Structural)]
pub enum StepFailure {
    /// The application process could not be spawned.
    SpawnFailed,
    /// A post-launch input run did not exit within its timeout.
    InputFailed,
}

/// Whether the orchestrator goes on to the next application: a failed spawn
/// aborts the remaining applications; a failed input step is scoped to its
/// own application and does not.
pub fn continue_with_next_application(failure: Option<&StepFailure>) -> (r: bool)
    ensures
        r == !(failure matches Some(f) && f is SpawnFailed),
{
    match failure {
        Some(StepFailure::SpawnFailed) => false,
        Some(StepFailure::InputFailed) => true,
        None => true,
    }
}

} // verus!
