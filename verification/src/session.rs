//! The interactive verify/retry loop, as a state machine.
//!
//! After a configuration is created, copied, renamed or edited, it is
//! verified. On failure the operator chooses, one keystroke at a time:
//! `r` reopens the editor and verifies again, `a` accepts the configuration
//! as it stands, and anything else prompts again. The loop has no iteration
//! limit; it ends only by a successful verification or the operator's `a`.
//!
//! The caller runs the loop: it performs each [`VerifyAction`] (verify, read
//! one key without line buffering, open the editor) and feeds the resulting
//! [`VerifyEvent`] back into [`verify_step`].

use vstd::prelude::*;

use crate::errors::ErrorKind;

verus! {

/// Where the verify/retry loop stands.
#[derive(Debug, Clone, Copy, PartialEq, Eq, Structural)]
pub enum VerifyState {
    /// A verification run is due or in flight.
    Verifying,
    /// Verification failed; the operator is being asked what to do.
    FailedAwaitingChoice,
    /// Terminal: the configuration was verified, or accepted as it stands.
    Accepted,
    /// The operator chose to reopen the editor.
    Retried,
}

/// What the loop's caller reports back.
#[derive(Debug, Clone, Copy, PartialEq, Eq, Structural)]
pub enum VerifyEvent {
    /// The verification run succeeded.
    VerifySucceeded,
    /// The verification run failed.
    VerifyFailed,
    /// The operator pressed a key.
    KeyPressed(char),
    /// The editor was closed.
    EditorClosed,
}

/// What the loop's caller must do next.
#[derive(Debug, Clone, Copy, PartialEq, Eq, Structural)]
pub enum VerifyAction {
    /// Run the verification.
    RunVerify,
    /// Print the failure choices and read one key, without line buffering.
    Prompt,
    /// Open the editor on the configuration file.
    ReopenEditor,
    /// Stop: the loop is done.
    Finish,
}

/// The action a state is waiting on; an event that does not answer it leaves
/// the state alone and asks for the same action again.
pub open spec fn spec_action_of(s: VerifyState) -> VerifyAction {
    match s {
        VerifyState::Verifying => VerifyAction::RunVerify,
        VerifyState::FailedAwaitingChoice => VerifyAction::Prompt,
        VerifyState::Retried => VerifyAction::ReopenEditor,
        VerifyState::Accepted => VerifyAction::Finish,
    }
}

/// One step of the loop: a successful verification accepts; a failure asks
/// the operator; `a` accepts the configuration even though it is known
/// invalid (a deliberate escape hatch), `r` reopens the editor and then
/// verifies again, any other key prompts again; keys are read
/// case-insensitively.
pub open spec fn spec_verify_step(s: VerifyState, e: VerifyEvent) -> (VerifyState, VerifyAction) {
    match (s, e) {
        (VerifyState::Verifying, VerifyEvent::VerifySucceeded) => (
            VerifyState::Accepted,
            VerifyAction::Finish,
        ),
        (VerifyState::Verifying, VerifyEvent::VerifyFailed) => (
            VerifyState::FailedAwaitingChoice,
            VerifyAction::Prompt,
        ),
        (VerifyState::FailedAwaitingChoice, VerifyEvent::KeyPressed(c)) => {
            if c == 'a' || c == 'A' {
                (VerifyState::Accepted, VerifyAction::Finish)
            } else if c == 'r' || c == 'R' {
                (VerifyState::Retried, VerifyAction::ReopenEditor)
            } else {
                (VerifyState::FailedAwaitingChoice, VerifyAction::Prompt)
            }
        },
        (VerifyState::Retried, VerifyEvent::EditorClosed) => (
            VerifyState::Verifying,
            VerifyAction::RunVerify,
        ),
        (_, _) => (s, spec_action_of(s)),
    }
}

/// The loop's starting point: verify first.
pub fn initial_verify_state() -> (r: (VerifyState, VerifyAction))
    ensures
        r == (VerifyState::Verifying, VerifyAction::RunVerify),
{
    (VerifyState::Verifying, VerifyAction::RunVerify)
}

/// Advances the loop by one event.
pub fn verify_step(state: VerifyState, event: VerifyEvent) -> (r: (VerifyState, VerifyAction))
    ensures
        r == spec_verify_step(state, event),
{
    match (state, event) {
        (VerifyState::Verifying, VerifyEvent::VerifySucceeded) => (
            VerifyState::Accepted,
            VerifyAction::Finish,
        ),
        (VerifyState::Verifying, VerifyEvent::VerifyFailed) => (
            VerifyState::FailedAwaitingChoice,
            VerifyAction::Prompt,
        ),
        (VerifyState::FailedAwaitingChoice, VerifyEvent::KeyPressed(c)) => {
            if c == 'a' || c == 'A' {
                (VerifyState::Accepted, VerifyAction::Finish)
            } else if c == 'r' || c == 'R' {
                (VerifyState::Retried, VerifyAction::ReopenEditor)
            } else {
                (VerifyState::FailedAwaitingChoice, VerifyAction::Prompt)
            }
        },
        (VerifyState::Retried, VerifyEvent::EditorClosed) => (
            VerifyState::Verifying,
            VerifyAction::RunVerify,
        ),
        (s, _) => {
            let a = match s {
                VerifyState::Verifying => VerifyAction::RunVerify,
                VerifyState::FailedAwaitingChoice => VerifyAction::Prompt,
                VerifyState::Retried => VerifyAction::ReopenEditor,
                VerifyState::Accepted => VerifyAction::Finish,
            };
            (s, a)
        },
    }
}

/// Whether the loop has reached its terminal state.
pub fn verify_done(state: VerifyState) -> (r: bool)
    ensures
        r == (state is Accepted),
{
    match state {
        VerifyState::Accepted => true,
        _ => false,
    }
}

/// Chooses the editor to invoke: `$VISUAL` when set and non-empty, else
/// `$EDITOR` when set and non-empty; only when neither names an editor is
/// the result an editor-not-found error. The error comes only when an editor
/// action is actually requested, which is when this runs.
pub fn choose_editor(visual: Option<String>, editor: Option<String>) -> (r: Result<
    String,
    ErrorKind,
>)
    ensures
        ({
            let v = visual.deep_view();
            let ed = editor.deep_view();
            if v is Some && v->Some_0.len() > 0 {
                r matches Ok(e) && e@ == v->Some_0
            } else if ed is Some && ed->Some_0.len() > 0 {
                r matches Ok(e) && e@ == ed->Some_0
            } else {
                r == Err::<String, ErrorKind>(ErrorKind::EditorNotFound)
            }
        }),
{
    match visual {
        Some(v) => {
            if v.as_str().unicode_len() > 0 {
                return Ok(v);
            }
        },
        None => {},
    }
    match editor {
        Some(e) => {
            if e.as_str().unicode_len() > 0 {
                return Ok(e);
            }
        },
        None => {},
    }
    Err(ErrorKind::EditorNotFound)
}

} // verus!
