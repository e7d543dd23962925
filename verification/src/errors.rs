//! The error kinds this library reports.
//!
//! Errors are plain data: each variant carries the strings needed to render a
//! human-readable message. Rendering is done by [`ErrorKind::message`], whose
//! exact text is pinned by [`spec_message`]; callers that need to print
//! decide where the text goes.

use vstd::prelude::*;

verus! {

/// Everything that can go wrong while resolving, parsing, verifying or
/// starting a project configuration.
#[derive(Debug, Clone, PartialEq, Eq)]
pub enum ErrorKind {
    /// Creating a configuration that already exists; carries the category
    /// prefix and the name.
    ConfigExists(String, String),
    /// Opening or referencing a configuration that does not exist; carries
    /// the category prefix and the name.
    UnknownConfig(String, String),
    /// A path referenced by a configuration does not exist on disk.
    PathDoesntExist(String),
    /// A layout path cannot be rendered as UTF-8 for the IPC command.
    InvalidUtf8Path(String),
    /// Splitting a command string yielded no program token.
    CommandSplittingFailed(String),
    /// Neither `$VISUAL` nor `$EDITOR` names an editor.
    EditorNotFound,
    /// The automation tool did not exit within the configured timeout.
    TextOrKeyInputFailed,
    /// The configuration document could not be parsed; carries a message.
    Parse(String),
}

/// The human-readable message of an error.
pub open spec fn spec_message(e: ErrorKind) -> Seq<char> {
    match e {
        ErrorKind::ConfigExists(prefix, name) => "config of type '"@ + prefix@
            + "' already exists: '"@ + name@ + "'"@,
        ErrorKind::UnknownConfig(prefix, name) => "config of type '"@ + prefix@
            + "' is unknown: '"@ + name@ + "'"@,
        ErrorKind::PathDoesntExist(path) => "path doesn't exist: '"@ + path@ + "'"@,
        ErrorKind::InvalidUtf8Path(path) => "path is invalid UTF8: '"@ + path@ + "'"@,
        ErrorKind::CommandSplittingFailed(command) => "command splitting failed: '"@ + command@
            + "'"@,
        ErrorKind::EditorNotFound => "cannot find an editor. Please specify $VISUAL or $EDITOR"@,
        ErrorKind::TextOrKeyInputFailed => "inputting text or key-presses into an application failed"@,
        ErrorKind::Parse(msg) => "couldn't parse configuration: "@ + msg@,
    }
}

impl ErrorKind {
    /// Renders the error as a human-readable message.
    pub fn message(&self) -> (r: String)
        ensures
            r@ == spec_message(*self),
    {
        match self {
            ErrorKind::ConfigExists(prefix, name) => {
                let mut m = String::from_str("config of type '");
                m.append(prefix.as_str());
                m.append("' already exists: '");
                m.append(name.as_str());
                m.append("'");
                proof {
                    assert(m@ =~= spec_message(*self));
                }
                m
            },
            ErrorKind::UnknownConfig(prefix, name) => {
                let mut m = String::from_str("config of type '");
                m.append(prefix.as_str());
                m.append("' is unknown: '");
                m.append(name.as_str());
                m.append("'");
                proof {
                    assert(m@ =~= spec_message(*self));
                }
                m
            },
            ErrorKind::PathDoesntExist(path) => {
                let mut m = String::from_str("path doesn't exist: '");
                m.append(path.as_str());
                m.append("'");
                proof {
                    assert(m@ =~= spec_message(*self));
                }
                m
            },
            ErrorKind::InvalidUtf8Path(path) => {
                let mut m = String::from_str("path is invalid UTF8: '");
                m.append(path.as_str());
                m.append("'");
                proof {
                    assert(m@ =~= spec_message(*self));
                }
                m
            },
            ErrorKind::CommandSplittingFailed(command) => {
                let mut m = String::from_str("command splitting failed: '");
                m.append(command.as_str());
                m.append("'");
                proof {
                    assert(m@ =~= spec_message(*self));
                }
                m
            },
            ErrorKind::EditorNotFound => {
                String::from_str("cannot find an editor. Please specify $VISUAL or $EDITOR")
            },
            ErrorKind::TextOrKeyInputFailed => {
                String::from_str("inputting text or key-presses into an application failed")
            },
            ErrorKind::Parse(msg) => {
                let mut m = String::from_str("couldn't parse configuration: ");
                m.append(msg.as_str());
                proof {
                    assert(m@ =~= spec_message(*self));
                }
                m
            },
        }
    }
}

} // verus!
