//! The typed representation of a project configuration.
//!
//! A configuration has a general section (working directory, workspace,
//! layout source) and an ordered list of applications (command, working
//! directory override, optional post-launch input). Insertion order of the
//! applications is launch order and is preserved exactly.
//!
//! Each type has a spec-level model (`ConfigV`, `ApplicationV`, ...) reached
//! through its `View` impl; contracts all over this crate speak of those
//! models.

use vstd::prelude::*;

verus! {

/// A span of time, in whole seconds and a sub-second nanosecond part.
#[derive(Debug, Clone, Copy, PartialEq, Eq, Structural)]
pub struct Duration {
    /// Whole seconds.
    pub secs: u64,
    /// Nanoseconds below one second.
    pub nanos: u32,
}

impl Duration {
    /// A duration of `secs` whole seconds.
    pub fn from_secs(secs: u64) -> (r: Duration)
        ensures
            r == (Duration { secs, nanos: 0u32 }),
    {
        Duration { secs, nanos: 0 }
    }

    /// A duration of `secs` seconds and `nanos` nanoseconds.
    pub fn new(secs: u64, nanos: u32) -> (r: Duration)
        requires
            nanos < 1_000_000_000,
        ensures
            r == (Duration { secs, nanos }),
    {
        Duration { secs, nanos }
    }
}

/// How the command strings of an [`Exec`] are interpreted.
#[derive(Debug, Clone, Copy, PartialEq, Eq, Structural)]
pub enum ExecType {
    /// Separate text lines, input in order with a `Return` after each.
    Text,
    /// Text, but without a `Return` after each element.
    TextNoReturn,
    /// Key presses; no `Return` is input.
    Keys,
}

/// The exec type used when the configuration names none.
pub fn default_exec_type() -> (r: ExecType)
    ensures
        r == ExecType::Text,
{
    ExecType::Text
}

/// The timeout used when the configuration names none: five seconds.
pub fn default_timeout() -> (r: Duration)
    ensures
        r == (Duration { secs: 5u64, nanos: 0u32 }),
{
    Duration { secs: 5, nanos: 0 }
}

/// Spec-level model of an [`Exec`].
#[verifier::ext_equal]
pub struct ExecV {
    /// The command strings, in input order.
    pub commands: Seq<Seq<char>>,
    /// How the command strings are interpreted.
    pub exec_type: ExecType,
    /// The per-invocation timeout.
    pub timeout: Duration,
}

/// Commands to execute or keys to simulate after an application starts.
#[derive(Debug, Clone, PartialEq, Eq)]
pub struct Exec {
    /// Text or key sequences to input into the application, in order.
    pub commands: Vec<String>,
    /// How the commands are interpreted; [`ExecType::Text`] by default.
    pub exec_type: ExecType,
    /// The automation tool is killed and the step fails if one invocation
    /// does not exit within this timeout; five seconds by default.
    pub timeout: Duration,
}

impl View for Exec {
    type V = ExecV;

    open spec fn view(&self) -> ExecV {
        ExecV {
            commands: self.commands.deep_view(),
            exec_type: self.exec_type,
            timeout: self.timeout,
        }
    }
}

/// Spec-level model of an [`ApplicationCommand`].
#[verifier::ext_equal]
pub struct ApplicationCommandV {
    /// The executable.
    pub program: Seq<char>,
    /// Its arguments, in order.
    pub args: Seq<Seq<char>>,
}

/// The command used for starting an application: a program and its argument
/// list, passed on verbatim with no further shell interpretation.
#[derive(Debug, Clone, PartialEq, Eq)]
pub struct ApplicationCommand {
    /// The executable to start.
    pub program: String,
    /// A list of arguments to pass to the executable.
    pub args: Vec<String>,
}

impl View for ApplicationCommand {
    type V = ApplicationCommandV;

    open spec fn view(&self) -> ApplicationCommandV {
        ApplicationCommandV { program: self.program@, args: self.args.deep_view() }
    }
}

/// Spec-level model of an [`Application`].
#[verifier::ext_equal]
pub struct ApplicationV {
    /// The launch command.
    pub command: ApplicationCommandV,
    /// The application-level working directory, if set.
    pub working_directory: Option<Seq<char>>,
    /// The post-launch input step, if any.
    pub exec_input: Option<ExecV>,
}

/// One application to start, with its optional working-directory override and
/// optional post-launch input.
#[derive(Debug, Clone, PartialEq, Eq)]
pub struct Application {
    /// The command used for starting the application.
    pub command: ApplicationCommand,
    /// The directory the application is launched in; overrides the general
    /// section's setting.
    pub working_directory: Option<String>,
    /// Commands to execute or keys to simulate after startup.
    pub exec_input: Option<Exec>,
}

impl View for Application {
    type V = ApplicationV;

    open spec fn view(&self) -> ApplicationV {
        ApplicationV {
            command: self.command@,
            working_directory: self.working_directory.deep_view(),
            exec_input: match self.exec_input {
                Some(e) => Some(e@),
                None => None,
            },
        }
    }
}

/// Spec-level model of a [`Layout`].
#[verifier::ext_equal]
pub enum LayoutV {
    /// The layout document itself.
    Contents(Seq<char>),
    /// The name of a separately stored, managed layout.
    Managed(Seq<char>),
    /// A filesystem path to the layout document.
    Path(Seq<char>),
}

/// Where the layout document comes from. Exactly one variant is active; a
/// configuration string is classified by [`classify_layout`].
#[derive(Debug, Clone, PartialEq, Eq)]
pub enum Layout {
    /// The layout is provided directly as a string.
    Contents(String),
    /// The name of a managed layout.
    Managed(String),
    /// The layout is provided as a path.
    Path(String),
}

impl View for Layout {
    type V = LayoutV;

    open spec fn view(&self) -> LayoutV {
        match self {
            Layout::Contents(s) => LayoutV::Contents(s@),
            Layout::Managed(s) => LayoutV::Managed(s@),
            Layout::Path(s) => LayoutV::Path(s@),
        }
    }
}

/// Spec-level model of a [`General`] section.
#[verifier::ext_equal]
pub struct GeneralV {
    /// The general working directory, if set.
    pub working_directory: Option<Seq<char>>,
    /// The workspace the layout is applied to, if set.
    pub workspace: Option<Seq<char>>,
    /// The layout source.
    pub layout: LayoutV,
}

/// The general configuration section.
#[derive(Debug, Clone, PartialEq, Eq)]
pub struct General {
    /// The directory-context applications are launched in, unless overridden.
    pub working_directory: Option<String>,
    /// If set, the window manager is instructed to open the layout on this
    /// workspace; if unset, the currently focused workspace is used.
    pub workspace: Option<String>,
    /// The layout to append to the workspace.
    pub layout: Layout,
}

impl View for General {
    type V = GeneralV;

    open spec fn view(&self) -> GeneralV {
        GeneralV {
            working_directory: self.working_directory.deep_view(),
            workspace: self.workspace.deep_view(),
            layout: self.layout@,
        }
    }
}

/// Spec-level model of a [`Config`].
#[verifier::ext_equal]
pub struct ConfigV {
    /// The general section.
    pub general: GeneralV,
    /// The applications, in launch order.
    pub applications: Seq<ApplicationV>,
}

/// The complete project configuration.
#[derive(Debug, Clone, PartialEq, Eq)]
pub struct Config {
    /// The general configuration section.
    pub general: General,
    /// The applications to start and how to start them; insertion order is
    /// launch order.
    pub applications: Vec<Application>,
}

impl View for Config {
    type V = ConfigV;

    open spec fn view(&self) -> ConfigV {
        ConfigV {
            general: self.general@,
            applications: Seq::new(
                self.applications@.len(),
                |i: int| self.applications@[i]@,
            ),
        }
    }
}

/// `~` at the start of a path, alone or followed by `/`, replaced by the home
/// directory; anything else (including `~user/` forms) is left unchanged, as
/// is everything when no home directory is known.
pub open spec fn spec_tilde(s: Seq<char>, home: Option<Seq<char>>) -> Seq<char> {
    if s.len() > 0 && s[0] == '~' && (s.len() == 1 || s[1] == '/') {
        match home {
            Some(h) => h + s.subrange(1, s.len() as int),
            None => s,
        }
    } else {
        s
    }
}

/// Expands a leading `~` in `input` to the home directory, when one is known.
pub fn tilde(input: &str, home: Option<&String>) -> (r: String)
    ensures
        r@ == spec_tilde(input@, home.deep_view()),
{
    let len = input.unicode_len();
    if len > 0 && input.get_char(0) == '~' {
        if len == 1 || input.get_char(1) == '/' {
            match home {
                Some(h) => {
                    let rest = input.substring_char(1, len);
                    return h.clone().concat(rest);
                },
                None => {
                    return input.to_owned();
                },
            }
        }
    }
    input.to_owned()
}

/// Whether `names` holds the string `s`.
pub open spec fn spec_names_contain(names: Seq<Seq<char>>, s: Seq<char>) -> bool {
    exists|i: int| 0 <= i < names.len() && names[i] == s
}

/// Looks a string up in a list of names.
pub fn names_contain(names: &Vec<String>, s: &String) -> (r: bool)
    ensures
        r == spec_names_contain(names.deep_view(), s@),
{
    let mut i: usize = 0;
    while i < names.len()
        invariant
            0 <= i <= names.len(),
            forall|k: int| 0 <= k < i ==> names.deep_view()[k] != s@,
        decreases names.len() - i,
    {
        if names[i] == *s {
            assert(names.deep_view()[i as int] == s@);
            return true;
        }
        i = i + 1;
    }
    false
}

/// Whether `s` holds the character `c`.
pub fn str_contains_char(s: &str, c: char) -> (r: bool)
    ensures
        r == s@.contains(c),
{
    let len = s.unicode_len();
    let mut i: usize = 0;
    while i < len
        invariant
            0 <= i <= len == s@.len(),
            forall|k: int| 0 <= k < i ==> s@[k] != c,
        decreases len - i,
    {
        if s.get_char(i) == c {
            return true;
        }
        i = i + 1;
    }
    false
}

/// How a layout string is classified: a string containing `{` is the layout
/// document itself; otherwise a string naming an existing managed layout is a
/// reference to it; anything else is a filesystem path, tilde-expanded.
pub open spec fn spec_classify_layout(
    value: Seq<char>,
    managed: Seq<Seq<char>>,
    home: Option<Seq<char>>,
) -> LayoutV {
    if value.contains('{') {
        LayoutV::Contents(value)
    } else if spec_names_contain(managed, value) {
        LayoutV::Managed(value)
    } else {
        LayoutV::Path(spec_tilde(value, home))
    }
}

/// Classifies a layout string against the list of existing managed-layout
/// names, expanding `~` in the path case.
pub fn classify_layout(value: &String, managed: &Vec<String>, home: Option<&String>) -> (r: Layout)
    ensures
        r@ == spec_classify_layout(value@, managed.deep_view(), home.deep_view()),
{
    if str_contains_char(value.as_str(), '{') {
        Layout::Contents(value.clone())
    } else if names_contain(managed, value) {
        Layout::Managed(value.clone())
    } else {
        Layout::Path(tilde(value.as_str(), home))
    }
}

/// Copies a list of strings.
pub fn clone_strings(v: &Vec<String>) -> (r: Vec<String>)
    ensures
        r.deep_view() == v.deep_view(),
{
    let mut out: Vec<String> = Vec::new();
    let mut i: usize = 0;
    while i < v.len()
        invariant
            0 <= i <= v.len(),
            out.len() == i,
            forall|k: int| 0 <= k < i ==> out.deep_view()[k] == v.deep_view()[k],
        decreases v.len() - i,
    {
        out.push(v[i].clone());
        i = i + 1;
    }
    proof {
        assert(out.deep_view() =~= v.deep_view());
    }
    out
}

} // verus!
