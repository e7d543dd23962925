//! Planning the start of a project.
//!
//! Starting a project issues at most two window-manager commands — an
//! optional `workspace {name}` switch and an `append_layout {path}` — and
//! then spawns each configured application in order. [`plan_start`] computes
//! all of that as plain data from the configuration, the command-line
//! overrides and the resolved layout path; the caller performs the IPC calls
//! and the spawns, in the plan's order, and must not start the applications
//! after a failed spawn.
//!
//! [`resolve_layout_source`] says what must happen to turn a layout value
//! into a path, and [`referenced_paths`] with [`verify_resolved`] carry the
//! verification rules: every referenced path must exist and a managed layout
//! reference must name an existing layout.

use vstd::prelude::*;

use crate::errors::ErrorKind;
use crate::types::{
    Config, ConfigV, Exec, ExecV, Layout, LayoutV, clone_strings, names_contain,
    spec_names_contain,
};
use crate::workdir::{effective_working_directory, spec_effective_working_directory};

verus! {

/// Spec-level model of a [`SpawnSpec`].
#[verifier::ext_equal]
pub struct SpawnSpecV {
    /// The executable.
    pub program: Seq<char>,
    /// Its arguments, verbatim.
    pub args: Seq<Seq<char>>,
    /// The directory to launch in; `None` inherits the caller's.
    pub working_directory: Option<Seq<char>>,
    /// The post-launch input step, if any.
    pub exec_input: Option<ExecV>,
}

/// Everything needed to spawn one application: the command verbatim, the
/// working directory after precedence, and the post-launch input step.
pub struct SpawnSpec {
    /// The executable to start.
    pub program: String,
    /// The arguments, passed on with no further shell interpretation.
    pub args: Vec<String>,
    /// The directory to launch in; `None` inherits the caller's.
    pub working_directory: Option<String>,
    /// The post-launch input step, if any.
    pub exec_input: Option<Exec>,
}

impl View for SpawnSpec {
    type V = SpawnSpecV;

    open spec fn view(&self) -> SpawnSpecV {
        SpawnSpecV {
            program: self.program@,
            args: self.args.deep_view(),
            working_directory: self.working_directory.deep_view(),
            exec_input: match self.exec_input {
                Some(e) => Some(e@),
                None => None,
            },
        }
    }
}

/// Spec-level model of a [`StartPlan`].
#[verifier::ext_equal]
pub struct StartPlanV {
    /// The workspace-switch command, if a workspace was resolved.
    pub workspace_command: Option<Seq<char>>,
    /// The append-layout command.
    pub append_layout_command: Seq<char>,
    /// One spawn per application, in launch order.
    pub spawns: Seq<SpawnSpecV>,
}

/// The full start plan: the IPC command strings and the ordered spawns.
pub struct StartPlan {
    /// `workspace {name}`, or `None` when no workspace was resolved — the
    /// switch is then skipped and the focused workspace used implicitly.
    pub workspace_command: Option<String>,
    /// `append_layout {path}` with the resolved layout path.
    pub append_layout_command: String,
    /// One spawn per application, in launch order. A failed spawn aborts the
    /// rest of the list; a failed input step does not.
    pub spawns: Vec<SpawnSpec>,
}

impl View for StartPlan {
    type V = StartPlanV;

    open spec fn view(&self) -> StartPlanV {
        StartPlanV {
            workspace_command: self.workspace_command.deep_view(),
            append_layout_command: self.append_layout_command@,
            spawns: Seq::new(self.spawns@.len(), |i: int| self.spawns@[i]@),
        }
    }
}

/// The workspace a start uses: the command-line override, else the general
/// section's, else none.
pub open spec fn spec_effective_workspace(
    cli: Option<Seq<char>>,
    general: Option<Seq<char>>,
) -> Option<Seq<char>> {
    if cli is Some {
        cli
    } else {
        general
    }
}

/// The plan a start run follows, as a function of the configuration, the
/// command-line overrides and the resolved layout path.
pub open spec fn spec_start_plan(
    c: ConfigV,
    cli_wd: Option<Seq<char>>,
    cli_ws: Option<Seq<char>>,
    layout_path: Seq<char>,
) -> StartPlanV {
    StartPlanV {
        workspace_command: match spec_effective_workspace(cli_ws, c.general.workspace) {
            Some(w) => Some("workspace "@ + w),
            None => None,
        },
        append_layout_command: "append_layout "@ + layout_path,
        spawns: Seq::new(
            c.applications.len(),
            |i: int|
                SpawnSpecV {
                    program: c.applications[i].command.program,
                    args: c.applications[i].command.args,
                    working_directory: spec_effective_working_directory(
                        cli_wd,
                        c.applications[i].working_directory,
                        c.general.working_directory,
                    ),
                    exec_input: c.applications[i].exec_input,
                },
        ),
    }
}

impl Exec {
    /// Copies the exec step.
    pub fn duplicate(&self) -> (r: Exec)
        ensures
            r@ == self@,
    {
        let r = Exec {
            commands: clone_strings(&self.commands),
            exec_type: self.exec_type,
            timeout: self.timeout,
        };
        proof {
            assert(r@ =~= self@);
        }
        r
    }
}

/// Computes the plan a start run follows: the optional workspace switch, the
/// append-layout command for the resolved `layout_path`, and one spawn per
/// application in launch order, each with its working directory resolved by
/// precedence (command line, then application, then general section).
pub fn plan_start(
    config: &Config,
    cli_working_directory: Option<&String>,
    cli_workspace: Option<&String>,
    layout_path: &String,
) -> (p: StartPlan)
    ensures
        p@ == spec_start_plan(
            config@,
            cli_working_directory.deep_view(),
            cli_workspace.deep_view(),
            layout_path@,
        ),
{
    let workspace_command = {
        let ws = match cli_workspace {
            Some(w) => Some(w.clone()),
            None => match &config.general.workspace {
                Some(w) => Some(w.clone()),
                None => None,
            },
        };
        match ws {
            Some(w) => Some(String::from_str("workspace ").concat(w.as_str())),
            None => None,
        }
    };
    let append_layout_command = String::from_str("append_layout ").concat(layout_path.as_str());

    let mut spawns: Vec<SpawnSpec> = Vec::new();
    let ghost cv = config@;
    let mut i: usize = 0;
    while i < config.applications.len()
        invariant
            0 <= i <= config.applications.len(),
            cv == config@,
            cv.applications.len() == config.applications.len(),
            spawns.len() == i,
            forall|k: int|
                0 <= k < i ==> spawns@[k]@ == spec_start_plan(
                    cv,
                    cli_working_directory.deep_view(),
                    cli_workspace.deep_view(),
                    layout_path@,
                ).spawns[k],
        decreases config.applications.len() - i,
    {
        let app = &config.applications[i];
        let spec = SpawnSpec {
            program: app.command.program.clone(),
            args: clone_strings(&app.command.args),
            working_directory: effective_working_directory(
                cli_working_directory,
                app.working_directory.as_ref(),
                config.general.working_directory.as_ref(),
            ),
            exec_input: match &app.exec_input {
                Some(e) => Some(e.duplicate()),
                None => None,
            },
        };
        proof {
            assert(cv.applications[i as int] == config.applications@[i as int]@);
            assert(spec@ =~= spec_start_plan(
                cv,
                cli_working_directory.deep_view(),
                cli_workspace.deep_view(),
                layout_path@,
            ).spawns[i as int]);
        }
        spawns.push(spec);
        i = i + 1;
    }
    let p = StartPlan { workspace_command, append_layout_command, spawns };
    proof {
        assert(p@ =~= spec_start_plan(
            cv,
            cli_working_directory.deep_view(),
            cli_workspace.deep_view(),
            layout_path@,
        ));
    }
    p
}

/// What must happen to turn a layout value into a concrete file path.
#[derive(Debug, PartialEq, Eq)]
pub enum LayoutSource {
    /// Write these contents to a transient file and use its path; the file
    /// must outlive the append-layout call.
    WriteTransient(String),
    /// Look the named managed layout up; fail with an unknown-config error if
    /// it does not exist.
    LookupManaged(String),
    /// Use this path as it stands; its existence is checked by verification,
    /// not at resolution time.
    UsePath(String),
}

/// Says what must happen to turn the layout into a concrete file path:
/// inline contents go to a transient file, a managed name is looked up, and
/// a path is used as it stands.
pub fn resolve_layout_source(layout: &Layout) -> (r: LayoutSource)
    ensures
        match layout@ {
            LayoutV::Contents(s) => r matches LayoutSource::WriteTransient(c) && c@ == s,
            LayoutV::Managed(n) => r matches LayoutSource::LookupManaged(m) && m@ == n,
            LayoutV::Path(p) => r matches LayoutSource::UsePath(q) && q@ == p,
        },
{
    match layout {
        Layout::Contents(s) => LayoutSource::WriteTransient(s.clone()),
        Layout::Managed(n) => LayoutSource::LookupManaged(n.clone()),
        Layout::Path(p) => LayoutSource::UsePath(p.clone()),
    }
}

/// The application working directories from index `i` on, those that are set,
/// in order.
pub open spec fn spec_application_wds(
    apps: Seq<crate::types::ApplicationV>,
    i: int,
) -> Seq<Seq<char>>
    decreases apps.len() - i,
{
    if i < 0 || i >= apps.len() {
        Seq::empty()
    } else {
        match apps[i].working_directory {
            Some(w) => seq![w] + spec_application_wds(apps, i + 1),
            None => spec_application_wds(apps, i + 1),
        }
    }
}

/// The paths a configuration references, in verification order: the general
/// working directory, the layout path when the layout is a path, then each
/// application's working directory.
pub open spec fn spec_referenced_paths(c: ConfigV) -> Seq<Seq<char>> {
    let general_wd = match c.general.working_directory {
        Some(w) => seq![w],
        None => Seq::<Seq<char>>::empty(),
    };
    let layout_path = match c.general.layout {
        LayoutV::Path(p) => seq![p],
        _ => Seq::<Seq<char>>::empty(),
    };
    general_wd + layout_path + spec_application_wds(c.applications, 0)
}

/// Collects the paths a configuration references, in verification order.
pub fn referenced_paths(config: &Config) -> (r: Vec<String>)
    ensures
        r.deep_view() == spec_referenced_paths(config@),
{
    let ghost cv = config@;
    let mut out: Vec<String> = Vec::new();
    match &config.general.working_directory {
        Some(w) => {
            out.push(w.clone());
        },
        None => {},
    }
    match &config.general.layout {
        Layout::Path(p) => {
            out.push(p.clone());
        },
        _ => {},
    }
    let ghost head = out.deep_view();
    proof {
        assert(head =~= (match cv.general.working_directory {
            Some(w) => seq![w],
            None => Seq::<Seq<char>>::empty(),
        }) + (match cv.general.layout {
            LayoutV::Path(p) => seq![p],
            _ => Seq::<Seq<char>>::empty(),
        }));
    }
    let mut i: usize = 0;
    while i < config.applications.len()
        invariant
            0 <= i <= config.applications.len(),
            cv == config@,
            cv.applications.len() == config.applications.len(),
            out.deep_view() + spec_application_wds(cv.applications, i as int) =~= head
                + spec_application_wds(cv.applications, 0),
        decreases config.applications.len() - i,
    {
        let ghost before = out.deep_view();
        proof {
            assert(cv.applications[i as int] == config.applications@[i as int]@);
            assert(spec_application_wds(cv.applications, i as int) == (
            match cv.applications[i as int].working_directory {
                Some(w) => seq![w] + spec_application_wds(cv.applications, i + 1),
                None => spec_application_wds(cv.applications, i + 1),
            }));
        }
        match &config.applications[i].working_directory {
            Some(w) => {
                out.push(w.clone());
                proof {
                    assert(out.deep_view() =~= before.push(w@));
                    assert(out.deep_view() + spec_application_wds(cv.applications, i + 1)
                        =~= head + spec_application_wds(cv.applications, 0));
                }
            },
            None => {},
        }
        i = i + 1;
    }
    proof {
        assert(spec_application_wds(cv.applications, cv.applications.len() as int)
            =~= Seq::<Seq<char>>::empty());
        assert(out.deep_view() =~= out.deep_view() + spec_application_wds(
            cv.applications,
            cv.applications.len() as int,
        ));
        assert(out.deep_view() =~= spec_referenced_paths(cv));
    }
    out
}

/// The managed layout a configuration refers to, if its layout is a managed
/// reference.
pub fn managed_layout_name(config: &Config) -> (r: Option<String>)
    ensures
        match config@.general.layout {
            LayoutV::Managed(n) => r matches Some(m) && m@ == n,
            _ => r is None,
        },
{
    match &config.general.layout {
        Layout::Managed(n) => Some(n.clone()),
        _ => None,
    }
}

/// Whether verification succeeds, at spec level: a managed layout reference
/// must name an existing layout, and every referenced path must exist.
pub open spec fn spec_verify_ok(
    c: ConfigV,
    managed: Seq<Seq<char>>,
    path_exists: Seq<bool>,
) -> bool {
    &&& match c.general.layout {
        LayoutV::Managed(n) => spec_names_contain(managed, n),
        _ => true,
    }
    &&& forall|i: int| 0 <= i < path_exists.len() ==> path_exists[i]
}

/// Decides verification from the on-disk facts: `managed` are the existing
/// managed-layout names, and `path_exists[i]` says whether the `i`-th
/// referenced path (in [`referenced_paths`]'s order) exists. A dangling
/// managed reference is an unknown-config error; otherwise the first missing
/// path is reported, and a configuration with none is accepted.
pub fn verify_resolved(
    config: &Config,
    managed: &Vec<String>,
    paths: &Vec<String>,
    path_exists: &Vec<bool>,
) -> (r: Result<(), ErrorKind>)
    requires
        paths@.len() == path_exists@.len(),
    ensures
        r is Ok <==> spec_verify_ok(config@, managed.deep_view(), path_exists@),
        (match config@.general.layout {
            LayoutV::Managed(n) => !spec_names_contain(managed.deep_view(), n),
            _ => false,
        }) ==> (r matches Err(e) && e matches ErrorKind::UnknownConfig(p, m) && p@ == "layouts"@
            && m@ == config@.general.layout->Managed_0),
        (r is Err && (match config@.general.layout {
            LayoutV::Managed(n) => spec_names_contain(managed.deep_view(), n),
            _ => true,
        })) ==> exists|i: int|
            0 <= i < path_exists@.len() && !path_exists@[i] && (forall|j: int|
                0 <= j < i ==> path_exists@[j]) && (r matches Err(e) && e matches
                ErrorKind::PathDoesntExist(q) && q@ == #[trigger] paths.deep_view()[i]),
{
    match managed_layout_name(config) {
        Some(name) => {
            if !names_contain(managed, &name) {
                return Err(ErrorKind::UnknownConfig(String::from_str("layouts"), name));
            }
        },
        None => {},
    }
    let mut i: usize = 0;
    while i < path_exists.len()
        invariant
            0 <= i <= path_exists.len(),
            paths@.len() == path_exists@.len(),
            forall|j: int| 0 <= j < i ==> path_exists@[j],
            match config@.general.layout {
                LayoutV::Managed(n) => spec_names_contain(managed.deep_view(), n),
                _ => true,
            },
        decreases path_exists.len() - i,
    {
        if !path_exists[i] {
            proof {
                assert(paths.deep_view()[i as int] == paths@[i as int]@);
            }
            return Err(ErrorKind::PathDoesntExist(paths[i].clone()));
        }
        i = i + 1;
    }
    Ok(())
}

} // verus!
