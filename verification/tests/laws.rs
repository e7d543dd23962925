//! Concrete checks of the library's stated behaviour: command splitting,
//! working-directory precedence, layout classification, listing, planning,
//! input driving, the verify loop, and the TOML round trip.

use i3nator::configfiles::{config_path, list_names};
use i3nator::errors::ErrorKind;
use i3nator::inputs::{continue_with_next_application, exec_invocations, input_step_outcome,
                      StepFailure};
use i3nator::project::{managed_layout_name, plan_start, referenced_paths, resolve_layout_source,
                       verify_resolved, LayoutSource};
use i3nator::session::{choose_editor, initial_verify_state, verify_done, verify_step,
                       VerifyAction, VerifyEvent, VerifyState};
use i3nator::shlex::split;
use i3nator::types::{classify_layout, tilde, Application, ApplicationCommand, Config, Duration,
                     Exec, ExecType, General, Layout};
use i3nator::workdir::effective_working_directory;

fn s(x: &str) -> String {
    x.to_string()
}

// --- Command splitting ---

#[test]
fn split_with_quoted_args() {
    assert_eq!(
        split("mycommand --with 'multiple args'"),
        Some(vec![s("mycommand"), s("--with"), s("multiple args")])
    );
}

#[test]
fn split_empty_string() {
    assert_eq!(split(""), None);
}

#[test]
fn split_double_quotes() {
    assert_eq!(split(r#"prog "a b" c"#), Some(vec![s("prog"), s("a b"), s("c")]));
}

#[test]
fn split_unterminated_quote_keeps_earlier_words() {
    assert_eq!(split("a 'bc"), Some(vec![s("a")]));
    assert_eq!(split("'bc"), None);
}


#[test]
fn split_consecutive_separators_yield_empty_words() {
    // Extra whitespace between words produces empty words, which the
    // splitter keeps; trimming only strips quote characters.
    assert_eq!(split("a  b"), Some(vec![s("a"), s(""), s("b")]));
    assert_eq!(split("a\tb\nc"), Some(vec![s("a"), s("b"), s("c")]));
}

#[test]
fn split_trims_quotes_from_word_ends() {
    assert_eq!(split("''"), Some(vec![s("")]));
    assert_eq!(split("'abc'"), Some(vec![s("abc")]));
}

// --- Working-directory precedence: all eight presence combinations ---

#[test]
fn working_directory_precedence() {
    let a = s("A");
    let b = s("B");
    let c = s("C");
    assert_eq!(effective_working_directory(Some(&a), Some(&b), Some(&c)), Some(s("A")));
    assert_eq!(effective_working_directory(Some(&a), Some(&b), None), Some(s("A")));
    assert_eq!(effective_working_directory(Some(&a), None, Some(&c)), Some(s("A")));
    assert_eq!(effective_working_directory(Some(&a), None, None), Some(s("A")));
    assert_eq!(effective_working_directory(None, Some(&b), Some(&c)), Some(s("B")));
    assert_eq!(effective_working_directory(None, Some(&b), None), Some(s("B")));
    assert_eq!(effective_working_directory(None, None, Some(&c)), Some(s("C")));
    assert_eq!(effective_working_directory(None, None, None), None);
}

// --- Layout classification ---

#[test]
fn layout_with_brace_is_contents() {
    let managed = vec![s("mylayout")];
    let home = s("/home/user");
    assert_eq!(
        classify_layout(&s(r#"{ "nodes": [] }"#), &managed, Some(&home)),
        Layout::Contents(s(r#"{ "nodes": [] }"#))
    );
}

#[test]
fn layout_matching_managed_name_is_managed() {
    let managed = vec![s("mylayout")];
    assert_eq!(
        classify_layout(&s("mylayout"), &managed, None),
        Layout::Managed(s("mylayout"))
    );
}

#[test]
fn layout_other_is_path_with_tilde_expanded() {
    let managed = vec![s("mylayout")];
    let home = s("/home/user");
    assert_eq!(
        classify_layout(&s("~/layout.json"), &managed, Some(&home)),
        Layout::Path(s("/home/user/layout.json"))
    );
    assert_eq!(
        classify_layout(&s("/abs/layout.json"), &managed, Some(&home)),
        Layout::Path(s("/abs/layout.json"))
    );
}

#[test]
fn tilde_expansion_cases() {
    let home = s("/home/user");
    assert_eq!(tilde("~", Some(&home)), s("/home/user"));
    assert_eq!(tilde("~/x", Some(&home)), s("/home/user/x"));
    assert_eq!(tilde("~other/x", Some(&home)), s("~other/x"));
    assert_eq!(tilde("plain", Some(&home)), s("plain"));
    assert_eq!(tilde("~/x", None), s("~/x"));
    assert_eq!(tilde("", Some(&home)), s(""));
}

// --- Configuration file naming and listing ---

#[test]
fn config_path_joins_prefix_name_and_extension() {
    assert_eq!(config_path("projects", "demo"), s("projects/demo.toml"));
}

#[test]
fn list_names_sorts_and_strips_stems() {
    let files = vec![s("zeta.toml"), s("alpha.toml"), s("mid.toml")];
    assert_eq!(list_names(&files), vec![s("alpha"), s("mid"), s("zeta")]);
}

#[test]
fn list_names_twice_is_identical() {
    let files = vec![s("b.toml"), s("a.toml"), s("c.toml")];
    let first = list_names(&files);
    let second = list_names(&files);
    assert_eq!(first, second);
    assert_eq!(first, vec![s("a"), s("b"), s("c")]);
}

#[test]
fn list_names_keeps_hidden_files_whole() {
    let files = vec![s(".toml"), s("plain")];
    assert_eq!(list_names(&files), vec![s(".toml"), s("plain")]);
}

// --- Start planning ---

fn config_with(layout: Layout, workspace: Option<String>, apps: Vec<Application>) -> Config {
    Config {
        general: General {
            working_directory: None,
            workspace,
            layout,
        },
        applications: apps,
    }
}

#[test]
fn start_plan_without_workspace_skips_the_switch() {
    let config = config_with(
        Layout::Path(s("/tmp/x.json")),
        None,
        vec![Application {
            command: ApplicationCommand { program: s("echo"), args: vec![s("hi")] },
            working_directory: None,
            exec_input: None,
        }],
    );
    let plan = plan_start(&config, None, None, &s("/tmp/x.json"));
    assert_eq!(plan.workspace_command, None);
    assert_eq!(plan.append_layout_command, s("append_layout /tmp/x.json"));
    assert_eq!(plan.spawns.len(), 1);
    assert_eq!(plan.spawns[0].program, s("echo"));
    assert_eq!(plan.spawns[0].args, vec![s("hi")]);
    assert_eq!(plan.spawns[0].working_directory, None);
    assert!(plan.spawns[0].exec_input.is_none());
}

#[test]
fn start_plan_workspace_override_wins() {
    let config = config_with(Layout::Path(s("/l.json")), Some(s("3")), vec![]);
    let plan = plan_start(&config, None, Some(&s("9")), &s("/l.json"));
    assert_eq!(plan.workspace_command, Some(s("workspace 9")));
    let plan = plan_start(&config, None, None, &s("/l.json"));
    assert_eq!(plan.workspace_command, Some(s("workspace 3")));
}

#[test]
fn resolve_layout_source_cases() {
    assert_eq!(
        resolve_layout_source(&Layout::Contents(s("{}"))),
        LayoutSource::WriteTransient(s("{}"))
    );
    assert_eq!(
        resolve_layout_source(&Layout::Managed(s("main"))),
        LayoutSource::LookupManaged(s("main"))
    );
    assert_eq!(
        resolve_layout_source(&Layout::Path(s("/p.json"))),
        LayoutSource::UsePath(s("/p.json"))
    );
}

// --- Verification ---

#[test]
fn referenced_paths_in_order() {
    let config = Config {
        general: General {
            working_directory: Some(s("/wd")),
            workspace: None,
            layout: Layout::Path(s("/l.json")),
        },
        applications: vec![
            Application {
                command: ApplicationCommand { program: s("a"), args: vec![] },
                working_directory: Some(s("/awd")),
                exec_input: None,
            },
            Application {
                command: ApplicationCommand { program: s("b"), args: vec![] },
                working_directory: None,
                exec_input: None,
            },
        ],
    };
    assert_eq!(referenced_paths(&config), vec![s("/wd"), s("/l.json"), s("/awd")]);
    assert_eq!(managed_layout_name(&config), None);
}

#[test]
fn verify_reports_first_missing_path() {
    let config = config_with(Layout::Path(s("/l.json")), None, vec![]);
    let paths = referenced_paths(&config);
    assert_eq!(paths, vec![s("/l.json")]);
    let r = verify_resolved(&config, &vec![], &paths, &vec![false]);
    assert_eq!(r, Err(ErrorKind::PathDoesntExist(s("/l.json"))));
    let r = verify_resolved(&config, &vec![], &paths, &vec![true]);
    assert_eq!(r, Ok(()));
}

#[test]
fn verify_rejects_dangling_managed_reference() {
    let config = config_with(Layout::Managed(s("gone")), None, vec![]);
    let paths = referenced_paths(&config);
    assert_eq!(paths, Vec::<String>::new());
    let r = verify_resolved(&config, &vec![s("other")], &paths, &vec![]);
    assert_eq!(r, Err(ErrorKind::UnknownConfig(s("layouts"), s("gone"))));
    let r = verify_resolved(&config, &vec![s("gone")], &paths, &vec![]);
    assert_eq!(r, Ok(()));
}

// --- Input driving ---

#[test]
fn keys_exec_is_one_invocation() {
    let e = Exec {
        commands: vec![s("abc")],
        exec_type: ExecType::Keys,
        timeout: Duration::from_secs(1),
    };
    let invs = exec_invocations(&s("4242"), &e);
    assert_eq!(invs.len(), 1);
    assert_eq!(invs[0].timeout, Duration::from_secs(1));
    assert_eq!(
        invs[0].args,
        vec![
            s("search"),
            s("--sync"),
            s("--onlyvisible"),
            s("--any"),
            s("--pid"),
            s("4242"),
            s("ignorepattern"),
            s("windowfocus"),
            s("--sync"),
            s("%1"),
            s("key"),
            s("--window"),
            s("%1"),
            s("abc"),
        ]
    );
}

#[test]
fn text_exec_types_then_presses_return() {
    let e = Exec {
        commands: vec![s("ls"), s("pwd")],
        exec_type: ExecType::Text,
        timeout: Duration::from_secs(5),
    };
    let invs = exec_invocations(&s("7"), &e);
    assert_eq!(invs.len(), 4);
    assert_eq!(invs[0].args[10..], [s("type"), s("--window"), s("%1"), s("ls")]);
    assert_eq!(invs[1].args[10..], [s("key"), s("--window"), s("%1"), s("Return")]);
    assert_eq!(invs[2].args[10..], [s("type"), s("--window"), s("%1"), s("pwd")]);
    assert_eq!(invs[3].args[10..], [s("key"), s("--window"), s("%1"), s("Return")]);
}

#[test]
fn text_no_return_exec_omits_return() {
    let e = Exec {
        commands: vec![s("ls")],
        exec_type: ExecType::TextNoReturn,
        timeout: Duration::from_secs(5),
    };
    let invs = exec_invocations(&s("7"), &e);
    assert_eq!(invs.len(), 1);
    assert_eq!(invs[0].args[10..], [s("type"), s("--window"), s("%1"), s("ls")]);
}

#[test]
fn timeout_enforcement() {
    assert_eq!(input_step_outcome(true), Ok(()));
    assert_eq!(input_step_outcome(false), Err(ErrorKind::TextOrKeyInputFailed));
}

#[test]
fn input_failure_does_not_abort_later_applications() {
    assert!(continue_with_next_application(Some(&StepFailure::InputFailed)));
    assert!(!continue_with_next_application(Some(&StepFailure::SpawnFailed)));
    assert!(continue_with_next_application(None));
}

// --- The verify/retry loop ---

#[test]
fn verify_loop_accepts_on_a_after_failure() {
    // A fresh project template carries no applications or layout, so its
    // verification fails; pressing `a` accepts it anyway.
    let template = "# i3nator project configuration\n";
    assert!(Config::from_toml_str(template, &vec![], None).is_err());

    let (state, action) = initial_verify_state();
    assert_eq!(action, VerifyAction::RunVerify);
    let (state, action) = verify_step(state, VerifyEvent::VerifyFailed);
    assert_eq!((state, action), (VerifyState::FailedAwaitingChoice, VerifyAction::Prompt));
    // Any other key re-prompts without consuming the choice.
    let (state, action) = verify_step(state, VerifyEvent::KeyPressed('x'));
    assert_eq!((state, action), (VerifyState::FailedAwaitingChoice, VerifyAction::Prompt));
    let (state, action) = verify_step(state, VerifyEvent::KeyPressed('A'));
    assert_eq!((state, action), (VerifyState::Accepted, VerifyAction::Finish));
    assert!(verify_done(state));
}

#[test]
fn verify_loop_reopens_editor_on_r() {
    let (state, _) = verify_step(VerifyState::Verifying, VerifyEvent::VerifyFailed);
    let (state, action) = verify_step(state, VerifyEvent::KeyPressed('r'));
    assert_eq!((state, action), (VerifyState::Retried, VerifyAction::ReopenEditor));
    let (state, action) = verify_step(state, VerifyEvent::EditorClosed);
    assert_eq!((state, action), (VerifyState::Verifying, VerifyAction::RunVerify));
    let (state, action) = verify_step(state, VerifyEvent::VerifySucceeded);
    assert_eq!((state, action), (VerifyState::Accepted, VerifyAction::Finish));
}

#[test]
fn editor_choice() {
    assert_eq!(choose_editor(Some(s("vi")), Some(s("nano"))), Ok(s("vi")));
    assert_eq!(choose_editor(None, Some(s("nano"))), Ok(s("nano")));
    // A set-but-empty variable counts as unset: EDITOR still applies.
    assert_eq!(choose_editor(Some(s("")), Some(s("nano"))), Ok(s("nano")));
    assert_eq!(choose_editor(Some(s("")), Some(s(""))), Err(ErrorKind::EditorNotFound));
    assert_eq!(choose_editor(Some(s("")), None), Err(ErrorKind::EditorNotFound));
    assert_eq!(choose_editor(None, None), Err(ErrorKind::EditorNotFound));
}

// --- Errors ---

#[test]
fn error_messages() {
    assert_eq!(
        ErrorKind::EditorNotFound.message(),
        "cannot find an editor. Please specify $VISUAL or $EDITOR"
    );
    assert_eq!(
        ErrorKind::PathDoesntExist(s("/nope")).message(),
        "path doesn't exist: '/nope'"
    );
    assert_eq!(
        ErrorKind::UnknownConfig(s("layouts"), s("gone")).message(),
        "config of type 'layouts' is unknown: 'gone'"
    );
    assert_eq!(
        ErrorKind::ConfigExists(s("projects"), s("demo")).message(),
        "config of type 'projects' already exists: 'demo'"
    );
    assert_eq!(
        ErrorKind::InvalidUtf8Path(s("/bad")).message(),
        "path is invalid UTF8: '/bad'"
    );
    assert_eq!(
        ErrorKind::CommandSplittingFailed(s("")).message(),
        "command splitting failed: ''"
    );
    assert_eq!(
        ErrorKind::TextOrKeyInputFailed.message(),
        "inputting text or key-presses into an application failed"
    );
}

#[test]
fn empty_command_reports_the_fixed_message() {
    // Both the single-string and the empty-array forms fail with the same
    // validation message.
    let err = Application::from_toml_str(r#"command = """#, None).unwrap_err();
    assert_eq!(err, ErrorKind::Parse(s("command can not be empty")));
    let err = Application::from_toml_str(r#"command = []"#, None).unwrap_err();
    assert_eq!(err, ErrorKind::Parse(s("command can not be empty")));
}

#[test]
fn parse_rejects_unknown_fields() {
    assert!(Config::from_toml_str(
        r#"[general]
           layout = "/l.json"
           surprising = 1

           [[applications]]
           command = "x""#,
        &vec![],
        None,
    )
    .is_err());
}

#[test]
fn parse_rejects_negative_timeout() {
    assert!(Exec::from_toml_str(
        r#"commands = ["x"]
           timeout = -1"#,
    )
    .is_err());
}

#[test]
fn parse_requires_layout() {
    assert!(Config::from_toml_str(
        r#"[general]
           workspace = "1"

           [[applications]]
           command = "x""#,
        &vec![],
        None,
    )
    .is_err());
}

#[test]
fn parse_rejects_unknown_exec_type() {
    assert!(Exec::from_toml_str(
        r#"commands = ["x"]
           exec_type = "mouse""#,
    )
    .is_err());
}
