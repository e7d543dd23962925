//! Parsing the configuration types from TOML text.

use i3nator::types::{
    Application, ApplicationCommand, Config, Duration, Exec, ExecType, General, Layout,
};

#[test]
fn full_config() {
    let expected = Config {
        general: General {
            working_directory: Some("/path/to/my/working/directory".to_string()),
            workspace: Some("0".to_string()),
            layout: Layout::Path("/path/to/my/layout.json".to_string()),
        },
        applications: vec![Application {
            command: ApplicationCommand {
                program: "mycommand".to_string(),
                args: vec!["--with".to_string(), "multiple args".to_string()],
            },
            working_directory: Some("/path/to/a/different/working/directory".to_string()),
            exec_input: Some(Exec {
                commands: vec!["command one".to_string(), "command two".to_string()],
                exec_type: ExecType::TextNoReturn,
                timeout: Duration::from_secs(5),
            }),
        }],
    };

    let actual = Config::from_toml_str(
        r#"[general]
           working_directory = "/path/to/my/working/directory"
           workspace = "0"
           layout = "/path/to/my/layout.json"

           [[applications]]
           command = "mycommand --with 'multiple args'"
           working_directory = "/path/to/a/different/working/directory"
           exec = { commands = ["command one", "command two"], exec_type = "text_no_return" }
           "#,
        &vec![],
        None,
    )
    .unwrap();
    assert_eq!(actual, expected);
}

#[test]
fn application_command_str() {
    let expected = Application {
        command: ApplicationCommand {
            program: "mycommand".to_string(),
            args: vec!["--with".to_string(), "multiple args".to_string()],
        },
        working_directory: None,
        exec_input: None,
    };

    let actual =
        Application::from_toml_str(r#"command = "mycommand --with 'multiple args'""#, None)
            .unwrap();
    assert_eq!(actual, expected);
}

#[test]
fn application_command_str_no_args() {
    let expected = Application {
        command: ApplicationCommand {
            program: "mycommand".to_string(),
            args: vec![],
        },
        working_directory: None,
        exec_input: None,
    };

    let actual = Application::from_toml_str(r#"command = "mycommand""#, None).unwrap();
    assert_eq!(actual, expected);
}

#[test]
fn application_command_empty_str() {
    assert!(Application::from_toml_str(r#"command = """#, None).is_err());
}

#[test]
fn application_command_seq() {
    let expected = Application {
        command: ApplicationCommand {
            program: "mycommand".to_string(),
            args: vec!["--with".to_string(), "multiple args".to_string()],
        },
        working_directory: None,
        exec_input: None,
    };

    let actual =
        Application::from_toml_str(r#"command = ["mycommand", "--with", "multiple args"]"#, None)
            .unwrap();
    assert_eq!(actual, expected);
}

#[test]
fn application_command_seq_no_args() {
    let expected = Application {
        command: ApplicationCommand {
            program: "mycommand".to_string(),
            args: vec![],
        },
        working_directory: None,
        exec_input: None,
    };

    let actual = Application::from_toml_str(r#"command = ["mycommand"]"#, None).unwrap();
    assert_eq!(actual, expected);
}

#[test]
fn application_command_empty_seq() {
    assert!(Application::from_toml_str(r#"command = []"#, None).is_err());
}

#[test]
fn application_command_map() {
    let expected = Application {
        command: ApplicationCommand {
            program: "mycommand".to_string(),
            args: vec!["--with".to_string(), "multiple args".to_string()],
        },
        working_directory: None,
        exec_input: None,
    };

    let actual = Application::from_toml_str(
        r#"command = { program = "mycommand", args = ["--with", "multiple args"] }"#,
        None,
    )
    .unwrap();
    assert_eq!(actual, expected);
}

#[test]
fn application_command_map_no_args() {
    let expected = Application {
        command: ApplicationCommand {
            program: "mycommand".to_string(),
            args: vec![],
        },
        working_directory: None,
        exec_input: None,
    };

    let actual =
        Application::from_toml_str(r#"command = { program = "mycommand" }"#, None).unwrap();
    assert_eq!(actual, expected);
}

#[test]
fn duration_secs() {
    let expected = Exec {
        commands: vec![],
        exec_type: ExecType::Text,
        timeout: Duration::from_secs(10),
    };

    let actual = Exec::from_toml_str(
        r#"commands = []
           timeout = 10"#,
    )
    .unwrap();
    assert_eq!(actual, expected);
}

#[test]
fn duration_map() {
    let expected = Exec {
        commands: vec![],
        exec_type: ExecType::Text,
        timeout: Duration::new(10, 42),
    };

    let actual = Exec::from_toml_str(
        r#"commands = []
           timeout = { secs = 10, nanos = 42 }"#,
    )
    .unwrap();
    assert_eq!(actual, expected);
}

#[test]
fn duration_str() {
    assert!(Exec::from_toml_str(
        r#"commands = []
                              timeout = "10""#,
    )
    .is_err());
}

#[test]
fn exec_commands_only() {
    let expected = Exec {
        commands: vec!["command one".to_string(), "command two".to_string()],
        exec_type: ExecType::Text,
        timeout: Duration::from_secs(5),
    };

    let actual = Exec::from_toml_str(r#"commands = ["command one", "command two"]"#).unwrap();
    assert_eq!(actual, expected);
}

#[test]
fn exec_commands_and_type() {
    let expected = Exec {
        commands: vec!["command one".to_string(), "command two".to_string()],
        exec_type: ExecType::TextNoReturn,
        timeout: Duration::from_secs(5),
    };

    let actual = Exec::from_toml_str(
        r#"commands = ["command one", "command two"]
           exec_type = "text_no_return""#,
    )
    .unwrap();
    assert_eq!(actual, expected);
}

#[test]
fn exec_commands_type_and_timeout() {
    let expected = Exec {
        commands: vec!["command one".to_string(), "command two".to_string()],
        exec_type: ExecType::TextNoReturn,
        timeout: Duration::from_secs(10),
    };

    let actual = Exec::from_toml_str(
        r#"commands = ["command one", "command two"]
           exec_type = "text_no_return"
           timeout = 10"#,
    )
    .unwrap();
    assert_eq!(actual, expected);
}

#[test]
fn exec_str() {
    let expected = Application {
        command: ApplicationCommand {
            program: "-".to_string(),
            args: vec![],
        },
        working_directory: None,
        exec_input: Some(Exec {
            commands: vec!["command one".to_string()],
            exec_type: ExecType::Text,
            timeout: Duration::from_secs(5),
        }),
    };

    let actual = Application::from_toml_str(
        r#"command = "-"
           exec = "command one""#,
        None,
    )
    .unwrap();
    assert_eq!(actual, expected);
}

#[test]
fn exec_seq() {
    let expected = Application {
        command: ApplicationCommand {
            program: "-".to_string(),
            args: vec![],
        },
        working_directory: None,
        exec_input: Some(Exec {
            commands: vec!["command one".to_string(), "command two".to_string()],
            exec_type: ExecType::Text,
            timeout: Duration::from_secs(5),
        }),
    };

    let actual = Application::from_toml_str(
        r#"command = "-"
           exec = ["command one", "command two"]"#,
        None,
    )
    .unwrap();
    assert_eq!(actual, expected);
}
