//! Serializing a configuration to TOML text and parsing it back.

use i3nator::emit::config_to_toml_string;
use i3nator::types::{
    Application, ApplicationCommand, Config, Duration, Exec, ExecType, General, Layout,
};

fn s(x: &str) -> String {
    x.to_string()
}

fn sample_config() -> Config {
    Config {
        general: General {
            working_directory: Some(s("/work")),
            workspace: Some(s("2")),
            layout: Layout::Path(s("/layouts/main.json")),
        },
        applications: vec![
            Application {
                command: ApplicationCommand {
                    program: s("term"),
                    args: vec![s("-e"), s("editor file")],
                },
                working_directory: Some(s("/proj")),
                exec_input: Some(Exec {
                    commands: vec![s("make"), s("make check")],
                    exec_type: ExecType::TextNoReturn,
                    timeout: Duration::new(7, 125),
                }),
            },
            Application {
                command: ApplicationCommand { program: s("browser"), args: vec![] },
                working_directory: None,
                exec_input: None,
            },
        ],
    }
}

#[test]
fn config_survives_a_text_round_trip() {
    let config = sample_config();
    let text = config_to_toml_string(&config).unwrap();
    let reparsed = Config::from_toml_str(&text, &vec![], None).unwrap();
    assert_eq!(reparsed, config);
}

#[test]
fn managed_layout_survives_a_text_round_trip() {
    let mut config = sample_config();
    config.general.layout = Layout::Managed(s("main"));
    let text = config_to_toml_string(&config).unwrap();
    let reparsed = Config::from_toml_str(&text, &vec![s("main")], None).unwrap();
    assert_eq!(reparsed, config);
}

#[test]
fn inline_contents_survive_a_text_round_trip() {
    let mut config = sample_config();
    config.general.layout = Layout::Contents(s(r#"{ "nodes": [] }"#));
    let text = config_to_toml_string(&config).unwrap();
    let reparsed = Config::from_toml_str(&text, &vec![], None).unwrap();
    assert_eq!(reparsed, config);
}

#[test]
fn serialized_text_is_real_toml() {
    // The rendered text must be a plain TOML document other readers accept.
    let text = config_to_toml_string(&sample_config()).unwrap();
    assert!(text.contains("[general]"));
    assert!(text.contains("[[applications]]"));
    let value: toml::Table = toml::from_str(&text).unwrap();
    assert!(value.contains_key("general"));
    assert!(value.contains_key("applications"));
}
