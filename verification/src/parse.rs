//! Parsing a configuration from a TOML value tree.
//!
//! The grammar matches the configuration schema: `[general]` with
//! `working_directory`, `workspace` and `layout`, and `[[applications]]`
//! entries with `command`, `working_directory` and `exec`. The `general`,
//! `applications` and per-application tables reject unknown fields; the
//! `command` and `exec` map forms ignore unknown fields. `command` and `exec`
//! accept a single string, an array of strings, or a map; a timeout accepts
//! whole seconds or a `{ secs, nanos }` map.
//!
//! Every function is verified to return exactly what the spec-level parser
//! (`spec_parse_config` and the functions under it) says; `None` there is an
//! error here.

use vstd::prelude::*;

use crate::errors::ErrorKind;
use crate::shlex;
use crate::toml_doc::{
    TomlV, TomlValue, entries_model, items_model, keys_among, keys_unique, lemma_arr_model,
    lemma_table_model, spec_keys_among, spec_keys_unique, spec_table_get, table_get,
};
use crate::types::{
    Application, ApplicationCommand, ApplicationCommandV, ApplicationV, Config, ConfigV, Duration,
    Exec, ExecType, ExecV, General, GeneralV, classify_layout, spec_classify_layout, spec_tilde,
    tilde,
};

verus! {

/// The strings of an all-string array; `None` if any item is not a string.
pub open spec fn spec_parse_strings(items: Seq<TomlV>) -> Option<Seq<Seq<char>>> {
    if forall|i: int| 0 <= i < items.len() ==> (#[trigger] items[i]) is Str {
        Some(Seq::new(items.len(), |i: int| items[i]->Str_0))
    } else {
        None
    }
}

/// The exec type a configuration string names.
pub open spec fn spec_parse_exec_type(s: Seq<char>) -> Option<ExecType> {
    if s == "text"@ {
        Some(ExecType::Text)
    } else if s == "text_no_return"@ {
        Some(ExecType::TextNoReturn)
    } else if s == "keys"@ {
        Some(ExecType::Keys)
    } else {
        None
    }
}

/// A timeout: either whole seconds, or a `{ secs, nanos }` map with
/// non-negative seconds and nanoseconds below one second.
pub open spec fn spec_parse_duration(t: TomlV) -> Option<Duration> {
    match t {
        TomlV::Int(i) => if 0 <= i {
            Some(Duration { secs: i as u64, nanos: 0u32 })
        } else {
            None
        },
        TomlV::Table(es) => {
            if !spec_keys_unique(es) || !spec_keys_among(es, seq!["secs"@, "nanos"@]) {
                None
            } else {
                match (spec_table_get(es, "secs"@), spec_table_get(es, "nanos"@)) {
                    (Some(TomlV::Int(s)), Some(TomlV::Int(n))) => if 0 <= s && 0 <= n
                        < 1_000_000_000 {
                        Some(Duration { secs: s as u64, nanos: n as u32 })
                    } else {
                        None
                    },
                    _ => None,
                }
            }
        },
        _ => None,
    }
}

/// An exec step: a single string, a non-empty array of strings, or a map with
/// a required `commands` array and optional `exec_type` and `timeout`.
pub open spec fn spec_parse_exec(t: TomlV) -> Option<ExecV> {
    match t {
        TomlV::Str(s) => Some(
            ExecV {
                commands: seq![s],
                exec_type: ExecType::Text,
                timeout: Duration { secs: 5u64, nanos: 0u32 },
            },
        ),
        TomlV::Arr(items) => match spec_parse_strings(items) {
            Some(cmds) => if cmds.len() == 0 {
                None
            } else {
                Some(
                    ExecV {
                        commands: cmds,
                        exec_type: ExecType::Text,
                        timeout: Duration { secs: 5u64, nanos: 0u32 },
                    },
                )
            },
            None => None,
        },
        TomlV::Table(es) => {
            if !spec_keys_unique(es) {
                None
            } else {
                let cmds = match spec_table_get(es, "commands"@) {
                    Some(TomlV::Arr(items)) => spec_parse_strings(items),
                    _ => None,
                };
                let et = match spec_table_get(es, "exec_type"@) {
                    None => Some(ExecType::Text),
                    Some(TomlV::Str(s)) => spec_parse_exec_type(s),
                    Some(_) => None,
                };
                let to = match spec_table_get(es, "timeout"@) {
                    None => Some(Duration { secs: 5u64, nanos: 0u32 }),
                    Some(v) => spec_parse_duration(v),
                };
                match (cmds, et, to) {
                    (Some(c), Some(e), Some(d)) => Some(
                        ExecV { commands: c, exec_type: e, timeout: d },
                    ),
                    _ => None,
                }
            }
        },
        _ => None,
    }
}

/// An application command: a string to be split into words, a non-empty array
/// of strings, or a map with a required `program` and optional `args`.
pub open spec fn spec_parse_command(t: TomlV) -> Option<ApplicationCommandV> {
    match t {
        TomlV::Str(s) => match shlex::spec_split(s) {
            None => None,
            Some(words) => Some(
                ApplicationCommandV { program: words[0], args: words.drop_first() },
            ),
        },
        TomlV::Arr(items) => match spec_parse_strings(items) {
            None => None,
            Some(words) => if words.len() == 0 {
                None
            } else {
                Some(ApplicationCommandV { program: words[0], args: words.drop_first() })
            },
        },
        TomlV::Table(es) => {
            if !spec_keys_unique(es) {
                None
            } else {
                let prog = match spec_table_get(es, "program"@) {
                    Some(TomlV::Str(s)) => Some(s),
                    _ => None,
                };
                let args = match spec_table_get(es, "args"@) {
                    None => Some(Seq::<Seq<char>>::empty()),
                    Some(TomlV::Arr(items)) => spec_parse_strings(items),
                    Some(_) => None,
                };
                match (prog, args) {
                    (Some(p), Some(a)) => Some(ApplicationCommandV { program: p, args: a }),
                    _ => None,
                }
            }
        },
        _ => None,
    }
}

/// One application entry: a strict table with a required `command` and
/// optional `working_directory` (tilde-expanded) and `exec`.
pub open spec fn spec_parse_application(t: TomlV, home: Option<Seq<char>>) -> Option<
    ApplicationV,
> {
    match t {
        TomlV::Table(es) => {
            if !spec_keys_unique(es) || !spec_keys_among(
                es,
                seq!["command"@, "working_directory"@, "exec"@],
            ) {
                None
            } else {
                let cmd = match spec_table_get(es, "command"@) {
                    None => None,
                    Some(v) => spec_parse_command(v),
                };
                let wd = match spec_table_get(es, "working_directory"@) {
                    None => Some(None),
                    Some(TomlV::Str(s)) => Some(Some(spec_tilde(s, home))),
                    Some(_) => None,
                };
                let ex = match spec_table_get(es, "exec"@) {
                    None => Some(None),
                    Some(v) => match spec_parse_exec(v) {
                        Some(e) => Some(Some(e)),
                        None => None,
                    },
                };
                match (cmd, wd, ex) {
                    (Some(c), Some(w), Some(e)) => Some(
                        ApplicationV { command: c, working_directory: w, exec_input: e },
                    ),
                    _ => None,
                }
            }
        },
        _ => None,
    }
}

/// The applications, in order; `None` if any entry fails to parse.
pub open spec fn spec_parse_applications(items: Seq<TomlV>, home: Option<Seq<char>>) -> Option<
    Seq<ApplicationV>,
> {
    if forall|i: int|
        0 <= i < items.len() ==> spec_parse_application(#[trigger] items[i], home) is Some {
        Some(Seq::new(items.len(), |i: int| spec_parse_application(items[i], home)->Some_0))
    } else {
        None
    }
}

/// The general section: a strict table with optional `working_directory`
/// (tilde-expanded) and `workspace`, and a required `layout` string,
/// classified against the managed layouts.
pub open spec fn spec_parse_general(
    t: TomlV,
    managed: Seq<Seq<char>>,
    home: Option<Seq<char>>,
) -> Option<GeneralV> {
    match t {
        TomlV::Table(es) => {
            if !spec_keys_unique(es) || !spec_keys_among(
                es,
                seq!["working_directory"@, "workspace"@, "layout"@],
            ) {
                None
            } else {
                let wd = match spec_table_get(es, "working_directory"@) {
                    None => Some(None),
                    Some(TomlV::Str(s)) => Some(Some(spec_tilde(s, home))),
                    Some(_) => None,
                };
                let ws = match spec_table_get(es, "workspace"@) {
                    None => Some(None),
                    Some(TomlV::Str(s)) => Some(Some(s)),
                    Some(_) => None,
                };
                let lay = match spec_table_get(es, "layout"@) {
                    Some(TomlV::Str(s)) => Some(spec_classify_layout(s, managed, home)),
                    _ => None,
                };
                match (wd, ws, lay) {
                    (Some(w), Some(s), Some(l)) => Some(
                        GeneralV { working_directory: w, workspace: s, layout: l },
                    ),
                    _ => None,
                }
            }
        },
        _ => None,
    }
}

/// A whole configuration: a strict document table with a required `[general]`
/// table and a required `[[applications]]` array of tables.
pub open spec fn spec_parse_config(
    t: TomlV,
    managed: Seq<Seq<char>>,
    home: Option<Seq<char>>,
) -> Option<ConfigV> {
    match t {
        TomlV::Table(es) => {
            if !spec_keys_unique(es) || !spec_keys_among(es, seq!["general"@, "applications"@]) {
                None
            } else {
                let gen = match spec_table_get(es, "general"@) {
                    None => None,
                    Some(v) => spec_parse_general(v, managed, home),
                };
                let apps = match spec_table_get(es, "applications"@) {
                    Some(TomlV::Arr(items)) => spec_parse_applications(items, home),
                    _ => None,
                };
                match (gen, apps) {
                    (Some(g), Some(a)) => Some(ConfigV { general: g, applications: a }),
                    _ => None,
                }
            }
        },
        _ => None,
    }
}

/// A parse error with the given message.
fn parse_err(msg: &str) -> (r: ErrorKind)
    ensures
        r matches ErrorKind::Parse(m) && m@ == msg@,
{
    ErrorKind::Parse(String::from_str(msg))
}

/// Collects the strings of an all-string array.
pub fn parse_strings(items: &Vec<TomlValue>) -> (r: Result<Vec<String>, ErrorKind>)
    ensures
        match spec_parse_strings(items_model(items@)) {
            Some(ss) => r matches Ok(v) && v.deep_view() == ss,
            None => r is Err,
        },
{
    let ghost m = items_model(items@);
    let mut out: Vec<String> = Vec::new();
    let mut i: usize = 0;
    while i < items.len()
        invariant
            0 <= i <= items.len(),
            m == items_model(items@),
            m.len() == items.len(),
            out.len() == i,
            forall|k: int| 0 <= k < i ==> (#[trigger] m[k]) is Str,
            forall|k: int| 0 <= k < i ==> out.deep_view()[k] == m[k]->Str_0,
        decreases items.len() - i,
    {
        let ghost old_out = out;
        match &items[i] {
            TomlValue::Str(s) => {
                out.push(s.clone());
                proof {
                    assert(out.deep_view() =~= old_out.deep_view().push(s@));
                    assert(m[i as int] == items@[i as int].model());
                }
            },
            _ => {
                proof {
                    assert(!(m[i as int] is Str));
                }
                return Err(parse_err("expected a string"));
            },
        }
        i = i + 1;
    }
    proof {
        assert(spec_parse_strings(m) matches Some(ss) && out.deep_view() =~= ss);
    }
    Ok(out)
}

/// Parses an exec type name.
pub fn parse_exec_type(s: &String) -> (r: Result<ExecType, ErrorKind>)
    ensures
        match spec_parse_exec_type(s@) {
            Some(e) => r == Ok::<ExecType, ErrorKind>(e),
            None => r is Err,
        },
{
    if *s == String::from_str("text") {
        Ok(ExecType::Text)
    } else if *s == String::from_str("text_no_return") {
        Ok(ExecType::TextNoReturn)
    } else if *s == String::from_str("keys") {
        Ok(ExecType::Keys)
    } else {
        Err(parse_err("unknown exec_type"))
    }
}

/// Parses a timeout value.
pub fn parse_duration(t: &TomlValue) -> (r: Result<Duration, ErrorKind>)
    ensures
        match spec_parse_duration(t.model()) {
            Some(d) => r == Ok::<Duration, ErrorKind>(d),
            None => r is Err,
        },
{
    match t {
        TomlValue::Int(i) => {
            if *i >= 0 {
                Ok(Duration { secs: *i as u64, nanos: 0 })
            } else {
                Err(parse_err("timeout must not be negative"))
            }
        },
        TomlValue::Table(entries) => {
            proof {
                lemma_table_model(*entries);
            }
            let ghost es = entries_model(entries@);
            if !keys_unique(entries) {
                return Err(parse_err("duplicate field in timeout"));
            }
            let mut allowed: Vec<String> = Vec::new();
            allowed.push(String::from_str("secs"));
            allowed.push(String::from_str("nanos"));
            proof {
                assert(allowed.deep_view() =~= seq!["secs"@, "nanos"@]);
            }
            if !keys_among(entries, &allowed) {
                return Err(parse_err("unknown field in timeout"));
            }
            let secs_v = table_get(entries, &String::from_str("secs"));
            let nanos_v = table_get(entries, &String::from_str("nanos"));
            match (secs_v, nanos_v) {
                (Some(TomlValue::Int(s)), Some(TomlValue::Int(n))) => {
                    if *s >= 0 && *n >= 0 && *n < 1_000_000_000 {
                        Ok(Duration { secs: *s as u64, nanos: *n as u32 })
                    } else {
                        Err(parse_err("timeout out of range"))
                    }
                },
                _ => Err(parse_err("invalid timeout")),
            }
        },
        _ => Err(parse_err("invalid type for timeout")),
    }
}

/// Parses an exec step.
pub fn parse_exec(t: &TomlValue) -> (r: Result<Exec, ErrorKind>)
    ensures
        match spec_parse_exec(t.model()) {
            Some(e) => r matches Ok(x) && x@ == e,
            None => r is Err,
        },
{
    match t {
        TomlValue::Str(s) => {
            let mut commands: Vec<String> = Vec::new();
            commands.push(s.clone());
            let r = Exec {
                commands,
                exec_type: ExecType::Text,
                timeout: Duration { secs: 5, nanos: 0 },
            };
            proof {
                assert(r@.commands =~= seq![s@]);
                assert(r@ =~= spec_parse_exec(t.model())->Some_0);
            }
            Ok(r)
        },
        TomlValue::Arr(items) => {
            proof {
                lemma_arr_model(*items);
            }
            let cmds = parse_strings(items)?;
            if cmds.len() == 0 {
                return Err(parse_err("commands can not be empty"));
            }
            let r = Exec {
                commands: cmds,
                exec_type: ExecType::Text,
                timeout: Duration { secs: 5, nanos: 0 },
            };
            proof {
                assert(r@ =~= spec_parse_exec(t.model())->Some_0);
            }
            Ok(r)
        },
        TomlValue::Table(entries) => {
            proof {
                lemma_table_model(*entries);
            }
            let ghost es = entries_model(entries@);
            if !keys_unique(entries) {
                return Err(parse_err("duplicate field in exec"));
            }
            let commands = match table_get(entries, &String::from_str("commands")) {
                Some(TomlValue::Arr(items)) => {
                    proof {
                        lemma_arr_model(*items);
                    }
                    parse_strings(items)?
                },
                Some(_) => {
                    return Err(parse_err("commands must be an array of strings"));
                },
                None => {
                    return Err(parse_err("missing field commands"));
                },
            };
            let exec_type = match table_get(entries, &String::from_str("exec_type")) {
                None => ExecType::Text,
                Some(TomlValue::Str(s)) => parse_exec_type(s)?,
                Some(_) => {
                    return Err(parse_err("invalid type for exec_type"));
                },
            };
            let timeout = match table_get(entries, &String::from_str("timeout")) {
                None => Duration { secs: 5, nanos: 0 },
                Some(v) => parse_duration(v)?,
            };
            let r = Exec { commands, exec_type, timeout };
            proof {
                assert(r@ =~= spec_parse_exec(t.model())->Some_0);
            }
            Ok(r)
        },
        _ => Err(parse_err("invalid type for exec")),
    }
}

/// Parses an application command.
pub fn parse_command(t: &TomlValue) -> (r: Result<ApplicationCommand, ErrorKind>)
    ensures
        match spec_parse_command(t.model()) {
            Some(c) => r matches Ok(x) && x@ == c,
            None => r is Err,
        },
        (t.model() matches TomlV::Str(s) && shlex::spec_split(s) is None) ==> (r matches Err(e)
            && e matches ErrorKind::Parse(m) && m@ == "command can not be empty"@),
        (t.model() matches TomlV::Arr(items) && items.len() == 0) ==> (r matches Err(e)
            && e matches ErrorKind::Parse(m) && m@ == "command can not be empty"@),
{
    match t {
        TomlValue::Str(s) => {
            match shlex::split(s.as_str()) {
                None => Err(parse_err("command can not be empty")),
                Some(mut words) => {
                    proof {
                        assert(words.deep_view().len() > 0);
                    }
                    let program = words.remove(0);
                    proof {
                        assert(words.deep_view() =~= shlex::spec_split(s@)->Some_0.drop_first());
                    }
                    let r = ApplicationCommand { program, args: words };
                    proof {
                        assert(r@ =~= spec_parse_command(t.model())->Some_0);
                    }
                    Ok(r)
                },
            }
        },
        TomlValue::Arr(items) => {
            proof {
                lemma_arr_model(*items);
            }
            let mut words = parse_strings(items)?;
            if words.len() == 0 {
                return Err(parse_err("command can not be empty"));
            }
            let ghost all = words.deep_view();
            let program = words.remove(0);
            proof {
                assert(words.deep_view() =~= all.drop_first());
            }
            let r = ApplicationCommand { program, args: words };
            proof {
                assert(r@ =~= spec_parse_command(t.model())->Some_0);
            }
            Ok(r)
        },
        TomlValue::Table(entries) => {
            proof {
                lemma_table_model(*entries);
            }
            if !keys_unique(entries) {
                return Err(parse_err("duplicate field in command"));
            }
            let program = match table_get(entries, &String::from_str("program")) {
                Some(TomlValue::Str(s)) => s.clone(),
                Some(_) => {
                    return Err(parse_err("invalid type for program"));
                },
                None => {
                    return Err(parse_err("missing field program"));
                },
            };
            let args = match table_get(entries, &String::from_str("args")) {
                None => Vec::new(),
                Some(TomlValue::Arr(items)) => {
                    proof {
                        lemma_arr_model(*items);
                    }
                    parse_strings(items)?
                },
                Some(_) => {
                    return Err(parse_err("args must be an array of strings"));
                },
            };
            let r = ApplicationCommand { program, args };
            proof {
                assert(r@ =~= spec_parse_command(t.model())->Some_0);
            }
            Ok(r)
        },
        _ => Err(parse_err("invalid type for command")),
    }
}

/// Parses one application entry.
pub fn parse_application(t: &TomlValue, home: Option<&String>) -> (r: Result<
    Application,
    ErrorKind,
>)
    ensures
        match spec_parse_application(t.model(), home.deep_view()) {
            Some(a) => r matches Ok(x) && x@ == a,
            None => r is Err,
        },
{
    match t {
        TomlValue::Table(entries) => {
            proof {
                lemma_table_model(*entries);
            }
            if !keys_unique(entries) {
                return Err(parse_err("duplicate field in application"));
            }
            let mut allowed: Vec<String> = Vec::new();
            allowed.push(String::from_str("command"));
            allowed.push(String::from_str("working_directory"));
            allowed.push(String::from_str("exec"));
            proof {
                assert(allowed.deep_view() =~= seq!["command"@, "working_directory"@, "exec"@]);
            }
            if !keys_among(entries, &allowed) {
                return Err(parse_err("unknown field in application"));
            }
            let command = match table_get(entries, &String::from_str("command")) {
                None => {
                    return Err(parse_err("missing field command"));
                },
                Some(v) => parse_command(v)?,
            };
            let working_directory = match table_get(
                entries,
                &String::from_str("working_directory"),
            ) {
                None => None,
                Some(TomlValue::Str(s)) => Some(tilde(s.as_str(), home)),
                Some(_) => {
                    return Err(parse_err("invalid type for working_directory"));
                },
            };
            let exec_input = match table_get(entries, &String::from_str("exec")) {
                None => None,
                Some(v) => Some(parse_exec(v)?),
            };
            let r = Application { command, working_directory, exec_input };
            proof {
                assert(r@ =~= spec_parse_application(t.model(), home.deep_view())->Some_0);
            }
            Ok(r)
        },
        _ => Err(parse_err("an application must be a table")),
    }
}

/// Parses the ordered application list.
pub fn parse_applications(items: &Vec<TomlValue>, home: Option<&String>) -> (r: Result<
    Vec<Application>,
    ErrorKind,
>)
    ensures
        match spec_parse_applications(items_model(items@), home.deep_view()) {
            Some(apps) => r matches Ok(v) && Seq::new(v@.len(), |i: int| v@[i]@) == apps,
            None => r is Err,
        },
{
    let ghost m = items_model(items@);
    let mut out: Vec<Application> = Vec::new();
    let mut i: usize = 0;
    while i < items.len()
        invariant
            0 <= i <= items.len(),
            m == items_model(items@),
            m.len() == items.len(),
            out.len() == i,
            forall|k: int|
                0 <= k < i ==> spec_parse_application(#[trigger] m[k], home.deep_view()) is Some,
            forall|k: int|
                0 <= k < i ==> out@[k]@ == spec_parse_application(m[k], home.deep_view())->Some_0,
        decreases items.len() - i,
    {
        proof {
            assert(m[i as int] == items@[i as int].model());
        }
        let a = match parse_application(&items[i], home) {
            Ok(a) => a,
            Err(e) => {
                proof {
                    assert(!(forall|k: int|
                        0 <= k < m.len() ==> spec_parse_application(
                            #[trigger] m[k],
                            home.deep_view(),
                        ) is Some)) by {
                        assert(!(spec_parse_application(m[i as int], home.deep_view()) is Some));
                    }
                }
                return Err(e);
            },
        };
        out.push(a);
        i = i + 1;
    }
    proof {
        assert(spec_parse_applications(m, home.deep_view()) matches Some(apps) && Seq::new(
            out@.len(),
            |k: int| out@[k]@,
        ) =~= apps);
    }
    Ok(out)
}

/// Parses the general section.
pub fn parse_general(t: &TomlValue, managed: &Vec<String>, home: Option<&String>) -> (r: Result<
    General,
    ErrorKind,
>)
    ensures
        match spec_parse_general(t.model(), managed.deep_view(), home.deep_view()) {
            Some(g) => r matches Ok(x) && x@ == g,
            None => r is Err,
        },
{
    match t {
        TomlValue::Table(entries) => {
            proof {
                lemma_table_model(*entries);
            }
            if !keys_unique(entries) {
                return Err(parse_err("duplicate field in general"));
            }
            let mut allowed: Vec<String> = Vec::new();
            allowed.push(String::from_str("working_directory"));
            allowed.push(String::from_str("workspace"));
            allowed.push(String::from_str("layout"));
            proof {
                assert(allowed.deep_view() =~= seq![
                    "working_directory"@,
                    "workspace"@,
                    "layout"@,
                ]);
            }
            if !keys_among(entries, &allowed) {
                return Err(parse_err("unknown field in general"));
            }
            let working_directory = match table_get(
                entries,
                &String::from_str("working_directory"),
            ) {
                None => None,
                Some(TomlValue::Str(s)) => Some(tilde(s.as_str(), home)),
                Some(_) => {
                    return Err(parse_err("invalid type for working_directory"));
                },
            };
            let workspace = match table_get(entries, &String::from_str("workspace")) {
                None => None,
                Some(TomlValue::Str(s)) => Some(s.clone()),
                Some(_) => {
                    return Err(parse_err("invalid type for workspace"));
                },
            };
            let layout = match table_get(entries, &String::from_str("layout")) {
                Some(TomlValue::Str(s)) => classify_layout(s, managed, home),
                Some(_) => {
                    return Err(parse_err("invalid type for layout"));
                },
                None => {
                    return Err(parse_err("missing field layout"));
                },
            };
            let r = General { working_directory, workspace, layout };
            proof {
                assert(r@ =~= spec_parse_general(
                    t.model(),
                    managed.deep_view(),
                    home.deep_view(),
                )->Some_0);
            }
            Ok(r)
        },
        _ => Err(parse_err("general must be a table")),
    }
}

/// Parses a whole configuration from its document tree.
pub fn parse_config(t: &TomlValue, managed: &Vec<String>, home: Option<&String>) -> (r: Result<
    Config,
    ErrorKind,
>)
    ensures
        match spec_parse_config(t.model(), managed.deep_view(), home.deep_view()) {
            Some(c) => r matches Ok(x) && x@ == c,
            None => r is Err,
        },
{
    match t {
        TomlValue::Table(entries) => {
            proof {
                lemma_table_model(*entries);
            }
            if !keys_unique(entries) {
                return Err(parse_err("duplicate field in configuration"));
            }
            let mut allowed: Vec<String> = Vec::new();
            allowed.push(String::from_str("general"));
            allowed.push(String::from_str("applications"));
            proof {
                assert(allowed.deep_view() =~= seq!["general"@, "applications"@]);
            }
            if !keys_among(entries, &allowed) {
                return Err(parse_err("unknown field in configuration"));
            }
            let general = match table_get(entries, &String::from_str("general")) {
                None => {
                    return Err(parse_err("missing section general"));
                },
                Some(v) => parse_general(v, managed, home)?,
            };
            let applications = match table_get(entries, &String::from_str("applications")) {
                Some(TomlValue::Arr(items)) => {
                    proof {
                        lemma_arr_model(*items);
                    }
                    parse_applications(items, home)?
                },
                Some(_) => {
                    return Err(parse_err("applications must be an array of tables"));
                },
                None => {
                    return Err(parse_err("missing section applications"));
                },
            };
            let r = Config { general, applications };
            proof {
                assert(r@ =~= spec_parse_config(
                    t.model(),
                    managed.deep_view(),
                    home.deep_view(),
                )->Some_0);
            }
            Ok(r)
        },
        _ => Err(parse_err("configuration must be a table")),
    }
}

impl Config {
    /// Parses a configuration from TOML text, classifying its layout against
    /// the managed-layout names and expanding `~` against `home`. The text
    /// parses to a value tree (or fails), and the tree to a configuration
    /// exactly as `spec_parse_config` says.
    pub fn from_toml_str(s: &str, managed: &Vec<String>, home: Option<&String>) -> (r: Result<
        Config,
        ErrorKind,
    >)
        ensures
            match crate::toml_doc::spec_toml_tree(s@) {
                Some(t) => match spec_parse_config(t, managed.deep_view(), home.deep_view()) {
                    Some(c) => r matches Ok(cfg) && cfg@ == c,
                    None => r is Err,
                },
                None => r is Err,
            },
    {
        match crate::toml_doc::parse_toml_str(s) {
            Ok(tree) => parse_config(&tree, managed, home),
            Err(msg) => Err(ErrorKind::Parse(msg)),
        }
    }
}

impl Application {
    /// Parses one application entry from TOML text.
    pub fn from_toml_str(s: &str, home: Option<&String>) -> (r: Result<Application, ErrorKind>)
        ensures
            match crate::toml_doc::spec_toml_tree(s@) {
                Some(t) => match spec_parse_application(t, home.deep_view()) {
                    Some(a) => r matches Ok(app) && app@ == a,
                    None => r is Err,
                },
                None => r is Err,
            },
    {
        match crate::toml_doc::parse_toml_str(s) {
            Ok(tree) => parse_application(&tree, home),
            Err(msg) => Err(ErrorKind::Parse(msg)),
        }
    }
}

impl Exec {
    /// Parses an exec step from TOML text (its map form: a document table).
    pub fn from_toml_str(s: &str) -> (r: Result<Exec, ErrorKind>)
        ensures
            match crate::toml_doc::spec_toml_tree(s@) {
                Some(t) => match spec_parse_exec(t) {
                    Some(e) => r matches Ok(x) && x@ == e,
                    None => r is Err,
                },
                None => r is Err,
            },
    {
        match crate::toml_doc::parse_toml_str(s) {
            Ok(tree) => parse_exec(&tree),
            Err(msg) => Err(ErrorKind::Parse(msg)),
        }
    }
}

} // verus!
