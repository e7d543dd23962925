//! Serializing a configuration to a TOML value tree, and the round-trip law.
//!
//! The emitter writes the canonical form of each value: commands and exec
//! steps in their map forms, timeouts as `{ secs, nanos }`. Parsing the
//! emitted tree yields the configuration back; [`lemma_config_roundtrip`]
//! proves that, for every configuration whose strings survive the two
//! one-directional parse steps (tilde expansion and layout classification)
//! and whose timeouts are representable in TOML integers.

use vstd::prelude::*;

use crate::errors::ErrorKind;
use crate::parse::{
    spec_parse_application, spec_parse_applications, spec_parse_command, spec_parse_config,
    spec_parse_duration, spec_parse_exec, spec_parse_exec_type, spec_parse_general,
    spec_parse_strings,
};
use crate::toml_doc::{
    TomlV, TomlValue, entries_model, items_model, lemma_arr_model, lemma_table_get_at,
    lemma_table_get_none, lemma_table_model, render_toml_tree, spec_keys_among, spec_keys_unique,
    spec_table_get,
};
use crate::types::{
    Application, ApplicationCommand, ApplicationCommandV, ApplicationV, Config, ConfigV, Duration,
    Exec, ExecType, ExecV, General, GeneralV, Layout, LayoutV, spec_classify_layout,
    spec_names_contain, spec_tilde,
};

verus! {

/// The tree form of a timeout.
pub open spec fn spec_duration_tree(d: Duration) -> TomlV {
    TomlV::Table(
        seq![
            ("secs"@, TomlV::Int(d.secs as i64)),
            ("nanos"@, TomlV::Int(d.nanos as i64)),
        ],
    )
}

/// The configuration name of an exec type.
pub open spec fn spec_exec_type_str(e: ExecType) -> Seq<char> {
    match e {
        ExecType::Text => "text"@,
        ExecType::TextNoReturn => "text_no_return"@,
        ExecType::Keys => "keys"@,
    }
}

/// The tree form of a list of strings.
pub open spec fn spec_strings_arr(ss: Seq<Seq<char>>) -> TomlV {
    TomlV::Arr(Seq::new(ss.len(), |i: int| TomlV::Str(ss[i])))
}

/// The tree form of an exec step: its full map form.
pub open spec fn spec_exec_tree(e: ExecV) -> TomlV {
    TomlV::Table(
        seq![
            ("commands"@, spec_strings_arr(e.commands)),
            ("exec_type"@, TomlV::Str(spec_exec_type_str(e.exec_type))),
            ("timeout"@, spec_duration_tree(e.timeout)),
        ],
    )
}

/// The tree form of an application command: its map form.
pub open spec fn spec_command_tree(c: ApplicationCommandV) -> TomlV {
    TomlV::Table(
        seq![("program"@, TomlV::Str(c.program)), ("args"@, spec_strings_arr(c.args))],
    )
}

/// The tree form of one application entry.
pub open spec fn spec_application_tree(a: ApplicationV) -> TomlV {
    let base = seq![("command"@, spec_command_tree(a.command))];
    let with_wd = match a.working_directory {
        Some(w) => base + seq![("working_directory"@, TomlV::Str(w))],
        None => base,
    };
    let with_ex = match a.exec_input {
        Some(e) => with_wd + seq![("exec"@, spec_exec_tree(e))],
        None => with_wd,
    };
    TomlV::Table(with_ex)
}

/// The configuration string a layout serializes to: the contents, the managed
/// name, or the path.
pub open spec fn spec_layout_str(l: LayoutV) -> Seq<char> {
    match l {
        LayoutV::Contents(s) => s,
        LayoutV::Managed(s) => s,
        LayoutV::Path(s) => s,
    }
}

/// The tree form of the general section.
pub open spec fn spec_general_tree(g: GeneralV) -> TomlV {
    let base = match g.working_directory {
        Some(w) => seq![("working_directory"@, TomlV::Str(w))],
        None => Seq::empty(),
    };
    let with_ws = match g.workspace {
        Some(w) => base + seq![("workspace"@, TomlV::Str(w))],
        None => base,
    };
    TomlV::Table(with_ws + seq![("layout"@, TomlV::Str(spec_layout_str(g.layout)))])
}

/// The tree form of a whole configuration.
pub open spec fn spec_config_tree(c: ConfigV) -> TomlV {
    TomlV::Table(
        seq![
            ("general"@, spec_general_tree(c.general)),
            (
                "applications"@,
                TomlV::Arr(
                    Seq::new(
                        c.applications.len(),
                        |i: int| spec_application_tree(c.applications[i]),
                    ),
                ),
            ),
        ],
    )
}

/// A timeout TOML integers can carry: its seconds fit a signed 64-bit value.
pub open spec fn spec_duration_serializable(d: Duration) -> bool {
    d.secs <= i64::MAX as u64
}

/// A configuration the emitter can write: every timeout is representable.
pub open spec fn spec_config_serializable(c: ConfigV) -> bool {
    forall|i: int|
        0 <= i < c.applications.len() ==> match (#[trigger] c.applications[i]).exec_input {
            Some(e) => spec_duration_serializable(e.timeout),
            None => true,
        }
}

/// A string tilde expansion leaves unchanged: it does not start with `~`
/// alone or `~/`.
pub open spec fn spec_tilde_free(s: Seq<char>) -> bool {
    !(s.len() > 0 && s[0] == '~' && (s.len() == 1 || s[1] == '/'))
}

/// A layout whose serialized string classifies back to the same layout.
pub open spec fn spec_layout_reparses(l: LayoutV, managed: Seq<Seq<char>>) -> bool {
    match l {
        LayoutV::Contents(s) => s.contains('{'),
        LayoutV::Managed(s) => !s.contains('{') && spec_names_contain(managed, s),
        LayoutV::Path(s) => !s.contains('{') && !spec_names_contain(managed, s)
            && spec_tilde_free(s),
    }
}

/// A configuration whose serialized form parses back to the same value:
/// timeouts are representable with nanoseconds below one second, working
/// directories are left unchanged by tilde expansion, and the layout string
/// classifies back to the same variant.
pub open spec fn spec_config_roundtrippable(c: ConfigV, managed: Seq<Seq<char>>) -> bool {
    &&& match c.general.working_directory {
        Some(w) => spec_tilde_free(w),
        None => true,
    }
    &&& spec_layout_reparses(c.general.layout, managed)
    &&& forall|i: int|
        0 <= i < c.applications.len() ==> {
            let a = #[trigger] c.applications[i];
            &&& match a.working_directory {
                Some(w) => spec_tilde_free(w),
                None => true,
            }
            &&& match a.exec_input {
                Some(e) => spec_duration_serializable(e.timeout) && e.timeout.nanos
                    < 1_000_000_000,
                None => true,
            }
        }
}

/// The key and name literals this module writes are pairwise distinct.
proof fn lemma_key_facts()
    ensures
        "text"@ != "text_no_return"@,
        "text"@ != "keys"@,
        "text_no_return"@ != "keys"@,
        "secs"@ != "nanos"@,
        "commands"@ != "exec_type"@,
        "commands"@ != "timeout"@,
        "exec_type"@ != "timeout"@,
        "program"@ != "args"@,
        "command"@ != "working_directory"@,
        "command"@ != "exec"@,
        "working_directory"@ != "exec"@,
        "working_directory"@ != "workspace"@,
        "working_directory"@ != "layout"@,
        "workspace"@ != "layout"@,
        "general"@ != "applications"@,
{
    reveal_strlit("text");
    reveal_strlit("text_no_return");
    reveal_strlit("keys");
    reveal_strlit("secs");
    reveal_strlit("nanos");
    reveal_strlit("commands");
    reveal_strlit("exec_type");
    reveal_strlit("timeout");
    reveal_strlit("program");
    reveal_strlit("args");
    reveal_strlit("command");
    reveal_strlit("working_directory");
    reveal_strlit("exec");
    reveal_strlit("workspace");
    reveal_strlit("layout");
    reveal_strlit("general");
    reveal_strlit("applications");
    assert("text"@.len() == 4);
    assert("text_no_return"@.len() == 14);
    assert("keys"@.len() == 4);
    assert("text"@[0] == 't' && "keys"@[0] == 'k');
    assert("secs"@.len() == 4);
    assert("nanos"@.len() == 5);
    assert("commands"@.len() == 8);
    assert("exec_type"@.len() == 9);
    assert("timeout"@.len() == 7);
    assert("program"@.len() == 7);
    assert("args"@.len() == 4);
    assert("command"@.len() == 7);
    assert("working_directory"@.len() == 17);
    assert("exec"@.len() == 4);
    assert("workspace"@.len() == 9);
    assert("layout"@.len() == 6);
    assert("general"@.len() == 7);
    assert("applications"@.len() == 12);
    assert("command"@[0] == 'c' && "timeout"@[0] == 't' && "program"@[0] == 'p' && "general"@[0]
        == 'g');
}

/// A timeout the parser produced is always representable: its seconds come
/// from a non-negative TOML integer and its nanoseconds stay below one
/// second.
proof fn lemma_parsed_duration_bounds(t: TomlV)
    requires
        spec_parse_duration(t) is Some,
    ensures
        spec_duration_serializable(spec_parse_duration(t)->Some_0),
        spec_parse_duration(t)->Some_0.nanos < 1_000_000_000,
{
}

/// An exec step the parser produced has a representable timeout.
proof fn lemma_parsed_exec_bounds(t: TomlV)
    requires
        spec_parse_exec(t) is Some,
    ensures
        spec_duration_serializable(spec_parse_exec(t)->Some_0.timeout),
        spec_parse_exec(t)->Some_0.timeout.nanos < 1_000_000_000,
{
    match t {
        TomlV::Table(es) => {
            match spec_table_get(es, "timeout"@) {
                Some(v) => {
                    lemma_parsed_duration_bounds(v);
                },
                None => {},
            }
        },
        _ => {},
    }
}

/// A configuration read from a document tree can always be written back:
/// every timeout the parser produces is representable, with nanoseconds
/// below one second.
pub proof fn lemma_parsed_config_serializable(
    t: TomlV,
    managed: Seq<Seq<char>>,
    home: Option<Seq<char>>,
)
    requires
        spec_parse_config(t, managed, home) is Some,
    ensures
        spec_config_serializable(spec_parse_config(t, managed, home)->Some_0),
        forall|i: int|
            0 <= i < spec_parse_config(t, managed, home)->Some_0.applications.len()
                ==> match (#[trigger] spec_parse_config(t, managed, home)->Some_0.applications[
                i
            ]).exec_input {
                Some(e) => e.timeout.nanos < 1_000_000_000,
                None => true,
            },
{
    let c = spec_parse_config(t, managed, home)->Some_0;
    let es = t->Table_0;
    let items = match spec_table_get(es, "applications"@) {
        Some(TomlV::Arr(items)) => items,
        _ => Seq::empty(),
    };
    assert(c.applications == spec_parse_applications(items, home)->Some_0);
    assert forall|i: int| 0 <= i < c.applications.len() implies match (#[trigger] c.applications[
        i
    ]).exec_input {
        Some(e) => spec_duration_serializable(e.timeout) && e.timeout.nanos < 1_000_000_000,
        None => true,
    } by {
        let a = spec_parse_application(items[i], home)->Some_0;
        assert(c.applications[i] == a);
        let aes = items[i]->Table_0;
        match spec_table_get(aes, "exec"@) {
            Some(v) => {
                lemma_parsed_exec_bounds(v);
            },
            None => {},
        }
    }
}

proof fn lemma_strings_roundtrip(ss: Seq<Seq<char>>)
    ensures
        spec_strings_arr(ss) is Arr,
        spec_parse_strings(spec_strings_arr(ss)->Arr_0) == Some(ss),
{
    let items = spec_strings_arr(ss)->Arr_0;
    assert forall|i: int| 0 <= i < items.len() implies (#[trigger] items[i]) is Str by {
        assert(items[i] == TomlV::Str(ss[i]));
    }
    assert(spec_parse_strings(items)->Some_0 =~= ss);
}

proof fn lemma_exec_type_roundtrip(e: ExecType)
    ensures
        spec_parse_exec_type(spec_exec_type_str(e)) == Some(e),
{
    lemma_key_facts();
}

proof fn lemma_duration_roundtrip(d: Duration)
    requires
        spec_duration_serializable(d),
        d.nanos < 1_000_000_000,
    ensures
        spec_parse_duration(spec_duration_tree(d)) == Some(d),
{
    lemma_key_facts();
    let es = spec_duration_tree(d)->Table_0;
    assert(spec_keys_unique(es));
    assert(spec_keys_among(es, seq!["secs"@, "nanos"@])) by {
        let allowed = seq!["secs"@, "nanos"@];
        assert(allowed[0] == "secs"@ && allowed[1] == "nanos"@);
        assert(spec_names_contain(allowed, es[0].0));
        assert(spec_names_contain(allowed, es[1].0));
    }
    lemma_table_get_at(es, "secs"@, 0);
    lemma_table_get_at(es, "nanos"@, 1);
    assert(spec_parse_duration(spec_duration_tree(d))->Some_0 == d);
}

proof fn lemma_exec_roundtrip(e: ExecV)
    requires
        spec_duration_serializable(e.timeout),
        e.timeout.nanos < 1_000_000_000,
    ensures
        spec_parse_exec(spec_exec_tree(e)) == Some(e),
{
    lemma_key_facts();
    let es = spec_exec_tree(e)->Table_0;
    assert(spec_keys_unique(es));
    lemma_table_get_at(es, "commands"@, 0);
    lemma_table_get_at(es, "exec_type"@, 1);
    lemma_table_get_at(es, "timeout"@, 2);
    lemma_strings_roundtrip(e.commands);
    lemma_exec_type_roundtrip(e.exec_type);
    lemma_duration_roundtrip(e.timeout);
    assert(spec_parse_exec(spec_exec_tree(e))->Some_0 =~~= e);
}

proof fn lemma_command_roundtrip(c: ApplicationCommandV)
    ensures
        spec_parse_command(spec_command_tree(c)) == Some(c),
{
    lemma_key_facts();
    let es = spec_command_tree(c)->Table_0;
    assert(spec_keys_unique(es));
    lemma_table_get_at(es, "program"@, 0);
    lemma_table_get_at(es, "args"@, 1);
    lemma_strings_roundtrip(c.args);
    assert(spec_parse_command(spec_command_tree(c))->Some_0 =~~= c);
}

proof fn lemma_application_roundtrip(a: ApplicationV, home: Option<Seq<char>>)
    requires
        match a.working_directory {
            Some(w) => spec_tilde_free(w),
            None => true,
        },
        match a.exec_input {
            Some(e) => spec_duration_serializable(e.timeout) && e.timeout.nanos < 1_000_000_000,
            None => true,
        },
    ensures
        spec_parse_application(spec_application_tree(a), home) == Some(a),
{
    lemma_key_facts();
    let es = spec_application_tree(a)->Table_0;
    let allowed = seq!["command"@, "working_directory"@, "exec"@];
    assert(allowed[0] == "command"@ && allowed[1] == "working_directory"@ && allowed[2]
        == "exec"@);
    let cmd_entry = ("command"@, spec_command_tree(a.command));
    match (a.working_directory, a.exec_input) {
        (None, None) => {
            assert(es =~= seq![cmd_entry]);
        },
        (Some(w), None) => {
            assert(es =~= seq![cmd_entry, ("working_directory"@, TomlV::Str(w))]);
        },
        (None, Some(e)) => {
            assert(es =~= seq![cmd_entry, ("exec"@, spec_exec_tree(e))]);
        },
        (Some(w), Some(e)) => {
            assert(es =~= seq![
                cmd_entry,
                ("working_directory"@, TomlV::Str(w)),
                ("exec"@, spec_exec_tree(e)),
            ]);
        },
    }
    assert(spec_keys_unique(es));
    assert(spec_keys_among(es, allowed)) by {
        assert forall|i: int| 0 <= i < es.len() implies spec_names_contain(
            allowed,
            #[trigger] es[i].0,
        ) by {
            if es[i].0 == "command"@ {
                assert(allowed[0] == es[i].0);
            } else if es[i].0 == "working_directory"@ {
                assert(allowed[1] == es[i].0);
            } else {
                assert(allowed[2] == es[i].0);
            }
        }
    }
    lemma_table_get_at(es, "command"@, 0);
    lemma_command_roundtrip(a.command);
    match a.working_directory {
        Some(w) => {
            lemma_table_get_at(es, "working_directory"@, 1);
            assert(spec_tilde(w, home) == w);
        },
        None => {
            lemma_table_get_none(es, "working_directory"@);
        },
    }
    match a.exec_input {
        Some(e) => {
            if a.working_directory is Some {
                lemma_table_get_at(es, "exec"@, 2);
            } else {
                lemma_table_get_at(es, "exec"@, 1);
            }
            lemma_exec_roundtrip(e);
        },
        None => {
            lemma_table_get_none(es, "exec"@);
        },
    }
    assert(spec_parse_application(spec_application_tree(a), home)->Some_0 =~~= a);
}

proof fn lemma_general_roundtrip(g: GeneralV, managed: Seq<Seq<char>>, home: Option<Seq<char>>)
    requires
        match g.working_directory {
            Some(w) => spec_tilde_free(w),
            None => true,
        },
        spec_layout_reparses(g.layout, managed),
    ensures
        spec_parse_general(spec_general_tree(g), managed, home) == Some(g),
{
    lemma_key_facts();
    let es = spec_general_tree(g)->Table_0;
    let allowed = seq!["working_directory"@, "workspace"@, "layout"@];
    assert(allowed[0] == "working_directory"@ && allowed[1] == "workspace"@ && allowed[2]
        == "layout"@);
    let lstr = spec_layout_str(g.layout);
    let lay_entry = ("layout"@, TomlV::Str(lstr));
    match (g.working_directory, g.workspace) {
        (None, None) => {
            assert(es =~= seq![lay_entry]);
            lemma_table_get_at(es, "layout"@, 0);
            lemma_table_get_none(es, "working_directory"@);
            lemma_table_get_none(es, "workspace"@);
        },
        (Some(w), None) => {
            assert(es =~= seq![("working_directory"@, TomlV::Str(w)), lay_entry]);
            lemma_table_get_at(es, "working_directory"@, 0);
            lemma_table_get_at(es, "layout"@, 1);
            lemma_table_get_none(es, "workspace"@);
        },
        (None, Some(s)) => {
            assert(es =~= seq![("workspace"@, TomlV::Str(s)), lay_entry]);
            lemma_table_get_at(es, "workspace"@, 0);
            lemma_table_get_at(es, "layout"@, 1);
            lemma_table_get_none(es, "working_directory"@);
        },
        (Some(w), Some(s)) => {
            assert(es =~= seq![
                ("working_directory"@, TomlV::Str(w)),
                ("workspace"@, TomlV::Str(s)),
                lay_entry,
            ]);
            lemma_table_get_at(es, "working_directory"@, 0);
            lemma_table_get_at(es, "workspace"@, 1);
            lemma_table_get_at(es, "layout"@, 2);
        },
    }
    assert(spec_keys_unique(es));
    assert(spec_keys_among(es, allowed)) by {
        assert forall|i: int| 0 <= i < es.len() implies spec_names_contain(
            allowed,
            #[trigger] es[i].0,
        ) by {
            if es[i].0 == "working_directory"@ {
                assert(allowed[0] == es[i].0);
            } else if es[i].0 == "workspace"@ {
                assert(allowed[1] == es[i].0);
            } else {
                assert(allowed[2] == es[i].0);
            }
        }
    }
    match g.working_directory {
        Some(w) => {
            assert(spec_tilde(w, home) == w);
        },
        None => {},
    }
    assert(spec_classify_layout(lstr, managed, home) == g.layout) by {
        match g.layout {
            LayoutV::Contents(_) => {},
            LayoutV::Managed(_) => {},
            LayoutV::Path(s) => {
                assert(spec_tilde(s, home) == s);
            },
        }
    }
    assert(spec_parse_general(spec_general_tree(g), managed, home)->Some_0 =~~= g);
}

/// Serializing a configuration to TOML and reparsing it yields an equal
/// configuration, for every configuration whose strings survive the two
/// one-directional parse steps (tilde expansion and layout classification)
/// and whose timeouts TOML integers can carry.
pub proof fn lemma_config_roundtrip(c: ConfigV, managed: Seq<Seq<char>>, home: Option<Seq<char>>)
    requires
        spec_config_roundtrippable(c, managed),
    ensures
        spec_parse_config(spec_config_tree(c), managed, home) == Some(c),
{
    lemma_key_facts();
    let es = spec_config_tree(c)->Table_0;
    assert(spec_keys_unique(es));
    let allowed = seq!["general"@, "applications"@];
    assert(allowed[0] == "general"@ && allowed[1] == "applications"@);
    assert(spec_keys_among(es, allowed)) by {
        assert(spec_names_contain(allowed, es[0].0));
        assert(spec_names_contain(allowed, es[1].0));
    }
    lemma_table_get_at(es, "general"@, 0);
    lemma_table_get_at(es, "applications"@, 1);
    lemma_general_roundtrip(c.general, managed, home);
    let items = Seq::new(c.applications.len(), |i: int| spec_application_tree(c.applications[i]));
    assert forall|i: int| 0 <= i < items.len() implies spec_parse_application(
        #[trigger] items[i],
        home,
    ) == Some(c.applications[i]) by {
        lemma_application_roundtrip(c.applications[i], home);
    }
    assert(spec_parse_applications(items, home) is Some);
    assert(spec_parse_applications(items, home)->Some_0 =~= c.applications);
    assert(spec_parse_config(spec_config_tree(c), managed, home)->Some_0 =~~= c);
}

/// Writes a list of strings as a TOML array.
fn strings_to_arr(ss: &Vec<String>) -> (t: TomlValue)
    ensures
        t.model() == spec_strings_arr(ss.deep_view()),
{
    let mut items: Vec<TomlValue> = Vec::new();
    let mut i: usize = 0;
    while i < ss.len()
        invariant
            0 <= i <= ss.len(),
            items.len() == i,
            forall|k: int| 0 <= k < i ==> items@[k].model() == TomlV::Str(ss.deep_view()[k]),
        decreases ss.len() - i,
    {
        items.push(TomlValue::Str(ss[i].clone()));
        i = i + 1;
    }
    proof {
        lemma_arr_model(items);
        assert(items_model(items@) =~= spec_strings_arr(ss.deep_view())->Arr_0);
    }
    TomlValue::Arr(items)
}

/// Writes a timeout as its `{ secs, nanos }` map.
fn duration_to_tree(d: &Duration) -> (t: TomlValue)
    requires
        spec_duration_serializable(*d),
    ensures
        t.model() == spec_duration_tree(*d),
{
    let mut entries: Vec<(String, TomlValue)> = Vec::new();
    entries.push((String::from_str("secs"), TomlValue::Int(d.secs as i64)));
    entries.push((String::from_str("nanos"), TomlValue::Int(d.nanos as i64)));
    proof {
        lemma_table_model(entries);
        assert(entries_model(entries@) =~= spec_duration_tree(*d)->Table_0);
    }
    TomlValue::Table(entries)
}

/// The configuration name of an exec type.
fn exec_type_to_string(e: &ExecType) -> (r: String)
    ensures
        r@ == spec_exec_type_str(*e),
{
    match e {
        ExecType::Text => String::from_str("text"),
        ExecType::TextNoReturn => String::from_str("text_no_return"),
        ExecType::Keys => String::from_str("keys"),
    }
}

/// Writes an exec step as its full map form.
fn exec_to_tree(e: &Exec) -> (t: TomlValue)
    requires
        spec_duration_serializable(e.timeout),
    ensures
        t.model() == spec_exec_tree(e@),
{
    let mut entries: Vec<(String, TomlValue)> = Vec::new();
    entries.push((String::from_str("commands"), strings_to_arr(&e.commands)));
    entries.push((String::from_str("exec_type"), TomlValue::Str(exec_type_to_string(&e.exec_type))));
    entries.push((String::from_str("timeout"), duration_to_tree(&e.timeout)));
    proof {
        lemma_table_model(entries);
        assert(entries_model(entries@) =~= spec_exec_tree(e@)->Table_0);
    }
    TomlValue::Table(entries)
}

/// Writes an application command as its map form.
fn command_to_tree(c: &ApplicationCommand) -> (t: TomlValue)
    ensures
        t.model() == spec_command_tree(c@),
{
    let mut entries: Vec<(String, TomlValue)> = Vec::new();
    entries.push((String::from_str("program"), TomlValue::Str(c.program.clone())));
    entries.push((String::from_str("args"), strings_to_arr(&c.args)));
    proof {
        lemma_table_model(entries);
        assert(entries_model(entries@) =~= spec_command_tree(c@)->Table_0);
    }
    TomlValue::Table(entries)
}

/// Writes one application entry.
fn application_to_tree(a: &Application) -> (t: TomlValue)
    requires
        match a.exec_input {
            Some(e) => spec_duration_serializable(e.timeout),
            None => true,
        },
    ensures
        t.model() == spec_application_tree(a@),
{
    let mut entries: Vec<(String, TomlValue)> = Vec::new();
    entries.push((String::from_str("command"), command_to_tree(&a.command)));
    match &a.working_directory {
        Some(w) => {
            entries.push((String::from_str("working_directory"), TomlValue::Str(w.clone())));
        },
        None => {},
    }
    match &a.exec_input {
        Some(e) => {
            entries.push((String::from_str("exec"), exec_to_tree(e)));
        },
        None => {},
    }
    proof {
        lemma_table_model(entries);
        assert(entries_model(entries@) =~= spec_application_tree(a@)->Table_0);
    }
    TomlValue::Table(entries)
}

/// The configuration string a layout serializes to.
fn layout_to_string(l: &Layout) -> (r: String)
    ensures
        r@ == spec_layout_str(l@),
{
    match l {
        Layout::Contents(s) => s.clone(),
        Layout::Managed(s) => s.clone(),
        Layout::Path(s) => s.clone(),
    }
}

/// Writes the general section.
fn general_to_tree(g: &General) -> (t: TomlValue)
    ensures
        t.model() == spec_general_tree(g@),
{
    let mut entries: Vec<(String, TomlValue)> = Vec::new();
    match &g.working_directory {
        Some(w) => {
            entries.push((String::from_str("working_directory"), TomlValue::Str(w.clone())));
        },
        None => {},
    }
    match &g.workspace {
        Some(w) => {
            entries.push((String::from_str("workspace"), TomlValue::Str(w.clone())));
        },
        None => {},
    }
    entries.push((String::from_str("layout"), TomlValue::Str(layout_to_string(&g.layout))));
    proof {
        lemma_table_model(entries);
        assert(entries_model(entries@) =~= spec_general_tree(g@)->Table_0);
    }
    TomlValue::Table(entries)
}

/// Writes a whole configuration as its document tree.
pub fn config_to_tree(c: &Config) -> (t: TomlValue)
    requires
        spec_config_serializable(c@),
    ensures
        t.model() == spec_config_tree(c@),
{
    let mut apps: Vec<TomlValue> = Vec::new();
    let mut i: usize = 0;
    while i < c.applications.len()
        invariant
            0 <= i <= c.applications.len(),
            apps.len() == i,
            spec_config_serializable(c@),
            c@.applications.len() == c.applications.len(),
            forall|k: int|
                0 <= k < i ==> apps@[k].model() == spec_application_tree(c@.applications[k]),
        decreases c.applications.len() - i,
    {
        proof {
            assert(c@.applications[i as int] == c.applications@[i as int]@);
        }
        apps.push(application_to_tree(&c.applications[i]));
        i = i + 1;
    }
    let mut entries: Vec<(String, TomlValue)> = Vec::new();
    entries.push((String::from_str("general"), general_to_tree(&c.general)));
    proof {
        lemma_arr_model(apps);
        assert(items_model(apps@) =~= Seq::new(
            c@.applications.len(),
            |k: int| spec_application_tree(c@.applications[k]),
        ));
    }
    entries.push((String::from_str("applications"), TomlValue::Arr(apps)));
    proof {
        lemma_table_model(entries);
        assert(entries_model(entries@) =~= spec_config_tree(c@)->Table_0);
    }
    TomlValue::Table(entries)
}

/// Renders a configuration as TOML text: the text of the configuration's
/// document tree.
pub fn config_to_toml_string(c: &Config) -> (r: Result<String, ErrorKind>)
    requires
        spec_config_serializable(c@),
    ensures
        match crate::toml_doc::spec_toml_text(spec_config_tree(c@)) {
            Some(text) => r matches Ok(out) && out@ == text,
            None => r is Err,
        },
{
    let tree = config_to_tree(c);
    match render_toml_tree(&tree) {
        Ok(text) => Ok(text),
        Err(msg) => Err(ErrorKind::Parse(msg)),
    }
}

} // verus!
