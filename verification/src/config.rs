//! Settings: the database, the event socket, the model, the address of Ollama and the
//! port. The values of environment variables come from outside.

use vstd::prelude::*;

use crate::number::{decimal, law_number_reads_back, parse_u16, u16_of};
use crate::paths::{
    join_path, law_parent, law_relative_paths_stand_below, names_a_directory, parent, parent_of,
    path_under,
};
use crate::text::{option_view, same_text};

verus! {

/// The value of a variable, or without one the default.
pub open spec fn value_or(value: Option<Seq<char>>, default: Seq<char>) -> Seq<char> {
    match value {
        Some(value) => value,
        None => default,
    }
}

/// The view of a variable that may not be set.
pub open spec fn setting(value: Option<&str>) -> Option<Seq<char>> {
    match value {
        Some(value) => Some(value@),
        None => None,
    }
}

/// The value of a variable, or without one the default.
pub fn get_env_or(value: Option<&str>, default: &str) -> (text: String)
    ensures
        text@ == value_or(setting(value), default@),
{
    match value {
        Some(value) => value.to_owned(),
        None => default.to_owned(),
    }
}

/// The database of the project in the directory `project`.
pub open spec fn project_database(project: Seq<char>) -> Seq<char> {
    project + "/data/chat.db"@
}

/// The database of the project in the directory `project`.
pub fn default_database_url(project: &str) -> (url: String)
    ensures
        url@ == project_database(project@),
{
    let mut url: String = project.to_owned();
    url.push_str("/data/chat.db");
    url
}

/// The database: the one that `variable` names, or without it the one of the project.
pub fn database_url(variable: Option<&str>, project: &str) -> (url: String)
    ensures
        url@ == value_or(setting(variable), project_database(project@)),
{
    match variable {
        Some(url) => url.to_owned(),
        None => default_database_url(project),
    }
}

/// The event socket that stands beside a database.
pub open spec fn socket_beside(database: Seq<char>) -> Seq<char> {
    path_under(
        match parent(database) {
            Some(dir) => dir,
            None => database,
        },
        "events.sock"@,
    )
}

/// The event socket that stands beside the database.
pub fn socket_path(database_url: &str) -> (path: String)
    ensures
        path@ == socket_beside(database_url@),
{
    match parent_of(database_url) {
        Some(dir) => join_path(dir.as_str(), "events.sock"),
        None => join_path(database_url, "events.sock"),
    }
}

/// The directory that has to exist for a database, where there is one to name.
pub open spec fn database_directory(database: Seq<char>) -> Option<Seq<char>> {
    match parent(database) {
        Some(dir) if dir.len() > 0 => Some(dir),
        _ => None,
    }
}

/// The directory to create for a database, where there is one to name.
pub fn directory_for_database(database_url: &str) -> (dir: Option<String>)
    ensures
        option_view(dir) == database_directory(database_url@),
{
    match parent_of(database_url) {
        Some(dir) => if dir.as_str().is_empty() {
            None
        } else {
            Some(dir)
        },
        None => None,
    }
}

/// A variable that is set goes before every default, whatever it holds.
pub proof fn law_variables_go_before_defaults(value: Seq<char>, default: Seq<char>)
    ensures
        value_or(Some(value), default) == value,
        value_or(None, default) == default,
{
}

/// The event socket stands in the directory of the database, beside it, and that is the
/// directory that has to exist; a database that is named without a directory has its
/// socket in the working directory, and nothing has to be created for it.
pub proof fn law_socket_stands_beside_the_database(dir: Seq<char>, name: Seq<char>)
    requires
        names_a_directory(dir),
        name.len() > 0,
        !name.contains('/'),
        !(name.len() == 1 && name[0] == '.'),
    ensures
        socket_beside(dir + seq!['/'] + name) == dir + seq!['/'] + "events.sock"@,
        database_directory(dir + seq!['/'] + name) == Some(dir),
        socket_beside(name) == "events.sock"@,
        database_directory(name) is None,
        socket_beside(seq!['/'] + name) == seq!['/'] + "events.sock"@,
        database_directory(seq!['/'] + name) == Some(seq!['/']),
        project_database(dir) == dir + "/data/chat.db"@,
{
    reveal_strlit("events.sock");
    law_parent(dir, name);
    law_relative_paths_stand_below(dir, "events.sock"@);
    law_relative_paths_stand_below(seq![], "events.sock"@);
    law_relative_paths_stand_below(seq!['/'], "events.sock"@);
}

// ---------------------------------------------------------------------------
// Models
// ---------------------------------------------------------------------------

/// A model to choose by name.
#[derive(Debug)]
pub struct ModelPreset {
    pub name: &'static str,
    pub model: &'static str,
    pub notes: &'static str,
}

/// What a [`ModelPreset`] stands for.
pub struct ModelPresetView {
    pub name: Seq<char>,
    pub model: Seq<char>,
    pub notes: Seq<char>,
}

impl View for ModelPreset {
    type V = ModelPresetView;

    open spec fn view(&self) -> ModelPresetView {
        ModelPresetView { name: self.name@, model: self.model@, notes: self.notes@ }
    }
}

/// The models to choose from.
pub open spec fn presets() -> Seq<ModelPresetView> {
    seq![
        ModelPresetView {
            name: "speed"@,
            model: "gpt-oss:20b-cloud"@,
            notes: "Fast free cloud model with solid tool calling"@,
        },
        ModelPresetView {
            name: "balanced"@,
            model: "gpt-oss:120b-cloud"@,
            notes: "Strong open coding model on Ollama's free cloud tier (default)"@,
        },
        ModelPresetView {
            name: "quality"@,
            model: "minimax-m3:cloud"@,
            notes: "Agentic cloud model with 1M token context"@,
        },
        ModelPresetView {
            name: "local-speed"@,
            model: "qwen2.5:1.5b"@,
            notes: "Local, fully offline, fastest"@,
        },
        ModelPresetView {
            name: "local-balanced"@,
            model: "qwen2.5:3b"@,
            notes: "Local, offline, balanced"@,
        },
        ModelPresetView {
            name: "local-quality"@,
            model: "qwen2.5:7b"@,
            notes: "Local, offline, best quality"@,
        },
    ]
}

/// The model of the first preset of a given name among `list`.
pub open spec fn model_among(list: Seq<ModelPresetView>, name: Seq<char>) -> Option<Seq<char>>
    decreases list.len(),
{
    if list.len() == 0 {
        None
    } else if list[0].name == name {
        Some(list[0].model)
    } else {
        model_among(list.drop_first(), name)
    }
}

/// The name of the preset that is chosen.
pub open spec fn chosen_preset(preset: Option<Seq<char>>) -> Seq<char> {
    value_or(preset, "balanced"@)
}

/// The model that the two variables choose: a name goes before a preset.
pub open spec fn chosen_model(name: Option<Seq<char>>, preset: Option<Seq<char>>) -> Seq<char> {
    match name {
        Some(name) => name,
        None => match model_among(presets(), chosen_preset(preset)) {
            Some(model) => model,
            None => "gpt-oss:120b-cloud"@,
        },
    }
}

/// The warning that comes with the choice, where the preset is not known.
pub open spec fn preset_warning(
    name: Option<Seq<char>>,
    preset: Option<Seq<char>>,
) -> Option<Seq<char>> {
    if name is None && model_among(presets(), chosen_preset(preset)) is None {
        Some("Unknown MODEL_PRESET '"@ + chosen_preset(preset) + "', using balanced default"@)
    } else {
        None
    }
}

/// The models to choose from.
pub fn model_presets() -> (list: Vec<ModelPreset>)
    ensures
        crate::sorting::item_views(list@) == presets(),
{
    let mut list: Vec<ModelPreset> = Vec::new();
    list.push(
        ModelPreset {
            name: "speed",
            model: "gpt-oss:20b-cloud",
            notes: "Fast free cloud model with solid tool calling",
        },
    );
    list.push(
        ModelPreset {
            name: "balanced",
            model: "gpt-oss:120b-cloud",
            notes: "Strong open coding model on Ollama's free cloud tier (default)",
        },
    );
    list.push(
        ModelPreset {
            name: "quality",
            model: "minimax-m3:cloud",
            notes: "Agentic cloud model with 1M token context",
        },
    );
    list.push(
        ModelPreset {
            name: "local-speed",
            model: "qwen2.5:1.5b",
            notes: "Local, fully offline, fastest",
        },
    );
    list.push(
        ModelPreset {
            name: "local-balanced",
            model: "qwen2.5:3b",
            notes: "Local, offline, balanced",
        },
    );
    list.push(
        ModelPreset {
            name: "local-quality",
            model: "qwen2.5:7b",
            notes: "Local, offline, best quality",
        },
    );
    assert(crate::sorting::item_views(list@) =~= presets());
    list
}

fn preset_model(name: &str) -> (model: Option<String>)
    ensures
        option_view(model) == model_among(presets(), name@),
{
    let list = model_presets();
    let ghost seen = crate::sorting::item_views(list@);
    assert(seen.skip(0) =~= seen);
    let mut i: usize = 0;
    while i < list.len()
        invariant
            i <= list@.len(),
            seen == crate::sorting::item_views(list@),
            seen == presets(),
            model_among(seen.skip(i as int), name@) == model_among(presets(), name@),
        decreases list@.len() - i,
    {
        assert(seen.skip(i as int)[0] == list@[i as int]@);
        assert(seen.skip(i as int).drop_first() =~= seen.skip(i + 1));
        if same_text(list[i].name, name) {
            return Some(list[i].model.to_owned());
        }
        i = i + 1;
    }
    None
}

/// A model, and the warning that comes with it.
#[derive(Debug)]
pub struct ModelChoice {
    pub model: String,
    pub warning: Option<String>,
}

/// The model that the two variables choose: a name goes before a preset, and an unknown
/// preset stands for the default.
pub fn resolve_model(name: Option<&str>, preset: Option<&str>) -> (choice: ModelChoice)
    ensures
        choice.model@ == chosen_model(setting(name), setting(preset)),
        option_view(choice.warning) == preset_warning(setting(name), setting(preset)),
{
    if let Some(name) = name {
        return ModelChoice { model: name.to_owned(), warning: None };
    }
    let chosen = get_env_or(preset, "balanced");
    match preset_model(chosen.as_str()) {
        Some(model) => ModelChoice { model, warning: None },
        None => {
            let mut warning: String = "Unknown MODEL_PRESET '".to_owned();
            warning.push_str(chosen.as_str());
            warning.push_str("', using balanced default");
            ModelChoice { model: "gpt-oss:120b-cloud".to_owned(), warning: Some(warning) }
        },
    }
}

/// The model that the two variables choose.
pub fn model_name(name: Option<&str>, preset: Option<&str>) -> (model: String)
    ensures
        model@ == chosen_model(setting(name), setting(preset)),
{
    resolve_model(name, preset).model
}

/// A name always takes precedence over a preset.
pub proof fn law_name_goes_before_preset(name: Seq<char>, preset: Option<Seq<char>>)
    ensures
        chosen_model(Some(name), preset) == name,
        preset_warning(Some(name), preset) is None,
{
}

/// Each preset chooses its own model, without a warning.
pub proof fn law_presets_choose_their_models(i: int)
    requires
        0 <= i < presets().len(),
    ensures
        chosen_model(None, Some(presets()[i].name)) == presets()[i].model,
        preset_warning(None, Some(presets()[i].name)) is None,
{
    reveal_strlit("speed");
    reveal_strlit("balanced");
    reveal_strlit("quality");
    reveal_strlit("local-speed");
    reveal_strlit("local-balanced");
    reveal_strlit("local-quality");
    reveal_with_fuel(model_among, 7);
    assert("speed"@.len() == 5 && "balanced"@.len() == 8 && "quality"@.len() == 7);
    assert("local-speed"@.len() == 11 && "local-balanced"@.len() == 14);
    assert("local-quality"@.len() == 13);
    let all = presets();
    assert(all.drop_first() =~= all.skip(1));
    assert(all.skip(1).drop_first() =~= all.skip(2));
    assert(all.skip(2).drop_first() =~= all.skip(3));
    assert(all.skip(3).drop_first() =~= all.skip(4));
    assert(all.skip(4).drop_first() =~= all.skip(5));
}

/// Without a name, no preset and an unknown preset choose the model of the preset
/// `balanced`; only the unknown preset brings a warning.
pub proof fn law_balanced_is_the_default(preset: Seq<char>)
    ensures
        chosen_model(None, None) == chosen_model(None, Some("balanced"@)),
        preset_warning(None, None) is None,
        model_among(presets(), preset) is None ==> {
            &&& chosen_model(None, Some(preset)) == chosen_model(None, Some("balanced"@))
            &&& preset_warning(None, Some(preset)) is Some
        },
{
    law_presets_choose_their_models(1);
}

/// Which model each preset stands for. A preset of any other name stands for the model of
/// `balanced`, with a warning that repeats the name.
pub proof fn law_preset_table(preset: Seq<char>)
    ensures
        chosen_model(None, Some(preset)) == (if preset == "speed"@ {
            "gpt-oss:20b-cloud"@
        } else if preset == "quality"@ {
            "minimax-m3:cloud"@
        } else if preset == "local-speed"@ {
            "qwen2.5:1.5b"@
        } else if preset == "local-balanced"@ {
            "qwen2.5:3b"@
        } else if preset == "local-quality"@ {
            "qwen2.5:7b"@
        } else {
            "gpt-oss:120b-cloud"@
        }),
        ({
            let known = preset == "speed"@ || preset == "balanced"@ || preset == "quality"@ || preset
                == "local-speed"@ || preset == "local-balanced"@ || preset == "local-quality"@;
            preset_warning(None, Some(preset)) == (if known {
                None
            } else {
                Some("Unknown MODEL_PRESET '"@ + preset + "', using balanced default"@)
            })
        }),
{
    reveal_strlit("speed");
    reveal_strlit("balanced");
    reveal_strlit("quality");
    reveal_strlit("local-speed");
    reveal_strlit("local-balanced");
    reveal_strlit("local-quality");
    reveal_with_fuel(model_among, 7);
    assert("speed"@.len() == 5 && "balanced"@.len() == 8 && "quality"@.len() == 7);
    assert("local-speed"@.len() == 11 && "local-balanced"@.len() == 14);
    assert("local-quality"@.len() == 13);
    let all = presets();
    assert(all.drop_first() =~= all.skip(1));
    assert(all.skip(1).drop_first() =~= all.skip(2));
    assert(all.skip(2).drop_first() =~= all.skip(3));
    assert(all.skip(3).drop_first() =~= all.skip(4));
    assert(all.skip(4).drop_first() =~= all.skip(5));
    assert(all.skip(5).drop_first() =~= all.skip(6));
}

// ---------------------------------------------------------------------------
// Addresses
// ---------------------------------------------------------------------------

/// The address of Ollama: the one that the variable names, or without it the local one.
pub fn ollama_url(variable: Option<&str>) -> (url: String)
    ensures
        url@ == value_or(setting(variable), "http://localhost:11434"@),
{
    get_env_or(variable, "http://localhost:11434")
}

/// The port that the variable names, or 8080 where it names none.
pub open spec fn port_of(variable: Option<Seq<char>>) -> nat {
    match u16_of(value_or(variable, "8080"@)) {
        Some(port) => port,
        None => 8080,
    }
}

/// The port is the number that the variable holds, where it holds one that a port can be,
/// and 8080 otherwise.
pub proof fn law_port(n: nat, text: Seq<char>)
    ensures
        port_of(Some(decimal(n))) == (if n <= 65535 {
            n
        } else {
            8080
        }),
        u16_of(text) is None ==> port_of(Some(text)) == 8080,
        port_of(None) == 8080,
{
    law_number_reads_back(n, text);
    law_number_reads_back(8080, text);
    reveal_strlit("8080");
    reveal_with_fuel(decimal, 4);
    assert("8080"@ =~= decimal(8080));
}

/// The port that the variable names, or 8080 where it names none.
pub fn server_port(variable: Option<&str>) -> (port: u16)
    ensures
        port == port_of(setting(variable)),
{
    match parse_u16(get_env_or(variable, "8080").as_str()) {
        Some(port) => port,
        None => 8080,
    }
}

} // verus!
