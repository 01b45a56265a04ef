use pj::config::{
    database_url, default_database_url, directory_for_database, get_env_or, model_name,
    model_presets, ollama_url, resolve_model, server_port, socket_path,
};

#[test]
fn presets_choose_the_models_of_the_table() {
    let table = [
        ("speed", "gpt-oss:20b-cloud"),
        ("balanced", "gpt-oss:120b-cloud"),
        ("quality", "minimax-m3:cloud"),
        ("local-speed", "qwen2.5:1.5b"),
        ("local-balanced", "qwen2.5:3b"),
        ("local-quality", "qwen2.5:7b"),
    ];
    assert_eq!(model_presets().len(), table.len());
    for (i, (preset, model)) in table.iter().enumerate() {
        assert_eq!(model_presets()[i].name, *preset);
        assert_eq!(model_presets()[i].model, *model);
        assert_eq!(model_name(None, Some(preset)), *model);
        assert_eq!(resolve_model(None, Some(preset)).warning, None);
    }
    assert_eq!(model_presets()[4].notes, "Local, offline, balanced");
}

#[test]
fn a_name_goes_before_a_preset() {
    assert_eq!(model_name(Some("gemma2:9b"), Some("speed")), "gemma2:9b");
    assert_eq!(model_name(Some(""), None), "");
}

#[test]
fn balanced_is_the_default() {
    assert_eq!(model_name(None, None), "gpt-oss:120b-cloud");
    let choice = resolve_model(None, Some("turbo"));
    assert_eq!(choice.model, "gpt-oss:120b-cloud");
    assert_eq!(
        choice.warning,
        Some("Unknown MODEL_PRESET 'turbo', using balanced default".to_string())
    );
}

#[test]
fn the_database_is_that_of_the_project_unless_named() {
    assert_eq!(default_database_url("/pj"), "/pj/data/chat.db");
    assert_eq!(database_url(None, "/pj"), "/pj/data/chat.db");
    assert_eq!(database_url(Some("/x.db"), "/pj"), "/x.db");
}

#[test]
fn the_socket_stands_beside_the_database() {
    assert_eq!(socket_path("/pj/data/chat.db"), "/pj/data/events.sock");
    assert_eq!(socket_path("chat.db"), "events.sock");
    assert_eq!(socket_path("/chat.db"), "/events.sock");
    for database in ["/a/b/c.db", "x", "a/x", "/", "", "./x", "a//b"] {
        let mut wanted = std::path::PathBuf::from(database);
        wanted.pop();
        wanted.push("events.sock");
        assert_eq!(socket_path(database), wanted.to_string_lossy().to_string());
    }
}

#[test]
fn the_directory_of_the_database_is_named() {
    assert_eq!(directory_for_database("/pj/data/chat.db"), Some("/pj/data".to_string()));
    assert_eq!(directory_for_database("chat.db"), None);
    assert_eq!(directory_for_database("/"), None);
}

#[test]
fn addresses_have_defaults() {
    assert_eq!(ollama_url(None), "http://localhost:11434");
    assert_eq!(ollama_url(Some("http://h")), "http://h");
    assert_eq!(get_env_or(None, "d"), "d");
    assert_eq!(get_env_or(Some("v"), "d"), "v");
    assert_eq!(server_port(None), 8080);
    assert_eq!(server_port(Some("3000")), 3000);
    assert_eq!(server_port(Some("no")), 8080);
    assert_eq!(server_port(Some("70000")), 8080);
}
