use rmlx_server::json::render_json;
use rmlx_server::keep_alive::KeepAlivePolicy;
use rmlx_server::openai::errors::ApiErrorCategory;
use rmlx_server::openai::lifecycle::{
    check_load, list_models, load_model, loaded_reply, model_status, model_status_category,
    unload_reply, Resident,
};
use rmlx_server::registry::{
    entry_of, probe_tool, ModelRegistry, PathProbe, RegistryConfig, RegistryConfigEntry,
    SnapshotProbe,
};

fn probe(arch: Option<&str>) -> SnapshotProbe {
    SnapshotProbe {
        abs_path_str: "/models/x".to_owned(),
        architectures: arch.map(|a| vec![a.to_owned()]),
        template_src: None,
        template_compiles: false,
        template_renders_tools: false,
        has_tokenizer: false,
        bos_token: None,
        eos_token: None,
        generation_defaults: None,
    }
}

fn at(name: &str, arch: Option<&str>) -> PathProbe {
    PathProbe {
        dir_name: Some(name.to_owned()),
        probe: probe(arch),
    }
}

#[test]
fn from_paths_skips_bad_paths() {
    let reg = ModelRegistry::from_paths(vec![at("rmlx-does-not-exist-xyz", None)]);
    assert!(reg.list().is_empty(), "bad path should be skipped");
}

#[test]
fn from_paths_loads_valid_snapshot() {
    let reg = ModelRegistry::from_paths(vec![at("MyModel", Some("LlamaForCausalLM"))]);
    assert_eq!(reg.list().len(), 1);

    let entry = reg.get("MyModel").unwrap();
    assert_eq!(entry.arch, "LlamaForCausalLM");
}

#[test]
fn list_is_alphabetical() {
    let reg = ModelRegistry::from_paths(vec![
        at("ZModel", Some("Arch")),
        at("AModel", Some("Arch")),
        at("MModel", Some("Arch")),
    ]);
    let ids: Vec<&str> = reg.list().iter().map(|e| e.id.as_str()).collect();
    assert_eq!(ids, vec!["AModel", "MModel", "ZModel"]);
}

#[test]
fn get_returns_none_for_unknown() {
    let reg = ModelRegistry::new();
    assert!(reg.get("nope").is_none());
}

#[test]
fn missing_chat_template_gives_none_not_error() {
    let reg = ModelRegistry::from_paths(vec![at("NoTemplateModel", Some("LlamaForCausalLM"))]);
    assert_eq!(
        reg.list().len(),
        1,
        "entry must be present despite missing template"
    );

    let entry = reg.get("NoTemplateModel").unwrap();
    assert!(
        !entry.has_chat_template,
        "chat_template must be None when chat_template.jinja is absent"
    );
    assert!(
        !entry.has_tokenizer,
        "tokenizer must be None when tokenizer.json is absent"
    );
}

#[test]
fn no_tools_branch_snapshot_tools_supported_false() {
    let mut p = probe(Some("FakeArch"));
    p.template_src = Some("{% if tools %}{{ tools | raise_exception }}{% endif %}hello".to_owned());
    p.template_compiles = true;
    p.template_renders_tools = false;
    let reg = ModelRegistry::from_paths(vec![PathProbe {
        dir_name: Some("NoToolsModel".to_owned()),
        probe: p,
    }]);
    let entry = reg.get("NoToolsModel").unwrap();
    assert!(
        !entry.tools_supported,
        "template that errors on tools must yield tools_supported=false in registry"
    );
}

#[test]
fn tools_need_a_compiled_template() {
    let mut p = probe(Some("A"));
    p.template_src = Some("x".to_owned());
    p.template_compiles = false;
    p.template_renders_tools = true;
    let e = entry_of("id", p).unwrap();
    assert!(!e.tools_supported);
    assert!(!e.has_chat_template);
    assert_eq!(e.chat_template_src.as_deref(), Some("x"));
    let mut p = probe(Some("A"));
    p.template_src = Some("x".to_owned());
    p.template_compiles = true;
    p.template_renders_tools = true;
    assert!(entry_of("id", p).unwrap().tools_supported);
    let mut p = probe(None);
    p.architectures = Some(vec![]);
    assert_eq!(entry_of("id", p).unwrap().arch, "unknown");
}

#[test]
fn configured_ids_override_names() {
    let cfg = RegistryConfig {
        models: vec![
            RegistryConfigEntry {
                id: Some("gemma".to_owned()),
                path: "/a/b".to_owned(),
            },
            RegistryConfigEntry {
                id: None,
                path: "/a/c".to_owned(),
            },
            RegistryConfigEntry {
                id: None,
                path: "/".to_owned(),
            },
        ],
    };
    let reg = ModelRegistry::from_config(
        &cfg,
        vec![
            at("b", Some("A")),
            at("c", Some("B")),
            PathProbe {
                dir_name: None,
                probe: probe(Some("C")),
            },
        ],
    );
    let ids: Vec<&str> = reg.list().iter().map(|e| e.id.as_str()).collect();
    assert_eq!(ids, vec!["c", "gemma", "unknown"]);
}

#[test]
fn later_snapshot_of_one_id_stays() {
    let reg = ModelRegistry::from_paths(vec![
        at("m", Some("First")),
        at("m", Some("Second")),
        at("m", None),
    ]);
    assert_eq!(reg.list().len(), 1);
    assert_eq!(reg.get("m").unwrap().arch, "Second");
}

#[test]
fn probe_tool_is_minimal() {
    assert_eq!(
        render_json(&probe_tool()),
        r#"{"function":{"description":"probe","name":"probe","parameters":{"properties":{},"type":"object"}},"type":"function"}"#
    );
}

// ── Replies ──────────────────────────────────────────────────────────────────

fn resident() -> Vec<Resident> {
    vec![Resident {
        id: "a".to_owned(),
        loaded_ago: 10,
        used_ago: 4,
    }]
}

#[test]
fn list_tells_loaded_models_apart() {
    let reg = ModelRegistry::from_paths(vec![at("b", Some("A")), at("a", Some("A"))]);
    let r = list_models(&reg, &resident(), 100);
    assert_eq!(r.status, 200);
    assert_eq!(
        render_json(&r.body),
        r#"{"data":[{"created":0,"id":"a","last_used":96,"loaded":true,"loaded_at":90,"object":"model","owned_by":"rmlx"},{"created":0,"id":"b","loaded":false,"object":"model","owned_by":"rmlx"}],"object":"list"}"#
    );
}

#[test]
fn status_of_each_kind_of_model() {
    let reg = ModelRegistry::from_paths(vec![at("b", Some("A")), at("a", Some("A"))]);
    let r = model_status(&reg, "a", &resident(), 6);
    assert_eq!(
        render_json(&r.body),
        r#"{"id":"a","idle_secs":4,"last_used":2,"loaded":true,"loaded_at":0}"#
    );
    let r = model_status(&reg, "b", &resident(), 6);
    assert_eq!(
        render_json(&r.body),
        r#"{"id":"b","idle_secs":null,"last_used":null,"loaded":false,"loaded_at":null}"#
    );
    assert_eq!(model_status_category(&reg, "a"), None);
    assert_eq!(
        model_status_category(&reg, "c"),
        Some(ApiErrorCategory::NotFound)
    );
    let r = model_status(&reg, "c", &resident(), 6);
    assert_eq!(r.status, 404);
    assert_eq!(
        render_json(&r.body),
        r#"{"error":{"message":"model 'c' not found in registry","type":"model_not_found"}}"#
    );
}

#[test]
fn load_and_unload_replies() {
    assert_eq!(
        render_json(&loaded_reply("a").body),
        r#"{"model":"a","ok":true}"#
    );
    assert_eq!(render_json(&unload_reply("a", true).body), r#"{"ok":true}"#);
    let r = unload_reply("a", false);
    assert_eq!(r.status, 404);
    assert_eq!(
        render_json(&r.body),
        r#"{"message":"model 'a' is not loaded","ok":false}"#
    );
}

#[test]
fn loading_sets_the_policy_that_is_asked_for() {
    let reg = ModelRegistry::from_paths(vec![at("a", Some("A"))]);
    assert!(check_load(&reg, "a").is_ok());
    let e = check_load(&reg, "b").unwrap_err();
    assert_eq!(e.reply.status, 404);
    assert_eq!(e.category, Some(ApiErrorCategory::NotFound));

    let (policy, reply) = load_model("a", &None, Some(-1)).unwrap();
    assert_eq!(policy, Some(KeepAlivePolicy::Pin));
    assert_eq!(reply.status, 200);
    let (policy, _) = load_model("a", &None, None).unwrap();
    assert_eq!(policy, None);
    let e = load_model("a", &Some("no memory".to_owned()), Some(0)).unwrap_err();
    assert_eq!(e.reply.status, 503);
    assert_eq!(e.category, Some(ApiErrorCategory::Upstream));
}
