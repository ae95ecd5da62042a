use claudio_core::codec::Agent;
use claudio_core::export::{export_agent, import_agent, ImportError};
use claudio_core::listing::finalize_agent_list;
use claudio_core::metrics::{encode_project_path, session_file_name};
use claudio_core::settings::{
    get_proxy_settings, get_setting, proxy_env_actions, save_setting, set_proxy, ClaudioSettings,
    ProxySettings, ThemeSettings,
};

fn agent_named(name: &str) -> Agent {
    Agent {
        id: None,
        name: String::from(name),
        icon: String::from("robot"),
        system_prompt: String::from("Prompt."),
        default_task: None,
        model: String::from("sonnet"),
        enable_file_read: true,
        enable_file_write: true,
        enable_network: false,
        hooks: None,
        created_at: String::from("2024-01-01T00:00:00Z"),
        updated_at: String::from("2024-01-01T00:00:00Z"),
        description: None,
        tools: None,
        color: None,
    }
}

fn envelope(version: u64, name: &str) -> String {
    format!(
        "{{\"version\":{version},\"exported_at\":\"2024-01-01T00:00:00Z\",\"agent\":{{\"name\":\"{name}\",\"icon\":\"robot\",\"system_prompt\":\"Do it.\",\"model\":\"opus\"}}}}"
    )
}

#[test]
fn import_version_two_refused() {
    let r = import_agent(&envelope(2, "Imported One"), &Vec::new());
    assert!(matches!(r, Err(ImportError::UnsupportedVersion(2))));
}

#[test]
fn import_version_one_accepted() {
    let a = import_agent(&envelope(1, "Imported One"), &Vec::new()).expect("version 1 imports");
    assert_eq!(a.name, "Imported One");
    assert_eq!(a.icon, "robot");
    assert_eq!(a.system_prompt, "Do it.");
    assert_eq!(a.model, "opus");
    assert!(a.enable_file_read);
    assert!(!a.enable_network);
}

#[test]
fn import_collision_gets_suffix() {
    let existing = vec![String::from("Imported One")];
    let a = import_agent(&envelope(1, "Imported One"), &existing).expect("version 1 imports");
    assert_eq!(a.name, "Imported One (Imported)");
}

#[test]
fn import_bad_json_is_invalid_format() {
    let r = import_agent("{not json", &Vec::new());
    match r {
        Err(ImportError::InvalidFormat(msg)) => {
            assert!(msg.starts_with("Invalid JSON format: "));
        },
        _ => panic!("expected InvalidFormat"),
    }
}

#[test]
fn import_missing_field_is_invalid_format() {
    let r = import_agent("{\"version\":1,\"agent\":{\"name\":\"X\"}}", &Vec::new());
    match r {
        Err(ImportError::InvalidFormat(msg)) => {
            assert!(msg.starts_with("Invalid JSON format: "));
        },
        _ => panic!("expected InvalidFormat"),
    }
}

#[test]
fn export_builds_version_one() {
    let e = export_agent(agent_named("Exported"));
    assert_eq!(e.version, 1);
    assert_eq!(e.agent.name, "Exported");
    assert_eq!(e.agent.model, "sonnet");
}

#[test]
fn settings_defaults() {
    let s = ClaudioSettings::default();
    assert!(!s.proxy.enabled);
    assert!(s.proxy.http_proxy.is_none());
    assert!(s.claude_binary_path.is_none());
    assert!(s.theme.theme_mode.is_none());
    assert!(s.theme.custom_colors.is_none());
}

#[test]
fn get_setting_known_and_unknown_keys() {
    let s = ClaudioSettings {
        proxy: ProxySettings::default(),
        claude_binary_path: None,
        theme: ThemeSettings {
            theme_mode: Some(String::from("dark")),
            custom_colors: None,
        },
    };
    assert_eq!(get_setting(&s, "theme_preference").as_deref(), Some("dark"));
    assert_eq!(get_setting(&s, "theme_custom_colors"), None);
    assert_eq!(get_setting(&s, "anything_else"), None);
}

#[test]
fn save_setting_updates_and_rejects() {
    let s = ClaudioSettings::default();
    let s = save_setting(s, "theme_preference", String::from("dark")).expect("known key");
    assert_eq!(s.theme.theme_mode.as_deref(), Some("dark"));
    let s = save_setting(s, "theme_custom_colors", String::from("{}")).expect("known key");
    assert_eq!(s.theme.custom_colors.as_deref(), Some("{}"));
    assert_eq!(s.theme.theme_mode.as_deref(), Some("dark"));
    let err = save_setting(s, "nope", String::from("x")).expect_err("unknown key");
    assert_eq!(err, "Unknown setting key: nope");
}

#[test]
fn proxy_round_trip_through_settings() {
    let base = ClaudioSettings::default();
    let proxy = ProxySettings {
        http_proxy: Some(String::from("http://proxy:8080")),
        https_proxy: None,
        no_proxy: None,
        all_proxy: None,
        enabled: true,
    };
    let s = set_proxy(base, proxy);
    let got = get_proxy_settings(&s);
    assert!(got.enabled);
    assert_eq!(got.http_proxy.as_deref(), Some("http://proxy:8080"));
}

#[test]
fn proxy_actions_disabled_removes_everything() {
    let actions = proxy_env_actions(&ProxySettings::default());
    let names: Vec<&str> = actions.iter().map(|a| a.name.as_str()).collect();
    assert_eq!(
        names,
        vec![
            "HTTP_PROXY",
            "HTTPS_PROXY",
            "NO_PROXY",
            "ALL_PROXY",
            "http_proxy",
            "https_proxy",
            "no_proxy",
            "all_proxy"
        ]
    );
    assert!(actions.iter().all(|a| a.value.is_none()));
}

#[test]
fn proxy_actions_enabled_sets_values() {
    let p = ProxySettings {
        http_proxy: Some(String::from("http://h:1")),
        https_proxy: Some(String::from("")),
        no_proxy: Some(String::from("internal.example")),
        all_proxy: None,
        enabled: true,
    };
    let actions = proxy_env_actions(&p);
    assert_eq!(actions.len(), 2);
    assert_eq!(actions[0].name, "HTTP_PROXY");
    assert_eq!(actions[0].value.as_deref(), Some("http://h:1"));
    assert_eq!(actions[1].name, "NO_PROXY");
    assert_eq!(
        actions[1].value.as_deref(),
        Some("localhost,127.0.0.1,::1,0.0.0.0,internal.example")
    );
}

#[test]
fn listing_sorts_and_numbers() {
    let agents = vec![agent_named("charlie"), agent_named("alpha"), agent_named("bravo")];
    let r = finalize_agent_list(agents);
    let names: Vec<&str> = r.iter().map(|a| a.name.as_str()).collect();
    assert_eq!(names, vec!["alpha", "bravo", "charlie"]);
    let ids: Vec<Option<i64>> = r.iter().map(|a| a.id).collect();
    assert_eq!(ids, vec![Some(1), Some(2), Some(3)]);
}

#[test]
fn session_paths() {
    assert_eq!(encode_project_path("/tmp/my/project"), "-tmp-my-project");
    assert_eq!(session_file_name("abc-123"), "abc-123.jsonl");
}

#[test]
fn import_error_messages() {
    assert_eq!(ImportError::InvalidFormat(String::from("cause")).message(), "cause");
    assert_eq!(
        ImportError::UnsupportedVersion(2).message(),
        "Unsupported export version: only version 1 is supported"
    );
}

#[test]
fn listing_keeps_equal_names() {
    let agents = vec![agent_named("same"), agent_named("same")];
    let r = finalize_agent_list(agents);
    assert_eq!(r.len(), 2);
    assert_eq!(r[0].name, "same");
    assert_eq!(r[1].name, "same");
    assert_eq!(r[0].id, Some(1));
    assert_eq!(r[1].id, Some(2));
}
