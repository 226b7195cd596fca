use agentx::settings::{agent_dialog_action, AgentAction};
use agentx::settings::{
    arch_display_name, linux_version, macos_version, os_display_name, parse_agent_form, parse_env,
    validate_command_edit, validate_command_form, validate_mcp_form, validate_model_edit,
    validate_model_form, windows_version, AgentFormError,
};

#[test]
fn env_lines_become_pairs() {
    let env = parse_env("A=1\n  B = two words \n\nC=x=y").unwrap();
    assert_eq!(
        env,
        vec![
            ("A".to_string(), "1".to_string()),
            ("B".to_string(), "two words".to_string()),
            ("C".to_string(), "x=y".to_string()),
        ]
    );
    assert_eq!(parse_env("").unwrap(), vec![]);
    assert_eq!(parse_env("GOOD=1\n bad line \nX=2"), Err("bad line".to_string()));
}

#[test]
fn agent_form_is_checked_field_by_field() {
    assert!(matches!(parse_agent_form("  ", "cmd", "", ""), Err(AgentFormError::EmptyName)));
    assert!(matches!(parse_agent_form("n", " ", "", ""), Err(AgentFormError::EmptyCommand)));
    match parse_agent_form("n", "c", "", "oops") {
        Err(AgentFormError::InvalidEnvLine(l)) => assert_eq!(l, "oops"),
        _ => panic!("expected an invalid env line"),
    }
    let form = parse_agent_form(" aria ", " npx ", "--acp  -y\tpkg", "KEY=v").unwrap();
    assert_eq!(form.name, "aria");
    assert_eq!(form.command, "npx");
    assert_eq!(form.args, vec!["--acp".to_string(), "-y".to_string(), "pkg".to_string()]);
    assert_eq!(form.env, vec![("KEY".to_string(), "v".to_string())]);
}

#[test]
fn model_forms() {
    assert!(validate_model_form("", "acme", "https://x", "k", "m").is_none());
    assert!(validate_model_form("n", "  ", "https://x", "k", "m").is_none());
    assert!(validate_model_form("n", "acme", "", "k", "m").is_none());
    let f = validate_model_form(" big ", " acme ", " https://api ", " key ", " large-1 ").unwrap();
    assert_eq!(f.name, "big");
    assert_eq!(f.provider, "acme");
    assert_eq!(f.base_url, "https://api");
    assert_eq!(f.api_key, "key");
    assert_eq!(f.model_name, "large-1");
    let e = validate_model_edit(" keep ", "p", "u", "", "").unwrap();
    assert_eq!(e.name, " keep ");
    assert_eq!(e.api_key, "");
    assert!(validate_model_edit("n", "p", " ", "", "").is_none());
}

#[test]
fn command_forms() {
    assert!(validate_command_form("review", "", "t").is_none());
    let f = validate_command_form(" review ", " Review code ", " Please review ").unwrap();
    assert_eq!(f.name, "review");
    assert_eq!(f.description, "Review code");
    assert_eq!(f.template, "Please review");
    let e = validate_command_edit("same", "d", "t").unwrap();
    assert_eq!(e.name, "same");
    assert!(validate_command_edit("same", "d", "  ").is_none());
}

#[test]
fn platform_names() {
    assert_eq!(os_display_name("macos"), "macOS");
    assert_eq!(os_display_name("windows"), "Windows");
    assert_eq!(os_display_name("linux"), "Linux");
    assert_eq!(os_display_name("freebsd"), "freebsd");
    assert_eq!(arch_display_name("x86_64"), "x64");
    assert_eq!(arch_display_name("aarch64"), "ARM64");
    assert_eq!(arch_display_name("riscv64"), "riscv64");
}

#[test]
fn os_versions_from_command_output() {
    assert_eq!(macos_version(Some(" 14.5\n".to_string())), "14.5");
    assert_eq!(macos_version(None), "Unknown");
    assert_eq!(
        windows_version(Some("\r\nMicrosoft Windows [Version 10.0.22631.3880]\r\n".to_string())),
        "10.0.22631.3880"
    );
    assert_eq!(windows_version(Some(" no brackets ".to_string())), "no brackets");
    assert_eq!(windows_version(None), "Unknown");
    assert_eq!(
        linux_version(Some("NAME=\"Ubuntu\"\nVERSION_ID=\"22.04\"\nID=ubuntu\n".to_string())),
        "22.04"
    );
    assert_eq!(linux_version(Some("NAME=x\n".to_string())), "Unknown");
    assert_eq!(linux_version(None), "Unknown");
}

#[test]
fn mcp_server_forms_read_their_json_configuration() {
    assert!(validate_mcp_form("  ", "d", "").is_none());
    let f = validate_mcp_form(" files ", " Local files ", r#" {"command": "npx", "root": "/tmp"} "#).unwrap();
    assert_eq!(f.name, "files");
    assert!(f.enabled);
    assert_eq!(f.description, "Local files");
    let mut config = f.config.clone();
    config.sort();
    assert_eq!(
        config,
        vec![("command".to_string(), "npx".to_string()), ("root".to_string(), "/tmp".to_string())]
    );
    assert!(validate_mcp_form("x", "", "not json").unwrap().config.is_empty());
    assert!(validate_mcp_form("x", "", r#"{"n": 1}"#).unwrap().config.is_empty());
    assert!(validate_mcp_form("x", "", "").unwrap().config.is_empty());
}

#[test]
fn a_later_env_line_replaces_an_earlier_one_with_the_same_key() {
    let form = parse_agent_form("a", "c", "", "K=1\nJ=2\nK=3").unwrap();
    assert_eq!(form.env, vec![("K".to_string(), "3".to_string()), ("J".to_string(), "2".to_string())]);
    let merged = agentx::settings::env_map(vec![
        ("A".to_string(), "x".to_string()),
        ("A".to_string(), "y".to_string()),
    ]);
    assert_eq!(merged, vec![("A".to_string(), "y".to_string())]);
}

#[test]
fn the_agent_dialog_adds_or_updates() {
    let form = parse_agent_form("a", "c", "", "").unwrap();
    assert!(matches!(agent_dialog_action(true, form), AgentAction::Update(f) if f.name == "a"));
    let form = parse_agent_form("b", "c", "", "").unwrap();
    assert!(matches!(agent_dialog_action(false, form), AgentAction::Add(f) if f.name == "b"));
}
