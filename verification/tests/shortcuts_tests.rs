use cx_terminal::shortcuts::{
    ExplainCommand, FixCommand, InstallCommand, SetupCommand, WhatCommand,
};

fn words(ws: &[&str]) -> Vec<String> {
    ws.iter().map(|w| w.to_string()).collect()
}

#[test]
fn test_install_builds_ask_invocation() {
    let cmd = InstallCommand {
        description: words(&["docker", "compose"]),
        auto_confirm: true,
        local_only: false,
        verbose: true,
    };
    let ask = cmd.run();
    assert_eq!(ask.query, vec!["install docker compose".to_string()]);
    assert!(ask.execute);
    assert!(ask.auto_confirm);
    assert!(!ask.local_only);
    assert_eq!(ask.format, "text");
    assert!(ask.verbose);
}

#[test]
fn test_setup_builds_ask_invocation() {
    let cmd = SetupCommand {
        description: words(&["nginx"]),
        auto_confirm: false,
        local_only: true,
        verbose: false,
    };
    let ask = cmd.run();
    assert_eq!(ask.query, vec!["setup nginx".to_string()]);
    assert!(ask.execute);
    assert!(!ask.auto_confirm);
    assert!(ask.local_only);
    assert_eq!(ask.format, "text");
}

#[test]
fn test_what_builds_ask_invocation() {
    let cmd = WhatCommand {
        question: words(&["is", "using", "port", "8080"]),
        format: "json".to_string(),
        local_only: false,
        verbose: false,
    };
    let ask = cmd.run();
    assert_eq!(ask.query, vec!["what is using port 8080".to_string()]);
    assert!(!ask.execute);
    assert!(!ask.auto_confirm);
    assert_eq!(ask.format, "json");
}

#[test]
fn test_fix_builds_ask_invocation() {
    let cmd = FixCommand {
        error: words(&["permission", "denied"]),
        auto_confirm: false,
        local_only: false,
        verbose: false,
    };
    let ask = cmd.run();
    assert_eq!(
        ask.query,
        vec!["fix this error: permission denied".to_string()]
    );
    assert!(ask.execute);
    assert_eq!(ask.format, "text");
}

#[test]
fn test_explain_builds_ask_invocation() {
    let cmd = ExplainCommand {
        subject: words(&["chmod"]),
        format: "text".to_string(),
        local_only: true,
        verbose: true,
    };
    let ask = cmd.run();
    assert_eq!(ask.query, vec!["explain chmod".to_string()]);
    assert!(!ask.execute);
    assert!(!ask.auto_confirm);
    assert!(ask.local_only);
    assert!(ask.verbose);
}
