use wand::cli::{Cli, Command};
use wand::commands::cast::spell_executions_uri;
use wand::commands::install::{confirm_accepts, is_renderable_template, render_manifest};
use wand::commands::login::{poll_action, PollAction, TokenPollOutcome};
use wand::config::Config;
use wand::http::bearer_token;

#[test]
fn bearer_header() {
    assert_eq!(bearer_token("abc"), "Bearer abc");
    assert_eq!(bearer_token(""), "Bearer ");
}

#[test]
fn spell_uri() {
    assert_eq!(spell_executions_uri("deploy"), "http://api.runebook.local/spells/deploy/executions");
}

#[test]
fn confirm_answers() {
    assert!(confirm_accepts("y"));
    assert!(confirm_accepts("Y"));
    assert!(confirm_accepts("\n"));
    assert!(confirm_accepts("\r"));
    assert!(confirm_accepts("y\n"));
    assert!(confirm_accepts("Y\n"));
    assert!(confirm_accepts("y\r\n"));
    assert!(confirm_accepts("Y\r\n"));
    assert!(confirm_accepts("\r\n"));
    assert!(!confirm_accepts("n"));
    assert!(!confirm_accepts("n\n"));
    assert!(!confirm_accepts(""));
    assert!(!confirm_accepts("yes\n"));
    assert!(!confirm_accepts("\n\n"));
    assert!(!confirm_accepts(" y\n"));
}

#[test]
fn manifest_rendering() {
    let out = render_manifest(
        "id={{agent_id}} pub={{public_key}} priv={{private_key}}",
        "42",
        "a<b",
        "k",
    );
    assert_eq!(out.as_deref(), Some("id=42 pub=a&lt;b priv=k"));
    assert_eq!(render_manifest("{{#if}}", "", "", ""), None);
    assert_eq!(
        render_manifest("key: {{ agent_id }}\nother: {{~private_key~}} end", "x", "", "s"),
        Some("key: x\nother:send".to_string())
    );
}

#[test]
fn partials_and_decorators_are_refused() {
    assert_eq!(render_manifest("{{#*inline \"a\"}}{{> a}}{{/inline}}{{> a}}", "", "", ""), None);
    assert_eq!(render_manifest("{{> manifest}}", "", "", ""), None);
    assert_eq!(render_manifest("{{~> a}}", "", "", ""), None);
    assert_eq!(render_manifest("{{ > a}}", "", "", ""), None);
    assert_eq!(render_manifest("{{#> layout}}x{{/layout}}", "", "", ""), None);
}

#[test]
fn rich_templates_render() {
    assert_eq!(
        render_manifest("key: {{{public_key}}} / {{public_key}}", "", "a=b", "").as_deref(),
        Some("key: a=b / a&#x3D;b")
    );
    assert_eq!(
        render_manifest("{{#if agent_id}}id {{agent_id}}{{else}}none{{/if}}{{! note }}", "7", "", "").as_deref(),
        Some("id 7")
    );
    assert_eq!(
        render_manifest("{{#if agent_id}}id{{else}}none{{/if}}", "", "", "").as_deref(),
        Some("none")
    );
    assert_eq!(render_manifest("{{this.agent_id}}-{{lookup this \"private_key\"}}", "x", "", "y").as_deref(), Some("x-y"));
}

#[test]
fn nesting_is_bounded() {
    let deep = |n: usize| "{{#if agent_id}}".repeat(n) + "in" + &"{{/if}}".repeat(n);
    assert_eq!(render_manifest(&deep(64), "1", "", "").as_deref(), Some("in"));
    assert_eq!(render_manifest(&deep(65), "1", "", ""), None);
    assert!(is_renderable_template(&deep(64)));
    assert!(!is_renderable_template(&deep(65)));
}

#[test]
fn renderable_templates() {
    assert!(is_renderable_template("plain text } { }} > *"));
    assert!(is_renderable_template("a {{x}} b {{{y}}} {{#each z}}{{.}}{{/each}}"));
    assert!(!is_renderable_template("{{> p}}"));
    assert!(!is_renderable_template("{{#*inline \"p\"}}{{/inline}}"));
}

#[test]
fn token_polling() {
    assert_eq!(poll_action(TokenPollOutcome::Granted, 5), PollAction::Finish);
    assert_eq!(poll_action(TokenPollOutcome::Status(403), 5), PollAction::Wait(5));
    assert_eq!(poll_action(TokenPollOutcome::Status(500), 5), PollAction::Retry);
    assert_eq!(poll_action(TokenPollOutcome::Transport, 5), PollAction::Retry);
}

#[test]
fn config_token() {
    assert!(!Config::new(String::new()).has_access_token());
    let c = Config::new("t".to_string());
    assert!(c.has_access_token());
    assert_eq!(c.access_token, "t");
}

#[test]
fn commands_that_authenticate() {
    assert!(!Cli { command: Command::Login }.needs_authentication());
    assert!(Cli { command: Command::List }.needs_authentication());
    assert!(Cli { command: Command::Cast { spell: "s".to_string() } }.needs_authentication());
}
