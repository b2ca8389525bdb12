use coolclis::archive::{archive_kind, is_archive, ArchiveKind};
use coolclis::catalog::{
    add_cli_tool, is_known, load_cli_tools, resolve_repo, CatalogError, CliTool, CliToolsConfig,
};
use coolclis::install::{
    executable_mode, is_repo_path, latest_release_url, tagged_release_url, temp_dir_name,
    tool_name_of,
};
use coolclis::locator::expected_tool_name;
use coolclis::retry::{
    answered, classify_status, may_attempt, next_step, Outcome, StatusClass, Step,
};
use coolclis::text::{same_text, strip_suffix};

fn tool(name: &str, repo: &str) -> CliTool {
    CliTool { name: name.to_string(), repo: repo.to_string(), description: String::new() }
}

#[test]
fn archive_kind_goes_by_the_suffix() {
    assert_eq!(archive_kind("tool-linux.tar.gz"), ArchiveKind::TarGz);
    assert_eq!(archive_kind("tool-linux.tgz"), ArchiveKind::TarGz);
    assert_eq!(archive_kind("tool-linux.zip"), ArchiveKind::Zip);
    assert_eq!(archive_kind("tool-linux"), ArchiveKind::Plain);
    assert_eq!(archive_kind("tool.exe"), ArchiveKind::Plain);
    assert_eq!(archive_kind("tool.zip.sig"), ArchiveKind::Plain);
    assert_eq!(archive_kind("tool.tar.gz.zip"), ArchiveKind::Zip);
    assert_eq!(archive_kind("tool.zip.tgz"), ArchiveKind::TarGz);
    assert_eq!(archive_kind("tool.ZIP"), ArchiveKind::Plain);
    assert_eq!(archive_kind(""), ArchiveKind::Plain);
}

#[test]
fn is_archive_agrees_with_the_kind() {
    assert!(is_archive("a.tar.gz"));
    assert!(is_archive("a.tgz"));
    assert!(is_archive("a.zip"));
    assert!(!is_archive("a"));
    assert!(!is_archive("a.gz"));
}

#[test]
fn tool_name_is_the_last_segment() {
    assert_eq!(tool_name_of("BurntSushi/ripgrep"), "ripgrep");
    assert_eq!(tool_name_of("ripgrep"), "ripgrep");
    assert_eq!(tool_name_of("a/b/c"), "c");
    assert_eq!(tool_name_of("owner/"), "");
    assert_eq!(tool_name_of(""), "");
    assert_eq!(tool_name_of("\u{e9}t\u{e9}/caf\u{e9}"), "caf\u{e9}");
}

#[test]
fn repo_path_has_one_slash() {
    assert!(is_repo_path("owner/repo"));
    assert!(is_repo_path("/"));
    assert!(!is_repo_path("repo"));
    assert!(!is_repo_path("a/b/c"));
    assert!(!is_repo_path(""));
}

#[test]
fn temp_dir_name_round_trip() {
    assert_eq!(temp_dir_name("ripgrep"), "ripgrep_temp");
    assert_eq!(expected_tool_name(&temp_dir_name("ripgrep")), "ripgrep");
    assert_eq!(expected_tool_name(&temp_dir_name("")), "");
}

#[test]
fn executable_mode_lets_everyone_run() {
    assert_eq!(executable_mode(), 0o755);
    assert_eq!(executable_mode() & 0o100, 0o100);
    assert_eq!(executable_mode() & 0o111, 0o111);
}

#[test]
fn release_urls() {
    assert_eq!(
        latest_release_url("owner/repo"),
        "https://api.github.com/repos/owner/repo/releases/latest"
    );
    assert_eq!(
        tagged_release_url("owner/repo", "v1.0.0"),
        "https://api.github.com/repos/owner/repo/releases/tags/v1.0.0"
    );
}

#[test]
fn status_classes() {
    assert_eq!(classify_status(200), StatusClass::Served);
    assert_eq!(classify_status(204), StatusClass::Served);
    assert_eq!(classify_status(299), StatusClass::Served);
    assert_eq!(classify_status(199), StatusClass::Refused);
    assert_eq!(classify_status(300), StatusClass::Refused);
    assert_eq!(classify_status(404), StatusClass::Missing);
    assert_eq!(classify_status(403), StatusClass::Refused);
    assert_eq!(classify_status(500), StatusClass::Refused);
}

#[test]
fn outcomes_of_answers() {
    assert_eq!(answered(200, true), Outcome::Success);
    assert_eq!(answered(200, false), Outcome::Unreadable);
    assert_eq!(answered(404, true), Outcome::NotFound);
    assert_eq!(answered(404, false), Outcome::NotFound);
    assert_eq!(answered(503, true), Outcome::BadStatus);
    assert_eq!(answered(302, false), Outcome::BadStatus);
}

#[test]
fn retry_steps() {
    assert_eq!(next_step(1, 3, Outcome::Success), Step::Finish);
    assert_eq!(next_step(3, 3, Outcome::Success), Step::Finish);
    assert_eq!(next_step(1, 3, Outcome::NotFound), Step::GiveUp);
    assert_eq!(next_step(1, 3, Outcome::BadStatus), Step::Retry);
    assert_eq!(next_step(2, 3, Outcome::Unreadable), Step::Retry);
    assert_eq!(next_step(2, 3, Outcome::SendFailed), Step::Retry);
    assert_eq!(next_step(3, 3, Outcome::BadStatus), Step::GiveUp);
    assert_eq!(next_step(3, 3, Outcome::Unreadable), Step::GiveUp);
    assert_eq!(next_step(3, 3, Outcome::SendFailed), Step::GiveUp);
}

#[test]
fn attempts_are_bounded() {
    assert!(may_attempt(0, 3));
    assert!(may_attempt(2, 3));
    assert!(!may_attempt(3, 3));
    assert!(!may_attempt(0, 0));
}

#[test]
fn adding_a_tool_appends_it() {
    let mut config = CliToolsConfig { tools: vec![tool("rg", "BurntSushi/ripgrep")] };
    assert_eq!(add_cli_tool(&mut config, "fd", "sharkdp/fd", "find files"), Ok(()));
    assert_eq!(config.tools.len(), 2);
    assert_eq!(config.tools[0].name, "rg");
    assert_eq!(config.tools[1].name, "fd");
    assert_eq!(config.tools[1].repo, "sharkdp/fd");
    assert_eq!(config.tools[1].description, "find files");
    assert!(is_known(&config, "fd"));
    assert!(!is_known(&config, "bat"));
}

#[test]
fn adding_a_known_name_is_refused() {
    let mut config = CliToolsConfig { tools: vec![tool("rg", "BurntSushi/ripgrep")] };
    assert_eq!(add_cli_tool(&mut config, "rg", "other/rg", ""), Err(CatalogError::DuplicateName));
    assert_eq!(config.tools.len(), 1);
    assert_eq!(config.tools[0].repo, "BurntSushi/ripgrep");
}

#[test]
fn tools_map_by_name() {
    let config = CliToolsConfig {
        tools: vec![tool("rg", "BurntSushi/ripgrep"), tool("fd", "sharkdp/fd"), tool("rg", "fork/ripgrep")],
    };
    let m = load_cli_tools(&config);
    assert_eq!(m.len(), 2);
    assert_eq!(m.get("rg"), Some(&"fork/ripgrep".to_string()));
    assert_eq!(m.get("fd"), Some(&"sharkdp/fd".to_string()));
    assert_eq!(m.get("bat"), None);
    assert_eq!(load_cli_tools(&CliToolsConfig { tools: vec![] }).len(), 0);
}

#[test]
fn requested_repository() {
    let config = CliToolsConfig { tools: vec![tool("rg", "BurntSushi/ripgrep")] };
    let m = load_cli_tools(&config);
    assert_eq!(resolve_repo("rg", &m), Ok("BurntSushi/ripgrep".to_string()));
    assert_eq!(resolve_repo("sharkdp/fd", &m), Ok("sharkdp/fd".to_string()));
    assert_eq!(resolve_repo("fd", &m), Err(CatalogError::UnknownTool));
}

#[test]
fn text_helpers() {
    assert!(same_text("abc", "abc"));
    assert!(!same_text("abc", "abd"));
    assert!(!same_text("abc", "ab"));
    assert!(same_text("", ""));
    assert_eq!(strip_suffix("tool_temp", "_temp"), Some("tool"));
    assert_eq!(strip_suffix("tool", "_temp"), None);
    assert_eq!(strip_suffix("caf\u{e9}_temp", "_temp"), Some("caf\u{e9}"));
}
