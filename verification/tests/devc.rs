use devc::cli::{command_of, usage, version, Cli, Command, USAGE, VERSION};
use devc::config::{default_image_repo, ProjectConfig};
use devc::manifest::parse_manifest;
use devc::paths::{ancestors, default_workspace_name, find_manifest_path, manifest_candidates, workspace_name_from};
use devc::snake::upper_snake;

fn sample_config() -> ProjectConfig {
    ProjectConfig {
        manifest_path: "/tmp/devc.toml".to_string(),
        container: "chae1".to_string(),
        workspace_name: "demo_repo".to_string(),
        service_name: "agent".to_string(),
        image_repo: "ghcr.io/example/chae1-devcontainer".to_string(),
        image_env_var: "CHAE1_IMAGE".to_string(),
        pin_file: ".devc.local.env".to_string(),
    }
}

fn args(list: &[&str]) -> Vec<Option<String>> {
    list.iter().map(|a| Some(a.to_string())).collect()
}

fn parse_ok(list: &[&str]) -> Cli {
    match Cli::parse(&args(list), Ok("/work/here".to_string())) {
        Ok(cli) => cli,
        Err(e) => panic!("unexpected error: {e}"),
    }
}

fn parse_err(list: &[&str]) -> String {
    match Cli::parse(&args(list), Ok("/work/here".to_string())) {
        Ok(_) => panic!("expected an error"),
        Err(e) => e,
    }
}

#[test]
fn compose_snippet_uses_manifest_values() {
    let config = sample_config();
    let snippet = config.compose_snippet();
    assert!(snippet.contains("image: ${CHAE1_IMAGE:-ghcr.io/example/chae1-devcontainer:latest}"));
    assert!(snippet.contains("working_dir: /workspaces/demo_repo"));
    assert!(snippet.contains("- .:/workspaces/demo_repo:rw"));
}

#[test]
fn just_snippet_references_pin_file_and_service_name() {
    let config = sample_config();
    let snippet = config.just_snippet();
    assert!(snippet.contains("DEVCONTAINER_ENV_FILE := \".devc.local.env\""));
    assert!(snippet.contains("docker compose --env-file \"${DEVCONTAINER_ENV_FILE}\" up -d agent"));
    assert!(snippet.contains("docker compose exec -u agent agent bash -l"));
}

#[test]
fn init_writes_manifest_with_defaults() {
    let cli = parse_ok(&["devc", "init", "--project-dir", "/tmp/devc-cli-init-1"]);
    let config = ProjectConfig::init_for(cli.project_dir.as_str(), &cli).unwrap();
    let manifest = config.manifest_contents();
    assert!(manifest.contains("container = \"chae1\""));
    assert!(manifest.contains("workspace_name = \""));
    assert!(manifest.contains("image_env_var = \"CHAE1_IMAGE\""));
}

#[test]
fn init_in_container_layout_uses_leaf_directory_name() {
    let dir = "/tmp/devc-cli-container-layout-1/containers/chae1";
    let cli = parse_ok(&["devc", "init", "--project-dir", dir]);
    let config = ProjectConfig::init_for(cli.project_dir.as_str(), &cli).unwrap();
    let manifest = config.manifest_contents();
    assert!(manifest.contains("container = \"chae1\""));
    assert!(manifest.contains("workspace_name = \"chae1\""));
    assert!(manifest.contains("image_repo = \"ghcr.io/geoff-hill/chae1-devcontainer\""));
}

#[test]
fn show_discovers_manifest_from_parent_directory() {
    let project_dir = "/tmp/devc-cli-show-1";
    let nested_dir = "/tmp/devc-cli-show-1/apps/api";
    let text = "\ncontainer = \"chae1\"\nworkspace_name = \"example_repo\"\nservice_name = \"agent\"\nimage_repo = \"ghcr.io/example/chae1-devcontainer\"\nimage_env_var = \"CHAE1_IMAGE\"\npin_file = \".devc.local.env\"\n";
    let candidates = manifest_candidates(nested_dir);
    let manifest_at = format!("{project_dir}/devc.toml");
    let is_file: Vec<bool> = candidates.iter().map(|c| *c == manifest_at).collect();
    let found = find_manifest_path(&candidates, &is_file).unwrap();
    assert_eq!(found, manifest_at);
    let config = ProjectConfig::load_from(nested_dir, Some((found, Ok(text.to_string())))).unwrap();
    assert_eq!(config.workspace_name, "example_repo");
    assert_eq!(config.service_name, "agent");
    assert_eq!(config.image_repo, "ghcr.io/example/chae1-devcontainer");
}

#[test]
fn version_output_matches_cargo_package_version() {
    assert_eq!(version(), format!("devc {}\n", VERSION));
    assert_eq!(version(), "devc 0.1.0\n");
}

#[test]
fn upper_snake_joins_words_with_single_underscores() {
    assert_eq!(upper_snake("chae1"), "CHAE1");
    assert_eq!(upper_snake("my-cool app!"), "MY_COOL_APP");
    assert_eq!(upper_snake("--x--y--"), "X_Y");
    assert_eq!(upper_snake(""), "");
    assert_eq!(upper_snake("___"), "");
    assert_eq!(upper_snake("Ünïcode box"), "N_CODE_BOX");
}

#[test]
fn upper_snake_is_idempotent_on_examples() {
    for s in ["chae1", "my-cool app!", "a..b", "Z_9"] {
        let once = upper_snake(s);
        assert_eq!(upper_snake(&once), once);
    }
}

#[test]
fn parse_manifest_reads_values_skips_comments_and_blank_lines() {
    let m = parse_manifest("# comment\n\n  container =  \"x y\"  \r\nworkspace_name=\"w\"\n   # another\n").unwrap();
    assert_eq!(m.get("container"), Some("x y".to_string()));
    assert_eq!(m.get("workspace_name"), Some("w".to_string()));
    assert_eq!(m.get("service_name"), None);
}

#[test]
fn parse_manifest_later_line_wins() {
    let m = parse_manifest("a = \"1\"\nb = \"2\"\na = \"3\"").unwrap();
    assert_eq!(m.get("a"), Some("3".to_string()));
    assert_eq!(m.get("b"), Some("2".to_string()));
}

#[test]
fn parse_manifest_keeps_text_after_first_equals_and_empty_values() {
    let m = parse_manifest("k = \"a=b\"\ne = \"\"").unwrap();
    assert_eq!(m.get("k"), Some("a=b".to_string()));
    assert_eq!(m.get("e"), Some(String::new()));
}

#[test]
fn parse_manifest_reports_line_without_equals() {
    let text = "\n\n\n\n\n\n\n\n\n\n\nnot a pair\n";
    match parse_manifest(text) {
        Ok(_) => panic!("expected an error"),
        Err(e) => assert_eq!(e, "invalid manifest line 12: `not a pair`"),
    }
}

#[test]
fn parse_manifest_reports_unquoted_value() {
    match parse_manifest("container = chae1\n") {
        Ok(_) => panic!("expected an error"),
        Err(e) => assert_eq!(e, "manifest values must be double-quoted strings: `container = chae1`"),
    }
    match parse_manifest("x = \"\n") {
        Ok(_) => panic!("expected an error"),
        Err(e) => assert_eq!(e, "manifest values must be double-quoted strings: `x = \"`"),
    }
}

#[test]
fn parse_manifest_first_error_wins() {
    match parse_manifest("a = b\nno equals\n") {
        Ok(_) => panic!("expected an error"),
        Err(e) => assert_eq!(e, "manifest values must be double-quoted strings: `a = b`"),
    }
}

#[test]
fn manifest_round_trips_through_load() {
    let mut config = sample_config();
    config.workspace_name = "with spaces and = signs".to_string();
    let text = config.manifest_contents();
    let loaded = ProjectConfig::load_from("/x", Some(("/y/devc.toml".to_string(), Ok(text)))).unwrap();
    assert_eq!(loaded.manifest_path, "/y/devc.toml");
    assert_eq!(loaded.container, config.container);
    assert_eq!(loaded.workspace_name, config.workspace_name);
    assert_eq!(loaded.service_name, config.service_name);
    assert_eq!(loaded.image_repo, config.image_repo);
    assert_eq!(loaded.image_env_var, config.image_env_var);
    assert_eq!(loaded.pin_file, config.pin_file);
}

#[test]
fn single_quotes_are_written_bare_and_read_back() {
    let mut config = sample_config();
    config.workspace_name = "it's mine".to_string();
    let text = config.manifest_contents();
    assert!(text.contains("workspace_name = \"it's mine\"\n"));
    let loaded = ProjectConfig::load_from("/x", Some(("/y/devc.toml".to_string(), Ok(text)))).unwrap();
    assert_eq!(loaded.workspace_name, "it's mine");
    assert!(config.show_contents().contains("workspace_name = \"it's mine\"\n"));
}

#[test]
fn manifest_contents_exact_text_and_debug_escapes() {
    let mut config = sample_config();
    assert_eq!(
        config.manifest_contents(),
        "# Managed by `devc init`. Commit this file with the repo.\ncontainer = \"chae1\"\nworkspace_name = \"demo_repo\"\nservice_name = \"agent\"\nimage_repo = \"ghcr.io/example/chae1-devcontainer\"\nimage_env_var = \"CHAE1_IMAGE\"\npin_file = \".devc.local.env\"\n"
    );
    config.service_name = "a\"b".to_string();
    assert!(config.manifest_contents().contains("service_name = \"a\\\"b\"\n"));
}

#[test]
fn show_contents_starts_with_manifest_path() {
    let config = sample_config();
    let shown = config.show_contents();
    assert!(shown.starts_with("manifest_path = \"/tmp/devc.toml\"\ncontainer = \"chae1\"\n"));
    assert!(shown.ends_with("pin_file = \".devc.local.env\"\n"));
}

#[test]
fn load_from_applies_defaults() {
    let text = "container = \"my-box\"\nworkspace_name = \"ws\"\n";
    let c = ProjectConfig::load_from("/p", Some(("/p/devc.toml".to_string(), Ok(text.to_string())))).unwrap();
    assert_eq!(c.service_name, "agent");
    assert_eq!(c.image_repo, "ghcr.io/geoff-hill/my-box-devcontainer");
    assert_eq!(c.image_env_var, "MY_BOX_IMAGE");
    assert_eq!(c.pin_file, ".devc.local.env");
}

#[test]
fn load_from_errors() {
    let e = ProjectConfig::load_from("/p/q", None).err().unwrap();
    assert_eq!(e, "could not find `devc.toml` in `/p/q` or its parents");
    let e = ProjectConfig::load_from("/p", Some(("/p/devc.toml".to_string(), Err("denied".to_string())))).err().unwrap();
    assert_eq!(e, "failed to read /p/devc.toml: denied");
    let e = ProjectConfig::load_from("/p", Some(("/p/devc.toml".to_string(), Ok("workspace_name = \"w\"".to_string())))).err().unwrap();
    assert_eq!(e, "missing required key `container`");
    let e = ProjectConfig::load_from("/p", Some(("/p/devc.toml".to_string(), Ok("container = \"c\"".to_string())))).err().unwrap();
    assert_eq!(e, "missing required key `workspace_name`");
    let e = ProjectConfig::load_from("/p", Some(("/p/devc.toml".to_string(), Ok("bad".to_string())))).err().unwrap();
    assert_eq!(e, "invalid manifest line 1: `bad`");
}

#[test]
fn init_for_uses_flags_over_defaults() {
    let cli = parse_ok(&[
        "devc", "init", "--container", "my box", "--workspace-name", "ws", "--service-name", "svc", "--image-repo", "repo",
    ]);
    let c = ProjectConfig::init_for("/a/b", &cli).unwrap();
    assert_eq!(c.manifest_path, "/a/b/devc.toml");
    assert_eq!(c.container, "my box");
    assert_eq!(c.workspace_name, "ws");
    assert_eq!(c.service_name, "svc");
    assert_eq!(c.image_repo, "repo");
    assert_eq!(c.image_env_var, "MY_BOX_IMAGE");
    assert_eq!(c.pin_file, ".devc.local.env");
    let d = ProjectConfig::init_for("/a/b", &parse_ok(&["devc", "init"])).unwrap();
    assert_eq!(d.workspace_name, "b");
    assert_eq!(d.image_repo, "ghcr.io/geoff-hill/chae1-devcontainer");
}

#[test]
fn default_names() {
    assert_eq!(default_image_repo("chae1"), "ghcr.io/geoff-hill/chae1-devcontainer");
    assert_eq!(default_workspace_name("/a/b/"), "b");
    assert_eq!(default_workspace_name("/"), "workspace");
    assert_eq!(default_workspace_name("/a/.."), "workspace");
    assert_eq!(workspace_name_from(Some(String::new())), "workspace");
    assert_eq!(workspace_name_from(Some("x".to_string())), "x");
    assert_eq!(workspace_name_from(None), "workspace");
}

#[test]
fn candidates_walk_up_to_the_root() {
    assert_eq!(ancestors("/a/b"), vec!["/a/b".to_string(), "/a".to_string(), "/".to_string()]);
    assert_eq!(
        manifest_candidates("/a/b"),
        vec!["/a/b/devc.toml".to_string(), "/a/devc.toml".to_string(), "/devc.toml".to_string()]
    );
    let c = manifest_candidates("x");
    assert_eq!(c, vec!["x/devc.toml".to_string(), "devc.toml".to_string()]);
    assert_eq!(find_manifest_path(&c, &vec![false, false]), None);
    assert_eq!(find_manifest_path(&c, &vec![true, true]), Some("x/devc.toml".to_string()));
}

#[test]
fn commands_are_recognised() {
    assert_eq!(command_of("help").unwrap(), Command::Help);
    assert_eq!(command_of("-h").unwrap(), Command::Help);
    assert_eq!(command_of("--version").unwrap(), Command::Version);
    assert_eq!(command_of("-V").unwrap(), Command::Version);
    assert_eq!(command_of("init").unwrap(), Command::Init);
    assert_eq!(command_of("show").unwrap(), Command::Show);
    assert_eq!(command_of("compose-snippet").unwrap(), Command::ComposeSnippet);
    assert_eq!(command_of("just-snippet").unwrap(), Command::JustSnippet);
    let e = command_of("build").err().unwrap();
    assert_eq!(e, format!("unknown command `build`\n\n{}", USAGE));
}

#[test]
fn usage_lists_commands() {
    let u = usage();
    assert!(u.starts_with("Usage:\n  devc --version\n"));
    assert!(u.ends_with("  --version, -V    Print the CLI version."));
}

#[test]
fn cli_parse_defaults_and_flags() {
    let cli = parse_ok(&["devc", "show"]);
    assert_eq!(cli.command, "show");
    assert_eq!(cli.project_dir, "/work/here");
    assert_eq!(cli.container, "chae1");
    assert_eq!(cli.workspace_name, None);
    assert_eq!(cli.service_name, "agent");
    assert_eq!(cli.image_repo, None);
    let cli = parse_ok(&["devc", "init", "--container", "a", "--container", "b", "-h"]);
    assert_eq!(cli.command, "help");
    assert_eq!(cli.container, "b");
    let cli = parse_ok(&["devc", "show", "--version"]);
    assert_eq!(cli.command, "version");
    let cli = parse_ok(&["devc", "init", "--project-dir", "--help"]);
    assert_eq!(cli.project_dir, "--help");
    assert_eq!(cli.command, "init");
}

#[test]
fn cli_parse_errors() {
    assert_eq!(parse_err(&["devc"]), USAGE);
    assert_eq!(parse_err(&[]), USAGE);
    assert_eq!(parse_err(&["devc", "init", "--bogus"]), format!("unknown argument `--bogus`\n\n{}", USAGE));
    assert_eq!(parse_err(&["devc", "init", "--container"]), "missing value for `--container`");
    let bad_command = vec![Some("devc".to_string()), None];
    assert_eq!(Cli::parse(&bad_command, Ok("/".to_string())).err().unwrap(), "command must be valid UTF-8");
    let bad_arg = vec![Some("devc".to_string()), Some("init".to_string()), None];
    assert_eq!(Cli::parse(&bad_arg, Ok("/".to_string())).err().unwrap(), "arguments must be valid UTF-8");
    let no_dir = args(&["devc", "init"]);
    assert_eq!(Cli::parse(&no_dir, Err("gone".to_string())).err().unwrap(), "gone");
    assert_eq!(Cli::parse(&args(&["devc"]), Err("gone".to_string())).err().unwrap(), USAGE);
}

#[test]
fn apply_flag_sets_and_rejects() {
    let mut cli = parse_ok(&["devc", "init"]);
    cli.apply_flag("--workspace-name", "w").unwrap();
    cli.apply_flag("--image-repo", "r").unwrap();
    cli.apply_flag("--project-dir", "/d").unwrap();
    assert_eq!(cli.workspace_name, Some("w".to_string()));
    assert_eq!(cli.image_repo, Some("r".to_string()));
    assert_eq!(cli.project_dir, "/d");
    assert_eq!(cli.apply_flag("--nope", "x").err().unwrap(), "unsupported flag `--nope`");
}
