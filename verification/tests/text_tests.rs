use cargo_release::config::Config;
use cargo_release::config::DependentVersion;
use cargo_release::config::Replacement;
use cargo_release::messages::confirm_prompt;
use cargo_release::messages::hook_env;
use cargo_release::messages::release_commit_message;
use cargo_release::messages::post_commit_message;
use cargo_release::messages::rendered_replacements;
use cargo_release::messages::tag_message;
use cargo_release::messages::ws_commit_message;
use cargo_release::plan::Member;
use cargo_release::plan::PackageRelease;
use cargo_release::plan::ReleaseRequest;
use cargo_release::template::Template;
use cargo_release::version::BumpLevel;
use cargo_release::version::TargetVersion;
use cargo_release::version::Version;

fn text_member(name: &str, path: &str, major: u64, minor: u64, patch: u64) -> Member {
    Member {
        name: name.to_string(),
        manifest_path: format!("{}/Cargo.toml", path),
        package_path: path.to_string(),
        version: Version { major, minor, patch, pre: vec![], build: vec![] },
        dependencies: vec![],
        publish: true,
    }
}

fn text_request() -> ReleaseRequest {
    ReleaseRequest {
        level_or_version: TargetVersion::Relative(BumpLevel::Minor),
        metadata: None,
        prev_tag_name: None,
        dry_run: true,
        no_confirm: false,
    }
}

fn text_plan(ws: &Vec<Member>, pkg: usize, cfg: &Config) -> PackageRelease {
    PackageRelease::load(&text_request(), "/ws", ws, pkg, None, None, cfg)
        .unwrap()
        .unwrap()
}

#[test]
fn render_substitutes_known_placeholders() {
    let mut t = Template::new();
    t.version = Some("1.2.3".to_string());
    t.crate_name = Some("demo".to_string());
    assert_eq!(t.render("{{crate_name}}-v{{version}}"), "demo-v1.2.3");
}

#[test]
fn render_leaves_unknown_placeholders_alone() {
    let mut t = Template::new();
    t.version = Some("1.2.3".to_string());
    assert_eq!(t.render("{{mystery}} {{version}}"), "{{mystery}} 1.2.3");
}

#[test]
fn render_leaves_absent_values_alone() {
    let t = Template::new();
    assert_eq!(t.render("v{{version}}"), "v{{version}}");
}

#[test]
fn config_merge_prefers_higher_layer() {
    let mut base = Config::new();
    base.sign_commit = Some(false);
    base.push_remote = Some("upstream".to_string());
    let mut over = Config::new();
    over.sign_commit = Some(true);
    base.update(&over);
    assert_eq!(base.sign_commit, Some(true));
    assert_eq!(base.push_remote.as_deref(), Some("upstream"));
}

#[test]
fn config_defaults_apply() {
    let c = Config::new();
    assert_eq!(c.push_remote(), "origin");
    assert_eq!(c.dev_version_ext(), "alpha");
    assert_eq!(c.tag_name(), "{{prefix}}v{{version}}");
    assert_eq!(c.tag_prefix(true), "");
    assert_eq!(c.tag_prefix(false), "{{crate_name}}-");
    assert_eq!(c.dependent_version(), DependentVersion::Upgrade);
    assert!(!c.disable_publish());
    assert!(!c.consolidate_commits());
}

#[test]
fn commit_messages_render_with_defaults() {
    let ws = vec![text_member("demo", "/ws", 0, 1, 0)];
    let plan = text_plan(&ws, 0, &Config::new());
    assert_eq!(release_commit_message(&plan, "2026-10-12"), "(cargo-release) version 0.2.0");
    assert_eq!(
        post_commit_message(&plan, "2026-10-12"),
        "(cargo-release) start next development iteration 0.2.1-alpha"
    );
    assert_eq!(tag_message(&plan, "2026-10-12"), "(cargo-release) demo version 0.2.0");
    assert_eq!(
        ws_commit_message(&Config::new(), "2026-10-12", false),
        "(cargo-release) version {{version}}"
    );
}

#[test]
fn confirm_prompt_single_and_multi() {
    let ws = vec![
        text_member("demo", "/ws", 0, 1, 0),
        text_member("other", "/ws/other", 1, 0, 0),
    ];
    let cfg = Config::new();
    let a = text_plan(&ws, 0, &cfg);
    let b = text_plan(&ws, 1, &cfg);
    let single = vec![a];
    assert_eq!(confirm_prompt(&single), "Release demo 0.2.0?");
    let mut both = single;
    both.push(b);
    assert_eq!(confirm_prompt(&both), "Release\n  demo 0.2.0\n  other 1.1.0\n?");
}

#[test]
fn hook_env_names_the_run() {
    let ws = vec![text_member("demo", "/ws", 0, 1, 0)];
    let plan = text_plan(&ws, 0, &Config::new());
    let env = hook_env(&plan, "/ws", true);
    let pairs: Vec<(String, String)> = env.into_iter().map(|e| (e.key, e.value)).collect();
    assert_eq!(
        pairs,
        vec![
            ("PREV_VERSION".to_string(), "0.1.0".to_string()),
            ("NEW_VERSION".to_string(), "0.2.0".to_string()),
            ("DRY_RUN".to_string(), "true".to_string()),
            ("CRATE_NAME".to_string(), "demo".to_string()),
            ("WORKSPACE_ROOT".to_string(), "/ws".to_string()),
            ("CRATE_ROOT".to_string(), "/ws".to_string()),
        ]
    );
}

#[test]
fn replacements_render_the_replace_text() {
    let ws = vec![text_member("demo", "/ws", 0, 1, 0)];
    let mut cfg = Config::new();
    cfg.pre_release_replacements = Some(vec![Replacement {
        file: "README.md".to_string(),
        search: "demo = \"[0-9.]+\"".to_string(),
        replace: "demo = \"{{version}}\"".to_string(),
    }]);
    let plan = text_plan(&ws, 0, &cfg);
    let out = rendered_replacements(&plan, "2026-10-12", false);
    assert_eq!(out.len(), 1);
    assert_eq!(out[0].file, "README.md");
    assert_eq!(out[0].replace, "demo = \"0.2.0\"");
}
