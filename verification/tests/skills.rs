use cx_cli::skills::{
    build_install_args, cx_skills_present, install_summary_line, installed_summary, npx_program,
    our_skill_names, preflight, LsSkill, Preflight, SkillsScope, INSTALLED_SOURCE, SKILLS_SOURCE,
};

#[test]
fn install_args_local_scope() {
    let args = build_install_args(SkillsScope::Local, &[]);
    assert_eq!(args, ["-y", "skills", "add", SKILLS_SOURCE, "--skill", "*", "-y"]);
}

#[test]
fn install_args_global_scope() {
    let args = build_install_args(SkillsScope::Global, &[]);
    assert_eq!(
        args,
        ["-y", "skills", "add", SKILLS_SOURCE, "--skill", "*", "-y", "-g"]
    );
}

#[test]
fn install_args_pass_agents_through() {
    let args = build_install_args(
        SkillsScope::Global,
        &["copilot".to_string(), "cursor".to_string()],
    );
    assert_eq!(
        args,
        [
            "-y",
            "skills",
            "add",
            SKILLS_SOURCE,
            "--skill",
            "*",
            "-y",
            "-g",
            "-a",
            "copilot",
            "cursor"
        ]
    );
}

#[test]
fn summary_truncates_long_skill_lists() {
    let skills: Vec<String> = ["cx-a", "cx-b", "cx-c", "cx-d"]
        .iter()
        .map(|s| s.to_string())
        .collect();
    assert_eq!(installed_summary(&skills), "4 skills: cx-a, cx-b, cx-c, ...");
    assert_eq!(installed_summary(&skills[..2]), "2 skills: cx-a, cx-b");
}

#[test]
fn ls_json_matches_only_our_source_ignoring_extra_fields() {
    let skills = vec![
        LsSkill {
            name: "cx-alerts".to_string(),
            source: Some(INSTALLED_SOURCE.to_string()),
        },
        LsSkill {
            name: "cx-other".to_string(),
            source: Some("someone/else".to_string()),
        },
        LsSkill {
            name: "cx-copied".to_string(),
            source: None,
        },
    ];
    assert_eq!(our_skill_names(&skills), ["cx-alerts"]);
}

#[test]
fn our_skill_names_are_sorted_and_unique() {
    let ours = |name: &str| LsSkill {
        name: name.to_string(),
        source: Some(INSTALLED_SOURCE.to_string()),
    };
    let skills = vec![ours("cx-logs"), ours("cx-alerts"), ours("cx-logs"), ours("cx-dash")];
    assert_eq!(our_skill_names(&skills), ["cx-alerts", "cx-dash", "cx-logs"]);
}

#[test]
fn preflight_no_npx_fails_actionably() {
    let Preflight::Fail(message) = preflight(false, None, true) else {
        panic!("expected Fail");
    };
    assert!(message.contains("Node.js"));
}

#[test]
fn preflight_no_scope_no_tty_fails_naming_the_flags() {
    let Preflight::Fail(message) = preflight(true, None, false) else {
        panic!("expected Fail");
    };
    assert!(message.contains("--global") && message.contains("--local"));
}

#[test]
fn preflight_no_scope_with_tty_asks() {
    assert_eq!(preflight(true, None, true), Preflight::Proceed { scope: None });
}

#[test]
fn preflight_scope_flag_proceeds_without_asking() {
    assert_eq!(
        preflight(true, Some(SkillsScope::Local), false),
        Preflight::Proceed {
            scope: Some(SkillsScope::Local)
        }
    );
}

#[test]
fn skills_presence_follows_the_scope() {
    assert!(!cx_skills_present(None, false, true, true));
    assert!(cx_skills_present(Some(SkillsScope::Global), true, true, false));
    assert!(!cx_skills_present(Some(SkillsScope::Local), true, true, false));
    assert!(cx_skills_present(None, true, false, true));
    assert!(!cx_skills_present(None, true, false, false));
}

#[test]
fn npx_program_uses_the_cmd_shim_on_windows() {
    assert_eq!(npx_program(true), "npx.cmd");
    assert_eq!(npx_program(false), "npx");
}

#[test]
fn install_summary_counts_or_confirms() {
    assert_eq!(
        install_summary_line(SkillsScope::Global, 3),
        "✓ Installed 3 cx agent skills (global). Review before use: https://skills.sh/coralogix/cx-cli"
    );
    assert_eq!(
        install_summary_line(SkillsScope::Local, 0),
        "✓ cx agent skills installed (local). Review before use: https://skills.sh/coralogix/cx-cli"
    );
}
