use cowclaw_swarm::memory::skill_loader::{skill_name, SkillManifest};

#[test]
fn skill_loader_parses_frontmatter() {
    let content = "---\nname: brainstorming\ndescription: Brainstorm\ntrigger_hints: new feature\n---\n# body\nline2";
    let m = SkillManifest::parse("brainstorming", content).unwrap();
    assert_eq!(m.name, "brainstorming");
    assert_eq!(m.description, "Brainstorm");
    assert_eq!(m.trigger_hints, "new feature");
    assert_eq!(m.line_count, 2);
}

#[test]
fn skill_loader_handles_missing_trigger_hints() {
    let content = "---\nname: foo\ndescription: Foo skill\n---\n# content";
    let m = SkillManifest::parse("foo", content).unwrap();
    assert_eq!(m.trigger_hints, "");
}

#[test]
fn skill_loader_reports_missing_and_unclosed_front_matter() {
    assert_eq!(SkillManifest::parse("x", "# no front matter").unwrap_err(), "no front-matter");
    assert_eq!(
        SkillManifest::parse("x", "---\ndescription: d\n# never closed").unwrap_err(),
        "unclosed front-matter"
    );
}

#[test]
fn skill_name_comes_from_the_directory_of_a_skill_file() {
    assert_eq!(skill_name(Some("SKILL"), Some("tdd")), "tdd");
    assert_eq!(skill_name(Some("notes"), Some("tdd")), "notes");
    assert_eq!(skill_name(None, None), "unknown");
    assert_eq!(skill_name(Some("SKILL"), None), "unknown");
}

#[test]
fn parsed_manifest_has_an_empty_path() {
    let m = SkillManifest::parse("foo", "---\nname: foo\n---\n").unwrap();
    assert_eq!(m.path, std::path::PathBuf::new());
    assert!(m.path.as_os_str().is_empty());
}
