use cowclaw_swarm::budget::linter::{
    extract_tier, lint_content, lint_tree, lint_xml_content, Verdict,
};
use cowclaw_swarm::budget::Tier;
use std::path::PathBuf;

#[test]
fn tier_caps() {
    assert_eq!(Tier::Xl.max_lines(), 1600);
    assert_eq!(Tier::Large.max_lines(), 1000);
    assert_eq!(Tier::Default.max_lines(), 500);
    assert_eq!(Tier::Tight.max_lines(), 200);
}

#[test]
fn tier_parse() {
    assert_eq!(Tier::parse("xl"), Some(Tier::Xl));
    assert_eq!(Tier::parse("LARGE"), Some(Tier::Large));
    assert_eq!(Tier::parse("default"), Some(Tier::Default));
    assert_eq!(Tier::parse("tight"), Some(Tier::Tight));
    assert_eq!(Tier::parse("unknown"), None);
}

#[test]
fn extract_tier_from_frontmatter() {
    let content = "---\ntier: tight\n---\nsome content";
    assert_eq!(extract_tier(content), Tier::Tight);
    let no_fm = "# just a heading\ncontent";
    assert_eq!(extract_tier(no_fm), Tier::Default);
    let no_tier = "---\nname: foo\n---\ncontent";
    assert_eq!(extract_tier(no_tier), Tier::Default);
}

#[test]
fn linter_flags_oversize_file() {
    let content = "---\ntier: tight\n---\n".to_string() + &"x\n".repeat(300);
    let r = lint_content(PathBuf::from("big.md"), &content);
    assert!(matches!(r, Verdict::Fail { .. }), "expected Fail for 300 lines > 200 cap");
}

#[test]
fn linter_passes_undersize_file() {
    let content = "---\ntier: tight\n---\n".to_string() + &"x\n".repeat(50);
    let r = lint_content(PathBuf::from("small.md"), &content);
    assert!(matches!(r, Verdict::Pass));
}

#[test]
fn xml_plan_budget_attribute_check() {
    let content = format!(
        r#"<?xml version="1.0"?><plan><budget tier="tight" lines="5"/>{}</plan>"#,
        "<task/>\n".repeat(20)
    );
    let result = lint_xml_content(PathBuf::from("PLAN.xml"), &content);
    assert!(matches!(result, Verdict::Fail { .. }));
}

#[test]
fn lint_real_cowclaw_planning_tree() {
    // No planning tree exists yet: a tree without documents has no violations.
    let files: Vec<(PathBuf, String)> = Vec::new();
    let violations = lint_tree(&files);
    assert!(violations.is_empty(), "budget violations found: {violations:?}");
}

#[test]
fn lint_tree_reports_each_oversize_document_in_order() {
    let big = "---\ntier: tight\n---\n".to_string() + &"x\n".repeat(250);
    let small = "---\ntier: tight\n---\n".to_string() + &"x\n".repeat(10);
    let large = "---\ntier: large\n---\n".to_string() + &"y\n".repeat(1200);
    let files = vec![
        (PathBuf::from("a.md"), big),
        (PathBuf::from("b.md"), small),
        (PathBuf::from("c.md"), large),
    ];
    let v = lint_tree(&files);
    assert_eq!(v.len(), 2);
    assert_eq!(v[0].path, PathBuf::from("a.md"));
    assert_eq!(v[0].tier, Tier::Tight);
    assert_eq!(v[0].max_lines, 200);
    assert_eq!(v[0].actual_lines, 253);
    assert_eq!(v[1].path, PathBuf::from("c.md"));
    assert_eq!(v[1].tier, Tier::Large);
    assert_eq!(v[1].max_lines, 1000);
    assert_eq!(v[1].actual_lines, 1203);
}

#[test]
fn xml_budget_without_lines_passes() {
    let content = "<plan><budget tier=\"tight\"/>\n<task/>\n</plan>\n".repeat(3);
    assert!(matches!(lint_xml_content(PathBuf::from("p.xml"), &content), Verdict::Pass));
}
