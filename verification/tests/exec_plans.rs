//! Plan headers, scans and paths.

use kanban_core::exec_plans::{
    collect, confirm_plan_location, has_markdown_extension, parse_plan, scan_plans,
    validate_plan_path, ExecPlanError, PlanEntry, PlanFile, PLAN_ROOT, RUNNABLE_STATUS,
};

const PLAN: &str = "# 演示计划\n\n- 状态：待运行\n- 最近更新：2026-08-12\n- 关联变更：无\n\n## 概述\n\n问题：x。\n";

#[test]
fn parses_header_before_first_section() {
    let doc = parse_plan("docs/exec-plan/a/demo.md", PLAN).unwrap();
    assert_eq!(doc.title, "演示计划");
    assert_eq!(doc.status, "待运行");
    assert_eq!(doc.updated.as_deref(), Some("2026-08-12"));
}

#[test]
fn status_after_section_is_ignored() {
    let content = "# t\n\n## 概述\n\n- 状态：待运行\n";
    assert!(parse_plan("docs/exec-plan/a/t.md", content).is_none());
}

#[test]
fn accepts_ascii_colon_and_halfwidth_variants() {
    let doc = parse_plan("docs/exec-plan/a/t.md", "# t\n\n- 状态: 草案\n").unwrap();
    assert_eq!(doc.status, "草案");
}

#[test]
fn titles_default_to_the_path_and_last_status_wins() {
    let doc = parse_plan("docs/exec-plan/x.md", "- 状态：a\n- 状态： b \n").unwrap();
    assert_eq!(doc.title, "docs/exec-plan/x.md");
    assert_eq!(doc.status, "b");
    assert_eq!(doc.updated, None);
    assert_eq!(doc.path, "docs/exec-plan/x.md");
}

#[test]
fn read_plan_rejects_traversal_and_non_plan_paths() {
    for path in [
        "../etc/passwd",
        "docs/exec-plan/../../x.md",
        "src/main.md",
        "docs/exec-plan/a/x.txt",
        "/abs/docs/exec-plan/a/x.md",
    ] {
        assert!(matches!(
            validate_plan_path(path),
            Err(ExecPlanError::InvalidPath(_))
        ));
    }
    assert!(validate_plan_path("docs/exec-plan/a/p.md").is_ok());
    assert_eq!(
        ExecPlanError::InvalidPath("../x".into()).message(),
        "invalid plan path: ../x"
    );
}

#[test]
fn links_cannot_lead_out_of_the_plan_directory() {
    let inside = confirm_plan_location(
        "docs/exec-plan/p.md",
        "/repo/docs/exec-plan/p.md",
        "/repo",
        "/repo/docs/exec-plan",
    );
    assert!(inside.is_ok());
    for canonical in ["/etc/passwd", "/repo/secret.md", "/repository/docs/exec-plan/p.md"] {
        assert!(confirm_plan_location(
            "docs/exec-plan/p.md",
            canonical,
            "/repo",
            "/repo/docs/exec-plan"
        )
        .is_err());
    }
}

fn file(path: &str, status: &str) -> PlanFile {
    PlanFile {
        path: path.to_string(),
        content: format!("# {path}\n- 状态：{status}\n"),
    }
}

#[test]
fn scans_list_wanted_plans_by_path() {
    let files = vec![
        file("docs/exec-plan/b.md", RUNNABLE_STATUS),
        file("docs/exec-plan/c.md", "草案"),
        file("docs/exec-plan/a.md", RUNNABLE_STATUS),
    ];
    let plans = scan_plans(&files, RUNNABLE_STATUS);
    let paths: Vec<&str> = plans.iter().map(|plan| plan.path.as_str()).collect();
    assert_eq!(paths, vec!["docs/exec-plan/a.md", "docs/exec-plan/b.md"]);
}

#[test]
fn collects_documents_but_no_archives() {
    let entries = vec![
        PlanEntry::File { name: "p.md".into() },
        PlanEntry::File { name: "notes.txt".into() },
        PlanEntry::Directory {
            name: "archive".into(),
            entries: vec![PlanEntry::File { name: "old.md".into() }],
        },
        PlanEntry::Directory {
            name: "agents".into(),
            entries: vec![PlanEntry::File { name: "q.md".into() }, PlanEntry::Other],
        },
    ];
    let paths = collect(&entries, PLAN_ROOT);
    assert_eq!(
        paths,
        vec!["docs/exec-plan/p.md", "docs/exec-plan/agents/q.md"]
    );
    for path in &paths {
        assert!(validate_plan_path(path).is_ok());
    }
    assert!(!has_markdown_extension(".md"));
    assert!(has_markdown_extension("a.b.md"));
}
