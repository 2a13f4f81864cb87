use dtu_notes::assignments::{calculate_assignment_health_status, health_status_to_priority};
use dtu_notes::config::Config;
use dtu_notes::search_engine::{SearchEngine, SearchOptions};
use dtu_notes::template_engine::{TemplateEngine, TemplateType};

#[test]
fn section_lists_are_split_and_trimmed() {
    assert_eq!(
        TemplateEngine::parse_section_list(" Methodology , Results,, ,Discussion "),
        vec!["Methodology", "Results", "Discussion"]
    );
    assert!(TemplateEngine::parse_section_list("").is_empty());
    assert!(TemplateEngine::parse_section_list(" , ,").is_empty());
}

#[test]
fn template_kind_names() {
    assert!(matches!(TemplateEngine::parse_template_type("Lecture"), TemplateType::Lecture));
    assert!(matches!(TemplateEngine::parse_template_type("L"), TemplateType::Lecture));
    assert!(matches!(TemplateEngine::parse_template_type("a"), TemplateType::Assignment));
    match TemplateEngine::parse_template_type("Research") {
        TemplateType::Custom(name) => assert_eq!(name, "research"),
        _ => panic!("expected a custom kind"),
    }
}

#[test]
fn custom_sections_default_by_kind() {
    let config = Config::default();
    assert_eq!(TemplateEngine::custom_template_sections(&config, "Assignment", None).len(), 3);
    assert_eq!(TemplateEngine::custom_template_sections(&config, "a", None).len(), 7);
    assert_eq!(TemplateEngine::custom_template_sections(&config, "x", Some("A,B")), vec!["A", "B"]);
}

#[test]
fn installed_package_detection() {
    assert_eq!(TemplateEngine::normalize_package_name("DTU_Template"), "dtu-template");
    let statuses = vec![
        ("missing".to_string(), None),
        ("My_Pkg".to_string(), Some("0.2.0".to_string())),
        ("other".to_string(), Some("1.0.0".to_string())),
    ];
    assert_eq!(
        TemplateEngine::installed_template_info(&statuses),
        Some(("my-pkg".to_string(), "0.2.0".to_string()))
    );
    assert!(!TemplateEngine::templates_missing(&statuses));
    let none: Vec<(String, Option<String>)> = vec![("x".to_string(), None)];
    assert!(TemplateEngine::installed_template_info(&none).is_none());
    assert!(TemplateEngine::templates_missing(&none));
}

#[test]
fn manifest_version_lines() {
    let text = "[package]\nname = \"dtu-template\"\nversion = \"0.2.1\"\r\nentrypoint = \"lib.typ\"\n";
    assert_eq!(TemplateEngine::version_from_manifest_text(text), Some("0.2.1".to_string()));
    assert_eq!(TemplateEngine::version_from_manifest_text("version='1.0.0'"), Some("1.0.0".to_string()));
    assert_eq!(TemplateEngine::version_from_manifest_text("version = \"\"\nversion = 3"), Some("3".to_string()));
    assert_eq!(TemplateEngine::version_from_manifest_text("name = \"x\"\nversioning"), None);
}

#[test]
fn courses_sorted_by_code() {
    let config = Config::default();
    let codes: Vec<String> = config.list_courses().into_iter().map(|c| c.0).collect();
    assert_eq!(codes, vec!["01005", "01006", "01017", "02101", "02102", "22100", "25200"]);
}

#[test]
fn assignment_health_levels() {
    assert_eq!(calculate_assignment_health_status(0, Some(1)), 3);
    assert_eq!(calculate_assignment_health_status(2, None), 3);
    assert_eq!(calculate_assignment_health_status(2, Some(3)), 0);
    assert_eq!(calculate_assignment_health_status(2, Some(4)), 1);
    assert_eq!(calculate_assignment_health_status(2, Some(14)), 2);
    assert_eq!(calculate_assignment_health_status(2, Some(15)), 3);
    assert_eq!(health_status_to_priority(2), 2);
}

#[test]
fn search_matching() {
    assert_eq!(SearchEngine::find_match("Graph theory", "theory", true), Some(6));
    assert_eq!(SearchEngine::find_match("Graph Theory", "theory", true), None);
    assert_eq!(SearchEngine::find_match("Graph Theory", "THEORY", false), Some(6));
    assert_eq!(SearchEngine::find_match("æble", "b", true), Some(2));
    let options = SearchOptions {
        case_sensitive: false,
        max_results: 10,
        context_lines: 2,
        file_extensions: vec!["typ".to_string(), "md".to_string()],
    };
    assert!(SearchEngine::should_search_file(Some("TYP"), &options));
    assert!(!SearchEngine::should_search_file(Some("pdf"), &options));
    assert!(!SearchEngine::should_search_file(None, &options));
    let m = SearchEngine::match_line("notes/a.typ", 3, "  = Graph Theory ", "theory", false).unwrap();
    assert_eq!(m.line_number, 3);
    assert_eq!(m.line_content, "= Graph Theory");
    assert_eq!((m.match_start, m.match_end), (10, 16));
    assert!(SearchEngine::match_line("a", 1, "nothing", "theory", false).is_none());
}

#[test]
fn search_in_file_text() {
    let content = "Intro\r\n  Graph theory basics\nnothing\nMore THEORY";
    let found = SearchEngine::search_in_text("n.typ", content, "theory", false);
    assert_eq!(found.len(), 2);
    assert_eq!(found[0].line_number, 2);
    assert_eq!(found[0].line_content, "Graph theory basics");
    assert_eq!((found[0].match_start, found[0].match_end), (8, 14));
    assert_eq!(found[1].line_number, 4);
    assert_eq!(found[1].file_path, "n.typ");
    assert!(SearchEngine::search_in_text("n.typ", content, "theory", true).len() == 1);
    assert!(SearchEngine::search_in_text("n.typ", "", "x", true).is_empty());
}
