use dtu_notes::config::Config;
use dtu_notes::package::{TemplateConfig, TemplateDefinition, TemplateMetadata, TemplateVariant};
use dtu_notes::template_engine::{DateStamp, TemplateBuilder, TemplateContext, TemplateEngine, TemplateType};
use dtu_notes::template_validation::{TemplateValidator, ValidationSeverity};

fn today() -> DateStamp {
    DateStamp { iso: "2024-09-02".to_string(), long: "September 02, 2024".to_string(), year: 2024, month: 9 }
}

fn context(course_name: &str) -> TemplateContext {
    TemplateContext {
        course_id: "02101".to_string(),
        course_name: course_name.to_string(),
        title: "Intro".to_string(),
        author: "Ada".to_string(),
        date: "2024-09-02".to_string(),
        semester: "2024 Fall".to_string(),
        template_version: "0.1.0".to_string(),
        sections: vec!["Examples".to_string(), "Other".to_string()],
        custom_fields: vec![],
    }
}

#[test]
fn test_generate_lecture_filename() {
    let filename = TemplateEngine::generate_filename("02101", &TemplateType::Lecture, None, "2024-09-02");

    assert!(filename.contains("02101"));
    assert!(filename.contains("lecture"));
    assert!(filename.ends_with(".typ"));
}

#[test]
fn test_generate_assignment_filename() {
    let filename = TemplateEngine::generate_filename(
        "02101",
        &TemplateType::Assignment,
        Some("Problem Set 1"),
        "2024-09-02",
    );

    assert!(filename.contains("02101"));
    assert!(filename.contains("problem-set-1"));
    assert!(filename.ends_with(".typ"));
}

#[test]
fn filenames_exactly() {
    assert_eq!(
        TemplateEngine::generate_filename("02101", &TemplateType::Lecture, None, "2024-09-02"),
        "2024-09-02-02101-lecture.typ"
    );
    assert_eq!(
        TemplateEngine::generate_filename("02101", &TemplateType::Assignment, None, "2024-09-02"),
        "2024-09-02-02101-assignment.typ"
    );
    assert_eq!(
        TemplateEngine::generate_filename("02101", &TemplateType::Custom("Lab Report".to_string()), None, "d"),
        "d-02101-lab-report.typ"
    );
}

#[test]
fn header_falls_back_to_course_code() {
    let header = TemplateEngine::generate_typst_header(&context(""), "dtu-note", &TemplateType::Lecture, &None);
    assert!(header.contains("course-name: \"02101\""));
    let header = TemplateEngine::generate_typst_header(&context("Programming"), "dtu-note", &TemplateType::Lecture, &None);
    assert!(header.contains("course-name: \"Programming\""));
}

#[test]
fn rendered_lecture_exactly() {
    let text = TemplateEngine::render_template(&context("Programming"), &TemplateType::Lecture, &None);
    let expected = "#import \"@local/dtu-template:0.1.0\":*\n\n#show: dtu-note.with(\n  course: \"02101\",\n  course-name: \"Programming\",\n  title: \"Intro\",\n  date: datetime.today(),\n  author: \"Ada\",\n  semester: \"2024 Fall\"\n)\n\n= Examples\n\n#example[\n  Insert example here...\n]\n\n= Other\n\n\n";
    assert_eq!(text, expected);
}

#[test]
fn assignment_uses_due_date_and_installed_package() {
    let installed = Some(("my-template".to_string(), "0.3.1".to_string()));
    let mut ctx = context("Programming");
    ctx.sections = vec!["Code".to_string(), "Calculations".to_string()];
    let text = TemplateEngine::render_template(&ctx, &TemplateType::Assignment, &installed);
    assert!(text.starts_with("#import \"@local/my-template:0.3.1\":*"));
    assert!(text.contains("#show: dtu-assignment.with("));
    assert!(text.contains("due-date: datetime.today()"));
    assert!(text.contains("\n```python\n# Insert code here\n```\n"));
    assert!(text.contains("\n$ \"Insert mathematical calculations here\" $\n"));
    let custom = TemplateEngine::render_template(&ctx, &TemplateType::Custom("lab".to_string()), &None);
    assert!(custom.contains("= Code\n\n\n"));
}

#[test]
fn section_boilerplate_table() {
    assert_eq!(TemplateEngine::generate_lecture_section_content("Summary"), "\n#summary[\n  Brief summary of the main concepts\n]\n");
    assert_eq!(TemplateEngine::generate_lecture_section_content("Solution"), "\n\n");
    assert_eq!(TemplateEngine::generate_assignment_section_content("Solution"), "\n#solution[\n  Step-by-step solution\n]\n");
}

fn definition() -> TemplateDefinition {
    TemplateDefinition {
        name: "lecture-note".to_string(),
        display_name: "Lecture".to_string(),
        description: String::new(),
        file: "note.typ".to_string(),
        function: "note".to_string(),
        supports_variants: true,
        course_types: None,
        default_sections: vec!["Intro".to_string(), "Summary".to_string()],
    }
}

fn variant() -> TemplateVariant {
    TemplateVariant {
        template: "lecture-note".to_string(),
        name: "physics".to_string(),
        display_name: "Physics".to_string(),
        course_types: vec!["physics".to_string()],
        file: "physics.typ".to_string(),
        function: Some("physics-note".to_string()),
        additional_sections: Some(vec!["Lab".to_string()]),
        override_sections: None,
    }
}

#[test]
fn override_sections_replace_everything() {
    let mut v = variant();
    v.override_sections = Some(vec!["Derivation".to_string()]);
    assert_eq!(TemplateEngine::effective_sections(&definition(), Some(&v)), vec!["Derivation"]);
    assert_eq!(TemplateEngine::effective_sections(&definition(), Some(&variant())), vec!["Intro", "Summary", "Lab"]);
    assert_eq!(TemplateEngine::effective_sections(&definition(), None), vec!["Intro", "Summary"]);
}

#[test]
fn variant_function_in_header() {
    let text = TemplateEngine::render_definition(&context("P"), &definition(), Some(&variant()), &TemplateType::Lecture, &None);
    assert!(text.contains("#show: physics-note.with("));
    let text = TemplateEngine::render_definition(&context("P"), &definition(), None, &TemplateType::Lecture, &None);
    assert!(text.contains("#show: note.with("));
}

#[test]
fn contexts_from_config() {
    let config = Config::default();
    let ctx = TemplateEngine::build_lecture_context("02101", &config, None, &today());
    assert_eq!(ctx.title, "Lecture - September 02, 2024");
    assert_eq!(ctx.course_name, "Introduction to Programming");
    assert_eq!(ctx.semester, "2024 Fall");
    assert_eq!(ctx.sections.len(), 7);
    let ctx = TemplateEngine::build_assignment_context("99999", "HW 1", &config, &today());
    assert_eq!(ctx.course_name, "");
    assert_eq!(ctx.sections, vec!["Problem 1", "Problem 2", "Problem 3"]);
    let text = TemplateEngine::generate_assignment_template("99999", "HW 1", &config, &today(), &None);
    assert!(text.contains("course-name: \"99999\""));
    let text = TemplateEngine::generate_lecture_template("02101", &config, Some("Graphs"), &today(), &None);
    assert!(text.contains("title: \"Graphs\""));
}

#[test]
fn context_warnings_and_issues() {
    let mut ctx = context("");
    ctx.author = String::new();
    ctx.sections = vec![];
    assert_eq!(
        TemplateEngine::validate_context(&ctx),
        vec!["Author name is empty", "Course name not found for 02101", "No sections configured for template"]
    );
    let mut def = definition();
    def.default_sections = vec![];
    let mut v = variant();
    v.override_sections = Some(vec![]);
    let issues = TemplateValidator::validate_template_context(&ctx, &def, Some(&v));
    assert_eq!(issues.len(), 4);
    assert_eq!(issues[0].severity, ValidationSeverity::Warning);
    assert_eq!(issues[2].severity, ValidationSeverity::Info);
    assert_eq!(issues[3].message, "Variant 'physics' has empty override_sections");
}

#[test]
fn builder_renders_and_names() {
    let config = Config::default();
    let builder = TemplateBuilder::new("02101", &config, &today())
        .with_title("Research Plan")
        .with_type(TemplateType::Custom("research".to_string()))
        .with_sections(vec!["Methodology".to_string()])
        .add_custom_field("k", "v")
        .add_custom_field("k", "w");
    let (content, filename) = builder.build_with_filename(&None);
    assert!(content.contains("#show: research.with("));
    assert!(content.contains("= Methodology\n\n\n"));
    assert_eq!(filename, "2024-09-02-02101-research.typ");
}

#[test]
fn render_named_from_catalog() {
    let mut v = variant();
    v.course_types = vec!["all".to_string()];
    v.override_sections = Some(vec!["Derivation".to_string()]);
    let package = TemplateConfig {
        metadata: TemplateMetadata {
            name: "pkg".to_string(),
            version: "1.0.0".to_string(),
            description: None,
            repository: None,
            author: None,
            license: None,
        },
        templates: vec![definition()],
        variants: Some(vec![v]),
        course_mapping: None,
        engine: None,
    };
    let configs = vec![package];
    let text = TemplateEngine::render_named(&configs, "lecture-note", None, "math", &context("P"), &TemplateType::Lecture, &None)
        .unwrap();
    assert!(text.contains("#show: physics-note.with("));
    assert!(text.contains("= Derivation\n"));
    assert!(!text.contains("= Intro"));
    let err = TemplateEngine::render_named(&configs, "missing", Some("pkg"), "math", &context("P"), &TemplateType::Lecture, &None)
        .unwrap_err();
    assert_eq!(err.message(), "Template 'missing' not found (preferred package 'pkg')");
}

#[test]
fn blank_course_code_is_only_a_warning() {
    let mut ctx = context("Programming");
    ctx.course_id = "  ".to_string();
    let issues = TemplateValidator::validate_template_context(&ctx, &definition(), None);
    assert_eq!(issues.len(), 1);
    assert_eq!(issues[0].location.as_deref(), Some("context.course_id"));
    assert_eq!(issues[0].severity, ValidationSeverity::Warning);
}

#[test]
fn untitled_assignment_file_name() {
    let config = Config::default();
    let builder = TemplateBuilder::new("02101", &config, &today()).with_type(TemplateType::Assignment);
    let (_, filename) = builder.build_with_filename(&None);
    assert_eq!(filename, "2024-09-02-02101-assignment.typ");
}

#[test]
fn unregistered_course_shows_its_code() {
    let config = Config::default();
    let text = TemplateBuilder::new("99999", &config, &today()).build(&None);
    assert!(text.contains("course-name: \"99999\""));
    assert!(!text.contains("course-name: \"\""));
}
