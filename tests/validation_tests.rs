use dtu_notes::discovery::TemplateDiscovery;
use dtu_notes::package::{
    EngineConfig, TemplateConfig, TemplateDefinition, TemplateMetadata, TemplateVariant,
};
use dtu_notes::template_validation::{TemplateValidator, ValidationIssue, ValidationSeverity};
use dtu_notes::validation::{InputError, Validator};

fn definition(name: &str) -> TemplateDefinition {
    TemplateDefinition {
        name: name.to_string(),
        display_name: name.to_string(),
        description: String::new(),
        file: "note.typ".to_string(),
        function: "note".to_string(),
        supports_variants: true,
        course_types: None,
        default_sections: vec!["Intro".to_string()],
    }
}

fn manifest(name: &str, version: &str, templates: Vec<TemplateDefinition>) -> TemplateConfig {
    TemplateConfig {
        metadata: TemplateMetadata {
            name: name.to_string(),
            version: version.to_string(),
            description: None,
            repository: None,
            author: None,
            license: None,
        },
        templates,
        variants: None,
        course_mapping: None,
        engine: None,
    }
}

#[test]
fn test_validation_issue_creation() {
    let issue = ValidationIssue {
        severity: ValidationSeverity::Error,
        category: "test".to_string(),
        message: "Test message".to_string(),
        suggestion: Some("Test suggestion".to_string()),
        location: Some("test.location".to_string()),
    };

    assert_eq!(issue.severity, ValidationSeverity::Error);
    assert_eq!(issue.category, "test");
}

#[test]
fn test_format_validation_report() {
    let issues = vec![
        ValidationIssue {
            severity: ValidationSeverity::Error,
            category: "test".to_string(),
            message: "Test error".to_string(),
            suggestion: None,
            location: None,
        },
        ValidationIssue {
            severity: ValidationSeverity::Warning,
            category: "test".to_string(),
            message: "Test warning".to_string(),
            suggestion: Some("Fix this".to_string()),
            location: Some("test.field".to_string()),
        },
    ];

    let report = TemplateValidator::format_validation_report(&issues);
    assert!(report.contains("1 errors, 1 warnings, 0 info"));
    assert!(report.contains("❌"));
    assert!(report.contains("⚠️"));
}

#[test]
fn report_layout_and_empty_report() {
    assert_eq!(TemplateValidator::format_validation_report(&[]), "No validation issues found");
    let issues = vec![ValidationIssue {
        severity: ValidationSeverity::Info,
        category: "c".to_string(),
        message: "m".to_string(),
        suggestion: Some("s".to_string()),
        location: Some("l".to_string()),
    }];
    assert_eq!(
        TemplateValidator::format_validation_report(&issues),
        "Validation Report: 0 errors, 0 warnings, 1 info\n\nℹ️ [c] m\n   Location: l\n   Suggestion: s\n\n"
    );
}

#[test]
fn test_sanitize_assignment_title() {
    let sanitized = Validator::sanitize_filename("Problem Set #1: Arrays & Pointers");
    assert_eq!(sanitized, "problem-set-1-arrays-pointers");
}

#[test]
fn sanitize_is_idempotent_and_clean() {
    for input in ["Problem Set #1: Arrays & Pointers", "--Øvelse  Æble/år--", "a..b,,c", "___", "", "----"] {
        let once = Validator::sanitize_filename(input);
        assert_eq!(Validator::sanitize_filename(&once), once);
        assert!(!once.contains("--"));
        assert!(!once.starts_with('-'));
        assert!(!once.ends_with('-'));
    }
    assert_eq!(Validator::sanitize_filename("--Øvelse  Æble/år--"), "ovelse-able-ar");
    assert_eq!(Validator::sanitize_filename("----"), "");
}

#[test]
fn course_id_checks() {
    assert_eq!(Validator::validate_course_id("02101"), Ok(()));
    assert_eq!(Validator::validate_course_id("0210"), Err(InputError::CourseIdLength));
    assert_eq!(Validator::validate_course_id("02a01"), Err(InputError::CourseIdDigits));
    assert_eq!(Validator::validate_file_path(""), Err(InputError::EmptyPath));
    assert_eq!(Validator::validate_file_path("a.typ"), Ok(()));
    assert_eq!(
        InputError::CourseIdLength.message(),
        "Course ID must be exactly 5 characters long (e.g., 02101)"
    );
}

#[test]
fn three_defects_give_three_issues() {
    let mut config = manifest("pkg", "1.0", vec![definition("lecture"), definition("")]);
    config.variants = Some(vec![TemplateVariant {
        template: "lecture".to_string(),
        name: "physics".to_string(),
        display_name: "Physics".to_string(),
        course_types: vec![],
        file: "physics.typ".to_string(),
        function: None,
        additional_sections: None,
        override_sections: None,
    }]);
    let issues = TemplateValidator::validate_template_config(&config);
    assert_eq!(issues.len(), 3);
    assert_eq!(issues[0].severity, ValidationSeverity::Warning);
    assert_eq!(issues[0].message, "Version '1.0' is not a valid semantic version");
    assert_eq!(issues[1].severity, ValidationSeverity::Error);
    assert_eq!(issues[1].message, "Template name is required");
    assert_eq!(issues[1].location.as_deref(), Some("templates[1]"));
    assert_eq!(issues[2].message, "Variant should specify course types");
    assert_eq!(issues[2].location.as_deref(), Some("variants[0]"));
}

#[test]
fn clean_manifest_has_no_issues() {
    let config = manifest("pkg", "1.2.3", vec![definition("lecture")]);
    assert!(TemplateValidator::validate_template_config(&config).is_empty());
}

#[test]
fn duplicate_names_across_packages() {
    let configs = vec![
        manifest("a", "1.0.0", vec![definition("lecture-note")]),
        manifest("b", "1.0.0", vec![definition("lecture-note")]),
    ];
    let issues = TemplateValidator::validate_cross_configurations(&configs);
    assert_eq!(issues.len(), 1);
    assert_eq!(issues[0].severity, ValidationSeverity::Warning);
    assert_eq!(
        issues[0].message,
        "Template 'lecture-note' is defined in multiple configurations (config 0 and 1)"
    );
    let single = vec![manifest("a", "1.0.0", vec![definition("lecture-note")])];
    assert!(TemplateValidator::validate_cross_configurations(&single).is_empty());
}

#[test]
fn mapping_and_engine_checks() {
    let mapping = vec![
        ("".to_string(), "".to_string()),
        ("0xxx1".to_string(), "math".to_string()),
        ("01xxx".to_string(), "math".to_string()),
    ];
    let issues = TemplateValidator::validate_course_mapping(&mapping);
    assert_eq!(issues.len(), 3);
    assert_eq!(issues[1].message, "Empty course type for pattern ''");
    assert_eq!(issues[2].severity, ValidationSeverity::Info);
    let mut engine = EngineConfig::default();
    assert!(TemplateValidator::validate_engine_config(&engine).is_empty());
    engine.rendering.timeout_seconds = 0;
    engine.rendering.max_concurrent = 0;
    engine.compatibility.minimum_noter_version = "x".to_string();
    assert_eq!(TemplateValidator::validate_engine_config(&engine).len(), 3);
}

#[test]
fn compatibility_needs_newer_host() {
    let mut config = manifest("pkg", "1.0.0", vec![definition("lecture")]);
    let mut engine = EngineConfig::default();
    engine.compatibility.minimum_noter_version = "2.0.0".to_string();
    config.engine = Some(engine);
    let configs = vec![config];
    let issues = TemplateValidator::validate_engine_compatibility(&configs, "1.5.0");
    assert_eq!(issues.len(), 1);
    assert_eq!(issues[0].severity, ValidationSeverity::Error);
    assert_eq!(issues[0].message, "Template 'pkg' requires noter version 2.0.0 but current is 1.5.0");
    assert!(TemplateValidator::validate_engine_compatibility(&configs, "2.0.0").is_empty());
}

#[test]
fn system_report_with_load_failure() {
    let config = dtu_notes::config::Config::default();
    let issues = TemplateValidator::validate_system(&config, &vec![], &vec!["bad toml".to_string()], false, true, "1.0.0");
    assert_eq!(issues.len(), 2);
    assert_eq!(issues[0].message, "Failed to load template configurations: bad toml");
    assert_eq!(issues[1].location.as_deref(), Some("paths.templates_dir"));
    let loaded = vec![manifest("pkg", "1.0", vec![definition("lecture")])];
    let issues = TemplateValidator::validate_system(&config, &loaded, &vec![], true, true, "1.0.0");
    assert_eq!(issues.len(), 1);
    assert_eq!(issues[0].location.as_deref(), Some("template_config[0]"));
    let issues = TemplateValidator::validate_system(&config, &loaded, &vec!["a".to_string(), "b".to_string()], true, true, "1.0.0");
    assert_eq!(issues.len(), 3);
    assert_eq!(issues[1].message, "Failed to load template configurations: b");
    assert_eq!(issues[2].location.as_deref(), Some("template_config[0]"));
}

#[test]
fn catalog_entry_issues() {
    let mut def = definition("lecture");
    def.supports_variants = false;
    let mut config = manifest("pkg", "1.0.0", vec![def.clone()]);
    config.variants = Some(vec![TemplateVariant {
        template: "lecture".to_string(),
        name: "v".to_string(),
        display_name: "V".to_string(),
        course_types: vec!["all".to_string()],
        file: "v.typ".to_string(),
        function: None,
        additional_sections: None,
        override_sections: None,
    }]);
    let configs = vec![config.clone()];
    let mut entry = TemplateDiscovery::describe_template(&configs, &config, &def, "/p", None);
    let issues = TemplateValidator::validate_available_template(&entry, false);
    assert_eq!(issues.len(), 3);
    assert_eq!(issues[0].category, "accessibility");
    assert_eq!(issues[1].message, "Template file does not exist: /p/note.typ");
    assert_eq!(issues[2].severity, ValidationSeverity::Warning);
    entry.is_accessible = true;
    assert_eq!(TemplateValidator::validate_available_template(&entry, true).len(), 1);
}
