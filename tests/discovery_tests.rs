use dtu_notes::discovery::TemplateDiscovery;
use dtu_notes::package::{TemplateConfig, TemplateDefinition, TemplateMetadata, TemplateVariant};

fn metadata(name: &str) -> TemplateMetadata {
    TemplateMetadata {
        name: name.to_string(),
        version: "1.0".to_string(),
        description: None,
        repository: None,
        author: None,
        license: None,
    }
}

fn definition(name: &str, function: &str) -> TemplateDefinition {
    TemplateDefinition {
        name: name.to_string(),
        display_name: name.to_string(),
        description: String::new(),
        file: format!("{}.typ", name),
        function: function.to_string(),
        supports_variants: true,
        course_types: None,
        default_sections: vec!["Intro".to_string()],
    }
}

fn variant(template: &str, name: &str, types: &[&str]) -> TemplateVariant {
    TemplateVariant {
        template: template.to_string(),
        name: name.to_string(),
        display_name: name.to_string(),
        course_types: types.iter().map(|t| t.to_string()).collect(),
        file: format!("{}.typ", name),
        function: None,
        additional_sections: None,
        override_sections: None,
    }
}

fn package(name: &str, templates: Vec<TemplateDefinition>, variants: Vec<TemplateVariant>) -> TemplateConfig {
    TemplateConfig {
        metadata: metadata(name),
        templates,
        variants: Some(variants),
        course_mapping: None,
        engine: None,
    }
}

#[test]
fn test_course_type_resolution() {
    let course_mapping1 = vec![
        ("01xxx".to_string(), "math".to_string()),
        ("02xxx".to_string(), "programming".to_string()),
    ];
    let course_mapping2 = vec![("25xxx".to_string(), "physics".to_string())];

    let config1 = TemplateConfig {
        metadata: TemplateMetadata {
            name: "config1".to_string(),
            version: "1.0".to_string(),
            description: None,
            repository: None,
            author: None,
            license: None,
        },
        templates: vec![],
        variants: None,
        course_mapping: Some(course_mapping1),
        engine: None,
    };

    let config2 = TemplateConfig {
        metadata: TemplateMetadata {
            name: "config2".to_string(),
            version: "1.0".to_string(),
            description: None,
            repository: None,
            author: None,
            license: None,
        },
        templates: vec![],
        variants: None,
        course_mapping: Some(course_mapping2),
        engine: None,
    };

    let configs = vec![config1, config2];

    assert_eq!(TemplateDiscovery::resolve_course_type(&configs, "01005", "unknown"), "math");
    assert_eq!(TemplateDiscovery::resolve_course_type(&configs, "02101", "unknown"), "programming");
    assert_eq!(TemplateDiscovery::resolve_course_type(&configs, "25200", "unknown"), "physics");
    assert_eq!(TemplateDiscovery::resolve_course_type(&configs, "99999", "unknown"), "unknown");
}

#[test]
fn test_pattern_matching() {
    assert!(TemplateDiscovery::matches_course_pattern("01005", "01xxx"));
    assert!(TemplateDiscovery::matches_course_pattern("02101", "02XXX"));
    assert!(!TemplateDiscovery::matches_course_pattern("01005", "02xxx"));
    assert!(!TemplateDiscovery::matches_course_pattern("1005", "01xxx"));
}

#[test]
fn first_manifest_with_a_match_wins() {
    let mut a = package("a", vec![], vec![]);
    a.course_mapping = Some(vec![("01xxx".to_string(), "math".to_string())]);
    let mut b = package("b", vec![], vec![]);
    b.course_mapping = Some(vec![
        ("01005".to_string(), "calculus".to_string()),
        ("25xxx".to_string(), "physics".to_string()),
    ]);
    let configs = vec![a, b];
    assert_eq!(TemplateDiscovery::resolve_course_type(&configs, "01005", "unknown"), "math");
    assert_eq!(TemplateDiscovery::resolve_course_type(&configs, "25200", "unknown"), "physics");
}

#[test]
fn exact_key_beats_pattern_within_a_manifest() {
    let mut a = package("a", vec![], vec![]);
    a.course_mapping = Some(vec![
        ("01xxx".to_string(), "math".to_string()),
        ("01005".to_string(), "calculus".to_string()),
    ]);
    assert_eq!(TemplateDiscovery::resolve_course_type(&[a], "01005", "unknown"), "calculus");
}

#[test]
fn find_template_takes_the_first_package() {
    let configs = vec![
        package("first", vec![definition("lecture-note", "note-a")], vec![]),
        package("second", vec![definition("lecture-note", "note-b"), definition("assignment", "hw")], vec![]),
    ];
    let (def, pkg) = TemplateDiscovery::find_template(&configs, "lecture-note").unwrap();
    assert_eq!(def.function, "note-a");
    assert_eq!(pkg.metadata.name, "first");
    let (def, _) = TemplateDiscovery::find_template_with_preference(&configs, "lecture-note", Some("second")).unwrap();
    assert_eq!(def.function, "note-b");
    let (def, _) = TemplateDiscovery::find_template_with_preference(&configs, "lecture-note", Some("none")).unwrap();
    assert_eq!(def.function, "note-a");
    assert!(TemplateDiscovery::find_template(&configs, "missing").is_none());
    assert_eq!(TemplateDiscovery::get_all_templates(&configs).len(), 3);
}

#[test]
fn variant_selection() {
    let configs = vec![
        package("a", vec![definition("lecture-note", "n")], vec![
            variant("lecture-note", "physics-v", &["physics"]),
            variant("other", "x", &["all"]),
        ]),
        package("b", vec![], vec![
            variant("lecture-note", "any-v", &["all"]),
            variant("lecture-note", "late-v", &["all"]),
        ]),
    ];
    assert_eq!(TemplateDiscovery::find_variants_for_template(&configs, "lecture-note").len(), 3);
    let v = TemplateDiscovery::find_best_variant(&configs, "lecture-note", "physics").unwrap();
    assert_eq!(v.name, "physics-v");
    let v = TemplateDiscovery::find_best_variant(&configs, "lecture-note", "math").unwrap();
    assert_eq!(v.name, "any-v");
    let only_physics = vec![package("a", vec![], vec![variant("t", "p", &["physics"])])];
    assert!(TemplateDiscovery::find_best_variant(&only_physics, "t", "math").is_none());
    assert!(TemplateDiscovery::find_best_variant(&only_physics, "t", "physics").is_some());
}

#[test]
fn import_statement() {
    let mut config = package("dtu-template", vec![], vec![]);
    config.metadata.version = "0.2.0".to_string();
    assert_eq!(TemplateDiscovery::get_import_statement(&config), "#import \"@local/dtu-template:0.2.0\":*");
}

#[test]
fn catalog_entries() {
    assert_eq!(TemplateDiscovery::join_path("/pkgs/dtu", "lecture.typ"), "/pkgs/dtu/lecture.typ");
    assert_eq!(TemplateDiscovery::join_path("/pkgs/dtu/", "lecture.typ"), "/pkgs/dtu/lecture.typ");
    assert_eq!(TemplateDiscovery::join_path("/pkgs/dtu", "/abs.typ"), "/abs.typ");
    let mut target = package("dtu", vec![definition("lecture-note", "note")], vec![variant("lecture-note", "v", &["all"])]);
    target.metadata.version = "0.2.0".to_string();
    let dirs = vec![
        ("/p/other".to_string(), Some(("other".to_string(), "1.0.0".to_string()))),
        ("/p/broken".to_string(), None),
        ("/p/dtu/0.2.0".to_string(), Some(("dtu".to_string(), "0.2.0".to_string()))),
    ];
    assert_eq!(TemplateDiscovery::find_package_directory_for_config(&dirs, &target), Some("/p/dtu/0.2.0".to_string()));
    assert_eq!(TemplateDiscovery::find_package_directory_for_config(&dirs[..2].to_vec(), &target), Some("/p/other".to_string()));
    assert_eq!(TemplateDiscovery::find_package_directory_for_config(&vec![], &target), None);
    let configs = vec![target.clone()];
    let entry = TemplateDiscovery::describe_template(&configs, &target, &target.templates[0], "/p/dtu/0.2.0", Some(5));
    assert_eq!(entry.file_path, "/p/dtu/0.2.0/lecture-note.typ");
    assert_eq!(entry.variants.len(), 1);
    assert!(!entry.is_accessible);
    assert_eq!(entry.package_info.unwrap().last_updated, Some(5));
}
