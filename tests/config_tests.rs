use dtu_notes::config::{Config, SemesterFormat};

#[test]
fn test_default_config() {
    let config = Config::default();
    assert_eq!(config.author, "Your Name");
    assert!(config.note_preferences.auto_open);
}

#[test]
fn test_semester_formatting() {
    let config = Config::default();
    assert_eq!(config.format_semester(2024, true), "2024 Spring");
    assert_eq!(config.format_semester(2024, false), "2024 Fall");
}

#[test]
fn test_editor_list() {
    let mut config = Config::default();
    config.preferred_editor = Some("emacs".to_string());

    let editors = config.get_editor_list(false);
    assert_eq!(editors[0], "emacs");
}

#[test]
fn editor_list_has_no_repeats() {
    let mut config = Config::default();
    config.preferred_editor = Some("vim".to_string());
    assert_eq!(config.get_editor_list(false), vec!["vim", "code", "nvim", "nano"]);
    config.preferred_editor = None;
    assert_eq!(config.get_editor_list(true), vec!["code", "notepad"]);
}

#[test]
fn semester_styles() {
    let mut config = Config::default();
    config.semester_format = SemesterFormat::SeasonYear;
    assert_eq!(config.format_semester(2025, false), "Fall 2025");
    config.semester_format = SemesterFormat::ShortForm;
    assert_eq!(config.format_semester(2024, true), "S24");
    assert_eq!(config.format_semester(2105, false), "F05");
    assert_eq!(config.format_semester(2099, false), "F99");
    config.semester_format = SemesterFormat::Custom("{season} '{yy} ({s}{year})".to_string());
    assert_eq!(config.format_semester(2007, true), "Spring '07 (S2007)");
}

#[test]
fn courses_can_be_added_and_removed() {
    let mut config = Config::default();
    assert_eq!(config.get_course_name("02101"), "Introduction to Programming");
    assert_eq!(config.get_course_name("99999"), "");
    config.add_course("99999".to_string(), "New Course".to_string());
    assert_eq!(config.get_course_name("99999"), "New Course");
    config.add_course("02101".to_string(), "Programming".to_string());
    assert_eq!(config.get_course_name("02101"), "Programming");
    assert_eq!(config.courses.len(), 8);
    assert!(config.remove_course("99999"));
    assert!(!config.remove_course("99999"));
    assert_eq!(config.get_course_name("99999"), "");
    assert_eq!(config.courses.len(), 7);
}

#[test]
fn config_warnings() {
    let mut config = Config::default();
    assert_eq!(config.validate(true), vec!["Author name is set to default value"]);
    config.set_author("Ada".to_string());
    config.search.max_results = 0;
    assert_eq!(
        config.validate(false),
        vec![
            "Max search results is set to 0".to_string(),
            "Template directory 'templates' doesn't exist".to_string(),
        ]
    );
    config.set_editor(Some("nano".to_string()));
    assert_eq!(config.preferred_editor.as_deref(), Some("nano"));
}

#[test]
fn default_courses_are_exactly_seven() {
    let config = Config::default();
    assert_eq!(config.courses.len(), 7);
    assert_eq!(config.get_course_name("22100"), "Electronics 1");
    assert_eq!(config.get_course_name("99999"), "");
    assert!(config.paths.typst_packages_dir.ends_with("/typst/packages/local"));
}
