//! The template package manifest: package metadata, template definitions,
//! variants, the course-type mapping and the engine settings.

use vstd::prelude::*;

verus! {

/// One installed template package, as its manifest describes it.
#[derive(Debug, Clone)]
pub struct TemplateConfig {
    pub metadata: TemplateMetadata,
    pub templates: Vec<TemplateDefinition>,
    pub variants: Option<Vec<TemplateVariant>>,
    /// Pairs of course pattern (or exact course code) and course type, in
    /// manifest order; keys are unique (see `mapping_keys_unique`), and the
    /// first matching pattern decides.
    pub course_mapping: Option<Vec<(String, String)>>,
    pub engine: Option<EngineConfig>,
}

#[derive(Debug, Clone)]
pub struct TemplateMetadata {
    pub name: String,
    pub version: String,
    pub description: Option<String>,
    pub repository: Option<String>,
    pub author: Option<String>,
    pub license: Option<String>,
}

/// One renderable template kind of a package.
#[derive(Debug, Clone)]
pub struct TemplateDefinition {
    pub name: String,
    pub display_name: String,
    pub description: String,
    pub file: String,
    pub function: String,
    pub supports_variants: bool,
    pub course_types: Option<Vec<String>>,
    pub default_sections: Vec<String>,
}

/// A course-type specific form of a template definition.
#[derive(Debug, Clone)]
pub struct TemplateVariant {
    pub template: String,
    pub name: String,
    pub display_name: String,
    pub course_types: Vec<String>,
    pub file: String,
    pub function: Option<String>,
    pub additional_sections: Option<Vec<String>>,
    pub override_sections: Option<Vec<String>>,
}

/// What a package declares of its engine.
#[derive(Debug, Clone)]
pub struct EngineConfig {
    pub features: EngineFeatures,
    pub compatibility: CompatibilityConfig,
    pub processing: ProcessingConfig,
    pub variables: VariableConfig,
    pub validation: ValidationConfig,
    pub rendering: RenderingConfig,
}

#[derive(Debug, Clone)]
pub struct EngineFeatures {
    pub supports_conditionals: bool,
    pub supports_custom_sections: bool,
    pub supports_dynamic_content: bool,
    pub supports_expressions: bool,
    pub supports_includes: bool,
    pub supports_loops: bool,
    pub supported_formats: Vec<String>,
    pub supports_metadata: bool,
}

#[derive(Debug, Clone)]
pub struct CompatibilityConfig {
    pub minimum_noter_version: String,
    pub required_typst_version: Option<String>,
    pub supported_platforms: Vec<String>,
    pub dependencies: Vec<String>,
}

#[derive(Debug, Clone)]
pub struct ProcessingConfig {
    pub encoding: String,
    pub line_endings: LineEndingStyle,
    pub preserve_formatting: bool,
    pub minify_output: bool,
    pub hooks: ProcessingHooks,
}

#[derive(Debug, Clone)]
pub struct VariableConfig {
    pub substitution_syntax: String,
    pub case_sensitive: bool,
    pub allow_undefined: bool,
    pub undefined_default: Option<String>,
    pub builtin_variables: Vec<String>,
    pub transformations: Vec<VariableTransformation>,
}

#[derive(Debug, Clone)]
pub struct ValidationConfig {
    pub validate_syntax: bool,
    pub validate_variables: bool,
    pub validate_references: bool,
    pub custom_rules: Vec<ValidationRule>,
    pub strict_validation: bool,
}

#[derive(Debug, Clone)]
pub struct RenderingConfig {
    pub timeout_seconds: u64,
    pub max_memory_mb: Option<u32>,
    pub enable_caching: bool,
    pub cache_duration_minutes: u32,
    pub parallel_processing: bool,
    pub max_concurrent: usize,
}

#[derive(Debug, Clone, Copy, PartialEq, Eq, Structural)]
pub enum LineEndingStyle {
    Unix,
    Windows,
    Mac,
    Auto,
}

#[derive(Debug, Clone)]
pub struct ProcessingHooks {
    pub pre_process: Vec<String>,
    pub post_process: Vec<String>,
    pub on_error: Vec<String>,
}

#[derive(Debug, Clone)]
pub struct VariableTransformation {
    pub name: String,
    pub transformation_type: TransformationType,
    /// Parameter names and values, in manifest order.
    pub parameters: Vec<(String, String)>,
}

#[derive(Debug, Clone)]
pub enum TransformationType {
    Uppercase,
    Lowercase,
    TitleCase,
    DateFormat,
    RegexReplace,
    Custom(String),
}

#[derive(Debug, Clone)]
pub struct ValidationRule {
    pub name: String,
    pub rule_type: ValidationRuleType,
    /// Parameter names and values, in manifest order.
    pub parameters: Vec<(String, String)>,
    pub error_message: String,
}

#[derive(Debug, Clone)]
pub enum ValidationRuleType {
    RequiredVariables,
    VariablePattern,
    MaxFileSize,
    Custom(String),
}

/// A list of strings with the given views.
fn strings2(a: &str, b: &str) -> (r: Vec<String>)
    ensures
        r@.len() == 2,
        r@[0]@ == a@,
        r@[1]@ == b@,
{
    vec![String::from_str(a), String::from_str(b)]
}

impl Default for EngineConfig {
    /// The engine-agnostic settings used where a manifest declares none:
    /// conservative features off, a thirty-second timeout, one worker.
    fn default() -> (r: EngineConfig)
        ensures
            !r.features.supports_conditionals,
            r.features.supports_custom_sections,
            !r.features.supports_dynamic_content,
            !r.features.supports_expressions,
            !r.features.supports_includes,
            !r.features.supports_loops,
            r.features.supported_formats@.len() == 1,
            r.features.supported_formats@[0]@ == "typst"@,
            r.features.supports_metadata,
            r.compatibility.minimum_noter_version@ == "0.4.0"@,
            r.compatibility.required_typst_version is None,
            r.compatibility.supported_platforms@.len() == 3,
            r.compatibility.supported_platforms@[0]@ == "windows"@,
            r.compatibility.supported_platforms@[1]@ == "macos"@,
            r.compatibility.supported_platforms@[2]@ == "linux"@,
            r.compatibility.dependencies@.len() == 0,
            r.processing.encoding@ == "utf-8"@,
            r.processing.line_endings == LineEndingStyle::Auto,
            r.processing.preserve_formatting,
            !r.processing.minify_output,
            r.processing.hooks.pre_process@.len() == 0,
            r.processing.hooks.post_process@.len() == 0,
            r.processing.hooks.on_error@.len() == 0,
            r.variables.substitution_syntax@ == "{{var}}"@,
            !r.variables.case_sensitive,
            !r.variables.allow_undefined,
            r.variables.undefined_default is None,
            r.variables.builtin_variables@.len() == 4,
            r.variables.builtin_variables@[0]@ == "author"@,
            r.variables.builtin_variables@[1]@ == "date"@,
            r.variables.builtin_variables@[2]@ == "course_id"@,
            r.variables.builtin_variables@[3]@ == "title"@,
            r.variables.transformations@.len() == 0,
            !r.validation.validate_syntax,
            !r.validation.validate_variables,
            !r.validation.validate_references,
            r.validation.custom_rules@.len() == 0,
            !r.validation.strict_validation,
            r.rendering.timeout_seconds == 30,
            r.rendering.max_memory_mb is None,
            r.rendering.enable_caching,
            r.rendering.cache_duration_minutes == 60,
            !r.rendering.parallel_processing,
            r.rendering.max_concurrent == 1,
    {
        let mut platforms = strings2("windows", "macos");
        platforms.push(String::from_str("linux"));
        let mut builtin = strings2("author", "date");
        builtin.push(String::from_str("course_id"));
        builtin.push(String::from_str("title"));
        EngineConfig {
            features: EngineFeatures {
                supports_conditionals: false,
                supports_custom_sections: true,
                supports_dynamic_content: false,
                supports_expressions: false,
                supports_includes: false,
                supports_loops: false,
                supported_formats: vec![String::from_str("typst")],
                supports_metadata: true,
            },
            compatibility: CompatibilityConfig {
                minimum_noter_version: String::from_str("0.4.0"),
                required_typst_version: None,
                supported_platforms: platforms,
                dependencies: Vec::new(),
            },
            processing: ProcessingConfig {
                encoding: String::from_str("utf-8"),
                line_endings: LineEndingStyle::Auto,
                preserve_formatting: true,
                minify_output: false,
                hooks: ProcessingHooks {
                    pre_process: Vec::new(),
                    post_process: Vec::new(),
                    on_error: Vec::new(),
                },
            },
            variables: VariableConfig {
                substitution_syntax: String::from_str("{{var}}"),
                case_sensitive: false,
                allow_undefined: false,
                undefined_default: None,
                builtin_variables: builtin,
                transformations: Vec::new(),
            },
            validation: ValidationConfig {
                validate_syntax: false,
                validate_variables: false,
                validate_references: false,
                custom_rules: Vec::new(),
                strict_validation: false,
            },
            rendering: RenderingConfig {
                timeout_seconds: 30,
                max_memory_mb: None,
                enable_caching: true,
                cache_duration_minutes: 60,
                parallel_processing: false,
                max_concurrent: 1,
            },
        }
    }
}

} // verus!
