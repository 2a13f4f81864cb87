//! Document rendering: the context of one document, its header, its sections
//! with their boilerplate, and its file name.

use vstd::prelude::*;
use crate::config::{Config, course_lookup, semester_text};
use crate::discovery::{
    TemplateDiscovery, chosen_template_at, first_applicable, import_for, import_line, no_template_named, same_variant,
    variants_for,
};
use crate::package::{TemplateConfig, TemplateDefinition, TemplateVariant};
use crate::text::{
    clone_strings, lower_of, lowercase, owned, push_char, same_text, strip_char, stripped, trim,
    trimmed,
};
use crate::validation::{Validator, sanitized};

verus! {

/// The values rendered into one document.
#[derive(Debug, Clone)]
pub struct TemplateContext {
    pub course_id: String,
    pub course_name: String,
    pub title: String,
    pub author: String,
    /// The date, `YYYY-MM-DD`.
    pub date: String,
    pub semester: String,
    pub template_version: String,
    pub sections: Vec<String>,
    /// Extra named values for specialised templates, in insertion order.
    pub custom_fields: Vec<(String, String)>,
}

/// The kind of document.
#[derive(Debug, Clone)]
pub enum TemplateType {
    Lecture,
    Assignment,
    Custom(String),
}

/// Today's date as the clock gives it.
#[derive(Debug, Clone)]
pub struct DateStamp {
    /// `YYYY-MM-DD`
    pub iso: String,
    /// `Month DD, YYYY`
    pub long: String,
    pub year: i32,
    /// 1 to 12
    pub month: u32,
}

/// The name shown for the course: its registered name, or its code when it
/// has none.
pub open spec fn shown_course_name(ctx: TemplateContext) -> Seq<char> {
    if ctx.course_name@.len() == 0 {
        ctx.course_id@
    } else {
        ctx.course_name@
    }
}

/// The template function that a document kind invokes.
pub open spec fn type_function(t: TemplateType) -> Seq<char> {
    match t {
        TemplateType::Lecture => "dtu-note"@,
        TemplateType::Assignment => "dtu-assignment"@,
        TemplateType::Custom(name) => name@,
    }
}

/// The name of the date parameter: assignments have a due date.
pub open spec fn date_param(t: TemplateType) -> Seq<char> {
    match t {
        TemplateType::Assignment => "due-date"@,
        _ => "date"@,
    }
}

/// The import line: the package found on disk, else the default package at
/// the configured version.
pub open spec fn import_text(version: Seq<char>, installed: Option<(String, String)>) -> Seq<char> {
    match installed {
        Some((name, v)) => import_line(name@, v@),
        None => import_line("dtu-template"@, version),
    }
}

/// The header: the import, then the invocation of `function` with the course,
/// course name, title, date, author and semester.
pub open spec fn header_text(
    import: Seq<char>,
    function: Seq<char>,
    course_id: Seq<char>,
    course_name: Seq<char>,
    title: Seq<char>,
    date_name: Seq<char>,
    author: Seq<char>,
    semester: Seq<char>,
) -> Seq<char> {
    import + "\n\n#show: "@ + function + ".with(\n  course: \""@ + course_id + "\",\n  course-name: \""@
        + course_name + "\",\n  title: \""@ + title + "\",\n  "@ + date_name
        + ": datetime.today(),\n  author: \""@ + author + "\",\n  semester: \""@ + semester + "\"\n)"@
}

/// The header of a document of kind `t`.
pub open spec fn context_header(
    ctx: TemplateContext,
    function: Seq<char>,
    t: TemplateType,
    installed: Option<(String, String)>,
) -> Seq<char> {
    header_text(
        import_text(ctx.template_version@, installed),
        function,
        ctx.course_id@,
        shown_course_name(ctx),
        ctx.title@,
        date_param(t),
        ctx.author@,
        ctx.semester@,
    )
}

/// Boilerplate under a lecture section heading.
pub open spec fn lecture_body(section: Seq<char>) -> Seq<char> {
    if section == "Examples"@ {
        "\n#example[\n  Insert example here...\n]\n"@
    } else if section == "Important Points"@ {
        "\n#important[\n  Key takeaways from today's lecture\n]\n"@
    } else if section == "Questions"@ {
        "\n#question[\n  What questions do I have about this topic?\n]\n"@
    } else if section == "Summary"@ {
        "\n#summary[\n  Brief summary of the main concepts\n]\n"@
    } else {
        "\n\n"@
    }
}

/// Boilerplate under an assignment section heading.
pub open spec fn assignment_body(section: Seq<char>) -> Seq<char> {
    if section == "Problem Statement"@ {
        "\n#problem[\n  State the problem clearly\n]\n"@
    } else if section == "Solution"@ {
        "\n#solution[\n  Step-by-step solution\n]\n"@
    } else if section == "Analysis"@ {
        "\n#analysis[\n  Analysis of the results\n]\n"@
    } else if section == "Conclusion"@ {
        "\n#conclusion[\n  Final conclusions and insights\n]\n"@
    } else if section == "Code"@ {
        "\n```python\n# Insert code here\n```\n"@
    } else if section == "Calculations"@ {
        "\n$ \"Insert mathematical calculations here\" $\n"@
    } else {
        "\n\n"@
    }
}

/// Boilerplate under a section heading, by document kind.
pub open spec fn section_body(t: TemplateType, section: Seq<char>) -> Seq<char> {
    match t {
        TemplateType::Lecture => lecture_body(section),
        TemplateType::Assignment => assignment_body(section),
        TemplateType::Custom(_) => "\n\n"@,
    }
}

/// The body: for each section a heading line and its boilerplate.
pub open spec fn sections_text(sections: Seq<String>, t: TemplateType) -> Seq<char>
    decreases sections.len(),
{
    if sections.len() == 0 {
        Seq::empty()
    } else {
        sections_text(sections.drop_last(), t) + "\n= "@ + sections.last()@ + "\n"@ + section_body(
            t,
            sections.last()@,
        )
    }
}

/// A whole document: header, a line break, then the sections.
pub open spec fn document_text(
    ctx: TemplateContext,
    function: Seq<char>,
    t: TemplateType,
    installed: Option<(String, String)>,
) -> Seq<char> {
    context_header(ctx, function, t, installed) + "\n"@ + sections_text(ctx.sections@, t)
}

/// The file name of a document.
pub open spec fn filename_text(
    date: Seq<char>,
    course_id: Seq<char>,
    t: TemplateType,
    title: Option<Seq<char>>,
) -> Seq<char> {
    date + "-"@ + course_id + match t {
        TemplateType::Lecture => "-lecture.typ"@,
        TemplateType::Assignment => match title {
            Some(s) => "-"@ + sanitized(s) + ".typ"@,
            None => "-assignment.typ"@,
        },
        TemplateType::Custom(name) => "-"@ + sanitized(name@) + ".typ"@,
    }
}

/// The sections of a template once a variant is applied: the variant's
/// override list when it has one, else the definition's defaults followed by
/// the variant's additional sections.
pub open spec fn effective_sections_of(
    def: TemplateDefinition,
    variant: Option<TemplateVariant>,
) -> Seq<String> {
    match variant {
        Some(v) => match v.override_sections {
            Some(o) => o@,
            None => match v.additional_sections {
                Some(a) => def.default_sections@ + a@,
                None => def.default_sections@,
            },
        },
        None => def.default_sections@,
    }
}

/// The function a definition and a variant invoke: the variant's when it
/// names one.
pub open spec fn effective_function(def: TemplateDefinition, variant: Option<TemplateVariant>) -> Seq<
    char,
> {
    match variant {
        Some(v) => match v.function {
            Some(f) => f@,
            None => def.function@,
        },
        None => def.function@,
    }
}

/// The variant behind an optional reference.
pub open spec fn deref_variant(v: Option<&TemplateVariant>) -> Option<TemplateVariant> {
    match v {
        Some(x) => Some(*x),
        None => None,
    }
}

/// The text of an optional string.
pub open spec fn opt_view(t: Option<&str>) -> Option<Seq<char>> {
    match t {
        Some(x) => Some(x@),
        None => None,
    }
}

/// The semester of a date: spring up to June, fall after.
pub open spec fn semester_of(config: Config, today: DateStamp) -> Seq<char> {
    semester_text(config.semester_format, today.year as int, today.month <= 6)
}

/// The registered name of a course, or empty.
pub open spec fn registered_name(config: Config, course_id: Seq<char>) -> Seq<char> {
    match course_lookup(config.courses@, course_id) {
        Some(n) => n,
        None => Seq::empty(),
    }
}

/// The warnings of `TemplateEngine::validate_context`.
pub open spec fn context_warnings(ctx: TemplateContext) -> Seq<Seq<char>> {
    (if ctx.author@.len() == 0 {
        seq!["Author name is empty"@]
    } else {
        Seq::empty()
    }) + (if ctx.course_name@.len() == 0 {
        seq!["Course name not found for "@ + ctx.course_id@]
    } else {
        Seq::empty()
    }) + (if ctx.template_version@.len() == 0 {
        seq!["Template version is not specified"@]
    } else {
        Seq::empty()
    }) + (if ctx.sections@.len() == 0 {
        seq!["No sections configured for template"@]
    } else {
        Seq::empty()
    })
}

/// A template that the packages do not define.
#[derive(Debug, Clone)]
pub struct TemplateNotFound {
    pub name: String,
    /// The package that was asked for first, if any.
    pub package: Option<String>,
}

impl TemplateNotFound {
    /// The message shown to the user: the name, and the package asked for.
    pub fn message(&self) -> (r: String)
        ensures
            r@ == "Template '"@ + self.name@ + "' not found"@ + match self.package {
                Some(p) => " (preferred package '"@ + p@ + "')"@,
                None => Seq::empty(),
            },
    {
        let r = owned("Template '").concat(self.name.as_str()).concat("' not found");
        match &self.package {
            Some(p) => r.concat(" (preferred package '").concat(p.as_str()).concat("')"),
            None => {
                assert(r@ =~= r@ + Seq::<char>::empty());
                r
            },
        }
    }
}

/// Sections and function agree between two variants that hold the same values.
proof fn lemma_same_variant_renders_alike(def: TemplateDefinition, a: TemplateVariant, b: TemplateVariant)
    requires
        same_variant(a, b),
    ensures
        effective_sections_of(def, Some(a)) == effective_sections_of(def, Some(b)),
        effective_function(def, Some(a)) == effective_function(def, Some(b)),
{
}

/// Document generation.
pub struct TemplateEngine;

impl TemplateEngine {
    /// The semester of `today` in the configured style.
    pub fn current_semester(config: &Config, today: &DateStamp) -> (r: String)
        ensures
            r@ == semester_of(*config, *today),
    {
        config.format_semester(today.year, today.month <= 6)
    }

    /// A document from the catalog: template `template_name` (from
    /// `preferred_package` when that package has it), the first of its
    /// variants that applies to `course_type`, and the sections these give.
    /// A template that no package defines is an error.
    pub fn render_named(
        configs: &[TemplateConfig],
        template_name: &str,
        preferred_package: Option<&str>,
        course_type: &str,
        context: &TemplateContext,
        template_type: &TemplateType,
        installed: &Option<(String, String)>,
    ) -> (r: Result<String, TemplateNotFound>)
        ensures
            r is Err <==> no_template_named(configs@, template_name@),
            r matches Err(e) ==> e.name@ == template_name@ && opt_view(preferred_package) == match e.package {
                Some(p) => Some(p@),
                None => None::<Seq<char>>,
            },
            r matches Ok(text) ==> exists|k: int, j: int|
                #[trigger] chosen_template_at(configs@, template_name@, opt_view(preferred_package), k, j)
                    && text@ == context_header(
                    *context,
                    effective_function(
                        configs@[k].templates@[j],
                        first_applicable(variants_for(configs@, template_name@), course_type@),
                    ),
                    *template_type,
                    *installed,
                ) + "\n"@ + sections_text(
                    effective_sections_of(
                        configs@[k].templates@[j],
                        first_applicable(variants_for(configs@, template_name@), course_type@),
                    ),
                    *template_type,
                ),
    {
        match TemplateDiscovery::find_template_with_preference(configs, template_name, preferred_package) {
            None => {
                let package = match preferred_package {
                    Some(p) => Some(owned(p)),
                    None => None,
                };
                Err(TemplateNotFound { name: owned(template_name), package })
            },
            Some((definition, _package)) => {
                let variant = TemplateDiscovery::find_best_variant(configs, template_name, course_type);
                let ghost chosen = first_applicable(variants_for(configs@, template_name@), course_type@);
                proof {
                    if variant is Some {
                        lemma_same_variant_renders_alike(*definition, variant.unwrap(), chosen.unwrap());
                    }
                }
                let sections = Self::effective_sections(definition, variant.as_ref());
                let rendered_context = TemplateContext {
                    course_id: context.course_id.clone(),
                    course_name: context.course_name.clone(),
                    title: context.title.clone(),
                    author: context.author.clone(),
                    date: context.date.clone(),
                    semester: context.semester.clone(),
                    template_version: context.template_version.clone(),
                    sections,
                    custom_fields: Vec::new(),
                };
                let text = Self::render_definition(&rendered_context, definition, variant.as_ref(), template_type, installed);
                proof {
                    let d = *definition;
                    assert(context_header(rendered_context, effective_function(d, chosen), *template_type, *installed)
                        == context_header(*context, effective_function(d, chosen), *template_type, *installed));
                    let pref = opt_view(preferred_package);
                    if preferred_package is Some && crate::discovery::package_has_template(
                        configs@,
                        template_name@,
                        preferred_package.unwrap()@,
                    ) {
                        let (k, j) = choose|k: int, j: int|
                            crate::discovery::first_in_package_at(
                                configs@,
                                template_name@,
                                preferred_package.unwrap()@,
                                k,
                                j,
                            ) && configs@[k].templates@[j] == d;
                        assert(chosen_template_at(configs@, template_name@, pref, k, j));
                    } else {
                        let (k, j) = choose|k: int, j: int|
                            crate::discovery::first_template_at(configs@, template_name@, k, j)
                                && configs@[k].templates@[j] == d;
                        assert(chosen_template_at(configs@, template_name@, pref, k, j));
                    }
                }
                Ok(text)
            },
        }
    }

    /// The context of a lecture note: the given title, else `Lecture - <date>`
    /// or `Lecture Notes` as configured; the lecture sections of the configuration.
    pub fn build_lecture_context(
        course_id: &str,
        config: &Config,
        custom_title: Option<&str>,
        today: &DateStamp,
    ) -> (r: TemplateContext)
        ensures
            r.course_id@ == course_id@,
            r.course_name@ == registered_name(*config, course_id@),
            r.title@ == match custom_title {
                Some(t) => t@,
                None => if config.note_preferences.include_date_in_title {
                    "Lecture - "@ + today.long@
                } else {
                    "Lecture Notes"@
                },
            },
            r.author@ == config.author@,
            r.date@ == today.iso@,
            r.semester@ == semester_of(*config, *today),
            r.template_version@ == config.template_version@,
            r.sections@ == config.note_preferences.lecture_sections@,
            r.custom_fields@.len() == 0,
    {
        let title = match custom_title {
            Some(t) => owned(t),
            None => if config.note_preferences.include_date_in_title {
                owned("Lecture - ").concat(today.long.as_str())
            } else {
                owned("Lecture Notes")
            },
        };
        TemplateContext {
            course_id: owned(course_id),
            course_name: Self::resolve_course_name(course_id, config),
            title,
            author: config.author.clone(),
            date: today.iso.clone(),
            semester: Self::current_semester(config, today),
            template_version: config.template_version.clone(),
            sections: clone_strings(&config.note_preferences.lecture_sections),
            custom_fields: Vec::new(),
        }
    }

    /// The context of an assignment: its title and the assignment sections of
    /// the configuration.
    pub fn build_assignment_context(
        course_id: &str,
        assignment_title: &str,
        config: &Config,
        today: &DateStamp,
    ) -> (r: TemplateContext)
        ensures
            r.course_id@ == course_id@,
            r.course_name@ == registered_name(*config, course_id@),
            r.title@ == assignment_title@,
            r.author@ == config.author@,
            r.date@ == today.iso@,
            r.semester@ == semester_of(*config, *today),
            r.template_version@ == config.template_version@,
            r.sections@ == config.note_preferences.assignment_sections@,
            r.custom_fields@.len() == 0,
    {
        TemplateContext {
            course_id: owned(course_id),
            course_name: Self::resolve_course_name(course_id, config),
            title: owned(assignment_title),
            author: config.author.clone(),
            date: today.iso.clone(),
            semester: Self::current_semester(config, today),
            template_version: config.template_version.clone(),
            sections: clone_strings(&config.note_preferences.assignment_sections),
            custom_fields: Vec::new(),
        }
    }

    /// A lecture note for a course.
    pub fn generate_lecture_template(
        course_id: &str,
        config: &Config,
        custom_title: Option<&str>,
        today: &DateStamp,
        installed: &Option<(String, String)>,
    ) -> (r: String)
        ensures
            exists|ctx: TemplateContext|
                ctx.course_id@ == course_id@ && ctx.course_name@ == registered_name(*config, course_id@)
                    && ctx.author@ == config.author@ && ctx.semester@ == semester_of(*config, *today)
                    && ctx.template_version@ == config.template_version@ && ctx.sections@
                    == config.note_preferences.lecture_sections@ && ctx.title@ == match custom_title {
                    Some(t) => t@,
                    None => if config.note_preferences.include_date_in_title {
                        "Lecture - "@ + today.long@
                    } else {
                        "Lecture Notes"@
                    },
                } && r@ == document_text(ctx, "dtu-note"@, TemplateType::Lecture, *installed),
    {
        let context = Self::build_lecture_context(course_id, config, custom_title, today);
        let r = Self::render_template(&context, &TemplateType::Lecture, installed);
        assert(type_function(TemplateType::Lecture) == "dtu-note"@);
        r
    }

    /// An assignment for a course.
    pub fn generate_assignment_template(
        course_id: &str,
        assignment_title: &str,
        config: &Config,
        today: &DateStamp,
        installed: &Option<(String, String)>,
    ) -> (r: String)
        ensures
            exists|ctx: TemplateContext|
                ctx.course_id@ == course_id@ && ctx.course_name@ == registered_name(*config, course_id@)
                    && ctx.author@ == config.author@ && ctx.semester@ == semester_of(*config, *today)
                    && ctx.template_version@ == config.template_version@ && ctx.sections@
                    == config.note_preferences.assignment_sections@ && ctx.title@ == assignment_title@
                    && r@ == document_text(ctx, "dtu-assignment"@, TemplateType::Assignment, *installed),
    {
        let context = Self::build_assignment_context(course_id, assignment_title, config, today);
        Self::render_template(&context, &TemplateType::Assignment, installed)
    }

    /// A document: the header, a line break, then the sections.
    pub fn render_template(
        context: &TemplateContext,
        template_type: &TemplateType,
        installed: &Option<(String, String)>,
    ) -> (r: String)
        ensures
            r@ == document_text(*context, type_function(*template_type), *template_type, *installed),
    {
        let function = match template_type {
            TemplateType::Lecture => owned("dtu-note"),
            TemplateType::Assignment => owned("dtu-assignment"),
            TemplateType::Custom(name) => name.clone(),
        };
        Self::render_with_function(context, function.as_str(), template_type, installed)
    }

    /// A document from a template definition and an optional variant: the
    /// header invokes the variant's function when it names one, else the
    /// definition's.
    pub fn render_definition(
        context: &TemplateContext,
        definition: &TemplateDefinition,
        variant: Option<&TemplateVariant>,
        template_type: &TemplateType,
        installed: &Option<(String, String)>,
    ) -> (r: String)
        ensures
            r@ == document_text(
                *context,
                effective_function(*definition, deref_variant(variant)),
                *template_type,
                *installed,
            ),
    {
        let function = match variant {
            Some(v) => match &v.function {
                Some(f) => f.as_str(),
                None => definition.function.as_str(),
            },
            None => definition.function.as_str(),
        };
        Self::render_with_function(context, function, template_type, installed)
    }

    fn render_with_function(
        context: &TemplateContext,
        function: &str,
        template_type: &TemplateType,
        installed: &Option<(String, String)>,
    ) -> (r: String)
        ensures
            r@ == document_text(*context, function@, *template_type, *installed),
    {
        let header = Self::generate_typst_header(context, function, template_type, installed);
        let sections = Self::generate_sections(&context.sections, template_type);
        header.concat("\n").concat(sections.as_str())
    }

    /// The header of a document (see `header_text`).
    pub fn generate_typst_header(
        context: &TemplateContext,
        function: &str,
        template_type: &TemplateType,
        installed: &Option<(String, String)>,
    ) -> (r: String)
        ensures
            r@ == context_header(*context, function@, *template_type, *installed),
    {
        let date_name = match template_type {
            TemplateType::Assignment => "due-date",
            _ => "date",
        };
        let course_name = if context.course_name.unicode_len() == 0 {
            context.course_id.as_str()
        } else {
            context.course_name.as_str()
        };
        let import = Self::determine_template_import(context.template_version.as_str(), installed);
        import.concat("\n\n#show: ").concat(function).concat(".with(\n  course: \"").concat(
            context.course_id.as_str(),
        ).concat("\",\n  course-name: \"").concat(course_name).concat("\",\n  title: \"").concat(
            context.title.as_str(),
        ).concat("\",\n  ").concat(date_name).concat(": datetime.today(),\n  author: \"").concat(
            context.author.as_str(),
        ).concat("\",\n  semester: \"").concat(context.semester.as_str()).concat("\"\n)")
    }

    /// The import line: the package detected on disk, else the default
    /// package at `template_version`.
    pub fn determine_template_import(
        template_version: &str,
        installed: &Option<(String, String)>,
    ) -> (r: String)
        ensures
            r@ == import_text(template_version@, *installed),
    {
        match installed {
            Some((name, version)) => import_for(name.as_str(), version.as_str()),
            None => import_for("dtu-template", template_version),
        }
    }

    /// The body of a document (see `sections_text`).
    pub fn generate_sections(sections: &Vec<String>, template_type: &TemplateType) -> (r: String)
        ensures
            r@ == sections_text(sections@, *template_type),
    {
        let mut content = String::new();
        let mut i: usize = 0;
        while i < sections.len()
            invariant
                i <= sections@.len(),
                content@ == sections_text(sections@.subrange(0, i as int), *template_type),
            decreases sections@.len() - i,
        {
            let section = sections[i].as_str();
            assert(sections@.subrange(0, i + 1).drop_last() =~= sections@.subrange(0, i as int));
            let body = match template_type {
                TemplateType::Lecture => Self::generate_lecture_section_content(section),
                TemplateType::Assignment => Self::generate_assignment_section_content(section),
                TemplateType::Custom(_) => owned("\n\n"),
            };
            content = content.concat("\n= ").concat(section).concat("\n").concat(body.as_str());
            i = i + 1;
        }
        assert(sections@.subrange(0, i as int) =~= sections@);
        content
    }

    /// Boilerplate under a lecture section (see `lecture_body`).
    pub fn generate_lecture_section_content(section: &str) -> (r: String)
        ensures
            r@ == lecture_body(section@),
    {
        if same_text(section, "Examples") {
            owned("\n#example[\n  Insert example here...\n]\n")
        } else if same_text(section, "Important Points") {
            owned("\n#important[\n  Key takeaways from today's lecture\n]\n")
        } else if same_text(section, "Questions") {
            owned("\n#question[\n  What questions do I have about this topic?\n]\n")
        } else if same_text(section, "Summary") {
            owned("\n#summary[\n  Brief summary of the main concepts\n]\n")
        } else {
            owned("\n\n")
        }
    }

    /// Boilerplate under an assignment section (see `assignment_body`).
    pub fn generate_assignment_section_content(section: &str) -> (r: String)
        ensures
            r@ == assignment_body(section@),
    {
        if same_text(section, "Problem Statement") {
            owned("\n#problem[\n  State the problem clearly\n]\n")
        } else if same_text(section, "Solution") {
            owned("\n#solution[\n  Step-by-step solution\n]\n")
        } else if same_text(section, "Analysis") {
            owned("\n#analysis[\n  Analysis of the results\n]\n")
        } else if same_text(section, "Conclusion") {
            owned("\n#conclusion[\n  Final conclusions and insights\n]\n")
        } else if same_text(section, "Code") {
            owned("\n```python\n# Insert code here\n```\n")
        } else if same_text(section, "Calculations") {
            owned("\n$ \"Insert mathematical calculations here\" $\n")
        } else {
            owned("\n\n")
        }
    }

    /// The registered name of a course, or the empty string.
    pub fn resolve_course_name(course_id: &str, config: &Config) -> (r: String)
        ensures
            r@ == registered_name(*config, course_id@),
    {
        config.get_course_name(course_id)
    }

    /// The sections of a definition once a variant is applied (see
    /// `effective_sections_of`).
    pub fn effective_sections(definition: &TemplateDefinition, variant: Option<&TemplateVariant>) -> (r:
        Vec<String>)
        ensures
            r@ == effective_sections_of(*definition, deref_variant(variant)),
    {
        match variant {
            Some(v) => match &v.override_sections {
                Some(o) => clone_strings(o),
                None => match &v.additional_sections {
                    Some(a) => {
                        let mut r = clone_strings(&definition.default_sections);
                        let mut extra = clone_strings(a);
                        r.append(&mut extra);
                        r
                    },
                    None => clone_strings(&definition.default_sections),
                },
            },
            None => clone_strings(&definition.default_sections),
        }
    }

    /// The file name of a document (see `filename_text`).
    pub fn generate_filename(
        course_id: &str,
        template_type: &TemplateType,
        custom_title: Option<&str>,
        date: &str,
    ) -> (r: String)
        ensures
            r@ == filename_text(date@, course_id@, *template_type, opt_view(custom_title)),
    {
        let stem = owned(date).concat("-").concat(course_id);
        match template_type {
            TemplateType::Lecture => stem.concat("-lecture.typ"),
            TemplateType::Assignment => match custom_title {
                Some(title) => {
                    let s = Validator::sanitize_filename(title);
                    stem.concat("-").concat(s.as_str()).concat(".typ")
                },
                None => stem.concat("-assignment.typ"),
            },
            TemplateType::Custom(name) => {
                let s = Validator::sanitize_filename(name.as_str());
                stem.concat("-").concat(s.as_str()).concat(".typ")
            },
        }
    }

    /// The kind of document a name asks for: `lecture` or `l`, `assignment`
    /// or `a`, in any case; any other name is a custom kind under its
    /// lower-case form.
    pub fn parse_template_type(name: &str) -> (r: TemplateType)
        ensures
            ({
                let l = lower_of(name@);
                if l == "lecture"@ || l == "l"@ {
                    r is Lecture
                } else if l == "assignment"@ || l == "a"@ {
                    r is Assignment
                } else {
                    r matches TemplateType::Custom(c) && c@ == l
                }
            }),
    {
        let l = lowercase(name);
        if same_text(l.as_str(), "lecture") || same_text(l.as_str(), "l") {
            TemplateType::Lecture
        } else if same_text(l.as_str(), "assignment") || same_text(l.as_str(), "a") {
            TemplateType::Assignment
        } else {
            TemplateType::Custom(l)
        }
    }

    /// Section names from comma-separated text (see `section_list`).
    pub fn parse_section_list(text: &str) -> (r: Vec<String>)
        ensures
            r@.map_values(|x: String| x@) == section_list(text@),
    {
        let n = text.unicode_len();
        let mut out: Vec<String> = Vec::new();
        let mut current = String::new();
        let mut i: usize = 0;
        while i < n
            invariant
                n == text@.len(),
                i <= n,
                out@.map_values(|x: String| x@) == kept_pieces(comma_split(text@.subrange(0, i as int)).0),
                current@ == comma_split(text@.subrange(0, i as int)).1,
            decreases n - i,
        {
            let ghost pre = text@.subrange(0, i as int);
            assert(text@.subrange(0, i + 1).drop_last() =~= pre);
            let c = text.get_char(i);
            if c == ',' {
                let piece = trim(current.as_str());
                let ghost done = comma_split(pre).0;
                assert(done.push(current@).drop_last() =~= done);
                if piece.unicode_len() > 0 {
                    out.push(piece);
                }
                assert(out@.map_values(|x: String| x@) =~= kept_pieces(done.push(current@)));
                current = String::new();
            } else {
                push_char(&mut current, c);
            }
            i = i + 1;
        }
        assert(text@.subrange(0, n as int) =~= text@);
        let ghost done = comma_split(text@).0;
        assert(done.push(current@).drop_last() =~= done);
        let piece = trim(current.as_str());
        if piece.unicode_len() > 0 {
            out.push(piece);
        }
        assert(out@.map_values(|x: String| x@) =~= section_list(text@));
        out
    }

    /// The sections of a custom document: the given comma-separated list, or
    /// when none is given, the assignment sections for kind `assignment` and
    /// the lecture sections for any other.
    pub fn custom_template_sections(config: &Config, template_type: &str, sections: Option<&str>) -> (r:
        Vec<String>)
        ensures
            r@.map_values(|x: String| x@) == match sections {
                Some(text) => section_list(text@),
                None => if lower_of(template_type@) == "assignment"@ {
                    config.note_preferences.assignment_sections@.map_values(|x: String| x@)
                } else {
                    config.note_preferences.lecture_sections@.map_values(|x: String| x@)
                },
            },
    {
        match sections {
            Some(text) => Self::parse_section_list(text),
            None => {
                let l = lowercase(template_type);
                if same_text(l.as_str(), "assignment") {
                    clone_strings(&config.note_preferences.assignment_sections)
                } else {
                    clone_strings(&config.note_preferences.lecture_sections)
                }
            },
        }
    }

    /// A package name as imports write it (see `package_name_of`).
    pub fn normalize_package_name(name: &str) -> (r: String)
        ensures
            r@ == package_name_of(name@),
    {
        let n = name.unicode_len();
        let mut dashed = String::new();
        let mut i: usize = 0;
        while i < n
            invariant
                n == name@.len(),
                i <= n,
                dashed@ == name@.subrange(0, i as int).map_values(|c: char| if c == '_' { '-' } else { c }),
            decreases n - i,
        {
            let c = name.get_char(i);
            push_char(&mut dashed, if c == '_' { '-' } else { c });
            assert(dashed@ =~= name@.subrange(0, i + 1).map_values(|c: char| if c == '_' { '-' } else { c }));
            i = i + 1;
        }
        assert(name@.subrange(0, n as int) =~= name@);
        lowercase(dashed.as_str())
    }

    /// The installed package from status entries of name and version: the
    /// first with a version (see `first_installed`).
    pub fn installed_template_info(statuses: &Vec<(String, Option<String>)>) -> (r: Option<(String, String)>)
        ensures
            match (r, first_installed(statuses@)) {
                (Some((n, v)), Some((sn, sv))) => n@ == sn && v@ == sv,
                (None, None) => true,
                _ => false,
            },
    {
        let mut i: usize = 0;
        assert(statuses@.subrange(0, statuses@.len() as int) =~= statuses@);
        while i < statuses.len()
            invariant
                i <= statuses@.len(),
                first_installed(statuses@) == first_installed(statuses@.subrange(i as int, statuses@.len() as int)),
            decreases statuses@.len() - i,
        {
            let ghost rest = statuses@.subrange(i as int, statuses@.len() as int);
            assert(rest.drop_first() =~= statuses@.subrange(i + 1, statuses@.len() as int));
            assert(rest[0] == statuses@[i as int]);
            if let Some(version) = &statuses[i].1 {
                return Some((Self::normalize_package_name(statuses[i].0.as_str()), version.clone()));
            }
            i = i + 1;
        }
        assert(statuses@.subrange(i as int, statuses@.len() as int) =~= Seq::<(String, Option<String>)>::empty());
        None
    }

    fn equals_position(t: &str) -> (r: Option<usize>)
        ensures
            r matches Some(p) ==> first_equals(t@) == Some(p as int) && p < t@.len(),
            r is None ==> first_equals(t@) is None,
    {
        let n = t.unicode_len();
        let mut i: usize = 0;
        while i < n
            invariant
                n == t@.len(),
                i <= n,
                first_equals(t@.subrange(0, i as int)) is None,
            decreases n - i,
        {
            assert(t@.subrange(0, i + 1).drop_last() =~= t@.subrange(0, i as int));
            if t.get_char(i) == '=' {
                proof { lemma_first_equals_extend(t@, i as int + 1); }
                return Some(i);
            }
            i = i + 1;
        }
        assert(t@.subrange(0, n as int) =~= t@);
        None
    }

    fn version_of_line(line: &str) -> (r: Option<String>)
        ensures
            r matches Some(v) ==> line_version(line@) == Some(v@),
            r is None ==> line_version(line@) is None,
    {
        let t = trim(line);
        let n = t.unicode_len();
        if n < 7 {
            return None;
        }
        let head = t.as_str().substring_char(0, 7);
        if !same_text(head, "version") {
            return None;
        }
        match Self::equals_position(t.as_str()) {
            None => None,
            Some(p) => {
                let rest = trim(t.as_str().substring_char(p + 1, n));
                let v = trim(strip_char(strip_char(rest.as_str(), '"').as_str(), '\'').as_str());
                if v.unicode_len() > 0 {
                    Some(v)
                } else {
                    None
                }
            },
        }
    }

    /// The version that an installed package's manifest text declares (see
    /// `manifest_version`).
    pub fn version_from_manifest_text(content: &str) -> (r: Option<String>)
        ensures
            r matches Some(v) ==> manifest_version(content@) == Some(v@),
            r is None ==> manifest_version(content@) is None,
    {
        let n = content.unicode_len();
        let mut current = String::new();
        let mut i: usize = 0;
        while i < n
            invariant
                n == content@.len(),
                i <= n,
                first_version(line_split(content@.subrange(0, i as int)).0) is None,
                current@ == line_split(content@.subrange(0, i as int)).1,
            decreases n - i,
        {
            let ghost pre = content@.subrange(0, i as int);
            assert(content@.subrange(0, i + 1).drop_last() =~= pre);
            let c = content.get_char(i);
            if c == '\n' {
                proof { lemma_first_version_push(line_split(pre).0, current@); }
                let found = Self::version_of_line(current.as_str());
                if found.is_some() {
                    proof {
                        assert(first_version(line_split(content@.subrange(0, i + 1)).0) is Some);
                        lemma_manifest_version_prefix(content@, i as int + 1);
                    }
                    return found;
                }
                current = String::new();
            } else {
                push_char(&mut current, c);
            }
            i = i + 1;
        }
        assert(content@.subrange(0, n as int) =~= content@);
        proof { lemma_first_version_push(line_split(content@).0, current@); }
        Self::version_of_line(current.as_str())
    }

    /// Whether templates must be fetched: no status entry has a version.
    pub fn templates_missing(statuses: &Vec<(String, Option<String>)>) -> (r: bool)
        ensures
            r == forall|i: int| 0 <= i < statuses@.len() ==> (#[trigger] statuses@[i]).1 is None,
    {
        let mut i: usize = 0;
        while i < statuses.len()
            invariant
                i <= statuses@.len(),
                forall|k: int| 0 <= k < i ==> (#[trigger] statuses@[k]).1 is None,
            decreases statuses@.len() - i,
        {
            if statuses[i].1.is_some() {
                return false;
            }
            i = i + 1;
        }
        true
    }

    /// Warnings about missing values in a context (see `context_warnings`).
    pub fn validate_context(context: &TemplateContext) -> (r: Vec<String>)
        ensures
            r@.map_values(|s: String| s@) == context_warnings(*context),
    {
        let mut warnings: Vec<String> = Vec::new();
        if context.author.unicode_len() == 0 {
            warnings.push(owned("Author name is empty"));
        }
        if context.course_name.unicode_len() == 0 {
            warnings.push(owned("Course name not found for ").concat(context.course_id.as_str()));
        }
        if context.template_version.unicode_len() == 0 {
            warnings.push(owned("Template version is not specified"));
        }
        if context.sections.len() == 0 {
            warnings.push(owned("No sections configured for template"));
        }
        assert(warnings@.map_values(|s: String| s@) =~= context_warnings(*context));
        warnings
    }
}

/// Splits text at commas: the finished pieces and the piece in progress.
pub open spec fn comma_split(s: Seq<char>) -> (Seq<Seq<char>>, Seq<char>)
    decreases s.len(),
{
    if s.len() == 0 {
        (Seq::empty(), Seq::empty())
    } else {
        let (done, current) = comma_split(s.drop_last());
        if s.last() == ',' {
            (done.push(current), Seq::empty())
        } else {
            (done, current.push(s.last()))
        }
    }
}

/// The trimmed pieces that are not empty, in order.
pub open spec fn kept_pieces(pieces: Seq<Seq<char>>) -> Seq<Seq<char>>
    decreases pieces.len(),
{
    if pieces.len() == 0 {
        Seq::empty()
    } else {
        kept_pieces(pieces.drop_last()) + if trimmed(pieces.last()).len() > 0 {
            seq![trimmed(pieces.last())]
        } else {
            Seq::empty()
        }
    }
}

/// A comma-separated list of section names, each trimmed, empty ones dropped.
pub open spec fn section_list(s: Seq<char>) -> Seq<Seq<char>> {
    kept_pieces(comma_split(s).0.push(comma_split(s).1))
}

/// The installed package: the first status entry with a version, its name
/// normalised.
pub open spec fn first_installed(statuses: Seq<(String, Option<String>)>) -> Option<(Seq<char>, Seq<char>)>
    decreases statuses.len(),
{
    if statuses.len() == 0 {
        None
    } else {
        match statuses[0].1 {
            Some(v) => Some((package_name_of(statuses[0].0@), v@)),
            None => first_installed(statuses.drop_first()),
        }
    }
}

/// A package name as imports write it: underscores become dashes, then lower case.
pub open spec fn package_name_of(name: Seq<char>) -> Seq<char> {
    lower_of(name.map_values(|c: char| if c == '_' { '-' } else { c }))
}

/// Splits text into lines at line feeds: the finished lines and the line in progress.
pub open spec fn line_split(s: Seq<char>) -> (Seq<Seq<char>>, Seq<char>)
    decreases s.len(),
{
    if s.len() == 0 {
        (Seq::empty(), Seq::empty())
    } else {
        let (done, current) = line_split(s.drop_last());
        if s.last() == '\n' {
            (done.push(current), Seq::empty())
        } else {
            (done, current.push(s.last()))
        }
    }
}

/// The position of the first `=` in `s`.
pub open spec fn first_equals(s: Seq<char>) -> Option<int>
    decreases s.len(),
{
    if s.len() == 0 {
        None
    } else if s.last() == '=' && first_equals(s.drop_last()) is None {
        Some(s.len() - 1)
    } else {
        first_equals(s.drop_last())
    }
}

/// The version that one line of a package manifest declares: a trimmed line
/// that starts with `version` and holds `=`; what follows the first `=`,
/// trimmed, stripped of double then single quotes, trimmed again, when not empty.
pub open spec fn line_version(line: Seq<char>) -> Option<Seq<char>> {
    let t = trimmed(line);
    if t.len() >= 7 && t.subrange(0, 7) == "version"@ && first_equals(t) is Some {
        let v = trimmed(
            stripped(stripped(trimmed(t.subrange(first_equals(t).unwrap() + 1, t.len() as int)), '"'), '\''),
        );
        if v.len() > 0 {
            Some(v)
        } else {
            None
        }
    } else {
        None
    }
}

/// The version of the first line that declares one.
pub open spec fn first_version(lines: Seq<Seq<char>>) -> Option<Seq<char>>
    decreases lines.len(),
{
    if lines.len() == 0 {
        None
    } else if line_version(lines[0]) is Some {
        line_version(lines[0])
    } else {
        first_version(lines.drop_first())
    }
}

/// The version a package manifest declares (see `line_version`).
pub open spec fn manifest_version(content: Seq<char>) -> Option<Seq<char>> {
    first_version(line_split(content).0.push(line_split(content).1))
}

proof fn lemma_first_equals_extend(s: Seq<char>, k: int)
    requires
        0 < k <= s.len(),
        s[k - 1] == '=',
        first_equals(s.subrange(0, k - 1)) is None,
    ensures
        first_equals(s) == Some(k - 1),
    decreases s.len() - k,
{
    if k == s.len() {
        assert(s.drop_last() =~= s.subrange(0, k - 1));
    } else {
        assert(s.drop_last().subrange(0, k - 1) =~= s.subrange(0, k - 1));
        lemma_first_equals_extend(s.drop_last(), k);
    }
}

proof fn lemma_line_split_extend(s: Seq<char>, k: int)
    requires
        0 <= k <= s.len(),
    ensures
        exists|more: Seq<Seq<char>>|
            line_split(s).0.push(line_split(s).1) =~= line_split(s.subrange(0, k)).0 + more,
    decreases s.len() - k,
{
    if k == s.len() {
        assert(s.subrange(0, k) =~= s);
        let (d, c) = line_split(s);
        assert(d.push(c) =~= d + seq![c]);
    } else {
        lemma_line_split_extend(s.drop_last(), k);
        assert(s.drop_last().subrange(0, k) =~= s.subrange(0, k));
        let more = choose|more: Seq<Seq<char>>|
            line_split(s.drop_last()).0.push(line_split(s.drop_last()).1) =~= line_split(s.subrange(0, k)).0 + more;
        let (d, c) = line_split(s.drop_last());
        let base = line_split(s.subrange(0, k)).0;
        assert(d.push(c) =~= base + more);
        if s.last() == '\n' {
            assert(line_split(s).0.push(line_split(s).1) =~= base + (more + seq![Seq::<char>::empty()]));
        } else {
            let m2 = more.drop_last().push(c.push(s.last()));
            assert(more.len() > 0) by {
                assert(d.push(c).len() == base.len() + more.len());
                assert(d.len() >= base.len()) by {
                    lemma_line_split_len(s.drop_last(), k);
                }
            }
            assert(d =~= base + more.drop_last()) by {
                assert(d.push(c).drop_last() =~= d);
                assert((base + more).drop_last() =~= base + more.drop_last());
            }
            assert(c == more.last()) by {
                assert(d.push(c).last() == c);
                assert((base + more).last() == more.last());
            }
            assert(line_split(s).0.push(line_split(s).1) =~= base + m2);
        }
    }
}

proof fn lemma_line_split_len(s: Seq<char>, k: int)
    requires
        0 <= k <= s.len(),
    ensures
        line_split(s).0.len() >= line_split(s.subrange(0, k)).0.len(),
    decreases s.len() - k,
{
    if k == s.len() {
        assert(s.subrange(0, k) =~= s);
    } else {
        lemma_line_split_len(s.drop_last(), k);
        assert(s.drop_last().subrange(0, k) =~= s.subrange(0, k));
    }
}

proof fn lemma_first_version_append(a: Seq<Seq<char>>, b: Seq<Seq<char>>)
    requires
        first_version(a) is Some,
    ensures
        first_version(a + b) == first_version(a),
    decreases a.len(),
{
    if line_version(a[0]) is None {
        assert((a + b).drop_first() =~= a.drop_first() + b);
        lemma_first_version_append(a.drop_first(), b);
    }
    assert((a + b)[0] == a[0]);
}

/// Once a prefix of the text has a declaring line, that line decides.
proof fn lemma_manifest_version_prefix(s: Seq<char>, k: int)
    requires
        0 <= k <= s.len(),
        first_version(line_split(s.subrange(0, k)).0) is Some,
    ensures
        manifest_version(s) == first_version(line_split(s.subrange(0, k)).0),
{
    lemma_line_split_extend(s, k);
    let base = line_split(s.subrange(0, k)).0;
    let more = choose|more: Seq<Seq<char>>| line_split(s).0.push(line_split(s).1) =~= base + more;
    lemma_first_version_append(base, more);
}

proof fn lemma_first_version_push(lines: Seq<Seq<char>>, line: Seq<char>)
    requires
        first_version(lines) is None,
    ensures
        first_version(lines.push(line)) == line_version(line),
    decreases lines.len(),
{
    if lines.len() > 0 {
        assert(lines.push(line).drop_first() =~= lines.drop_first().push(line));
        assert(lines.push(line)[0] == lines[0]);
        lemma_first_version_push(lines.drop_first(), line);
        assert(line_version(lines[0]) is None);
        assert(first_version(lines.push(line)) == first_version(lines.push(line).drop_first()));
    } else {
        let one = lines.push(line);
        assert(one.drop_first() =~= Seq::<Seq<char>>::empty());
        assert(one[0] == line);
        assert(first_version(one.drop_first()) is None);
        if line_version(line) is Some {
            assert(first_version(one) == line_version(one[0]));
        } else {
            assert(first_version(one) == first_version(one.drop_first()));
        }
    }
}

/// Builds a document step by step: kind, title, sections and extra fields.
pub struct TemplateBuilder {
    context: TemplateContext,
    template_type: TemplateType,
}

/// The value stored under `key`, if any.
pub open spec fn field_lookup(fields: Seq<(String, String)>, key: Seq<char>) -> Option<Seq<char>>
    decreases fields.len(),
{
    if fields.len() == 0 {
        None
    } else if fields[0].0@ == key {
        Some(fields[0].1@)
    } else {
        field_lookup(fields.drop_first(), key)
    }
}

impl TemplateBuilder {
    /// The context being built.
    pub closed spec fn context(&self) -> TemplateContext {
        self.context
    }

    /// The kind of document being built.
    pub closed spec fn kind(&self) -> TemplateType {
        self.template_type
    }

    /// A lecture with no title and no sections, for a course as registered
    /// in `config`, dated `today`.
    pub fn new(course_id: &str, config: &Config, today: &DateStamp) -> (r: TemplateBuilder)
        ensures
            r.context().course_id@ == course_id@,
            r.context().course_name@ == registered_name(*config, course_id@),
            r.context().title@.len() == 0,
            r.context().author@ == config.author@,
            r.context().date@ == today.iso@,
            r.context().semester@ == semester_of(*config, *today),
            r.context().template_version@ == config.template_version@,
            r.context().sections@.len() == 0,
            r.context().custom_fields@.len() == 0,
            r.kind() is Lecture,
    {
        TemplateBuilder {
            context: TemplateContext {
                course_id: owned(course_id),
                course_name: TemplateEngine::resolve_course_name(course_id, config),
                title: String::new(),
                author: config.author.clone(),
                date: today.iso.clone(),
                semester: TemplateEngine::current_semester(config, today),
                template_version: config.template_version.clone(),
                sections: Vec::new(),
                custom_fields: Vec::new(),
            },
            template_type: TemplateType::Lecture,
        }
    }

    /// Sets the title.
    pub fn with_title(self, title: &str) -> (r: TemplateBuilder)
        ensures
            r.context() == (TemplateContext { title: r.context().title, ..self.context() }),
            r.context().title@ == title@,
            r.kind() == self.kind(),
    {
        let mut b = self;
        b.context.title = owned(title);
        b
    }

    /// Sets the kind of document.
    pub fn with_type(self, template_type: TemplateType) -> (r: TemplateBuilder)
        ensures
            r.context() == self.context(),
            r.kind() == template_type,
    {
        let mut b = self;
        b.template_type = template_type;
        b
    }

    /// Sets the sections.
    pub fn with_sections(self, sections: Vec<String>) -> (r: TemplateBuilder)
        ensures
            r.context() == (TemplateContext { sections, ..self.context() }),
            r.kind() == self.kind(),
    {
        let mut b = self;
        b.context.sections = sections;
        b
    }

    /// Stores `value` under `key`, replacing an earlier value of that key.
    pub fn add_custom_field(self, key: &str, value: &str) -> (r: TemplateBuilder)
        ensures
            r.context() == (TemplateContext { custom_fields: r.context().custom_fields, ..self.context() }),
            r.kind() == self.kind(),
            field_lookup(r.context().custom_fields@, key@) == Some(value@),
            forall|other: Seq<char>| other != key@ ==> field_lookup(r.context().custom_fields@, other)
                == field_lookup(self.context().custom_fields@, other),
    {
        let mut b = self;
        let ghost old_fields = b.context.custom_fields@;
        let mut i: usize = 0;
        while i < b.context.custom_fields.len()
            invariant
                i <= b.context.custom_fields@.len(),
                b == self,
                b.context.custom_fields@ == old_fields,
                forall|k: int| 0 <= k < i ==> (#[trigger] old_fields[k]).0@ != key@,
            decreases b.context.custom_fields@.len() - i,
        {
            if same_text(b.context.custom_fields[i].0.as_str(), key) {
                b.context.custom_fields.set(i, (owned(key), owned(value)));
                proof {
                    let fs = b.context.custom_fields@;
                    assert(fs =~= old_fields.update(i as int, fs[i as int]));
                    lemma_field_update(old_fields, i as int, fs[i as int], key@);
                }
                return b;
            }
            i = i + 1;
        }
        b.context.custom_fields.push((owned(key), owned(value)));
        proof {
            lemma_field_push(old_fields, b.context.custom_fields@.last(), key@);
        }
        b
    }

    /// The document (see `TemplateEngine::render_template`).
    pub fn build(&self, installed: &Option<(String, String)>) -> (r: String)
        ensures
            r@ == document_text(self.context(), type_function(self.kind()), self.kind(), *installed),
    {
        TemplateEngine::render_template(&self.context, &self.template_type, installed)
    }

    /// The document and its file name; an empty title counts as no title.
    pub fn build_with_filename(&self, installed: &Option<(String, String)>) -> (r: (String, String))
        ensures
            r.0@ == document_text(self.context(), type_function(self.kind()), self.kind(), *installed),
            r.1@ == filename_text(
                self.context().date@,
                self.context().course_id@,
                self.kind(),
                if self.context().title@.len() == 0 {
                    None
                } else {
                    Some(self.context().title@)
                },
            ),
    {
        let content = self.build(installed);
        let title = if self.context.title.unicode_len() == 0 {
            None
        } else {
            Some(self.context.title.as_str())
        };
        let filename = TemplateEngine::generate_filename(
            self.context.course_id.as_str(),
            &self.template_type,
            title,
            self.context.date.as_str(),
        );
        (content, filename)
    }
}

proof fn lemma_field_update(fs: Seq<(String, String)>, i: int, entry: (String, String), key: Seq<char>)
    requires
        0 <= i < fs.len(),
        fs[i].0@ == key,
        entry.0@ == key,
        forall|k: int| 0 <= k < i ==> (#[trigger] fs[k]).0@ != key,
    ensures
        field_lookup(fs.update(i, entry), key) == Some(entry.1@),
        forall|other: Seq<char>| other != key ==> field_lookup(fs.update(i, entry), other) == field_lookup(fs, other),
    decreases fs.len(),
{
    let gs = fs.update(i, entry);
    if i == 0 {
        assert(gs.drop_first() =~= fs.drop_first());
        assert forall|other: Seq<char>| other != key implies field_lookup(gs, other) == field_lookup(fs, other) by {
            assert(gs[0].0@ != other && fs[0].0@ != other);
        }
    } else {
        assert(gs.drop_first() =~= fs.drop_first().update(i - 1, entry));
        assert forall|k: int| 0 <= k < i - 1 implies (#[trigger] fs.drop_first()[k]).0@ != key by {
            assert(fs.drop_first()[k] == fs[k + 1]);
        }
        lemma_field_update(fs.drop_first(), i - 1, entry, key);
        assert(gs[0] == fs[0]);
        assert forall|other: Seq<char>| other != key implies field_lookup(gs, other) == field_lookup(fs, other) by {
            if fs[0].0@ != other {
                assert(field_lookup(gs.drop_first(), other) == field_lookup(fs.drop_first(), other));
            }
        }
    }
}

proof fn lemma_field_push(fs: Seq<(String, String)>, entry: (String, String), key: Seq<char>)
    requires
        entry.0@ == key,
        forall|k: int| 0 <= k < fs.len() ==> (#[trigger] fs[k]).0@ != key,
    ensures
        field_lookup(fs.push(entry), key) == Some(entry.1@),
        forall|other: Seq<char>| other != key ==> field_lookup(fs.push(entry), other) == field_lookup(fs, other),
    decreases fs.len(),
{
    let gs = fs.push(entry);
    if fs.len() > 0 {
        assert(gs.drop_first() =~= fs.drop_first().push(entry));
        assert forall|k: int| 0 <= k < fs.drop_first().len() implies (#[trigger] fs.drop_first()[k]).0@ != key by {
            assert(fs.drop_first()[k] == fs[k + 1]);
        }
        lemma_field_push(fs.drop_first(), entry, key);
        assert(gs[0] == fs[0]);
        assert forall|other: Seq<char>| other != key implies field_lookup(gs, other) == field_lookup(fs, other) by {
            if fs[0].0@ != other {
                assert(field_lookup(gs.drop_first(), other) == field_lookup(fs.drop_first(), other));
            }
        }
    } else {
        assert(gs.drop_first() =~= Seq::<(String, String)>::empty());
        assert(gs[0] == entry);
        assert forall|other: Seq<char>| other != key implies field_lookup(gs, other) == field_lookup(fs, other) by {
            assert(gs[0].0@ != other);
            assert(gs.drop_first().len() == 0);
            assert(field_lookup(gs.drop_first(), other) is None);
        }
    }
}

/// An empty course name shows the course code in the header.
pub proof fn empty_course_name_shows_code(
    ctx: TemplateContext,
    function: Seq<char>,
    t: TemplateType,
    installed: Option<(String, String)>,
)
    requires
        ctx.course_name@.len() == 0,
    ensures
        context_header(ctx, function, t, installed) == header_text(
            import_text(ctx.template_version@, installed),
            function,
            ctx.course_id@,
            ctx.course_id@,
            ctx.title@,
            date_param(t),
            ctx.author@,
            ctx.semester@,
        ),
{
}

/// A variant's override list replaces the sections outright: neither the
/// definition's defaults nor the variant's additional sections remain.
pub proof fn override_sections_win(def: TemplateDefinition, v: TemplateVariant)
    requires
        v.override_sections is Some,
    ensures
        effective_sections_of(def, Some(v)) == v.override_sections.unwrap()@,
{
}

} // verus!
