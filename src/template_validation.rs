//! Validation of template packages, of the whole installation and of a
//! render context. Every check reports what it finds as issues; no check
//! stops the others.

use vstd::prelude::*;
use crate::config::Config;
use crate::discovery::AvailableTemplate;
use crate::package::{
    EngineConfig, TemplateConfig, TemplateDefinition, TemplateMetadata, TemplateVariant,
};
use crate::template_engine::TemplateContext;
use crate::text::{
    blank, clone_opt, decimal, decimal_string, ends_with, has_infix, has_suffix, is_blank, owned,
    same_text, contains,
};

verus! {

/// How serious an issue is.
#[derive(Debug, Clone, Copy, PartialEq, Eq, Structural)]
pub enum ValidationSeverity {
    Error,
    Warning,
    Info,
}

/// One finding.
#[derive(Debug, Clone)]
pub struct ValidationIssue {
    pub severity: ValidationSeverity,
    pub category: String,
    pub message: String,
    pub suggestion: Option<String>,
    /// Where the finding points, as a dotted path.
    pub location: Option<String>,
}

/// The values of an issue.
pub struct IssueView {
    pub severity: ValidationSeverity,
    pub category: Seq<char>,
    pub message: Seq<char>,
    pub suggestion: Option<Seq<char>>,
    pub location: Option<Seq<char>>,
}

/// The text of an optional string.
pub open spec fn opt_text(o: Option<String>) -> Option<Seq<char>> {
    match o {
        Some(s) => Some(s@),
        None => None,
    }
}

impl View for ValidationIssue {
    type V = IssueView;

    open spec fn view(&self) -> IssueView {
        IssueView {
            severity: self.severity,
            category: self.category@,
            message: self.message@,
            suggestion: opt_text(self.suggestion),
            location: opt_text(self.location),
        }
    }
}

/// The values of a list of issues.
pub open spec fn issues_view(v: Seq<ValidationIssue>) -> Seq<IssueView> {
    v.map_values(|i: ValidationIssue| i@)
}

/// An issue with the given values.
pub open spec fn iv(
    severity: ValidationSeverity,
    category: Seq<char>,
    message: Seq<char>,
    suggestion: Option<Seq<char>>,
    location: Option<Seq<char>>,
) -> IssueView {
    IssueView { severity, category, message, suggestion, location }
}

/// The issue when the condition holds, else nothing.
pub open spec fn when(c: bool, i: IssueView) -> Seq<IssueView> {
    if c {
        seq![i]
    } else {
        Seq::empty()
    }
}

/// The same issues, each pointing at `location`.
pub open spec fn relocated(s: Seq<IssueView>, location: Seq<char>) -> Seq<IssueView> {
    s.map_values(|i: IssueView| IssueView { location: Some(location), ..i })
}

/// `prefix[i]`
pub open spec fn index_label(prefix: Seq<char>, i: nat) -> Seq<char> {
    prefix + "["@ + decimal(i) + "]"@
}

/// Whether the text parses as a semantic version, as `semver::Version::parse` decides.
pub uninterp spec fn is_semver(s: Seq<char>) -> bool;

/// Whether version `a` precedes version `b` in semantic-version order, both
/// being semantic versions.
pub uninterp spec fn semver_precedes(a: Seq<char>, b: Seq<char>) -> bool;

/// Relies on `semver::Version::parse`: whether the text is a semantic version.
#[verifier::external_body]
fn parses_as_semver(s: &str) -> (r: bool)
    ensures
        r == is_semver(s@),
{
    semver::Version::parse(s).is_ok()
}

/// Relies on the order of `semver::Version` (major, minor, patch, then
/// pre-release and build metadata): whether `a` comes before `b`.
#[verifier::external_body]
fn version_precedes(a: &str, b: &str) -> (r: bool)
    requires
        is_semver(a@),
        is_semver(b@),
    ensures
        r == semver_precedes(a@, b@),
{
    match (semver::Version::parse(a), semver::Version::parse(b)) {
        (Ok(x), Ok(y)) => x < y,
        _ => false,
    }
}

// ---- issue lists of each check ----

/// Package metadata: a missing name or version (errors), a version that is
/// not a semantic version (a warning).
pub open spec fn metadata_issues(m: TemplateMetadata) -> Seq<IssueView> {
    when(
        blank(m.name@),
        iv(
            ValidationSeverity::Error,
            "metadata"@,
            "Template package name is required"@,
            None,
            Some("metadata.name"@),
        ),
    ) + when(
        blank(m.version@),
        iv(
            ValidationSeverity::Error,
            "metadata"@,
            "Template package version is required"@,
            None,
            Some("metadata.version"@),
        ),
    ) + when(
        !is_semver(m.version@),
        iv(
            ValidationSeverity::Warning,
            "metadata"@,
            "Version '"@ + m.version@ + "' is not a valid semantic version"@,
            Some("Use format like '1.0.0'"@),
            Some("metadata.version"@),
        ),
    )
}

/// A warning for each blank course type.
pub open spec fn blank_type_issues(ts: Seq<String>) -> Seq<IssueView>
    decreases ts.len(),
{
    if ts.len() == 0 {
        Seq::empty()
    } else {
        blank_type_issues(ts.drop_last()) + when(
            blank(ts.last()@),
            iv(
                ValidationSeverity::Warning,
                "template"@,
                "Empty course type found"@,
                Some("Remove empty course types"@),
                Some("course_types"@),
            ),
        )
    }
}

/// A template definition: missing name, file or function (errors), a file
/// without the `.typ` extension and blank course types (warnings).
pub open spec fn definition_issues(t: TemplateDefinition) -> Seq<IssueView> {
    when(
        blank(t.name@),
        iv(ValidationSeverity::Error, "template"@, "Template name is required"@, None, Some("name"@)),
    ) + when(
        blank(t.file@),
        iv(
            ValidationSeverity::Error,
            "template"@,
            "Template file path is required"@,
            None,
            Some("file"@),
        ),
    ) + when(
        blank(t.function@),
        iv(
            ValidationSeverity::Error,
            "template"@,
            "Template function name is required"@,
            None,
            Some("function"@),
        ),
    ) + when(
        !has_suffix(t.file@, ".typ"@),
        iv(
            ValidationSeverity::Warning,
            "template"@,
            "Template file '"@ + t.file@ + "' should have .typ extension"@,
            Some("Use .typ extension for Typst templates"@),
            Some("file"@),
        ),
    ) + match t.course_types {
        Some(ts) => blank_type_issues(ts@),
        None => Seq::empty(),
    }
}

/// Some definition of `ts` is named `name`.
pub open spec fn defines(ts: Seq<TemplateDefinition>, name: Seq<char>) -> bool {
    exists|j: int| 0 <= j < ts.len() && (#[trigger] ts[j]).name@ == name
}

/// A variant: an unknown base template or a missing name (errors), no course
/// types (a warning).
pub open spec fn variant_issues(v: TemplateVariant, ts: Seq<TemplateDefinition>) -> Seq<IssueView> {
    when(
        !defines(ts, v.template@),
        iv(
            ValidationSeverity::Error,
            "variant"@,
            "Base template '"@ + v.template@ + "' not found"@,
            Some("Define the base template first"@),
            Some("template"@),
        ),
    ) + when(
        blank(v.name@),
        iv(ValidationSeverity::Error, "variant"@, "Variant name is required"@, None, Some("name"@)),
    ) + when(
        v.course_types@.len() == 0,
        iv(
            ValidationSeverity::Warning,
            "variant"@,
            "Variant should specify course types"@,
            Some("Add course_types to improve template selection"@),
            Some("course_types"@),
        ),
    )
}

/// A course-mapping pair: a blank pattern or type (warnings), `xxx` not at the
/// end of the pattern (a notice).
pub open spec fn pair_issues(pattern: Seq<char>, course_type: Seq<char>) -> Seq<IssueView> {
    when(
        blank(pattern),
        iv(
            ValidationSeverity::Warning,
            "course_mapping"@,
            "Empty course pattern found"@,
            Some("Remove empty patterns"@),
            None,
        ),
    ) + when(
        blank(course_type),
        iv(
            ValidationSeverity::Warning,
            "course_mapping"@,
            "Empty course type for pattern '"@ + pattern + "'"@,
            Some("Provide a valid course type"@),
            None,
        ),
    ) + when(
        has_infix(pattern, "xxx"@) && !has_suffix(pattern, "xxx"@),
        iv(
            ValidationSeverity::Info,
            "course_mapping"@,
            "Pattern '"@ + pattern + "' might be malformed"@,
            Some("Use patterns like '01xxx' for course prefixes"@),
            None,
        ),
    )
}

/// The issues of each pair of a course mapping, in order.
pub open spec fn mapping_issues(m: Seq<(String, String)>) -> Seq<IssueView>
    decreases m.len(),
{
    if m.len() == 0 {
        Seq::empty()
    } else {
        mapping_issues(m.drop_last()) + pair_issues(m.last().0@, m.last().1@)
    }
}

/// An engine section: a minimum host version that is not a semantic version,
/// a zero timeout, a zero concurrency limit (warnings).
pub open spec fn engine_issues(e: EngineConfig) -> Seq<IssueView> {
    when(
        !is_semver(e.compatibility.minimum_noter_version@),
        iv(
            ValidationSeverity::Warning,
            "engine"@,
            "Invalid minimum_noter_version: "@ + e.compatibility.minimum_noter_version@,
            Some("Use semantic versioning format"@),
            Some("compatibility.minimum_noter_version"@),
        ),
    ) + when(
        e.rendering.timeout_seconds == 0,
        iv(
            ValidationSeverity::Warning,
            "engine"@,
            "Rendering timeout is set to 0 seconds"@,
            Some("Set a reasonable timeout (e.g., 30 seconds)"@),
            Some("rendering.timeout_seconds"@),
        ),
    ) + when(
        e.rendering.max_concurrent == 0,
        iv(
            ValidationSeverity::Warning,
            "engine"@,
            "Max concurrent processing is set to 0"@,
            Some("Set at least 1 for processing capability"@),
            Some("rendering.max_concurrent"@),
        ),
    )
}

/// The issues of each definition, pointing at `templates[i]`.
pub open spec fn templates_issues(ts: Seq<TemplateDefinition>) -> Seq<IssueView>
    decreases ts.len(),
{
    if ts.len() == 0 {
        Seq::empty()
    } else {
        templates_issues(ts.drop_last()) + relocated(
            definition_issues(ts.last()),
            index_label("templates"@, (ts.len() - 1) as nat),
        )
    }
}

/// The issues of each variant, pointing at `variants[i]`.
pub open spec fn variants_issues(vs: Seq<TemplateVariant>, ts: Seq<TemplateDefinition>) -> Seq<
    IssueView,
>
    decreases vs.len(),
{
    if vs.len() == 0 {
        Seq::empty()
    } else {
        variants_issues(vs.drop_last(), ts) + relocated(
            variant_issues(vs.last(), ts),
            index_label("variants"@, (vs.len() - 1) as nat),
        )
    }
}

/// Every issue of one manifest: metadata, each template, each variant, the
/// course mapping and the engine settings, in that order.
pub open spec fn config_issues(c: TemplateConfig) -> Seq<IssueView> {
    metadata_issues(c.metadata) + templates_issues(c.templates@) + match c.variants {
        Some(vs) => variants_issues(vs@, c.templates@),
        None => Seq::empty(),
    } + match c.course_mapping {
        Some(m) => mapping_issues(m@),
        None => Seq::empty(),
    } + match c.engine {
        Some(e) => engine_issues(e),
        None => Seq::empty(),
    }
}

// ---- cross-package duplicates ----

/// Each template name with the index of its package, packages in order.
pub open spec fn name_entries(cs: Seq<TemplateConfig>) -> Seq<(Seq<char>, nat)>
    decreases cs.len(),
{
    if cs.len() == 0 {
        Seq::empty()
    } else {
        name_entries(cs.drop_last()) + cs.last().templates@.map_values(
            |t: TemplateDefinition| (t.name@, (cs.len() - 1) as nat),
        )
    }
}

/// The package index of the first entry named `name`.
pub open spec fn first_owner(e: Seq<(Seq<char>, nat)>, name: Seq<char>) -> Option<nat>
    decreases e.len(),
{
    if e.len() == 0 {
        None
    } else if e[0].0 == name {
        Some(e[0].1)
    } else {
        first_owner(e.drop_first(), name)
    }
}

/// The warning for a template name first defined in package `first` and again in `again`.
pub open spec fn duplicate_issue(name: Seq<char>, first: nat, again: nat) -> IssueView {
    iv(
        ValidationSeverity::Warning,
        "cross_config"@,
        "Template '"@ + name + "' is defined in multiple configurations (config "@ + decimal(first)
            + " and "@ + decimal(again) + ")"@,
        Some("Consider renaming templates to avoid conflicts"@),
        Some("template."@ + name),
    )
}

/// A warning for each template whose name an earlier one already had.
pub open spec fn duplicate_issues(e: Seq<(Seq<char>, nat)>) -> Seq<IssueView>
    decreases e.len(),
{
    if e.len() == 0 {
        Seq::empty()
    } else {
        duplicate_issues(e.drop_last()) + match first_owner(e.drop_last(), e.last().0) {
            Some(k) => seq![duplicate_issue(e.last().0, k, e.last().1)],
            None => Seq::empty(),
        }
    }
}

/// The duplicate-name warnings of the loaded packages.
pub open spec fn cross_issues(cs: Seq<TemplateConfig>) -> Seq<IssueView> {
    duplicate_issues(name_entries(cs))
}

// ---- installation ----

/// A missing template directory (a warning) and package directory (a notice).
pub open spec fn file_system_issues(
    templates_dir: Seq<char>,
    packages_dir: Seq<char>,
    templates_dir_exists: bool,
    packages_dir_exists: bool,
) -> Seq<IssueView> {
    when(
        !templates_dir_exists,
        iv(
            ValidationSeverity::Warning,
            "file_system"@,
            "Template directory does not exist: "@ + templates_dir,
            Some("Run setup or create the directory manually"@),
            Some("paths.templates_dir"@),
        ),
    ) + when(
        !packages_dir_exists,
        iv(
            ValidationSeverity::Info,
            "file_system"@,
            "Typst packages directory does not exist: "@ + packages_dir,
            Some("Templates will be downloaded when needed"@),
            Some("paths.typst_packages_dir"@),
        ),
    )
}

/// An error when a package needs a newer host than `current`.
pub open spec fn compat_issue(c: TemplateConfig, current: Seq<char>) -> Seq<IssueView> {
    match c.engine {
        Some(e) => {
            let min = e.compatibility.minimum_noter_version@;
            when(
                is_semver(current) && is_semver(min) && semver_precedes(current, min),
                iv(
                    ValidationSeverity::Error,
                    "compatibility"@,
                    "Template '"@ + c.metadata.name@ + "' requires noter version "@ + min
                        + " but current is "@ + current,
                    Some("Update noter to the latest version"@),
                    None,
                ),
            )
        },
        None => Seq::empty(),
    }
}

/// An error for each package that needs a newer host than `current`.
pub open spec fn compat_issues(cs: Seq<TemplateConfig>, current: Seq<char>) -> Seq<IssueView>
    decreases cs.len(),
{
    if cs.len() == 0 {
        Seq::empty()
    } else {
        compat_issues(cs.drop_last(), current) + compat_issue(cs.last(), current)
    }
}

/// The issues of every package, each pointing at its package.
pub open spec fn all_config_issues(cs: Seq<TemplateConfig>) -> Seq<IssueView>
    decreases cs.len(),
{
    if cs.len() == 0 {
        Seq::empty()
    } else {
        all_config_issues(cs.drop_last()) + relocated(
            config_issues(cs.last()),
            index_label("template_config"@, (cs.len() - 1) as nat),
        )
    }
}

/// An error for each manifest that could not be loaded, in order.
pub open spec fn load_failure_issues(failures: Seq<String>) -> Seq<IssueView>
    decreases failures.len(),
{
    if failures.len() == 0 {
        Seq::empty()
    } else {
        load_failure_issues(failures.drop_last()).push(load_failure_issue(failures.last()@))
    }
}

/// The error for a manifest that could not be loaded.
pub open spec fn load_failure_issue(error: Seq<char>) -> IssueView {
    iv(
        ValidationSeverity::Error,
        "configuration"@,
        "Failed to load template configurations: "@ + error,
        Some("Check template directory and configuration files"@),
        None,
    )
}

// ---- catalog entries ----

/// `n` warnings about variants of a template that does not support them.
pub open spec fn unsupported_variant_issues(n: nat, name: Seq<char>) -> Seq<IssueView>
    decreases n,
{
    if n == 0 {
        Seq::empty()
    } else {
        unsupported_variant_issues((n - 1) as nat, name).push(
            iv(
                ValidationSeverity::Warning,
                "configuration"@,
                "Template '"@ + name + "' has variants but doesn't support them"@,
                Some("Set supports_variants to true"@),
                Some("template."@ + name),
            ),
        )
    }
}

/// The issues of a catalog entry whose file does or does not exist: an
/// inaccessible file, a missing file, and one warning per variant of a
/// template that does not support variants.
pub open spec fn available_issues(t: AvailableTemplate, file_exists: bool) -> Seq<IssueView> {
    when(
        !t.is_accessible,
        iv(
            ValidationSeverity::Error,
            "accessibility"@,
            "Template file not accessible: "@ + t.file_path@,
            Some("Check file permissions and path"@),
            Some(t.file_path@),
        ),
    ) + when(
        !file_exists,
        iv(
            ValidationSeverity::Error,
            "file_system"@,
            "Template file does not exist: "@ + t.file_path@,
            Some("Run 'noter template update' to download templates"@),
            Some(t.file_path@),
        ),
    ) + if t.definition.supports_variants {
        Seq::empty()
    } else {
        unsupported_variant_issues(t.variants@.len(), t.definition.name@)
    }
}

// ---- context ----

/// No sections at all (a notice), an empty override list (a warning).
pub open spec fn section_issues(
    def: TemplateDefinition,
    variant: Option<TemplateVariant>,
    ctx: TemplateContext,
) -> Seq<IssueView> {
    when(
        def.default_sections@.len() == 0 && ctx.sections@.len() == 0,
        iv(
            ValidationSeverity::Info,
            "sections"@,
            "Template '"@ + def.name@ + "' has no default sections"@,
            Some("Consider providing custom sections"@),
            Some("context.sections"@),
        ),
    ) + match variant {
        Some(v) => match v.override_sections {
            Some(o) => when(
                o@.len() == 0,
                iv(
                    ValidationSeverity::Warning,
                    "sections"@,
                    "Variant '"@ + v.name@ + "' has empty override_sections"@,
                    Some("Remove override_sections or provide sections"@),
                    Some("variant.override_sections"@),
                ),
            ),
            None => Seq::empty(),
        },
        None => Seq::empty(),
    }
}

/// A render context: blank author, course code or course name (warnings),
/// then the section issues.
pub open spec fn context_issues(
    ctx: TemplateContext,
    def: TemplateDefinition,
    variant: Option<TemplateVariant>,
) -> Seq<IssueView> {
    when(
        blank(ctx.author@),
        iv(
            ValidationSeverity::Warning,
            "context"@,
            "Author name is empty"@,
            Some("Set author name in configuration"@),
            Some("context.author"@),
        ),
    ) + when(
        blank(ctx.course_id@),
        iv(
            ValidationSeverity::Warning,
            "context"@,
            "Course ID is required"@,
            None,
            Some("context.course_id"@),
        ),
    ) + when(
        blank(ctx.course_name@),
        iv(
            ValidationSeverity::Warning,
            "context"@,
            "Course name not found for "@ + ctx.course_id@,
            Some("Add course to configuration"@),
            Some("context.course_name"@),
        ),
    ) + section_issues(def, variant, ctx)
}

// ---- report ----

/// The number of issues of a severity.
pub open spec fn count_severity(s: Seq<IssueView>, severity: ValidationSeverity) -> nat
    decreases s.len(),
{
    if s.len() == 0 {
        0
    } else {
        count_severity(s.drop_last(), severity) + if s.last().severity == severity {
            1nat
        } else {
            0nat
        }
    }
}

/// The mark of a severity in a report.
pub open spec fn icon(severity: ValidationSeverity) -> Seq<char> {
    match severity {
        ValidationSeverity::Error => "❌"@,
        ValidationSeverity::Warning => "⚠️"@,
        ValidationSeverity::Info => "ℹ️"@,
    }
}

/// One issue in a report: icon, category and message, then the location and
/// the suggestion on lines of their own when present, then a blank line.
pub open spec fn issue_block(i: IssueView) -> Seq<char> {
    icon(i.severity) + " ["@ + i.category + "] "@ + i.message + "\n"@ + match i.location {
        Some(l) => "   Location: "@ + l + "\n"@,
        None => Seq::empty(),
    } + match i.suggestion {
        Some(t) => "   Suggestion: "@ + t + "\n"@,
        None => Seq::empty(),
    } + "\n"@
}

/// The report text of each issue, in order.
pub open spec fn issue_blocks(s: Seq<IssueView>) -> Seq<char>
    decreases s.len(),
{
    if s.len() == 0 {
        Seq::empty()
    } else {
        issue_blocks(s.drop_last()) + issue_block(s.last())
    }
}

/// A report: the counts by severity, then each issue; or a single line when
/// there is none.
pub open spec fn report_text(s: Seq<IssueView>) -> Seq<char> {
    if s.len() == 0 {
        "No validation issues found"@
    } else {
        "Validation Report: "@ + decimal(count_severity(s, ValidationSeverity::Error)) + " errors, "@
            + decimal(count_severity(s, ValidationSeverity::Warning)) + " warnings, "@ + decimal(
            count_severity(s, ValidationSeverity::Info),
        ) + " info\n\n"@ + issue_blocks(s)
    }
}

// ---- laws ----

proof fn lemma_first_owner_absent(e: Seq<(Seq<char>, nat)>, name: Seq<char>)
    requires
        forall|i: int| 0 <= i < e.len() ==> (#[trigger] e[i]).0 != name,
    ensures
        first_owner(e, name) is None,
    decreases e.len(),
{
    if e.len() > 0 {
        assert forall|i: int| 0 <= i < e.drop_first().len() implies (#[trigger] e.drop_first()[i]).0 != name by {
            assert(e.drop_first()[i] == e[i + 1]);
        }
        lemma_first_owner_absent(e.drop_first(), name);
    }
}

proof fn lemma_first_owner_present(e: Seq<(Seq<char>, nat)>, name: Seq<char>, i: int)
    requires
        0 <= i < e.len(),
        e[i].0 == name,
    ensures
        first_owner(e, name) is Some,
    decreases e.len(),
{
    if e[0].0 != name {
        assert(e.drop_first()[i - 1] == e[i]);
        lemma_first_owner_present(e.drop_first(), name, i - 1);
    }
}

proof fn lemma_distinct_no_duplicates(e: Seq<(Seq<char>, nat)>)
    requires
        forall|p: int, q: int| 0 <= p < q < e.len() ==> (#[trigger] e[p]).0 != (#[trigger] e[q]).0,
    ensures
        duplicate_issues(e).len() == 0,
    decreases e.len(),
{
    if e.len() > 0 {
        let d = e.drop_last();
        assert forall|p: int, q: int| 0 <= p < q < d.len() implies (#[trigger] d[p]).0 != (#[trigger] d[q]).0 by {
            assert(d[p] == e[p] && d[q] == e[q]);
        }
        lemma_distinct_no_duplicates(d);
        assert forall|i: int| 0 <= i < d.len() implies (#[trigger] d[i]).0 != e.last().0 by {
            assert(d[i] == e[i]);
        }
        lemma_first_owner_absent(d, e.last().0);
    }
}

proof fn lemma_duplicates_grow(e: Seq<(Seq<char>, nat)>, n: int)
    requires
        0 <= n <= e.len(),
    ensures
        duplicate_issues(e.subrange(0, n)).len() <= duplicate_issues(e).len(),
    decreases e.len() - n,
{
    if n < e.len() {
        let d = e.drop_last();
        assert(d.subrange(0, n) =~= e.subrange(0, n));
        lemma_duplicates_grow(d, n);
    } else {
        assert(e.subrange(0, n) =~= e);
    }
}

/// When no two templates of the loaded packages share a name, there is no
/// duplicate-name warning.
pub proof fn unique_names_give_no_duplicate_warning(cs: Seq<TemplateConfig>)
    requires
        forall|p: int, q: int|
            0 <= p < q < name_entries(cs).len() ==> (#[trigger] name_entries(cs)[p]).0 != (
            #[trigger] name_entries(cs)[q]).0,
    ensures
        cross_issues(cs).len() == 0,
{
    lemma_distinct_no_duplicates(name_entries(cs));
}

/// When two templates share a name, at least one duplicate-name warning is reported.
pub proof fn repeated_name_is_flagged(cs: Seq<TemplateConfig>, p: int, q: int)
    requires
        0 <= p < q < name_entries(cs).len(),
        name_entries(cs)[p].0 == name_entries(cs)[q].0,
    ensures
        cross_issues(cs).len() > 0,
{
    let e = name_entries(cs);
    let t = e.subrange(0, q + 1);
    assert(t.drop_last() =~= e.subrange(0, q));
    assert(t.drop_last()[p] == e[p]);
    lemma_first_owner_present(t.drop_last(), t.last().0, p);
    lemma_duplicates_grow(e, q + 1);
}

proof fn lemma_unnamed_template_reported(ts: Seq<TemplateDefinition>, j: int)
    requires
        0 <= j < ts.len(),
        blank(ts[j].name@),
    ensures
        templates_issues(ts).len() >= 1,
    decreases ts.len(),
{
    if j == ts.len() - 1 {
        assert(definition_issues(ts.last()).len() >= 1);
    } else {
        assert(ts.drop_last()[j] == ts[j]);
        lemma_unnamed_template_reported(ts.drop_last(), j);
    }
}

proof fn lemma_untyped_variant_reported(vs: Seq<TemplateVariant>, ts: Seq<TemplateDefinition>, k: int)
    requires
        0 <= k < vs.len(),
        vs[k].course_types@.len() == 0,
    ensures
        variants_issues(vs, ts).len() >= 1,
    decreases vs.len(),
{
    if k == vs.len() - 1 {
        assert(variant_issues(vs.last(), ts).len() >= 1);
    } else {
        assert(vs.drop_last()[k] == vs[k]);
        lemma_untyped_variant_reported(vs.drop_last(), ts, k);
    }
}

/// Validation collects every defect: a manifest whose version is not a
/// semantic version, with an unnamed template and a variant without course
/// types, gets an issue for each of the three in one pass.
pub proof fn independent_defects_all_reported(c: TemplateConfig, j: int, k: int)
    requires
        !is_semver(c.metadata.version@),
        0 <= j < c.templates@.len(),
        blank(c.templates@[j].name@),
        c.variants is Some,
        0 <= k < c.variants.unwrap()@.len(),
        c.variants.unwrap()@[k].course_types@.len() == 0,
    ensures
        config_issues(c).len() >= 3,
        metadata_issues(c.metadata).len() >= 1,
        templates_issues(c.templates@).len() >= 1,
        variants_issues(c.variants.unwrap()@, c.templates@).len() >= 1,
{
    lemma_unnamed_template_reported(c.templates@, j);
    lemma_untyped_variant_reported(c.variants.unwrap()@, c.templates@, k);
}

// ---- exec helpers ----

fn make(
    severity: ValidationSeverity,
    category: &str,
    message: String,
    suggestion: Option<String>,
    location: Option<String>,
) -> (r: ValidationIssue)
    ensures
        r@ == iv(severity, category@, message@, opt_text(suggestion), opt_text(location)),
{
    ValidationIssue { severity, category: owned(category), message, suggestion, location }
}

fn some(s: &str) -> (r: Option<String>)
    ensures
        opt_text(r) == Some(s@),
{
    Some(owned(s))
}

fn push_issue(v: &mut Vec<ValidationIssue>, i: ValidationIssue)
    ensures
        issues_view(final(v)@) == issues_view(old(v)@).push(i@),
{
    v.push(i);
    assert(issues_view(v@) =~= issues_view(old(v)@).push(i@));
}

fn push_when(v: &mut Vec<ValidationIssue>, c: bool, i: ValidationIssue)
    ensures
        issues_view(final(v)@) == issues_view(old(v)@) + when(c, i@),
{
    if c {
        push_issue(v, i);
        assert(issues_view(v@) =~= issues_view(old(v)@) + when(c, i@));
    } else {
        assert(issues_view(v@) =~= issues_view(old(v)@) + when(c, i@));
    }
}

fn append_issues(v: &mut Vec<ValidationIssue>, w: Vec<ValidationIssue>)
    ensures
        issues_view(final(v)@) == issues_view(old(v)@) + issues_view(w@),
{
    let ghost added = w@;
    let mut w = w;
    v.append(&mut w);
    assert(issues_view(v@) =~= issues_view(old(v)@) + issues_view(added));
}

fn relocate(v: Vec<ValidationIssue>, location: &str) -> (r: Vec<ValidationIssue>)
    ensures
        issues_view(r@) == relocated(issues_view(v@), location@),
{
    let mut r: Vec<ValidationIssue> = Vec::new();
    let mut v = v;
    let ghost orig = v@;
    let mut i: usize = 0;
    while i < v.len()
        invariant
            v@ == orig,
            i <= v@.len(),
            issues_view(r@) == relocated(issues_view(orig.subrange(0, i as int)), location@),
        decreases v@.len() - i,
    {
        let issue = &v[i];
        let moved = ValidationIssue {
            severity: issue.severity,
            category: issue.category.clone(),
            message: issue.message.clone(),
            suggestion: clone_opt(&issue.suggestion),
            location: some(location),
        };
        push_issue(&mut r, moved);
        assert(issues_view(orig.subrange(0, i + 1)) =~= issues_view(orig.subrange(0, i as int)).push(
            orig[i as int]@,
        ));
        assert(issues_view(r@) =~= relocated(issues_view(orig.subrange(0, i + 1)), location@));
        i = i + 1;
    }
    assert(orig.subrange(0, i as int) =~= orig);
    r
}

fn label(prefix: &str, i: usize) -> (r: String)
    ensures
        r@ == index_label(prefix@, i as nat),
{
    owned(prefix).concat("[").concat(decimal_string(i).as_str()).concat("]")
}

/// Validation of packages, the installation and render contexts.
pub struct TemplateValidator;

impl TemplateValidator {
    /// The issues of a package's metadata.
    pub fn validate_metadata(metadata: &TemplateMetadata) -> (r: Vec<ValidationIssue>)
        ensures
            issues_view(r@) == metadata_issues(*metadata),
    {
        let mut issues: Vec<ValidationIssue> = Vec::new();
        push_when(
            &mut issues,
            is_blank(metadata.name.as_str()),
            make(
                ValidationSeverity::Error,
                "metadata",
                owned("Template package name is required"),
                None,
                some("metadata.name"),
            ),
        );
        push_when(
            &mut issues,
            is_blank(metadata.version.as_str()),
            make(
                ValidationSeverity::Error,
                "metadata",
                owned("Template package version is required"),
                None,
                some("metadata.version"),
            ),
        );
        push_when(
            &mut issues,
            !parses_as_semver(metadata.version.as_str()),
            make(
                ValidationSeverity::Warning,
                "metadata",
                owned("Version '").concat(metadata.version.as_str()).concat(
                    "' is not a valid semantic version",
                ),
                some("Use format like '1.0.0'"),
                some("metadata.version"),
            ),
        );
        assert(issues_view(issues@) =~= metadata_issues(*metadata));
        issues
    }

    /// The issues of one template definition.
    pub fn validate_template_definition(template: &TemplateDefinition) -> (r: Vec<ValidationIssue>)
        ensures
            issues_view(r@) == definition_issues(*template),
    {
        let mut issues: Vec<ValidationIssue> = Vec::new();
        push_when(
            &mut issues,
            is_blank(template.name.as_str()),
            make(ValidationSeverity::Error, "template", owned("Template name is required"), None, some("name")),
        );
        push_when(
            &mut issues,
            is_blank(template.file.as_str()),
            make(
                ValidationSeverity::Error,
                "template",
                owned("Template file path is required"),
                None,
                some("file"),
            ),
        );
        push_when(
            &mut issues,
            is_blank(template.function.as_str()),
            make(
                ValidationSeverity::Error,
                "template",
                owned("Template function name is required"),
                None,
                some("function"),
            ),
        );
        push_when(
            &mut issues,
            !ends_with(template.file.as_str(), ".typ"),
            make(
                ValidationSeverity::Warning,
                "template",
                owned("Template file '").concat(template.file.as_str()).concat(
                    "' should have .typ extension",
                ),
                some("Use .typ extension for Typst templates"),
                some("file"),
            ),
        );
        let ghost head = issues_view(issues@);
        if let Some(types) = &template.course_types {
            let mut i: usize = 0;
            while i < types.len()
                invariant
                    i <= types@.len(),
                    issues_view(issues@) == head + blank_type_issues(types@.subrange(0, i as int)),
                decreases types@.len() - i,
            {
                assert(types@.subrange(0, i + 1).drop_last() =~= types@.subrange(0, i as int));
                push_when(
                    &mut issues,
                    is_blank(types[i].as_str()),
                    make(
                        ValidationSeverity::Warning,
                        "template",
                        owned("Empty course type found"),
                        some("Remove empty course types"),
                        some("course_types"),
                    ),
                );
                assert(issues_view(issues@) =~= head + blank_type_issues(types@.subrange(0, i + 1)));
                i = i + 1;
            }
            assert(types@.subrange(0, i as int) =~= types@);
        }
        assert(issues_view(issues@) =~= definition_issues(*template));
        issues
    }

    /// The issues of one variant, given the definitions of its package.
    pub fn validate_template_variant(variant: &TemplateVariant, templates: &[TemplateDefinition]) -> (r:
        Vec<ValidationIssue>)
        ensures
            issues_view(r@) == variant_issues(*variant, templates@),
    {
        let mut issues: Vec<ValidationIssue> = Vec::new();
        let mut found = false;
        let mut j: usize = 0;
        while j < templates.len()
            invariant
                j <= templates@.len(),
                found == exists|k: int| 0 <= k < j && (#[trigger] templates@[k]).name@ == variant.template@,
            decreases templates@.len() - j,
        {
            if same_text(templates[j].name.as_str(), variant.template.as_str()) {
                found = true;
            }
            j = j + 1;
        }
        push_when(
            &mut issues,
            !found,
            make(
                ValidationSeverity::Error,
                "variant",
                owned("Base template '").concat(variant.template.as_str()).concat("' not found"),
                some("Define the base template first"),
                some("template"),
            ),
        );
        push_when(
            &mut issues,
            is_blank(variant.name.as_str()),
            make(ValidationSeverity::Error, "variant", owned("Variant name is required"), None, some("name")),
        );
        push_when(
            &mut issues,
            variant.course_types.len() == 0,
            make(
                ValidationSeverity::Warning,
                "variant",
                owned("Variant should specify course types"),
                some("Add course_types to improve template selection"),
                some("course_types"),
            ),
        );
        assert(issues_view(issues@) =~= variant_issues(*variant, templates@));
        issues
    }

    /// The issues of a course mapping, pair by pair.
    pub fn validate_course_mapping(mapping: &Vec<(String, String)>) -> (r: Vec<ValidationIssue>)
        ensures
            issues_view(r@) == mapping_issues(mapping@),
    {
        let mut issues: Vec<ValidationIssue> = Vec::new();
        let mut i: usize = 0;
        while i < mapping.len()
            invariant
                i <= mapping@.len(),
                issues_view(issues@) == mapping_issues(mapping@.subrange(0, i as int)),
            decreases mapping@.len() - i,
        {
            assert(mapping@.subrange(0, i + 1).drop_last() =~= mapping@.subrange(0, i as int));
            let ghost before = issues_view(issues@);
            let pattern = mapping[i].0.as_str();
            let course_type = mapping[i].1.as_str();
            push_when(
                &mut issues,
                is_blank(pattern),
                make(
                    ValidationSeverity::Warning,
                    "course_mapping",
                    owned("Empty course pattern found"),
                    some("Remove empty patterns"),
                    None,
                ),
            );
            push_when(
                &mut issues,
                is_blank(course_type),
                make(
                    ValidationSeverity::Warning,
                    "course_mapping",
                    owned("Empty course type for pattern '").concat(pattern).concat("'"),
                    some("Provide a valid course type"),
                    None,
                ),
            );
            push_when(
                &mut issues,
                contains(pattern, "xxx") && !ends_with(pattern, "xxx"),
                make(
                    ValidationSeverity::Info,
                    "course_mapping",
                    owned("Pattern '").concat(pattern).concat("' might be malformed"),
                    some("Use patterns like '01xxx' for course prefixes"),
                    None,
                ),
            );
            assert(issues_view(issues@) =~= before + pair_issues(pattern@, course_type@));
            i = i + 1;
        }
        assert(mapping@.subrange(0, i as int) =~= mapping@);
        issues
    }

    /// The issues of an engine section.
    pub fn validate_engine_config(engine: &EngineConfig) -> (r: Vec<ValidationIssue>)
        ensures
            issues_view(r@) == engine_issues(*engine),
    {
        let mut issues: Vec<ValidationIssue> = Vec::new();
        let min = engine.compatibility.minimum_noter_version.as_str();
        push_when(
            &mut issues,
            !parses_as_semver(min),
            make(
                ValidationSeverity::Warning,
                "engine",
                owned("Invalid minimum_noter_version: ").concat(min),
                some("Use semantic versioning format"),
                some("compatibility.minimum_noter_version"),
            ),
        );
        push_when(
            &mut issues,
            engine.rendering.timeout_seconds == 0,
            make(
                ValidationSeverity::Warning,
                "engine",
                owned("Rendering timeout is set to 0 seconds"),
                some("Set a reasonable timeout (e.g., 30 seconds)"),
                some("rendering.timeout_seconds"),
            ),
        );
        push_when(
            &mut issues,
            engine.rendering.max_concurrent == 0,
            make(
                ValidationSeverity::Warning,
                "engine",
                owned("Max concurrent processing is set to 0"),
                some("Set at least 1 for processing capability"),
                some("rendering.max_concurrent"),
            ),
        );
        assert(issues_view(issues@) =~= engine_issues(*engine));
        issues
    }

    /// Every issue of one package (see `config_issues`): templates point at
    /// `templates[i]`, variants at `variants[i]`.
    pub fn validate_template_config(config: &TemplateConfig) -> (r: Vec<ValidationIssue>)
        ensures
            issues_view(r@) == config_issues(*config),
    {
        let mut issues = Self::validate_metadata(&config.metadata);
        let ghost part1 = issues_view(issues@);
        let mut i: usize = 0;
        while i < config.templates.len()
            invariant
                i <= config.templates@.len(),
                issues_view(issues@) == part1 + templates_issues(config.templates@.subrange(0, i as int)),
            decreases config.templates@.len() - i,
        {
            assert(config.templates@.subrange(0, i + 1).drop_last() =~= config.templates@.subrange(0, i as int));
            let found = Self::validate_template_definition(&config.templates[i]);
            let moved = relocate(found, label("templates", i).as_str());
            append_issues(&mut issues, moved);
            assert(issues_view(issues@) =~= part1 + templates_issues(config.templates@.subrange(0, i + 1)));
            i = i + 1;
        }
        assert(config.templates@.subrange(0, i as int) =~= config.templates@);
        let ghost part2 = issues_view(issues@);
        if let Some(variants) = &config.variants {
            let mut i: usize = 0;
            while i < variants.len()
                invariant
                    i <= variants@.len(),
                    issues_view(issues@) == part2 + variants_issues(variants@.subrange(0, i as int), config.templates@),
                decreases variants@.len() - i,
            {
                assert(variants@.subrange(0, i + 1).drop_last() =~= variants@.subrange(0, i as int));
                let found = Self::validate_template_variant(&variants[i], config.templates.as_slice());
                let moved = relocate(found, label("variants", i).as_str());
                append_issues(&mut issues, moved);
                assert(issues_view(issues@) =~= part2 + variants_issues(variants@.subrange(0, i + 1), config.templates@));
                i = i + 1;
            }
            assert(variants@.subrange(0, i as int) =~= variants@);
        }
        if let Some(mapping) = &config.course_mapping {
            append_issues(&mut issues, Self::validate_course_mapping(mapping));
        }
        if let Some(engine) = &config.engine {
            append_issues(&mut issues, Self::validate_engine_config(engine));
        }
        assert(issues_view(issues@) =~= config_issues(*config));
        issues
    }

    /// A warning for each template whose name an earlier template, in this
    /// package or an earlier one, already has.
    pub fn validate_cross_configurations(configs: &[TemplateConfig]) -> (r: Vec<ValidationIssue>)
        ensures
            issues_view(r@) == cross_issues(configs@),
    {
        let entries = Self::name_entries(configs);
        let ghost e = name_entries(configs@);
        let mut issues: Vec<ValidationIssue> = Vec::new();
        let mut p: usize = 0;
        while p < entries.len()
            invariant
                p <= entries@.len(),
                entries@.len() == e.len(),
                e == name_entries(configs@),
                forall|i: int| 0 <= i < e.len() ==> (#[trigger] entries@[i]).0@ == e[i].0 && entries@[i].1 as nat == e[i].1,
                issues_view(issues@) == duplicate_issues(e.subrange(0, p as int)),
            decreases entries@.len() - p,
        {
            let ghost prefix = e.subrange(0, p as int);
            assert(e.subrange(0, p + 1).drop_last() =~= prefix);
            assert(e.subrange(0, p + 1).last() == e[p as int]);
            let name = entries[p].0.as_str();
            let mut owner: Option<usize> = None;
            assert(prefix.subrange(0, p as int) =~= prefix);
            let mut q: usize = 0;
            while q < p
                invariant
                    q <= p < entries@.len(),
                    entries@.len() == e.len(),
                    prefix == e.subrange(0, p as int),
                    name@ == e[p as int].0,
                    forall|i: int| 0 <= i < e.len() ==> (#[trigger] entries@[i]).0@ == e[i].0 && entries@[i].1 as nat == e[i].1,
                    owner is None ==> first_owner(prefix, name@) == first_owner(prefix.subrange(q as int, p as int), name@),
                    owner matches Some(k) ==> first_owner(prefix, name@) == Some(k as nat),
                decreases p - q,
            {
                if owner.is_none() {
                    let ghost rest = prefix.subrange(q as int, p as int);
                    assert(rest.drop_first() =~= prefix.subrange(q + 1, p as int));
                    assert(rest[0] == e[q as int]);
                    if same_text(entries[q].0.as_str(), name) {
                        owner = Some(entries[q].1);
                    }
                }
                q = q + 1;
            }
            if owner.is_none() {
                assert(prefix.subrange(p as int, p as int) =~= Seq::<(Seq<char>, nat)>::empty());
            }
            match owner {
                Some(k) => {
                    let again = entries[p].1;
                    let message = owned("Template '").concat(name).concat(
                        "' is defined in multiple configurations (config ",
                    ).concat(decimal_string(k).as_str()).concat(" and ").concat(
                        decimal_string(again).as_str(),
                    ).concat(")");
                    let issue = make(
                        ValidationSeverity::Warning,
                        "cross_config",
                        message,
                        some("Consider renaming templates to avoid conflicts"),
                        Some(owned("template.").concat(name)),
                    );
                    push_issue(&mut issues, issue);
                },
                None => {},
            }
            assert(issues_view(issues@) =~= duplicate_issues(e.subrange(0, p + 1)));
            p = p + 1;
        }
        assert(e.subrange(0, p as int) =~= e);
        issues
    }

    fn name_entries(configs: &[TemplateConfig]) -> (r: Vec<(String, usize)>)
        ensures
            r@.len() == name_entries(configs@).len(),
            forall|i: int|
                0 <= i < r@.len() ==> (#[trigger] r@[i]).0@ == name_entries(configs@)[i].0 && r@[i].1 as nat
                    == name_entries(configs@)[i].1,
    {
        let mut r: Vec<(String, usize)> = Vec::new();
        let mut k: usize = 0;
        while k < configs.len()
            invariant
                k <= configs@.len(),
                r@.len() == name_entries(configs@.subrange(0, k as int)).len(),
                forall|i: int|
                    0 <= i < r@.len() ==> (#[trigger] r@[i]).0@ == name_entries(configs@.subrange(0, k as int))[i].0
                        && r@[i].1 as nat == name_entries(configs@.subrange(0, k as int))[i].1,
            decreases configs@.len() - k,
        {
            let ghost before = name_entries(configs@.subrange(0, k as int));
            let ts = &configs[k].templates;
            let ghost own = ts@.map_values(|t: TemplateDefinition| (t.name@, k as nat));
            assert(configs@.subrange(0, k + 1).drop_last() =~= configs@.subrange(0, k as int));
            assert(configs@.subrange(0, k + 1).last() == configs@[k as int]);
            let mut j: usize = 0;
            while j < ts.len()
                invariant
                    k < configs@.len(),
                    j <= ts@.len(),
                    own == ts@.map_values(|t: TemplateDefinition| (t.name@, k as nat)),
                    r@.len() == before.len() + j,
                    forall|i: int| 0 <= i < before.len() ==> (#[trigger] r@[i]).0@ == before[i].0 && r@[i].1 as nat == before[i].1,
                    forall|i: int| 0 <= i < j ==> (#[trigger] r@[before.len() + i]).0@ == own[i].0 && r@[before.len() + i].1 as nat == own[i].1,
                decreases ts@.len() - j,
            {
                r.push((ts[j].name.clone(), k));
                j = j + 1;
            }
            let ghost after = name_entries(configs@.subrange(0, k + 1));
            assert(after =~= before + own);
            assert forall|i: int| 0 <= i < r@.len() implies (#[trigger] r@[i]).0@ == after[i].0 && r@[i].1 as nat == after[i].1 by {
                if i >= before.len() {
                    let t = i - before.len();
                    assert(r@[before.len() + t] == r@[i]);
                }
            }
            k = k + 1;
        }
        assert(configs@.subrange(0, k as int) =~= configs@);
        r
    }

    /// Missing directories: the template directory (a warning) and the
    /// package directory (a notice).
    pub fn validate_file_system(config: &Config, templates_dir_exists: bool, packages_dir_exists: bool) -> (r:
        Vec<ValidationIssue>)
        ensures
            issues_view(r@) == file_system_issues(
                config.paths.templates_dir@,
                config.paths.typst_packages_dir@,
                templates_dir_exists,
                packages_dir_exists,
            ),
    {
        let mut issues: Vec<ValidationIssue> = Vec::new();
        push_when(
            &mut issues,
            !templates_dir_exists,
            make(
                ValidationSeverity::Warning,
                "file_system",
                owned("Template directory does not exist: ").concat(config.paths.templates_dir.as_str()),
                some("Run setup or create the directory manually"),
                some("paths.templates_dir"),
            ),
        );
        push_when(
            &mut issues,
            !packages_dir_exists,
            make(
                ValidationSeverity::Info,
                "file_system",
                owned("Typst packages directory does not exist: ").concat(
                    config.paths.typst_packages_dir.as_str(),
                ),
                some("Templates will be downloaded when needed"),
                some("paths.typst_packages_dir"),
            ),
        );
        assert(issues_view(issues@) =~= file_system_issues(
            config.paths.templates_dir@,
            config.paths.typst_packages_dir@,
            templates_dir_exists,
            packages_dir_exists,
        ));
        issues
    }

    /// An error for each package whose minimum host version is above
    /// `current_version` (both being semantic versions).
    pub fn validate_engine_compatibility(configs: &[TemplateConfig], current_version: &str) -> (r: Vec<
        ValidationIssue,
    >)
        ensures
            issues_view(r@) == compat_issues(configs@, current_version@),
    {
        let mut issues: Vec<ValidationIssue> = Vec::new();
        let current_ok = parses_as_semver(current_version);
        let mut k: usize = 0;
        while k < configs.len()
            invariant
                k <= configs@.len(),
                current_ok == is_semver(current_version@),
                issues_view(issues@) == compat_issues(configs@.subrange(0, k as int), current_version@),
            decreases configs@.len() - k,
        {
            assert(configs@.subrange(0, k + 1).drop_last() =~= configs@.subrange(0, k as int));
            assert(configs@.subrange(0, k + 1).last() == configs@[k as int]);
            let config = &configs[k];
            if let Some(engine) = &config.engine {
                let min = engine.compatibility.minimum_noter_version.as_str();
                let newer_needed = current_ok && parses_as_semver(min) && version_precedes(current_version, min);
                push_when(
                    &mut issues,
                    newer_needed,
                    make(
                        ValidationSeverity::Error,
                        "compatibility",
                        owned("Template '").concat(config.metadata.name.as_str()).concat(
                            "' requires noter version ",
                        ).concat(min).concat(" but current is ").concat(current_version),
                        some("Update noter to the latest version"),
                        None,
                    ),
                );
            } else {
                assert(issues_view(issues@) =~= issues_view(issues@) + Seq::<IssueView>::empty());
            }
            assert(issues_view(issues@) =~= compat_issues(configs@.subrange(0, k + 1), current_version@));
            k = k + 1;
        }
        assert(configs@.subrange(0, k as int) =~= configs@);
        issues
    }

    /// Every issue of the installation: an error for each manifest that
    /// could not be loaded (the others are still checked); the issues of each
    /// loaded package (each pointing at `template_config[i]`) and the
    /// duplicate names; then missing directories; then packages that need a
    /// newer host.
    pub fn validate_system(
        config: &Config,
        loaded: &Vec<TemplateConfig>,
        load_failures: &Vec<String>,
        templates_dir_exists: bool,
        packages_dir_exists: bool,
        current_version: &str,
    ) -> (r: Vec<ValidationIssue>)
        ensures
            issues_view(r@) == load_failure_issues(load_failures@) + all_config_issues(loaded@)
                + cross_issues(loaded@) + file_system_issues(
                config.paths.templates_dir@,
                config.paths.typst_packages_dir@,
                templates_dir_exists,
                packages_dir_exists,
            ) + compat_issues(loaded@, current_version@),
    {
        let mut issues: Vec<ValidationIssue> = Vec::new();
        let mut f: usize = 0;
        while f < load_failures.len()
            invariant
                f <= load_failures@.len(),
                issues_view(issues@) == load_failure_issues(load_failures@.subrange(0, f as int)),
            decreases load_failures@.len() - f,
        {
            assert(load_failures@.subrange(0, f + 1).drop_last() =~= load_failures@.subrange(0, f as int));
            let issue = make(
                ValidationSeverity::Error,
                "configuration",
                owned("Failed to load template configurations: ").concat(load_failures[f].as_str()),
                some("Check template directory and configuration files"),
                None,
            );
            push_issue(&mut issues, issue);
            f = f + 1;
        }
        assert(load_failures@.subrange(0, f as int) =~= load_failures@);
        let ghost head = issues_view(issues@);
        let mut k: usize = 0;
        while k < loaded.len()
            invariant
                k <= loaded@.len(),
                issues_view(issues@) == head + all_config_issues(loaded@.subrange(0, k as int)),
            decreases loaded@.len() - k,
        {
            assert(loaded@.subrange(0, k + 1).drop_last() =~= loaded@.subrange(0, k as int));
            assert(loaded@.subrange(0, k + 1).last() == loaded@[k as int]);
            let found = Self::validate_template_config(&loaded[k]);
            let moved = relocate(found, label("template_config", k).as_str());
            append_issues(&mut issues, moved);
            assert(issues_view(issues@) =~= head + all_config_issues(loaded@.subrange(0, k + 1)));
            k = k + 1;
        }
        assert(loaded@.subrange(0, k as int) =~= loaded@);
        append_issues(&mut issues, Self::validate_cross_configurations(loaded.as_slice()));
        append_issues(&mut issues, Self::validate_file_system(config, templates_dir_exists, packages_dir_exists));
        append_issues(&mut issues, Self::validate_engine_compatibility(loaded.as_slice(), current_version));
        issues
    }

    fn issue_text(issue: &ValidationIssue) -> (r: String)
        ensures
            r@ == issue_block(issue@),
    {
        let mark = match issue.severity {
            ValidationSeverity::Error => "❌",
            ValidationSeverity::Warning => "⚠️",
            ValidationSeverity::Info => "ℹ️",
        };
        let mut block = owned(mark).concat(" [").concat(issue.category.as_str()).concat("] ").concat(
            issue.message.as_str(),
        ).concat("\n");
        if let Some(location) = &issue.location {
            block = block.concat("   Location: ").concat(location.as_str()).concat("\n");
        }
        if let Some(suggestion) = &issue.suggestion {
            block = block.concat("   Suggestion: ").concat(suggestion.as_str()).concat("\n");
        }
        block.concat("\n")
    }

    /// A readable report of the issues (see `report_text`).
    pub fn format_validation_report(issues: &[ValidationIssue]) -> (r: String)
        ensures
            r@ == report_text(issues_view(issues@)),
    {
        let ghost all = issues_view(issues@);
        if issues.len() == 0 {
            return owned("No validation issues found");
        }
        let mut errors: usize = 0;
        let mut warnings: usize = 0;
        let mut infos: usize = 0;
        let mut blocks = String::new();
        let mut i: usize = 0;
        while i < issues.len()
            invariant
                i <= issues@.len(),
                all == issues_view(issues@),
                errors == count_severity(all.subrange(0, i as int), ValidationSeverity::Error),
                warnings == count_severity(all.subrange(0, i as int), ValidationSeverity::Warning),
                infos == count_severity(all.subrange(0, i as int), ValidationSeverity::Info),
                errors <= i && warnings <= i && infos <= i,
                blocks@ == issue_blocks(all.subrange(0, i as int)),
            decreases issues@.len() - i,
        {
            assert(all.subrange(0, i + 1).drop_last() =~= all.subrange(0, i as int));
            assert(all.subrange(0, i + 1).last() == issues@[i as int]@);
            let issue = &issues[i];
            match issue.severity {
                ValidationSeverity::Error => errors = errors + 1,
                ValidationSeverity::Warning => warnings = warnings + 1,
                ValidationSeverity::Info => infos = infos + 1,
            }
            let block = Self::issue_text(issue);
            blocks = blocks.concat(block.as_str());
            i = i + 1;
        }
        assert(all.subrange(0, i as int) =~= all);
        owned("Validation Report: ").concat(decimal_string(errors).as_str()).concat(" errors, ").concat(
            decimal_string(warnings).as_str(),
        ).concat(" warnings, ").concat(decimal_string(infos).as_str()).concat(" info\n\n").concat(
            blocks.as_str(),
        )
    }

    /// The issues of a catalog entry, given whether its file exists (see
    /// `available_issues`).
    pub fn validate_available_template(template: &AvailableTemplate, file_exists: bool) -> (r: Vec<
        ValidationIssue,
    >)
        ensures
            issues_view(r@) == available_issues(*template, file_exists),
    {
        let mut issues: Vec<ValidationIssue> = Vec::new();
        let path = template.file_path.as_str();
        push_when(
            &mut issues,
            !template.is_accessible,
            make(
                ValidationSeverity::Error,
                "accessibility",
                owned("Template file not accessible: ").concat(path),
                some("Check file permissions and path"),
                some(path),
            ),
        );
        push_when(
            &mut issues,
            !file_exists,
            make(
                ValidationSeverity::Error,
                "file_system",
                owned("Template file does not exist: ").concat(path),
                some("Run 'noter template update' to download templates"),
                some(path),
            ),
        );
        let ghost head = issues_view(issues@);
        if !template.definition.supports_variants {
            let name = template.definition.name.as_str();
            let mut i: usize = 0;
            while i < template.variants.len()
                invariant
                    i <= template.variants@.len(),
                    name@ == template.definition.name@,
                    issues_view(issues@) == head + unsupported_variant_issues(i as nat, name@),
                decreases template.variants@.len() - i,
            {
                push_issue(
                    &mut issues,
                    make(
                        ValidationSeverity::Warning,
                        "configuration",
                        owned("Template '").concat(name).concat("' has variants but doesn't support them"),
                        some("Set supports_variants to true"),
                        Some(owned("template.").concat(name)),
                    ),
                );
                assert(issues_view(issues@) =~= head + unsupported_variant_issues((i + 1) as nat, name@));
                i = i + 1;
            }
        } else {
            assert(issues_view(issues@) =~= head + Seq::<IssueView>::empty());
        }
        issues
    }

    /// The issues of a context about to be rendered with a definition and an
    /// optional variant (see `context_issues`).
    pub fn validate_template_context(
        context: &TemplateContext,
        template_def: &TemplateDefinition,
        variant: Option<&TemplateVariant>,
    ) -> (r: Vec<ValidationIssue>)
        ensures
            issues_view(r@) == context_issues(
                *context,
                *template_def,
                crate::template_engine::deref_variant(variant),
            ),
    {
        let mut issues: Vec<ValidationIssue> = Vec::new();
        push_when(
            &mut issues,
            is_blank(context.author.as_str()),
            make(
                ValidationSeverity::Warning,
                "context",
                owned("Author name is empty"),
                some("Set author name in configuration"),
                some("context.author"),
            ),
        );
        push_when(
            &mut issues,
            is_blank(context.course_id.as_str()),
            make(
                ValidationSeverity::Warning,
                "context",
                owned("Course ID is required"),
                None,
                some("context.course_id"),
            ),
        );
        push_when(
            &mut issues,
            is_blank(context.course_name.as_str()),
            make(
                ValidationSeverity::Warning,
                "context",
                owned("Course name not found for ").concat(context.course_id.as_str()),
                some("Add course to configuration"),
                some("context.course_name"),
            ),
        );
        append_issues(&mut issues, Self::validate_template_sections(template_def, variant, context));
        assert(issues_view(issues@) =~= context_issues(
            *context,
            *template_def,
            crate::template_engine::deref_variant(variant),
        ));
        issues
    }

    /// Section notices: no sections at all, or an empty override list.
    pub fn validate_template_sections(
        template_def: &TemplateDefinition,
        variant: Option<&TemplateVariant>,
        context: &TemplateContext,
    ) -> (r: Vec<ValidationIssue>)
        ensures
            issues_view(r@) == section_issues(
                *template_def,
                crate::template_engine::deref_variant(variant),
                *context,
            ),
    {
        let mut issues: Vec<ValidationIssue> = Vec::new();
        push_when(
            &mut issues,
            template_def.default_sections.len() == 0 && context.sections.len() == 0,
            make(
                ValidationSeverity::Info,
                "sections",
                owned("Template '").concat(template_def.name.as_str()).concat("' has no default sections"),
                some("Consider providing custom sections"),
                some("context.sections"),
            ),
        );
        if let Some(v) = variant {
            if let Some(o) = &v.override_sections {
                push_when(
                    &mut issues,
                    o.len() == 0,
                    make(
                        ValidationSeverity::Warning,
                        "sections",
                        owned("Variant '").concat(v.name.as_str()).concat("' has empty override_sections"),
                        some("Remove override_sections or provide sections"),
                        some("variant.override_sections"),
                    ),
                );
            }
        }
        assert(issues_view(issues@) =~= section_issues(
            *template_def,
            crate::template_engine::deref_variant(variant),
            *context,
        ));
        issues
    }
}

} // verus!
