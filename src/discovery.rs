//! Queries over the loaded template packages: course-type resolution, template
//! and variant lookup. Packages are searched in load order; the first match wins.

use vstd::prelude::*;
use crate::package::{TemplateConfig, TemplateDefinition, TemplateVariant};
use crate::text::{clone_opt, clone_strings, ends_with, owned, same_text};

verus! {

/// A course code matches a pattern of the same length whose every character is
/// a wildcard (`x` or `X`) or equal to the code's character at that place.
pub open spec fn pattern_matches(course_id: Seq<char>, pattern: Seq<char>) -> bool {
    &&& course_id.len() == pattern.len()
    &&& forall|i: int|
        0 <= i < pattern.len() ==> (#[trigger] pattern[i] == 'x' || pattern[i] == 'X' || pattern[i]
            == course_id[i])
}

/// The type of the first pair whose key is exactly `id`.
pub open spec fn exact_lookup(m: Seq<(String, String)>, id: Seq<char>) -> Option<Seq<char>>
    decreases m.len(),
{
    if m.len() == 0 {
        None
    } else if m[0].0@ == id {
        Some(m[0].1@)
    } else {
        exact_lookup(m.drop_first(), id)
    }
}

/// The type of the first pair whose key, read as a pattern, matches `id`.
pub open spec fn pattern_lookup(m: Seq<(String, String)>, id: Seq<char>) -> Option<Seq<char>>
    decreases m.len(),
{
    if m.len() == 0 {
        None
    } else if pattern_matches(id, m[0].0@) {
        Some(m[0].1@)
    } else {
        pattern_lookup(m.drop_first(), id)
    }
}

/// No key occurs twice in a course mapping, as in the manifest's table.
pub open spec fn mapping_keys_unique(m: Seq<(String, String)>) -> bool {
    forall|i: int, j: int| 0 <= i < j < m.len() ==> (#[trigger] m[i]).0@ != (#[trigger] m[j]).0@
}

/// A manifest whose course mapping, if any, has unique keys.
pub open spec fn manifest_well_formed(c: TemplateConfig) -> bool {
    c.course_mapping matches Some(m) ==> mapping_keys_unique(m@)
}

/// With unique keys, the exact lookup of a key gives the type paired with it.
pub proof fn exact_key_lookup(m: Seq<(String, String)>, id: Seq<char>, k: int)
    requires
        mapping_keys_unique(m),
        0 <= k < m.len(),
        m[k].0@ == id,
    ensures
        exact_lookup(m, id) == Some(m[k].1@),
    decreases k,
{
    if k > 0 {
        let rest = m.drop_first();
        assert(m[0].0@ != m[k].0@);
        assert(rest[k - 1] == m[k]);
        assert forall|i: int, j: int| 0 <= i < j < rest.len() implies (#[trigger] rest[i]).0@ != (
        #[trigger] rest[j]).0@ by {
            assert(rest[i] == m[i + 1] && rest[j] == m[j + 1]);
        }
        exact_key_lookup(rest, id, k - 1);
    }
}

/// One manifest's answer for a course: an exact key first, else a pattern.
pub open spec fn mapping_lookup(m: Seq<(String, String)>, id: Seq<char>) -> Option<Seq<char>> {
    if exact_lookup(m, id) is Some {
        exact_lookup(m, id)
    } else {
        pattern_lookup(m, id)
    }
}

/// The course type that a manifest assigns to a course, if any.
pub open spec fn manifest_course_type(c: TemplateConfig, id: Seq<char>) -> Option<Seq<char>> {
    match c.course_mapping {
        Some(m) => mapping_lookup(m@, id),
        None => None,
    }
}

/// The course type from the first manifest, in load order, that has one.
pub open spec fn course_type_in(cs: Seq<TemplateConfig>, id: Seq<char>) -> Option<Seq<char>>
    decreases cs.len(),
{
    if cs.len() == 0 {
        None
    } else if manifest_course_type(cs[0], id) is Some {
        manifest_course_type(cs[0], id)
    } else {
        course_type_in(cs.drop_first(), id)
    }
}

/// Template `j` of package `k` is the first one named `name`, packages and
/// templates taken in order.
pub open spec fn first_template_at(cs: Seq<TemplateConfig>, name: Seq<char>, k: int, j: int) -> bool {
    &&& 0 <= k < cs.len()
    &&& 0 <= j < cs[k].templates@.len()
    &&& cs[k].templates@[j].name@ == name
    &&& forall|k2: int, j2: int|
        0 <= k2 < k && 0 <= j2 < cs[k2].templates@.len() ==> (#[trigger] cs[k2].templates@[j2]).name@
            != name
    &&& forall|j2: int| 0 <= j2 < j ==> (#[trigger] cs[k].templates@[j2]).name@ != name
}

/// No package defines a template named `name`.
pub open spec fn no_template_named(cs: Seq<TemplateConfig>, name: Seq<char>) -> bool {
    forall|k: int, j: int|
        0 <= k < cs.len() && 0 <= j < cs[k].templates@.len() ==> (#[trigger] cs[k].templates@[j]).name@
            != name
}

/// The variants of one package that specialise template `name`, in order.
pub open spec fn variants_named(vs: Seq<TemplateVariant>, name: Seq<char>) -> Seq<TemplateVariant>
    decreases vs.len(),
{
    if vs.len() == 0 {
        Seq::empty()
    } else if vs.last().template@ == name {
        variants_named(vs.drop_last(), name).push(vs.last())
    } else {
        variants_named(vs.drop_last(), name)
    }
}

/// The variants of one package for template `name`.
pub open spec fn package_variants(c: TemplateConfig, name: Seq<char>) -> Seq<TemplateVariant> {
    match c.variants {
        Some(vs) => variants_named(vs@, name),
        None => Seq::empty(),
    }
}

/// All variants for template `name`, packages in load order.
pub open spec fn variants_for(cs: Seq<TemplateConfig>, name: Seq<char>) -> Seq<TemplateVariant>
    decreases cs.len(),
{
    if cs.len() == 0 {
        Seq::empty()
    } else {
        variants_for(cs.drop_last(), name) + package_variants(cs.last(), name)
    }
}

/// Every template of every package, paired with its package, in order.
pub open spec fn all_templates(cs: Seq<TemplateConfig>) -> Seq<(TemplateDefinition, TemplateConfig)>
    decreases cs.len(),
{
    if cs.len() == 0 {
        Seq::empty()
    } else {
        all_templates(cs.drop_last()) + cs.last().templates@.map_values(
            |t: TemplateDefinition| (t, cs.last()),
        )
    }
}

/// Some package named `package` defines a template named `name`.
pub open spec fn package_has_template(cs: Seq<TemplateConfig>, name: Seq<char>, package: Seq<char>) -> bool {
    exists|k: int, j: int|
        0 <= k < cs.len() && cs[k].metadata.name@ == package && 0 <= j < cs[k].templates@.len()
            && (#[trigger] cs[k].templates@[j]).name@ == name
}

/// Template `j` of package `k` is the first one named `name` among the
/// packages named `package`.
pub open spec fn first_in_package_at(
    cs: Seq<TemplateConfig>,
    name: Seq<char>,
    package: Seq<char>,
    k: int,
    j: int,
) -> bool {
    &&& 0 <= k < cs.len()
    &&& cs[k].metadata.name@ == package
    &&& 0 <= j < cs[k].templates@.len()
    &&& cs[k].templates@[j].name@ == name
    &&& forall|k2: int, j2: int|
        0 <= k2 < k && cs[k2].metadata.name@ == package && 0 <= j2 < cs[k2].templates@.len() ==> (
        #[trigger] cs[k2].templates@[j2]).name@ != name
    &&& forall|j2: int| 0 <= j2 < j ==> (#[trigger] cs[k].templates@[j2]).name@ != name
}

/// Template `j` of package `k` is the one a lookup of `name` picks: the first
/// in the preferred package when that package has one, else the first in
/// any package.
pub open spec fn chosen_template_at(
    cs: Seq<TemplateConfig>,
    name: Seq<char>,
    preferred: Option<Seq<char>>,
    k: int,
    j: int,
) -> bool {
    match preferred {
        Some(p) => if package_has_template(cs, name, p) {
            first_in_package_at(cs, name, p, k, j)
        } else {
            first_template_at(cs, name, k, j)
        },
        None => first_template_at(cs, name, k, j),
    }
}

/// The universal course type of a variant.
pub open spec fn all_types() -> Seq<char> {
    seq!['a', 'l', 'l']
}

/// A variant applies to a course type when it lists that type or `all`.
pub open spec fn variant_applies(v: TemplateVariant, course_type: Seq<char>) -> bool {
    exists|i: int|
        0 <= i < v.course_types@.len() && (#[trigger] v.course_types@[i]@ == course_type
            || v.course_types@[i]@ == all_types())
}

/// The first variant of `vs` that applies to `course_type`.
pub open spec fn first_applicable(vs: Seq<TemplateVariant>, course_type: Seq<char>) -> Option<
    TemplateVariant,
>
    decreases vs.len(),
{
    if vs.len() == 0 {
        None
    } else if variant_applies(vs[0], course_type) {
        Some(vs[0])
    } else {
        first_applicable(vs.drop_first(), course_type)
    }
}

/// A course code and a pattern of different lengths never match.
pub proof fn different_lengths_never_match(course_id: Seq<char>, pattern: Seq<char>)
    requires
        course_id.len() != pattern.len(),
    ensures
        !pattern_matches(course_id, pattern),
{
}

/// When package `k` is the first, in load order, whose mapping gives a type
/// for `id`, that type is the course type, whatever later packages say.
pub proof fn first_matching_manifest_wins(cs: Seq<TemplateConfig>, k: int, id: Seq<char>)
    requires
        0 <= k < cs.len(),
        manifest_course_type(cs[k], id) is Some,
        forall|j: int| 0 <= j < k ==> manifest_course_type(#[trigger] cs[j], id) is None,
    ensures
        course_type_in(cs, id) == manifest_course_type(cs[k], id),
    decreases k,
{
    if k > 0 {
        let rest = cs.drop_first();
        assert(rest[k - 1] == cs[k]);
        assert forall|j: int| 0 <= j < k - 1 implies manifest_course_type(#[trigger] rest[j], id) is None by {
            assert(rest[j] == cs[j + 1]);
        }
        assert(manifest_course_type(cs[0], id) is None);
        first_matching_manifest_wins(rest, k - 1, id);
    }
}

/// When no package maps `id`, the course type is the fallback.
pub proof fn unmapped_course_falls_back(cs: Seq<TemplateConfig>, id: Seq<char>)
    requires
        forall|j: int| 0 <= j < cs.len() ==> manifest_course_type(#[trigger] cs[j], id) is None,
    ensures
        course_type_in(cs, id) is None,
    decreases cs.len(),
{
    if cs.len() > 0 {
        let rest = cs.drop_first();
        assert(manifest_course_type(cs[0], id) is None);
        assert forall|j: int| 0 <= j < rest.len() implies manifest_course_type(#[trigger] rest[j], id) is None by {
            assert(rest[j] == cs[j + 1]);
        }
        unmapped_course_falls_back(rest, id);
    }
}

/// A variant that lists `all` applies to every course type.
pub proof fn universal_variant_applies(v: TemplateVariant, course_type: Seq<char>, i: int)
    requires
        0 <= i < v.course_types@.len(),
        v.course_types@[i]@ == all_types(),
    ensures
        variant_applies(v, course_type),
{
}

/// A variant that lists one type other than `all` applies to that type only.
pub proof fn single_type_variant_applies_only_to_it(v: TemplateVariant, course_type: Seq<char>)
    requires
        v.course_types@.len() == 1,
        v.course_types@[0]@ != all_types(),
    ensures
        variant_applies(v, course_type) <==> course_type == v.course_types@[0]@,
{
    if course_type == v.course_types@[0]@ {
        assert(v.course_types@[0]@ == course_type);
    }
}

/// Of several applicable variants, the first in order is chosen.
pub proof fn first_applicable_variant_is_chosen(vs: Seq<TemplateVariant>, course_type: Seq<char>, i: int)
    requires
        0 <= i < vs.len(),
        variant_applies(vs[i], course_type),
        forall|j: int| 0 <= j < i ==> !variant_applies(#[trigger] vs[j], course_type),
    ensures
        first_applicable(vs, course_type) == Some(vs[i]),
    decreases i,
{
    if i > 0 {
        let rest = vs.drop_first();
        assert(rest[i - 1] == vs[i]);
        assert(!variant_applies(vs[0], course_type));
        assert forall|j: int| 0 <= j < i - 1 implies !variant_applies(#[trigger] rest[j], course_type) by {
            assert(rest[j] == vs[j + 1]);
        }
        first_applicable_variant_is_chosen(rest, course_type, i - 1);
    }
}

/// Two template definitions hold the same values.
pub open spec fn same_definition(a: TemplateDefinition, b: TemplateDefinition) -> bool {
    &&& a.name@ == b.name@
    &&& a.display_name@ == b.display_name@
    &&& a.description@ == b.description@
    &&& a.file@ == b.file@
    &&& a.function@ == b.function@
    &&& a.supports_variants == b.supports_variants
    &&& a.course_types.is_some() == b.course_types.is_some()
    &&& (a.course_types.is_some() ==> a.course_types.unwrap()@ == b.course_types.unwrap()@)
    &&& a.default_sections@ == b.default_sections@
}

/// Two variants hold the same values.
pub open spec fn same_variant(a: TemplateVariant, b: TemplateVariant) -> bool {
    &&& a.template@ == b.template@
    &&& a.name@ == b.name@
    &&& a.display_name@ == b.display_name@
    &&& a.course_types@ == b.course_types@
    &&& a.file@ == b.file@
    &&& a.function == b.function
    &&& a.additional_sections.is_some() == b.additional_sections.is_some()
    &&& (a.additional_sections.is_some() ==> a.additional_sections.unwrap()@
        == b.additional_sections.unwrap()@)
    &&& a.override_sections.is_some() == b.override_sections.is_some()
    &&& (a.override_sections.is_some() ==> a.override_sections.unwrap()@
        == b.override_sections.unwrap()@)
}

/// The import line for a package: `#import "@local/<name>:<version>":*`.
pub open spec fn import_line(name: Seq<char>, version: Seq<char>) -> Seq<char> {
    "#import \"@local/"@ + name + ":"@ + version + "\":*"@
}

/// The import line for package `name` at `version` (see `import_line`).
pub fn import_for(name: &str, version: &str) -> (r: String)
    ensures
        r@ == import_line(name@, version@),
{
    let r = String::from_str("#import \"@local/");
    let r = r.concat(name);
    let r = r.concat(":");
    let r = r.concat(version);
    r.concat("\":*")
}

fn clone_opt_strings(v: &Option<Vec<String>>) -> (r: Option<Vec<String>>)
    ensures
        r.is_some() == v.is_some(),
        r.is_some() ==> r.unwrap()@ == v.unwrap()@,
{
    match v {
        Some(s) => Some(clone_strings(s)),
        None => None,
    }
}

/// A copy of a variant.
pub fn copy_variant(v: &TemplateVariant) -> (r: TemplateVariant)
    ensures
        same_variant(r, *v),
{
    TemplateVariant {
        template: v.template.clone(),
        name: v.name.clone(),
        display_name: v.display_name.clone(),
        course_types: clone_strings(&v.course_types),
        file: v.file.clone(),
        function: clone_opt(&v.function),
        additional_sections: clone_opt_strings(&v.additional_sections),
        override_sections: clone_opt_strings(&v.override_sections),
    }
}

/// Where a template comes from.
#[derive(Debug, Clone)]
pub enum TemplateSource {
    /// Part of the application.
    Builtin,
    /// An installed package directory.
    Local { path: String },
    /// A remote repository at a release.
    Remote { repository: String, version: String },
    /// Made by a user; `created_at` in seconds since the Unix epoch.
    Custom { created_by: String, created_at: i64 },
}

/// What is known of an installed package.
#[derive(Debug, Clone)]
pub struct TemplatePackageInfo {
    pub name: String,
    pub version: String,
    pub description: Option<String>,
    pub author: Option<String>,
    pub license: Option<String>,
    pub install_path: String,
    /// Last modification, in seconds since the Unix epoch.
    pub last_updated: Option<i64>,
}

/// A template of an installed package, with its variants and its file.
#[derive(Debug, Clone)]
pub struct AvailableTemplate {
    pub definition: TemplateDefinition,
    pub variants: Vec<TemplateVariant>,
    pub file_path: String,
    pub source: TemplateSource,
    /// Whether the file exists; false until the caller has looked.
    pub is_accessible: bool,
    pub package_info: Option<TemplatePackageInfo>,
}

/// A file inside a directory: the file itself when absolute, else the two
/// joined by one slash.
pub open spec fn joined(dir: Seq<char>, file: Seq<char>) -> Seq<char> {
    if file.len() > 0 && file[0] == '/' {
        file
    } else if dir.len() > 0 && dir.last() == '/' {
        dir + file
    } else {
        dir + "/"@ + file
    }
}

/// The directory of the first package on disk whose manifest has the name
/// and version of `target`; else the first package directory.
pub open spec fn package_dir_for(
    dirs: Seq<(String, Option<(String, String)>)>,
    target: TemplateConfig,
) -> Option<Seq<char>>
    decreases dirs.len(),
{
    if dirs.len() == 0 {
        None
    } else {
        match first_same_package(dirs, target) {
            Some(d) => Some(d),
            None => Some(dirs[0].0@),
        }
    }
}

/// The first directory whose manifest has the name and version of `target`.
pub open spec fn first_same_package(
    dirs: Seq<(String, Option<(String, String)>)>,
    target: TemplateConfig,
) -> Option<Seq<char>>
    decreases dirs.len(),
{
    if dirs.len() == 0 {
        None
    } else if dirs[0].1 matches Some((n, v)) && n@ == target.metadata.name@ && v@
        == target.metadata.version@ {
        Some(dirs[0].0@)
    } else {
        first_same_package(dirs.drop_first(), target)
    }
}

/// Catalog queries over the loaded packages.
pub struct TemplateDiscovery;

impl TemplateDiscovery {
    /// Whether `course_id` matches `pattern` (see `pattern_matches`).
    pub fn matches_course_pattern(course_id: &str, pattern: &str) -> (r: bool)
        ensures
            r == pattern_matches(course_id@, pattern@),
    {
        let n = course_id.unicode_len();
        if n != pattern.unicode_len() {
            return false;
        }
        let mut i: usize = 0;
        while i < n
            invariant
                n == course_id@.len(),
                n == pattern@.len(),
                i <= n,
                forall|j: int|
                    0 <= j < i ==> (#[trigger] pattern@[j] == 'x' || pattern@[j] == 'X'
                        || pattern@[j] == course_id@[j]),
            decreases n - i,
        {
            let p = pattern.get_char(i);
            if !(p == 'x' || p == 'X' || p == course_id.get_char(i)) {
                return false;
            }
            i = i + 1;
        }
        true
    }

    fn lookup_mapping(m: &Vec<(String, String)>, course_id: &str) -> (r: Option<String>)
        ensures
            r.is_some() == mapping_lookup(m@, course_id@).is_some(),
            r.is_some() ==> r.unwrap()@ == mapping_lookup(m@, course_id@).unwrap(),
    {
        assert(m@.subrange(0, m@.len() as int) =~= m@);
        let mut i: usize = 0;
        while i < m.len()
            invariant
                i <= m@.len(),
                exact_lookup(m@, course_id@) == exact_lookup(m@.subrange(i as int, m@.len() as int), course_id@),
            decreases m@.len() - i,
        {
            let ghost rest = m@.subrange(i as int, m@.len() as int);
            assert(rest.drop_first() =~= m@.subrange(i + 1, m@.len() as int));
            if same_text(m[i].0.as_str(), course_id) {
                return Some(m[i].1.clone());
            }
            i = i + 1;
        }
        assert(m@.subrange(i as int, m@.len() as int) =~= Seq::<(String, String)>::empty());
        assert(m@.subrange(0, m@.len() as int) =~= m@);
        let mut i: usize = 0;
        while i < m.len()
            invariant
                i <= m@.len(),
                exact_lookup(m@, course_id@) is None,
                pattern_lookup(m@, course_id@) == pattern_lookup(m@.subrange(i as int, m@.len() as int), course_id@),
            decreases m@.len() - i,
        {
            let ghost rest = m@.subrange(i as int, m@.len() as int);
            assert(rest.drop_first() =~= m@.subrange(i + 1, m@.len() as int));
            if Self::matches_course_pattern(course_id, m[i].0.as_str()) {
                return Some(m[i].1.clone());
            }
            i = i + 1;
        }
        assert(m@.subrange(i as int, m@.len() as int) =~= Seq::<(String, String)>::empty());
        None
    }

    /// The course type of `course_id` from the first package whose mapping
    /// matches it (an exact key before a pattern within one package), else
    /// `fallback`.
    pub fn resolve_course_type(configs: &[TemplateConfig], course_id: &str, fallback: &str) -> (r:
        String)
        ensures
            r@ == match course_type_in(configs@, course_id@) {
                Some(t) => t,
                None => fallback@,
            },
    {
        assert(configs@.subrange(0, configs@.len() as int) =~= configs@);
        let mut k: usize = 0;
        while k < configs.len()
            invariant
                k <= configs@.len(),
                course_type_in(configs@, course_id@) == course_type_in(
                    configs@.subrange(k as int, configs@.len() as int),
                    course_id@,
                ),
            decreases configs@.len() - k,
        {
            let ghost rest = configs@.subrange(k as int, configs@.len() as int);
            assert(rest.drop_first() =~= configs@.subrange(k + 1, configs@.len() as int));
            assert(rest[0] == configs@[k as int]);
            if let Some(m) = &configs[k].course_mapping {
                if let Some(t) = Self::lookup_mapping(m, course_id) {
                    return t;
                }
            }
            k = k + 1;
        }
        assert(configs@.subrange(k as int, configs@.len() as int) =~= Seq::<TemplateConfig>::empty());
        owned(fallback)
    }

    /// The first template named `template_name`, with the package that defines it.
    pub fn find_template<'a>(configs: &'a [TemplateConfig], template_name: &str) -> (r: Option<
        (&'a TemplateDefinition, &'a TemplateConfig),
    >)
        ensures
            r is None <==> no_template_named(configs@, template_name@),
            r matches Some((d, c)) ==> exists|k: int, j: int|
                first_template_at(configs@, template_name@, k, j) && *c == configs@[k] && *d
                    == configs@[k].templates@[j],
    {
        let mut k: usize = 0;
        while k < configs.len()
            invariant
                k <= configs@.len(),
                forall|k2: int, j2: int|
                    0 <= k2 < k && 0 <= j2 < configs@[k2].templates@.len() ==> (
                    #[trigger] configs@[k2].templates@[j2]).name@ != template_name@,
            decreases configs@.len() - k,
        {
            let config = &configs[k];
            let mut j: usize = 0;
            while j < config.templates.len()
                invariant
                    k < configs@.len(),
                    *config == configs@[k as int],
                    j <= config.templates@.len(),
                    forall|k2: int, j2: int|
                        0 <= k2 < k && 0 <= j2 < configs@[k2].templates@.len() ==> (
                        #[trigger] configs@[k2].templates@[j2]).name@ != template_name@,
                    forall|j2: int| 0 <= j2 < j ==> (#[trigger] config.templates@[j2]).name@ != template_name@,
                decreases config.templates@.len() - j,
            {
                if same_text(config.templates[j].name.as_str(), template_name) {
                    assert(first_template_at(configs@, template_name@, k as int, j as int));
                    return Some((&config.templates[j], config));
                }
                j = j + 1;
            }
            k = k + 1;
        }
        None
    }

    /// Like `find_template`, but a template of the package named
    /// `preferred_package` comes first when there is one.
    pub fn find_template_with_preference<'a>(
        configs: &'a [TemplateConfig],
        template_name: &str,
        preferred_package: Option<&str>,
    ) -> (r: Option<(&'a TemplateDefinition, &'a TemplateConfig)>)
        ensures
            ({
                let preferred = preferred_package is Some && package_has_template(
                    configs@,
                    template_name@,
                    preferred_package.unwrap()@,
                );
                &&& preferred ==> (r matches Some((d, c)) && exists|k: int, j: int|
                    first_in_package_at(configs@, template_name@, preferred_package.unwrap()@, k, j)
                        && *c == configs@[k] && *d == configs@[k].templates@[j])
                &&& !preferred ==> (r is None <==> no_template_named(configs@, template_name@))
                &&& !preferred ==> (r matches Some((d, c)) ==> exists|k: int, j: int|
                    first_template_at(configs@, template_name@, k, j) && *c == configs@[k] && *d
                        == configs@[k].templates@[j])
            }),
    {
        if let Some(package_name) = preferred_package {
            let mut k: usize = 0;
            while k < configs.len()
                invariant
                    k <= configs@.len(),
                    preferred_package == Some(package_name),
                    forall|k2: int, j2: int|
                        0 <= k2 < k && 0 <= j2 < configs@[k2].templates@.len()
                            && configs@[k2].metadata.name@ == package_name@ ==> (
                        #[trigger] configs@[k2].templates@[j2]).name@ != template_name@,
                decreases configs@.len() - k,
            {
                let config = &configs[k];
                if same_text(config.metadata.name.as_str(), package_name) {
                    let mut j: usize = 0;
                    while j < config.templates.len()
                        invariant
                            k < configs@.len(),
                            *config == configs@[k as int],
                            config.metadata.name@ == package_name@,
                            preferred_package == Some(package_name),
                            j <= config.templates@.len(),
                            forall|k2: int, j2: int|
                                0 <= k2 < k && 0 <= j2 < configs@[k2].templates@.len()
                                    && configs@[k2].metadata.name@ == package_name@ ==> (
                                #[trigger] configs@[k2].templates@[j2]).name@ != template_name@,
                            forall|j2: int| 0 <= j2 < j ==> (#[trigger] config.templates@[j2]).name@
                                != template_name@,
                        decreases config.templates@.len() - j,
                    {
                        if same_text(config.templates[j].name.as_str(), template_name) {
                            assert(first_in_package_at(configs@, template_name@, package_name@, k as int, j as int));
                            assert(configs@[k as int].templates@[j as int].name@ == template_name@);
                            assert(package_has_template(configs@, template_name@, package_name@));
                            return Some((&config.templates[j], config));
                        }
                        j = j + 1;
                    }
                }
                k = k + 1;
            }
            assert(!package_has_template(configs@, template_name@, package_name@));
        }
        Self::find_template(configs, template_name)
    }

    /// Every variant, over all packages in load order, that specialises
    /// `template_name`.
    pub fn find_variants_for_template<'a>(configs: &'a [TemplateConfig], template_name: &str) -> (r:
        Vec<&'a TemplateVariant>)
        ensures
            r@.len() == variants_for(configs@, template_name@).len(),
            forall|i: int| 0 <= i < r@.len() ==> *r@[i] == #[trigger] variants_for(configs@, template_name@)[i],
    {
        let mut r: Vec<&'a TemplateVariant> = Vec::new();
        let mut k: usize = 0;
        while k < configs.len()
            invariant
                k <= configs@.len(),
                r@.len() == variants_for(configs@.subrange(0, k as int), template_name@).len(),
                forall|i: int| 0 <= i < r@.len() ==> *r@[i] == #[trigger] variants_for(configs@.subrange(0, k as int), template_name@)[i],
            decreases configs@.len() - k,
        {
            let ghost before = variants_for(configs@.subrange(0, k as int), template_name@);
            assert(configs@.subrange(0, k + 1).drop_last() =~= configs@.subrange(0, k as int));
            if let Some(vs) = &configs[k].variants {
                let ghost start = r@.len();
                let mut j: usize = 0;
                while j < vs.len()
                    invariant
                        j <= vs@.len(),
                        start == before.len(),
                        r@.len() == before.len() + variants_named(vs@.subrange(0, j as int), template_name@).len(),
                        forall|i: int| 0 <= i < before.len() ==> *r@[i] == before[i],
                        forall|i: int| 0 <= i < variants_named(vs@.subrange(0, j as int), template_name@).len() ==> *r@[start + i] == #[trigger] variants_named(vs@.subrange(0, j as int), template_name@)[i],
                    decreases vs@.len() - j,
                {
                    assert(vs@.subrange(0, j + 1).drop_last() =~= vs@.subrange(0, j as int));
                    if same_text(vs[j].template.as_str(), template_name) {
                        r.push(&vs[j]);
                    }
                    j = j + 1;
                }
                assert(vs@.subrange(0, j as int) =~= vs@);
            }
            let ghost after = variants_for(configs@.subrange(0, k + 1), template_name@);
            assert(after =~= before + package_variants(configs@[k as int], template_name@));
            assert forall|i: int| 0 <= i < r@.len() implies *r@[i] == #[trigger] after[i] by {
                if i >= before.len() {
                    assert(after[i] == package_variants(configs@[k as int], template_name@)[i - before.len()]);
                }
            }
            k = k + 1;
        }
        assert(configs@.subrange(0, k as int) =~= configs@);
        r
    }

    /// Every template of every package, with the package that defines it,
    /// packages and templates in order.
    pub fn get_all_templates<'a>(configs: &'a [TemplateConfig]) -> (r: Vec<
        (&'a TemplateDefinition, &'a TemplateConfig),
    >)
        ensures
            r@.len() == all_templates(configs@).len(),
            forall|i: int|
                0 <= i < r@.len() ==> *(#[trigger] r@[i]).0 == all_templates(configs@)[i].0 && *r@[i].1
                    == all_templates(configs@)[i].1,
    {
        let mut r: Vec<(&'a TemplateDefinition, &'a TemplateConfig)> = Vec::new();
        let mut k: usize = 0;
        while k < configs.len()
            invariant
                k <= configs@.len(),
                r@.len() == all_templates(configs@.subrange(0, k as int)).len(),
                forall|i: int|
                    0 <= i < r@.len() ==> *(#[trigger] r@[i]).0 == all_templates(configs@.subrange(0, k as int))[i].0
                        && *r@[i].1 == all_templates(configs@.subrange(0, k as int))[i].1,
            decreases configs@.len() - k,
        {
            let ghost before = all_templates(configs@.subrange(0, k as int));
            let config = &configs[k];
            let ghost own = config.templates@.map_values(|t: TemplateDefinition| (t, *config));
            assert(configs@.subrange(0, k + 1).drop_last() =~= configs@.subrange(0, k as int));
            let mut j: usize = 0;
            while j < config.templates.len()
                invariant
                    k < configs@.len(),
                    *config == configs@[k as int],
                    own == config.templates@.map_values(|t: TemplateDefinition| (t, *config)),
                    j <= config.templates@.len(),
                    r@.len() == before.len() + j,
                    forall|i: int|
                        0 <= i < before.len() ==> *(#[trigger] r@[i]).0 == before[i].0 && *r@[i].1 == before[i].1,
                    forall|i: int|
                        0 <= i < j ==> *(#[trigger] r@[before.len() + i]).0 == own[i].0 && *r@[before.len() + i].1 == own[i].1,
                decreases config.templates@.len() - j,
            {
                r.push((&config.templates[j], config));
                j = j + 1;
            }
            let ghost after = all_templates(configs@.subrange(0, k + 1));
            assert(after =~= before + own);
            assert forall|i: int| 0 <= i < r@.len() implies *(#[trigger] r@[i]).0 == after[i].0 && *r@[i].1 == after[i].1 by {
                if i >= before.len() {
                    let t = i - before.len();
                    assert(r@[before.len() + t] == r@[i]);
                }
            }
            k = k + 1;
        }
        assert(configs@.subrange(0, k as int) =~= configs@);
        r
    }

    fn variant_applies_to(v: &TemplateVariant, course_type: &str) -> (r: bool)
        ensures
            r == variant_applies(*v, course_type@),
    {
        let mut t: usize = 0;
        while t < v.course_types.len()
            invariant
                t <= v.course_types@.len(),
                forall|u: int|
                    0 <= u < t ==> !(#[trigger] v.course_types@[u]@ == course_type@
                        || v.course_types@[u]@ == all_types()),
            decreases v.course_types@.len() - t,
        {
            let ct = v.course_types[t].as_str();
            let is_all = same_text(ct, "all");
            proof {
                reveal_strlit("all");
                assert("all"@ =~= all_types());
            }
            if same_text(ct, course_type) || is_all {
                assert(v.course_types@[t as int]@ == course_type@ || v.course_types@[t as int]@ == all_types());
                return true;
            }
            t = t + 1;
        }
        false
    }

    /// The first variant of `template_name`, in load order, that applies to
    /// `course_type` (lists it or `all`).
    pub fn find_best_variant(configs: &[TemplateConfig], template_name: &str, course_type: &str) -> (r:
        Option<TemplateVariant>)
        ensures
            r.is_some() == first_applicable(variants_for(configs@, template_name@), course_type@).is_some(),
            r.is_some() ==> same_variant(
                r.unwrap(),
                first_applicable(variants_for(configs@, template_name@), course_type@).unwrap(),
            ),
    {
        let variants = Self::find_variants_for_template(configs, template_name);
        let ghost vs = variants_for(configs@, template_name@);
        assert(vs.subrange(0, vs.len() as int) =~= vs);
        let mut i: usize = 0;
        while i < variants.len()
            invariant
                i <= variants@.len(),
                vs == variants_for(configs@, template_name@),
                variants@.len() == vs.len(),
                forall|j: int| 0 <= j < variants@.len() ==> *variants@[j] == #[trigger] vs[j],
                first_applicable(vs, course_type@) == first_applicable(vs.subrange(i as int, vs.len() as int), course_type@),
            decreases variants@.len() - i,
        {
            let ghost rest = vs.subrange(i as int, vs.len() as int);
            assert(rest.drop_first() =~= vs.subrange(i + 1, vs.len() as int));
            let v = variants[i];
            assert(*v == rest[0]);
            let applies = Self::variant_applies_to(v, course_type);
            if applies {
                return Some(copy_variant(v));
            }
            i = i + 1;
        }
        assert(vs.subrange(i as int, vs.len() as int) =~= Seq::<TemplateVariant>::empty());
        None
    }

    /// A file inside a directory (see `joined`).
    pub fn join_path(dir: &str, file: &str) -> (r: String)
        ensures
            r@ == joined(dir@, file@),
    {
        if file.unicode_len() > 0 && file.get_char(0) == '/' {
            owned(file)
        } else if ends_with(dir, "/") {
            proof {
                reveal_strlit("/");
                assert(dir@.len() > 0 && dir@.subrange(dir@.len() - 1, dir@.len() as int)[0] == dir@.last());
            }
            owned(dir).concat(file)
        } else {
            proof {
                reveal_strlit("/");
                if dir@.len() > 0 && dir@.last() == '/' {
                    assert(dir@.subrange(dir@.len() - 1, dir@.len() as int) =~= "/"@);
                }
            }
            owned(dir).concat("/").concat(file)
        }
    }

    /// The directory of a package among those found on disk, each given with
    /// the name and version of its manifest when that could be read (see
    /// `package_dir_for`).
    pub fn find_package_directory_for_config(
        package_dirs: &Vec<(String, Option<(String, String)>)>,
        target: &TemplateConfig,
    ) -> (r: Option<String>)
        ensures
            match (r, package_dir_for(package_dirs@, *target)) {
                (Some(d), Some(e)) => d@ == e,
                (None, None) => true,
                _ => false,
            },
    {
        if package_dirs.len() == 0 {
            return None;
        }
        let mut i: usize = 0;
        assert(package_dirs@.subrange(0, package_dirs@.len() as int) =~= package_dirs@);
        while i < package_dirs.len()
            invariant
                i <= package_dirs@.len(),
                first_same_package(package_dirs@, *target) == first_same_package(
                    package_dirs@.subrange(i as int, package_dirs@.len() as int),
                    *target,
                ),
            decreases package_dirs@.len() - i,
        {
            let ghost rest = package_dirs@.subrange(i as int, package_dirs@.len() as int);
            assert(rest.drop_first() =~= package_dirs@.subrange(i + 1, package_dirs@.len() as int));
            assert(rest[0] == package_dirs@[i as int]);
            if let Some((name, version)) = &package_dirs[i].1 {
                if same_text(name.as_str(), target.metadata.name.as_str()) && same_text(
                    version.as_str(),
                    target.metadata.version.as_str(),
                ) {
                    return Some(package_dirs[i].0.clone());
                }
            }
            i = i + 1;
        }
        assert(package_dirs@.subrange(i as int, package_dirs@.len() as int) =~= Seq::<
            (String, Option<(String, String)>),
        >::empty());
        Some(package_dirs[0].0.clone())
    }

    /// The catalog entry of a template of package `config` installed in
    /// `package_dir`: its variants over all packages, its file under the
    /// package directory, a local source, and the package's metadata. Whether
    /// the file exists is left for the caller to find out.
    pub fn describe_template(
        configs: &[TemplateConfig],
        config: &TemplateConfig,
        template_def: &TemplateDefinition,
        package_dir: &str,
        last_updated: Option<i64>,
    ) -> (r: AvailableTemplate)
        ensures
            same_definition(r.definition, *template_def),
            r.variants@.len() == variants_for(configs@, template_def.name@).len(),
            forall|i: int|
                0 <= i < r.variants@.len() ==> same_variant(
                    #[trigger] r.variants@[i],
                    variants_for(configs@, template_def.name@)[i],
                ),
            r.file_path@ == joined(package_dir@, template_def.file@),
            r.source matches TemplateSource::Local { path } && path@ == package_dir@,
            !r.is_accessible,
            r.package_info matches Some(info) && info.name@ == config.metadata.name@ && info.version@
                == config.metadata.version@ && info.description == config.metadata.description
                && info.author == config.metadata.author && info.license == config.metadata.license
                && info.install_path@ == package_dir@ && info.last_updated == last_updated,
    {
        let found = Self::find_variants_for_template(configs, template_def.name.as_str());
        let mut variants: Vec<TemplateVariant> = Vec::new();
        let mut i: usize = 0;
        while i < found.len()
            invariant
                i <= found@.len(),
                found@.len() == variants_for(configs@, template_def.name@).len(),
                forall|j: int| 0 <= j < found@.len() ==> *found@[j] == #[trigger] variants_for(configs@, template_def.name@)[j],
                variants@.len() == i,
                forall|j: int| 0 <= j < i ==> same_variant(#[trigger] variants@[j], *found@[j]),
            decreases found@.len() - i,
        {
            variants.push(copy_variant(found[i]));
            i = i + 1;
        }
        AvailableTemplate {
            definition: TemplateDefinition {
                name: template_def.name.clone(),
                display_name: template_def.display_name.clone(),
                description: template_def.description.clone(),
                file: template_def.file.clone(),
                function: template_def.function.clone(),
                supports_variants: template_def.supports_variants,
                course_types: match &template_def.course_types {
                    Some(t) => Some(clone_strings(t)),
                    None => None,
                },
                default_sections: clone_strings(&template_def.default_sections),
            },
            variants,
            file_path: Self::join_path(package_dir, template_def.file.as_str()),
            source: TemplateSource::Local { path: owned(package_dir) },
            is_accessible: false,
            package_info: Some(TemplatePackageInfo {
                name: config.metadata.name.clone(),
                version: config.metadata.version.clone(),
                description: clone_opt(&config.metadata.description),
                author: clone_opt(&config.metadata.author),
                license: clone_opt(&config.metadata.license),
                install_path: owned(package_dir),
                last_updated,
            }),
        }
    }

    /// The import line for a package (see `import_line`).
    pub fn get_import_statement(config: &TemplateConfig) -> (r: String)
        ensures
            r@ == import_line(config.metadata.name@, config.metadata.version@),
    {
        import_for(config.metadata.name.as_str(), config.metadata.version.as_str())
    }
}

} // verus!
