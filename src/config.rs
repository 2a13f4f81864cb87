//! The user's configuration: author, editor, semester style, note sections,
//! paths, and the registered courses.

use vstd::prelude::*;
use crate::text::{decimal, decimal_string, owned, push_char, same_text};

verus! {

/// The user's settings.
#[derive(Debug, Clone)]
pub struct Config {
    /// Name written into documents.
    pub author: String,
    /// Editor tried first when a file is opened.
    pub preferred_editor: Option<String>,
    /// Template package version used when none is detected on disk.
    pub template_version: String,
    pub semester_format: SemesterFormat,
    pub note_preferences: NotePreferences,
    pub paths: PathConfig,
    pub typst: TypstConfig,
    pub search: SearchConfig,
    /// Registered courses as pairs of course code and course name; codes are unique.
    pub courses: Vec<(String, String)>,
}

#[derive(Debug, Clone)]
pub struct NotePreferences {
    pub auto_open: bool,
    pub include_date_in_title: bool,
    pub lecture_sections: Vec<String>,
    pub assignment_sections: Vec<String>,
    pub create_backups: bool,
}

#[derive(Debug, Clone)]
pub struct PathConfig {
    pub notes_dir: String,
    pub obsidian_dir: String,
    pub templates_dir: String,
    pub typst_packages_dir: String,
}

#[derive(Debug, Clone)]
pub struct TypstConfig {
    pub compile_args: Vec<String>,
    pub watch_args: Vec<String>,
    pub clean_before_compile: bool,
    pub output_dir: Option<String>,
}

#[derive(Debug, Clone)]
pub struct SearchConfig {
    pub max_results: usize,
    pub context_lines: usize,
    pub case_sensitive: bool,
    pub file_extensions: Vec<String>,
}

/// How a semester is written.
#[derive(Debug, Clone)]
pub enum SemesterFormat {
    /// "2024 Spring", "2024 Fall"
    YearSeason,
    /// "Spring 2024", "Fall 2024"
    SeasonYear,
    /// "S24", "F05"
    ShortForm,
    /// A pattern with the placeholders `{year}`, `{season}`, `{s}` and `{yy}`.
    Custom(String),
}

/// The name registered for course `id`, if any.
pub open spec fn course_lookup(cs: Seq<(String, String)>, id: Seq<char>) -> Option<Seq<char>>
    decreases cs.len(),
{
    if cs.len() == 0 {
        None
    } else if cs[0].0@ == id {
        Some(cs[0].1@)
    } else {
        course_lookup(cs.drop_first(), id)
    }
}

/// No course code is registered twice.
pub open spec fn unique_codes(cs: Seq<(String, String)>) -> bool {
    forall|i: int, j: int| 0 <= i < j < cs.len() ==> (#[trigger] cs[i]).0@ != (#[trigger] cs[j]).0@
}

/// A year in decimal, with a minus sign when negative.
pub open spec fn int_text(n: int) -> Seq<char> {
    if n < 0 {
        seq!['-'] + decimal((-n) as nat)
    } else {
        decimal(n as nat)
    }
}

/// The last two digits of a year, as Rust's remainder gives them (negative
/// for a negative year).
pub open spec fn year_mod_100(year: int) -> int {
    if year >= 0 {
        year % 100
    } else {
        -((-year) % 100)
    }
}

/// A number written with at least two characters, zero-padded.
pub open spec fn two_digits(n: int) -> Seq<char> {
    if 0 <= n < 10 {
        "0"@ + decimal(n as nat)
    } else {
        int_text(n)
    }
}

/// The season name of a half-year.
pub open spec fn season(is_spring: bool) -> Seq<char> {
    if is_spring {
        "Spring"@
    } else {
        "Fall"@
    }
}

/// The season initial of a half-year.
pub open spec fn season_letter(is_spring: bool) -> Seq<char> {
    if is_spring {
        "S"@
    } else {
        "F"@
    }
}

/// The text of `s` with every occurrence of `from` replaced by `to`, matches
/// taken left to right without overlapping.
pub open spec fn replaced(s: Seq<char>, from: Seq<char>, to: Seq<char>) -> Seq<char>
    decreases s.len(),
{
    if from.len() == 0 || s.len() < from.len() {
        s
    } else if s.subrange(0, from.len() as int) == from {
        to + replaced(s.subrange(from.len() as int, s.len() as int), from, to)
    } else {
        seq![s[0]] + replaced(s.drop_first(), from, to)
    }
}

/// Replaces every occurrence of a non-empty `from` by `to` (see `replaced`).
fn replace_all(s: &str, from: &str, to: &str) -> (r: String)
    requires
        from@.len() > 0,
    ensures
        r@ == replaced(s@, from@, to@),
{
    let n = s.unicode_len();
    let m = from.unicode_len();
    let mut out = String::new();
    let mut i: usize = 0;
    assert(s@.subrange(0, n as int) =~= s@);
    while i < n
        invariant
            n == s@.len(),
            m == from@.len(),
            m > 0,
            i <= n,
            out@ + replaced(s@.subrange(i as int, n as int), from@, to@) == replaced(s@, from@, to@),
        decreases n - i,
    {
        let ghost rest = s@.subrange(i as int, n as int);
        if m <= n - i && same_text(s.substring_char(i, i + m), from) {
            assert(rest.subrange(0, m as int) =~= s@.subrange(i as int, i + m));
            assert(rest.subrange(m as int, rest.len() as int) =~= s@.subrange(i + m, n as int));
            let next = out.concat(to);
            assert(next@ + replaced(s@.subrange(i + m, n as int), from@, to@) =~= out@ + replaced(rest, from@, to@));
            out = next;
            i = i + m;
        } else {
            let c = s.get_char(i);
            proof {
                if m <= n - i {
                    assert(rest.subrange(0, m as int) =~= s@.subrange(i as int, i + m));
                }
            }
            assert(rest.drop_first() =~= s@.subrange(i + 1, n as int));
            assert(rest[0] == c);
            let ghost before = out@;
            let ghost tail = replaced(rest.drop_first(), from@, to@);
            assert(seq![c] + tail =~= replaced(rest, from@, to@)) by {
                if rest.len() < m {
                    assert(tail == rest.drop_first());
                    assert(seq![c] + rest.drop_first() =~= rest);
                }
            }
            push_char(&mut out, c);
            assert(out@ + tail =~= before + (seq![c] + tail));
            i = i + 1;
        }
    }
    assert(s@.subrange(n as int, n as int) =~= Seq::<char>::empty());
    assert(out@ + Seq::<char>::empty() =~= out@);
    out
}

/// The semester text for a format, a year and a half-year.
pub open spec fn semester_text(format: SemesterFormat, year: int, is_spring: bool) -> Seq<char> {
    match format {
        SemesterFormat::YearSeason => int_text(year) + " "@ + season(is_spring),
        SemesterFormat::SeasonYear => season(is_spring) + " "@ + int_text(year),
        SemesterFormat::ShortForm => season_letter(is_spring) + two_digits(year_mod_100(year)),
        SemesterFormat::Custom(f) => replaced(
            replaced(
                replaced(replaced(f@, "{year}"@, int_text(year)), "{season}"@, season(is_spring)),
                "{s}"@,
                season_letter(is_spring),
            ),
            "{yy}"@,
            two_digits(year_mod_100(year)),
        ),
    }
}

/// The editors of a configuration in the order they are tried: the preferred
/// one, then the platform's defaults, each once.
pub open spec fn editor_defaults(on_windows: bool) -> Seq<Seq<char>> {
    if on_windows {
        seq!["code"@, "notepad"@]
    } else {
        seq!["code"@, "nvim"@, "vim"@, "nano"@]
    }
}

/// `list` without repeats, keeping first occurrences.
pub open spec fn dedup(list: Seq<Seq<char>>) -> Seq<Seq<char>>
    decreases list.len(),
{
    if list.len() == 0 {
        Seq::empty()
    } else if dedup(list.drop_last()).contains(list.last()) {
        dedup(list.drop_last())
    } else {
        dedup(list.drop_last()).push(list.last())
    }
}

/// The preferred editor, if any, before the platform defaults.
pub open spec fn editor_candidates(preferred: Option<String>, on_windows: bool) -> Seq<Seq<char>> {
    match preferred {
        Some(p) => seq![p@] + editor_defaults(on_windows),
        None => editor_defaults(on_windows),
    }
}

/// Relies on `dirs::data_local_dir`: the user's local data directory, which
/// depends on the platform and the environment.
#[verifier::external_body]
fn data_local_dir() -> (r: Option<String>) {
    dirs::data_local_dir().map(|p| p.to_string_lossy().to_string())
}

fn strings_of(items: &[&str]) -> (r: Vec<String>)
    ensures
        r@.len() == items@.len(),
        forall|i: int| 0 <= i < items@.len() ==> (#[trigger] r@[i])@ == items@[i]@,
{
    let mut r: Vec<String> = Vec::new();
    let mut i: usize = 0;
    while i < items.len()
        invariant
            i <= items@.len(),
            r@.len() == i,
            forall|j: int| 0 <= j < i ==> (#[trigger] r@[j])@ == items@[j]@,
        decreases items@.len() - i,
    {
        r.push(owned(items[i]));
        i = i + 1;
    }
    r
}

/// The courses registered by default, as pairs of code and name.
pub open spec fn default_courses() -> Seq<(Seq<char>, Seq<char>)> {
    seq![
        ("01005"@, "Advanced Engineering Mathematics 1"@),
        ("01006"@, "Advanced Engineering Mathematics 2"@),
        ("01017"@, "Discrete Mathematics"@),
        ("02101"@, "Introduction to Programming"@),
        ("02102"@, "Algorithms and Data Structures"@),
        ("25200"@, "Classical Physics 1"@),
        ("22100"@, "Electronics 1"@),
    ]
}

/// The default sections of a lecture note.
pub open spec fn default_lecture_sections() -> Seq<Seq<char>> {
    seq![
        "Key Concepts"@,
        "Mathematical Framework"@,
        "Examples"@,
        "Important Points"@,
        "Questions & Follow-up"@,
        "Connections to Previous Material"@,
        "Next Class Preview"@,
    ]
}

/// The default sections of an assignment.
pub open spec fn default_assignment_sections() -> Seq<Seq<char>> {
    seq!["Problem 1"@, "Problem 2"@, "Problem 3"@]
}

/// The texts of a list of code and name pairs.
pub open spec fn pair_texts(cs: Seq<(String, String)>) -> Seq<(Seq<char>, Seq<char>)> {
    cs.map_values(|p: (String, String)| (p.0@, p.1@))
}

impl Default for PathConfig {
    /// Relative note, vault and template directories; the package directory
    /// under the user's local data directory (or the working directory when
    /// there is none).
    fn default() -> (r: PathConfig)
        ensures
            r.notes_dir@ == "notes"@,
            r.obsidian_dir@ == "obsidian-vault"@,
            r.templates_dir@ == "templates"@,
            crate::text::has_suffix(r.typst_packages_dir@, "/typst/packages/local"@),
    {
        let base = match data_local_dir() {
            Some(d) => d,
            None => owned("."),
        };
        let mut dir = base;
        if !crate::text::ends_with(dir.as_str(), "/") {
            push_char(&mut dir, '/');
        }
        let ghost head = dir@;
        let dir = dir.concat("typst/packages/local");
        proof {
            reveal_strlit("/");
            reveal_strlit("typst/packages/local");
            reveal_strlit("/typst/packages/local");
            assert(head.len() > 0 && head.last() == '/') by {
                if head.len() > 0 {
                    assert(head.subrange(head.len() - 1, head.len() as int)[0] == head.last());
                }
            }
            let n = dir@.len();
            assert(dir@.subrange(n - 21, n as int) =~= "/typst/packages/local"@) by {
                assert forall|i: int| 0 <= i < 21 implies #[trigger] dir@.subrange(n - 21, n as int)[i]
                    == "/typst/packages/local"@[i] by {
                    if i == 0 {
                        assert(dir@[n - 21] == head.last());
                    } else {
                        assert(dir@[n - 21 + i] == "typst/packages/local"@[i - 1]);
                    }
                }
            }
        }
        PathConfig {
            notes_dir: owned("notes"),
            obsidian_dir: owned("obsidian-vault"),
            templates_dir: owned("templates"),
            typst_packages_dir: dir,
        }
    }
}

impl Default for NotePreferences {
    fn default() -> (r: NotePreferences)
        ensures
            r.auto_open,
            r.include_date_in_title,
            r.lecture_sections@.len() == 7,
            r.lecture_sections@[0]@ == "Key Concepts"@,
            r.lecture_sections@[1]@ == "Mathematical Framework"@,
            r.lecture_sections@[2]@ == "Examples"@,
            r.lecture_sections@[3]@ == "Important Points"@,
            r.lecture_sections@[4]@ == "Questions & Follow-up"@,
            r.lecture_sections@[5]@ == "Connections to Previous Material"@,
            r.lecture_sections@[6]@ == "Next Class Preview"@,
            r.assignment_sections@.len() == 3,
            r.assignment_sections@[0]@ == "Problem 1"@,
            r.assignment_sections@[1]@ == "Problem 2"@,
            r.assignment_sections@[2]@ == "Problem 3"@,
            r.lecture_sections@.map_values(|x: String| x@) == default_lecture_sections(),
            r.assignment_sections@.map_values(|x: String| x@) == default_assignment_sections(),
            !r.create_backups,
    {
        let lecture = [
            "Key Concepts",
            "Mathematical Framework",
            "Examples",
            "Important Points",
            "Questions & Follow-up",
            "Connections to Previous Material",
            "Next Class Preview",
        ];
        let assignment = ["Problem 1", "Problem 2", "Problem 3"];
        let lecture_sections = strings_of(&lecture);
        let assignment_sections = strings_of(&assignment);
        proof {
            assert(lecture_sections@.map_values(|x: String| x@) =~= default_lecture_sections());
            assert(assignment_sections@.map_values(|x: String| x@) =~= default_assignment_sections());
        }
        NotePreferences {
            auto_open: true,
            include_date_in_title: true,
            lecture_sections,
            assignment_sections,
            create_backups: false,
        }
    }
}

impl Default for TypstConfig {
    fn default() -> (r: TypstConfig)
        ensures
            r.compile_args@.len() == 0,
            r.watch_args@.len() == 0,
            !r.clean_before_compile,
            r.output_dir is None,
    {
        TypstConfig {
            compile_args: Vec::new(),
            watch_args: Vec::new(),
            clean_before_compile: false,
            output_dir: None,
        }
    }
}

impl Default for SearchConfig {
    fn default() -> (r: SearchConfig)
        ensures
            r.max_results == 50,
            r.context_lines == 2,
            !r.case_sensitive,
            r.file_extensions@.len() == 2,
            r.file_extensions@[0]@ == "typ"@,
            r.file_extensions@[1]@ == "md"@,
    {
        let exts = ["typ", "md"];
        SearchConfig {
            max_results: 50,
            context_lines: 2,
            case_sensitive: false,
            file_extensions: strings_of(&exts),
        }
    }
}

impl Default for Config {
    /// A placeholder author, no editor, version 0.1.0, "2024 Spring" style
    /// semesters, and seven common courses.
    fn default() -> (r: Config)
        ensures
            r.author@ == "Your Name"@,
            r.preferred_editor is None,
            r.template_version@ == "0.1.0"@,
            r.semester_format is YearSeason,
            r.note_preferences.auto_open,
            r.note_preferences.include_date_in_title,
            r.note_preferences.lecture_sections@.map_values(|x: String| x@) == default_lecture_sections(),
            r.note_preferences.assignment_sections@.map_values(|x: String| x@)
                == default_assignment_sections(),
            !r.note_preferences.create_backups,
            r.paths.notes_dir@ == "notes"@,
            r.paths.obsidian_dir@ == "obsidian-vault"@,
            r.paths.templates_dir@ == "templates"@,
            crate::text::has_suffix(r.paths.typst_packages_dir@, "/typst/packages/local"@),
            r.search.max_results == 50,
            pair_texts(r.courses@) == default_courses(),
            unique_codes(r.courses@),
            forall|k: int|
                0 <= k < 7 ==> course_lookup(r.courses@, #[trigger] default_courses()[k].0) == Some(
                    default_courses()[k].1,
                ),
            forall|id: Seq<char>|
                (forall|k: int| 0 <= k < 7 ==> #[trigger] default_courses()[k].0 != id) ==> course_lookup(
                    r.courses@,
                    id,
                ) is None,
    {
        let mut courses: Vec<(String, String)> = Vec::new();
        courses.push((owned("01005"), owned("Advanced Engineering Mathematics 1")));
        courses.push((owned("01006"), owned("Advanced Engineering Mathematics 2")));
        courses.push((owned("01017"), owned("Discrete Mathematics")));
        courses.push((owned("02101"), owned("Introduction to Programming")));
        courses.push((owned("02102"), owned("Algorithms and Data Structures")));
        courses.push((owned("25200"), owned("Classical Physics 1")));
        courses.push((owned("22100"), owned("Electronics 1")));
        proof {
            reveal_strlit("01005");
            reveal_strlit("01006");
            reveal_strlit("01017");
            reveal_strlit("02101");
            reveal_strlit("02102");
            reveal_strlit("25200");
            reveal_strlit("22100");
            let cs = courses@;
            let d1 = cs.drop_first();
            let d2 = d1.drop_first();
            let d3 = d2.drop_first();
            let d4 = d3.drop_first();
            let d5 = d4.drop_first();
            assert(d1[0] == cs[1] && d2[0] == cs[2] && d3[0] == cs[3] && d4[0] == cs[4] && d5[0] == cs[5]);
            assert(cs[1].0@[4] != '1' && cs[2].0@[4] != '1');
            assert(cs[0].0@[0] != '2' && cs[1].0@[0] != '2' && cs[2].0@[0] != '2');
            assert(cs[3].0@[1] != '5' && cs[4].0@[1] != '5');
            reveal_with_fuel(course_lookup, 7);
            assert forall|a: int, b: int| 0 <= a < b < cs.len() implies (#[trigger] cs[a]).0@ != (
            #[trigger] cs[b]).0@ by {
                assert(cs[a].0@[4] != cs[b].0@[4] || cs[a].0@[1] != cs[b].0@[1] || cs[a].0@[3]
                    != cs[b].0@[3] || cs[a].0@[0] != cs[b].0@[0] || cs[a].0@[2] != cs[b].0@[2]);
            }
            assert(pair_texts(cs) =~= default_courses());
            assert forall|k: int| 0 <= k < 7 implies course_lookup(cs, #[trigger] default_courses()[k].0)
                == Some(default_courses()[k].1) by {
                assert(cs[k].0@ == default_courses()[k].0);
                assert forall|j: int| 0 <= j < k implies (#[trigger] cs[j]).0@ != default_courses()[k].0 by {
                    assert(cs[j].0@ != cs[k].0@);
                }
                lemma_lookup_at(cs, default_courses()[k].0, k);
            }
            assert forall|id: Seq<char>|
                (forall|k: int| 0 <= k < 7 ==> #[trigger] default_courses()[k].0 != id) implies course_lookup(
                cs,
                id,
            ) is None by {
                assert forall|i: int| 0 <= i < cs.len() implies (#[trigger] cs[i]).0@ != id by {
                    assert(cs[i].0@ == default_courses()[i].0);
                }
                lemma_lookup_absent(cs, id);
            }
        }
        Config {
            author: owned("Your Name"),
            preferred_editor: None,
            template_version: owned("0.1.0"),
            semester_format: SemesterFormat::YearSeason,
            note_preferences: NotePreferences::default(),
            paths: PathConfig::default(),
            typst: TypstConfig::default(),
            search: SearchConfig::default(),
            courses,
        }
    }
}


proof fn lemma_lookup_absent(cs: Seq<(String, String)>, id: Seq<char>)
    requires
        forall|i: int| 0 <= i < cs.len() ==> (#[trigger] cs[i]).0@ != id,
    ensures
        course_lookup(cs, id) is None,
    decreases cs.len(),
{
    if cs.len() > 0 {
        let rest = cs.drop_first();
        assert forall|i: int| 0 <= i < rest.len() implies (#[trigger] rest[i]).0@ != id by {
            assert(rest[i] == cs[i + 1]);
        }
        lemma_lookup_absent(rest, id);
    }
}

proof fn lemma_lookup_at(cs: Seq<(String, String)>, id: Seq<char>, k: int)
    requires
        0 <= k < cs.len(),
        cs[k].0@ == id,
        forall|i: int| 0 <= i < k ==> (#[trigger] cs[i]).0@ != id,
    ensures
        course_lookup(cs, id) == Some(cs[k].1@),
    decreases k,
{
    if k > 0 {
        let rest = cs.drop_first();
        assert(rest[k - 1] == cs[k]);
        assert forall|i: int| 0 <= i < k - 1 implies (#[trigger] rest[i]).0@ != id by {
            assert(rest[i] == cs[i + 1]);
        }
        lemma_lookup_at(rest, id, k - 1);
    }
}

/// With unique codes, a lookup finds the entry with that code, or none.
proof fn lemma_lookup_unique(cs: Seq<(String, String)>, id: Seq<char>)
    requires
        unique_codes(cs),
    ensures
        (exists|k: int| 0 <= k < cs.len() && (#[trigger] cs[k]).0@ == id) ==> ({
            let k = choose|k: int| 0 <= k < cs.len() && (#[trigger] cs[k]).0@ == id;
            course_lookup(cs, id) == Some(cs[k].1@)
        }),
        (forall|k: int| 0 <= k < cs.len() ==> (#[trigger] cs[k]).0@ != id) ==> course_lookup(cs, id) is None,
{
    if exists|k: int| 0 <= k < cs.len() && (#[trigger] cs[k]).0@ == id {
        let k = choose|k: int| 0 <= k < cs.len() && (#[trigger] cs[k]).0@ == id;
        assert forall|i: int| 0 <= i < k implies (#[trigger] cs[i]).0@ != id by {
            assert(cs[i].0@ != cs[k].0@);
        }
        lemma_lookup_at(cs, id, k);
    } else {
        lemma_lookup_absent(cs, id);
    }
}

/// The same registered courses, lookup for lookup.
pub open spec fn same_courses(a: Seq<(String, String)>, b: Seq<(String, String)>, except: Seq<char>) -> bool {
    forall|other: Seq<char>| other != except ==> course_lookup(a, other) == course_lookup(b, other)
}

impl Config {
    /// The position of course `id`, if it is registered.
    fn course_index(&self, course_id: &str) -> (r: Option<usize>)
        ensures
            r matches Some(k) ==> k < self.courses@.len() && self.courses@[k as int].0@ == course_id@
                && forall|j: int| 0 <= j < k ==> (#[trigger] self.courses@[j]).0@ != course_id@,
            r is None ==> forall|k: int| 0 <= k < self.courses@.len() ==> (#[trigger] self.courses@[k]).0@ != course_id@,
    {
        let mut i: usize = 0;
        while i < self.courses.len()
            invariant
                i <= self.courses@.len(),
                forall|k: int| 0 <= k < i ==> (#[trigger] self.courses@[k]).0@ != course_id@,
            decreases self.courses@.len() - i,
        {
            if same_text(self.courses[i].0.as_str(), course_id) {
                return Some(i);
            }
            i = i + 1;
        }
        None
    }

    /// Sets the author name.
    pub fn set_author(&mut self, author: String)
        ensures
            *final(self) == (Config { author, ..*old(self) }),
    {
        self.author = author;
    }

    /// Sets or clears the preferred editor.
    pub fn set_editor(&mut self, editor: Option<String>)
        ensures
            *final(self) == (Config { preferred_editor: editor, ..*old(self) }),
    {
        self.preferred_editor = editor;
    }

    /// The semester text for `year` and half-year (see `semester_text`).
    pub fn format_semester(&self, year: i32, is_spring: bool) -> (r: String)
        ensures
            r@ == semester_text(self.semester_format, year as int, is_spring),
    {
        let y = Self::year_text(year as i64);
        let season_name = if is_spring { owned("Spring") } else { owned("Fall") };
        let letter = if is_spring { owned("S") } else { owned("F") };
        let y64 = year as i64;
        let short: i64 = if y64 >= 0 { y64 % 100 } else { -((-y64) % 100) };
        let yy = if 0 <= short && short < 10 {
            owned("0").concat(Self::year_text(short).as_str())
        } else {
            Self::year_text(short)
        };
        match &self.semester_format {
            SemesterFormat::YearSeason => y.concat(" ").concat(season_name.as_str()),
            SemesterFormat::SeasonYear => season_name.concat(" ").concat(y.as_str()),
            SemesterFormat::ShortForm => letter.concat(yy.as_str()),
            SemesterFormat::Custom(format) => {
                proof {
                    reveal_strlit("{year}");
                    reveal_strlit("{season}");
                    reveal_strlit("{s}");
                    reveal_strlit("{yy}");
                }
                let a = replace_all(format.as_str(), "{year}", y.as_str());
                let b = replace_all(a.as_str(), "{season}", season_name.as_str());
                let c = replace_all(b.as_str(), "{s}", letter.as_str());
                replace_all(c.as_str(), "{yy}", yy.as_str())
            },
        }
    }

    fn year_text(n: i64) -> (r: String)
        requires
            -0x8000_0000 <= n <= 0x7fff_ffff,
        ensures
            r@ == int_text(n as int),
    {
        if n < 0 {
            let mut r = owned("");
            push_char(&mut r, '-');
            let d = decimal_string((-n) as usize);
            let r2 = r.concat(d.as_str());
            proof {
                reveal_strlit("");
                assert(r@ =~= seq!['-']);
            }
            r2
        } else {
            decimal_string(n as usize)
        }
    }

    /// Registers a course, replacing the name of one already registered under
    /// that code.
    pub fn add_course(&mut self, course_id: String, course_name: String)
        requires
            unique_codes(old(self).courses@),
        ensures
            unique_codes(final(self).courses@),
            course_lookup(final(self).courses@, course_id@) == Some(course_name@),
            same_courses(final(self).courses@, old(self).courses@, course_id@),
    {
        let ghost old_cs = self.courses@;
        let ghost id = course_id@;
        let ghost name = course_name@;
        match self.course_index(course_id.as_str()) {
            Some(k) => {
                self.courses.set(k, (course_id, course_name));
                proof {
                    let cs = self.courses@;
                    assert(cs == old_cs.update(k as int, cs[k as int]));
                    assert forall|a: int, b: int| 0 <= a < b < cs.len() implies (#[trigger] cs[a]).0@
                        != (#[trigger] cs[b]).0@ by {
                        assert(old_cs[a].0@ != old_cs[b].0@);
                    }
                    lemma_lookup_unique(cs, id);
                    assert(cs[k as int].0@ == id);
                    assert forall|other: Seq<char>| other != id implies course_lookup(cs, other)
                        == course_lookup(old_cs, other) by {
                        lemma_lookup_unique(cs, other);
                        lemma_lookup_unique(old_cs, other);
                        if exists|j: int| 0 <= j < cs.len() && (#[trigger] cs[j]).0@ == other {
                            let j = choose|j: int| 0 <= j < cs.len() && (#[trigger] cs[j]).0@ == other;
                            assert(old_cs[j].0@ == other);
                        } else {
                            assert forall|j: int| 0 <= j < old_cs.len() implies (#[trigger] old_cs[j]).0@ != other by {
                                assert(cs[j].0@ != other);
                            }
                        }
                    }
                }
            },
            None => {
                self.courses.push((course_id, course_name));
                proof {
                    let cs = self.courses@;
                    let k = cs.len() - 1;
                    assert forall|a: int, b: int| 0 <= a < b < cs.len() implies (#[trigger] cs[a]).0@
                        != (#[trigger] cs[b]).0@ by {
                        if b < k {
                            assert(old_cs[a].0@ != old_cs[b].0@);
                        } else {
                            assert(old_cs[a].0@ != id);
                        }
                    }
                    lemma_lookup_unique(cs, id);
                    assert(cs[k].0@ == id);
                    assert forall|other: Seq<char>| other != id implies course_lookup(cs, other)
                        == course_lookup(old_cs, other) by {
                        lemma_lookup_unique(cs, other);
                        lemma_lookup_unique(old_cs, other);
                        if exists|j: int| 0 <= j < cs.len() && (#[trigger] cs[j]).0@ == other {
                            let j = choose|j: int| 0 <= j < cs.len() && (#[trigger] cs[j]).0@ == other;
                            assert(j != k);
                            assert(old_cs[j].0@ == other);
                        } else {
                            assert forall|j: int| 0 <= j < old_cs.len() implies (#[trigger] old_cs[j]).0@ != other by {
                                assert(cs[j].0@ != other);
                            }
                        }
                    }
                }
            },
        }
    }

    /// Unregisters a course; tells whether it was registered.
    pub fn remove_course(&mut self, course_id: &str) -> (r: bool)
        requires
            unique_codes(old(self).courses@),
        ensures
            r == course_lookup(old(self).courses@, course_id@).is_some(),
            unique_codes(final(self).courses@),
            course_lookup(final(self).courses@, course_id@) is None,
            same_courses(final(self).courses@, old(self).courses@, course_id@),
    {
        let ghost old_cs = self.courses@;
        let ghost id = course_id@;
        proof {
            lemma_lookup_unique(old_cs, id);
        }
        match self.course_index(course_id) {
            Some(k) => {
                let _removed = self.courses.remove(k);
                proof {
                    let cs = self.courses@;
                    assert(cs =~= old_cs.remove(k as int));
                    assert forall|a: int, b: int| 0 <= a < b < cs.len() implies (#[trigger] cs[a]).0@
                        != (#[trigger] cs[b]).0@ by {
                        let a2 = if a < k { a } else { a + 1 };
                        let b2 = if b < k { b } else { b + 1 };
                        assert(cs[a] == old_cs[a2] && cs[b] == old_cs[b2]);
                        assert(old_cs[a2].0@ != old_cs[b2].0@);
                    }
                    assert forall|j: int| 0 <= j < cs.len() implies (#[trigger] cs[j]).0@ != id by {
                        let j2 = if j < k { j } else { j + 1 };
                        assert(cs[j] == old_cs[j2]);
                        assert(old_cs[j2].0@ != old_cs[k as int].0@);
                    }
                    lemma_lookup_unique(cs, id);
                    assert forall|other: Seq<char>| other != id implies course_lookup(cs, other)
                        == course_lookup(old_cs, other) by {
                        lemma_lookup_unique(cs, other);
                        lemma_lookup_unique(old_cs, other);
                        if exists|j: int| 0 <= j < cs.len() && (#[trigger] cs[j]).0@ == other {
                            let j = choose|j: int| 0 <= j < cs.len() && (#[trigger] cs[j]).0@ == other;
                            let j2 = if j < k { j } else { j + 1 };
                            assert(cs[j] == old_cs[j2]);
                        } else {
                            assert forall|j: int| 0 <= j < old_cs.len() implies (#[trigger] old_cs[j]).0@ != other by {
                                if j < k {
                                    assert(cs[j] == old_cs[j]);
                                } else if j > k {
                                    assert(cs[j - 1] == old_cs[j]);
                                }
                            }
                        }
                    }
                }
                true
            },
            None => {
                proof {
                    assert forall|other: Seq<char>| other != id implies course_lookup(self.courses@, other)
                        == course_lookup(old_cs, other) by {}
                }
                false
            },
        }
    }

    /// The name registered for a course, or the empty string.
    pub fn get_course_name(&self, course_id: &str) -> (r: String)
        ensures
            r@ == match course_lookup(self.courses@, course_id@) {
                Some(name) => name,
                None => Seq::empty(),
            },
    {
        match self.course_index(course_id) {
            Some(k) => {
                proof {
                    lemma_lookup_at(self.courses@, course_id@, k as int);
                }
                self.courses[k].1.clone()
            },
            None => {
                proof {
                    lemma_lookup_absent(self.courses@, course_id@);
                }
                String::new()
            },
        }
    }

    fn code_le(a: &str, b: &str) -> (r: bool)
        ensures
            r == text_le(a@, b@),
    {
        let n = a.unicode_len();
        let m = b.unicode_len();
        let mut i: usize = 0;
        assert(a@.subrange(0, n as int) =~= a@);
        assert(b@.subrange(0, m as int) =~= b@);
        while i < n
            invariant
                n == a@.len(),
                m == b@.len(),
                i <= n,
                i <= m,
                forall|k: int| 0 <= k < i ==> k < m && a@[k] == b@[k],
                text_le(a@, b@) == text_le(a@.subrange(i as int, n as int), b@.subrange(i as int, m as int)),
            decreases n - i,
        {
            let ghost sa = a@.subrange(i as int, n as int);
            let ghost sb = b@.subrange(i as int, m as int);
            if i >= m {
                assert(sb.len() == 0);
                return false;
            }
            let x = a.get_char(i);
            let y = b.get_char(i);
            assert(sa[0] == x && sb[0] == y);
            if x != y {
                return (x as u32) < (y as u32);
            }
            assert(sa.drop_first() =~= a@.subrange(i + 1, n as int));
            assert(sb.drop_first() =~= b@.subrange(i + 1, m as int));
            i = i + 1;
        }
        true
    }

    /// The registered courses sorted by code.
    pub fn list_courses(&self) -> (r: Vec<(String, String)>)
        ensures
            r@.len() == self.courses@.len(),
            sorted_by_code(r@),
            forall|i: int| 0 <= i < r@.len() ==> self.courses@.contains(#[trigger] r@[i]),
            forall|i: int| 0 <= i < self.courses@.len() ==> r@.contains(#[trigger] self.courses@[i]),
    {
        let mut r: Vec<(String, String)> = Vec::new();
        let mut i: usize = 0;
        while i < self.courses.len()
            invariant
                i <= self.courses@.len(),
                r@.len() == i,
                sorted_by_code(r@),
                forall|k: int| 0 <= k < r@.len() ==> self.courses@.subrange(0, i as int).contains(#[trigger] r@[k]),
                forall|k: int| 0 <= k < i ==> r@.contains(#[trigger] self.courses@[k]),
            decreases self.courses@.len() - i,
        {
            let entry = (self.courses[i].0.clone(), self.courses[i].1.clone());
            assert(entry == self.courses@[i as int]);
            let mut p: usize = 0;
            while p < r.len() && Self::code_le(r[p].0.as_str(), entry.0.as_str())
                invariant
                    p <= r@.len(),
                    forall|k: int| 0 <= k < p ==> text_le((#[trigger] r@[k]).0@, entry.0@),
                decreases r@.len() - p,
            {
                p = p + 1;
            }
            let ghost before = r@;
            proof {
                if p < before.len() {
                    assert(!text_le(before[p as int].0@, entry.0@));
                    lemma_text_le_total(before[p as int].0@, entry.0@);
                }
            }
            r.insert(p, entry);
            proof {
                let after = r@;
                assert(after == before.insert(p as int, entry));
                assert forall|a: int, b: int| 0 <= a < b < after.len() implies text_le(
                    (#[trigger] after[a]).0@,
                    (#[trigger] after[b]).0@,
                ) by {
                    if b < p {
                        assert(after[a] == before[a] && after[b] == before[b]);
                    } else if b == p {
                        assert(after[a] == before[a]);
                    } else if a == p {
                        assert(after[b] == before[b - 1]);
                        if b - 1 > p {
                            assert(text_le(before[p as int].0@, before[b - 1].0@));
                            lemma_text_le_trans(entry.0@, before[p as int].0@, before[b - 1].0@);
                        }
                    } else if a < p {
                        assert(after[a] == before[a] && after[b] == before[b - 1]);
                    } else {
                        assert(after[a] == before[a - 1] && after[b] == before[b - 1]);
                    }
                }
                let done = self.courses@.subrange(0, i + 1);
                assert forall|k: int| 0 <= k < after.len() implies done.contains(#[trigger] after[k]) by {
                    if k == p {
                        assert(done[i as int] == entry);
                    } else {
                        let k2 = if k < p { k } else { k - 1 };
                        assert(after[k] == before[k2]);
                        let w = choose|w: int| 0 <= w < i && self.courses@.subrange(0, i as int)[w] == before[k2];
                        assert(done[w] == before[k2]);
                    }
                }
                assert forall|k: int| 0 <= k < i + 1 implies after.contains(#[trigger] self.courses@[k]) by {
                    if k == i {
                        assert(after[p as int] == entry);
                    } else {
                        let w = choose|w: int| 0 <= w < before.len() && before[w] == self.courses@[k];
                        if w < p {
                            assert(after[w] == before[w]);
                        } else {
                            assert(after[w + 1] == before[w]);
                        }
                    }
                }
            }
            i = i + 1;
        }
        assert(self.courses@.subrange(0, i as int) =~= self.courses@);
        r
    }

    /// The editors to try, in order, without repeats: the preferred one, then
    /// the platform's defaults.
    pub fn get_editor_list(&self, on_windows: bool) -> (r: Vec<String>)
        ensures
            r@.map_values(|s: String| s@) == dedup(editor_candidates(self.preferred_editor, on_windows)),
    {
        let mut editors: Vec<String> = Vec::new();
        if let Some(p) = &self.preferred_editor {
            editors.push(p.clone());
        }
        if on_windows {
            editors.push(owned("code"));
            editors.push(owned("notepad"));
        } else {
            editors.push(owned("code"));
            editors.push(owned("nvim"));
            editors.push(owned("vim"));
            editors.push(owned("nano"));
        }
        let ghost all = editors@.map_values(|s: String| s@);
        assert(all =~= editor_candidates(self.preferred_editor, on_windows));
        let mut unique: Vec<String> = Vec::new();
        let mut i: usize = 0;
        while i < editors.len()
            invariant
                i <= editors@.len(),
                all == editors@.map_values(|s: String| s@),
                unique@.map_values(|s: String| s@) == dedup(all.subrange(0, i as int)),
            decreases editors@.len() - i,
        {
            assert(all.subrange(0, i + 1).drop_last() =~= all.subrange(0, i as int));
            let mut seen = false;
            let mut j: usize = 0;
            while j < unique.len()
                invariant
                    j <= unique@.len(),
                    i < editors@.len(),
                    seen == exists|t: int| 0 <= t < j && unique@[t]@ == editors@[i as int]@,
                decreases unique@.len() - j,
            {
                if same_text(unique[j].as_str(), editors[i].as_str()) {
                    seen = true;
                }
                j = j + 1;
            }
            let ghost u = unique@.map_values(|s: String| s@);
            assert(seen == u.contains(all[i as int])) by {
                if seen {
                    let t = choose|t: int| 0 <= t < j && unique@[t]@ == editors@[i as int]@;
                    assert(u[t] == all[i as int]);
                }
                if u.contains(all[i as int]) {
                    let t = choose|t: int| 0 <= t < u.len() && u[t] == all[i as int];
                    assert(unique@[t]@ == editors@[i as int]@);
                }
            }
            if !seen {
                unique.push(editors[i].clone());
                assert(unique@.map_values(|s: String| s@) =~= u.push(all[i as int]));
            }
            i = i + 1;
        }
        assert(all.subrange(0, i as int) =~= all);
        unique
    }

    /// Warnings about settings left at their defaults or out of range.
    pub fn validate(&self, templates_dir_exists: bool) -> (r: Vec<String>)
        ensures
            r@.map_values(|s: String| s@) == config_warnings(
                self.author@,
                self.search.max_results,
                self.paths.templates_dir@,
                templates_dir_exists,
            ),
    {
        let mut warnings: Vec<String> = Vec::new();
        if same_text(self.author.as_str(), "Your Name") {
            warnings.push(owned("Author name is set to default value"));
        }
        if self.search.max_results == 0 {
            warnings.push(owned("Max search results is set to 0"));
        }
        if !templates_dir_exists {
            let w = owned("Template directory '").concat(self.paths.templates_dir.as_str()).concat(
                "' doesn't exist",
            );
            warnings.push(w);
        }
        assert(warnings@.map_values(|s: String| s@) =~= config_warnings(
            self.author@,
            self.search.max_results,
            self.paths.templates_dir@,
            templates_dir_exists,
        ));
        warnings
    }
}

/// Text order, character by character (the order of `String`).
pub open spec fn text_le(a: Seq<char>, b: Seq<char>) -> bool
    decreases a.len(),
{
    if a.len() == 0 {
        true
    } else if b.len() == 0 {
        false
    } else if a[0] != b[0] {
        (a[0] as u32) < (b[0] as u32)
    } else {
        text_le(a.drop_first(), b.drop_first())
    }
}

proof fn lemma_text_le_total(a: Seq<char>, b: Seq<char>)
    ensures
        text_le(a, b) || text_le(b, a),
    decreases a.len(),
{
    if a.len() > 0 && b.len() > 0 && a[0] == b[0] {
        lemma_text_le_total(a.drop_first(), b.drop_first());
    } else if a.len() > 0 && b.len() > 0 {
        assert((a[0] as u32) != (b[0] as u32)) by {
            vstd::utf8::char_u32_cast(a[0], a[0] as u32);
            vstd::utf8::char_u32_cast(b[0], b[0] as u32);
        }
    }
}

proof fn lemma_text_le_trans(a: Seq<char>, b: Seq<char>, c: Seq<char>)
    requires
        text_le(a, b),
        text_le(b, c),
    ensures
        text_le(a, c),
    decreases a.len(),
{
    if a.len() > 0 && b.len() > 0 && c.len() > 0 && a[0] == b[0] && b[0] == c[0] {
        lemma_text_le_trans(a.drop_first(), b.drop_first(), c.drop_first());
    }
}

/// Codes in text order.
pub open spec fn sorted_by_code(cs: Seq<(String, String)>) -> bool {
    forall|i: int, j: int| 0 <= i < j < cs.len() ==> text_le((#[trigger] cs[i]).0@, (#[trigger] cs[j]).0@)
}

/// The warnings of `Config::validate`.
pub open spec fn config_warnings(
    author: Seq<char>,
    max_results: usize,
    templates_dir: Seq<char>,
    templates_dir_exists: bool,
) -> Seq<Seq<char>> {
    (if author == "Your Name"@ {
        seq!["Author name is set to default value"@]
    } else {
        Seq::empty()
    }) + (if max_results == 0 {
        seq!["Max search results is set to 0"@]
    } else {
        Seq::empty()
    }) + (if !templates_dir_exists {
        seq!["Template directory '"@ + templates_dir + "' doesn't exist"@]
    } else {
        Seq::empty()
    })
}

} // verus!
