//! Searching note text: where a query occurs in a line, which files are
//! searched, and the matches of one file's text.

use vstd::prelude::*;
use vstd::utf8::encode_utf8;
use crate::template_engine::line_split;
use crate::text::{lower_of, lowercase, owned, push_char, same_text, trim, trimmed};

verus! {

/// One line that holds the query.
#[derive(Debug, Clone)]
pub struct SearchMatch {
    pub file_path: String,
    /// Counted from 1.
    pub line_number: usize,
    /// The line, trimmed.
    pub line_content: String,
    /// Byte offset of the match in the untrimmed line (in its lower-case form
    /// when the search ignores case).
    pub match_start: usize,
    /// `match_start` plus the byte length of the query.
    pub match_end: usize,
}

#[derive(Debug, Clone)]
pub struct SearchOptions {
    pub case_sensitive: bool,
    pub max_results: usize,
    pub context_lines: usize,
    /// Extensions of the files searched, in lower case, without the dot.
    pub file_extensions: Vec<String>,
}

/// `needle` occurs in `hay` at byte `i`.
pub open spec fn bytes_at(hay: Seq<u8>, needle: Seq<u8>, i: int) -> bool {
    0 <= i && i + needle.len() <= hay.len() && hay.subrange(i, i + needle.len()) == needle
}

/// `r` is the first position of `needle` in `hay`, or `None` when there is none.
pub open spec fn first_bytes_at(hay: Seq<u8>, needle: Seq<u8>, r: Option<usize>) -> bool {
    match r {
        Some(p) => bytes_at(hay, needle, p as int) && forall|j: int| 0 <= j < p ==> !bytes_at(hay, needle, j),
        None => forall|j: int| !bytes_at(hay, needle, j),
    }
}

/// The text searched in: the line itself, or its lower-case form.
pub open spec fn searched_text(s: Seq<char>, case_sensitive: bool) -> Seq<char> {
    if case_sensitive {
        s
    } else {
        lower_of(s)
    }
}

/// A line without the carriage return of a CR LF line ending.
pub open spec fn without_cr(line: Seq<char>) -> Seq<char> {
    if line.len() > 0 && line.last() == '\r' {
        line.drop_last()
    } else {
        line
    }
}

/// The lines of a text as `str::lines` gives them: split at line feeds, a
/// carriage return before a line feed dropped, no empty last line.
pub open spec fn text_lines(s: Seq<char>) -> Seq<Seq<char>> {
    line_split(s).0.map_values(|l: Seq<char>| without_cr(l)) + if line_split(s).1.len() > 0 {
        seq![line_split(s).1]
    } else {
        Seq::empty()
    }
}

/// A line holds the query, at a position whose match end fits in a word.
pub open spec fn line_hit(line: Seq<char>, query: Seq<char>, case_sensitive: bool) -> bool {
    exists|p: usize|
        first_bytes_at(
            encode_utf8(searched_text(line, case_sensitive)),
            encode_utf8(searched_text(query, case_sensitive)),
            Some(p),
        ) && p + encode_utf8(query).len() <= usize::MAX
}

/// The indices of the lines that hold the query, in order.
pub open spec fn hit_lines(lines: Seq<Seq<char>>, query: Seq<char>, case_sensitive: bool) -> Seq<int>
    decreases lines.len(),
{
    if lines.len() == 0 {
        Seq::empty()
    } else {
        hit_lines(lines.drop_last(), query, case_sensitive) + if line_hit(lines.last(), query, case_sensitive) {
            seq![lines.len() - 1]
        } else {
            Seq::empty()
        }
    }
}

/// `m` is the match of line `i` (counted from 0) of a file.
pub open spec fn is_line_match(
    m: SearchMatch,
    file_path: Seq<char>,
    i: int,
    line: Seq<char>,
    query: Seq<char>,
    case_sensitive: bool,
) -> bool {
    &&& m.file_path@ == file_path
    &&& m.line_number == i + 1
    &&& m.line_content@ == trimmed(line)
    &&& first_bytes_at(
        encode_utf8(searched_text(line, case_sensitive)),
        encode_utf8(searched_text(query, case_sensitive)),
        Some(m.match_start),
    )
    &&& m.match_end == m.match_start + encode_utf8(query).len()
}

proof fn lemma_first_unique(h: Seq<u8>, q: Seq<u8>, a: usize, b: usize)
    requires
        first_bytes_at(h, q, Some(a)),
        first_bytes_at(h, q, Some(b)),
    ensures
        a == b,
{
    if a < b {
        assert(!bytes_at(h, q, a as int));
    } else if b < a {
        assert(!bytes_at(h, q, b as int));
    }
}

/// Search over notes.
pub struct SearchEngine;

impl SearchEngine {
    fn find_bytes(hay: &[u8], needle: &[u8]) -> (r: Option<usize>)
        ensures
            first_bytes_at(hay@, needle@, r),
    {
        let n = hay.len();
        let m = needle.len();
        if m > n {
            return None;
        }
        if m == 0 {
            assert(hay@.subrange(0, 0) =~= needle@);
            return Some(0);
        }
        let mut i: usize = 0;
        while i <= n - m
            invariant
                n == hay@.len(),
                m == needle@.len(),
                0 < m <= n,
                i <= n - m + 1,
                forall|j: int| 0 <= j < i ==> !bytes_at(hay@, needle@, j),
            decreases n - m + 1 - i,
        {
            let mut k: usize = 0;
            while k < m && hay[i + k] == needle[k]
                invariant
                    n == hay@.len(),
                    m == needle@.len(),
                    i + m <= n,
                    k <= m,
                    forall|t: int| 0 <= t < k ==> hay@[i + t] == needle@[t],
                decreases m - k,
            {
                k = k + 1;
            }
            if k == m {
                assert(hay@.subrange(i as int, i + m) =~= needle@);
                return Some(i);
            }
            assert(k < m);
            assert(hay@[i + k] != needle@[k as int]);
            assert(hay@.subrange(i as int, i + m)[k as int] == hay@[i + k]);
            i = i + 1;
        }
        assert forall|j: int| !bytes_at(hay@, needle@, j) by {
            if 0 <= j && j + m <= n {
                assert(j < i);
            }
        }
        None
    }

    /// The byte offset of the first occurrence of `query` in `line`; when the
    /// search ignores case, in the lower-case forms of both.
    pub fn find_match(line: &str, query: &str, case_sensitive: bool) -> (r: Option<usize>)
        ensures
            first_bytes_at(
                encode_utf8(searched_text(line@, case_sensitive)),
                encode_utf8(searched_text(query@, case_sensitive)),
                r,
            ),
    {
        if case_sensitive {
            let h = line.as_bytes();
            let q = query.as_bytes();
            assert(h@ == encode_utf8(line@));
            assert(q@ == encode_utf8(query@));
            Self::find_bytes(h, q)
        } else {
            let l = lowercase(line);
            let q = lowercase(query);
            Self::find_bytes(l.as_str().as_bytes(), q.as_str().as_bytes())
        }
    }

    /// Whether a file with this extension is searched: its lower-case form is
    /// one of the configured extensions. A file without an extension is not.
    pub fn should_search_file(extension: Option<&str>, options: &SearchOptions) -> (r: bool)
        ensures
            r == match extension {
                Some(e) => exists|i: int|
                    0 <= i < options.file_extensions@.len() && (#[trigger] options.file_extensions@[i])@
                        == lower_of(e@),
                None => false,
            },
    {
        match extension {
            Some(e) => {
                let lower = lowercase(e);
                let mut i: usize = 0;
                while i < options.file_extensions.len()
                    invariant
                        i <= options.file_extensions@.len(),
                        lower@ == lower_of(e@),
                        extension == Some(e),
                        forall|k: int| 0 <= k < i ==> (#[trigger] options.file_extensions@[k])@ != lower@,
                    decreases options.file_extensions@.len() - i,
                {
                    if same_text(options.file_extensions[i].as_str(), lower.as_str()) {
                        assert(options.file_extensions@[i as int]@ == lower_of(e@));
                        return true;
                    }
                    i = i + 1;
                }
                false
            },
            None => false,
        }
    }

    fn hit(
        file_path: &str,
        index: usize,
        line: &str,
        query: &str,
        case_sensitive: bool,
        results: &mut Vec<SearchMatch>,
    )
        requires
            index < usize::MAX,
        ensures
            line_hit(line@, query@, case_sensitive) ==> final(results)@.len() == old(results)@.len() + 1
                && final(results)@.subrange(0, old(results)@.len() as int) == old(results)@
                && is_line_match(final(results)@.last(), file_path@, index as int, line@, query@, case_sensitive),
            !line_hit(line@, query@, case_sensitive) ==> final(results)@ == old(results)@,
    {
        let found = Self::match_line(file_path, index + 1, line, query, case_sensitive);
        let ghost h = encode_utf8(searched_text(line@, case_sensitive));
        let ghost q = encode_utf8(searched_text(query@, case_sensitive));
        match found {
            Some(m) => {
                results.push(m);
                proof {
                    assert(results@.subrange(0, old(results)@.len() as int) =~= old(results)@);
                }
            },
            None => {
                proof {
                    if line_hit(line@, query@, case_sensitive) {
                        let p = choose|p: usize| first_bytes_at(h, q, Some(p)) && p + encode_utf8(query@).len() <= usize::MAX;
                        if !first_bytes_at(h, q, None) {
                            let p2 = choose|p2: usize| first_bytes_at(h, q, Some(p2)) && p2 + encode_utf8(query@).len() > usize::MAX;
                            lemma_first_unique(h, q, p, p2);
                        } else {
                            assert(bytes_at(h, q, p as int));
                        }
                    }
                }
            },
        }
    }

    /// The matches in the text of one file, one per line that holds the
    /// query, lines as `str::lines` gives them.
    pub fn search_in_text(file_path: &str, content: &str, query: &str, case_sensitive: bool) -> (r: Vec<SearchMatch>)
        ensures
            r@.len() == hit_lines(text_lines(content@), query@, case_sensitive).len(),
            forall|k: int|
                0 <= k < r@.len() ==> {
                    let i = #[trigger] hit_lines(text_lines(content@), query@, case_sensitive)[k];
                    0 <= i < text_lines(content@).len() && is_line_match(
                        r@[k],
                        file_path@,
                        i,
                        text_lines(content@)[i],
                        query@,
                        case_sensitive,
                    )
                },
    {
        let n = content.unicode_len();
        let mut results: Vec<SearchMatch> = Vec::new();
        let mut current = String::new();
        let mut count: usize = 0;
        let mut i: usize = 0;
        while i < n
            invariant
                n == content@.len(),
                i <= n,
                ({
                    let (done, cur) = line_split(content@.subrange(0, i as int));
                    let lines = done.map_values(|l: Seq<char>| without_cr(l));
                    &&& current@ == cur
                    &&& count == done.len()
                    &&& count + cur.len() <= i
                    &&& results@.len() == hit_lines(lines, query@, case_sensitive).len()
                    &&& forall|k: int|
                        0 <= k < results@.len() ==> {
                            let j = #[trigger] hit_lines(lines, query@, case_sensitive)[k];
                            0 <= j < lines.len() && is_line_match(results@[k], file_path@, j, lines[j], query@, case_sensitive)
                        }
                }),
            decreases n - i,
        {
            let ghost pre = content@.subrange(0, i as int);
            assert(content@.subrange(0, i + 1).drop_last() =~= pre);
            let c = content.get_char(i);
            if c == '\n' {
                let line = Self::without_cr_text(current.as_str());
                let ghost old_results = results@;
                let ghost done = line_split(pre).0;
                let ghost lines = done.map_values(|l: Seq<char>| without_cr(l));
                let ghost lines2 = done.push(current@).map_values(|l: Seq<char>| without_cr(l));
                assert(lines2 =~= lines.push(line@));
                assert(lines2.drop_last() =~= lines);
                Self::hit(file_path, count, line.as_str(), query, case_sensitive, &mut results);
                proof {
                    let hits = hit_lines(lines, query@, case_sensitive);
                    let hits2 = hit_lines(lines2, query@, case_sensitive);
                    assert forall|k: int| 0 <= k < results@.len() implies {
                        let j = #[trigger] hits2[k];
                        0 <= j < lines2.len() && is_line_match(results@[k], file_path@, j, lines2[j], query@, case_sensitive)
                    } by {
                        if k < old_results.len() {
                            assert(hits2[k] == hits[k]);
                            assert(results@[k] == old_results[k]);
                            assert(lines2[hits[k]] == lines[hits[k]]);
                        } else {
                            assert(hits2[k] == count as int);
                            assert(lines2[count as int] == line@);
                        }
                    }
                }
                current = String::new();
                count = count + 1;
            } else {
                push_char(&mut current, c);
            }
            i = i + 1;
        }
        assert(content@.subrange(0, n as int) =~= content@);
        let ghost done = line_split(content@).0;
        let ghost lines = done.map_values(|l: Seq<char>| without_cr(l));
        if current.unicode_len() > 0 {
            let ghost old_results = results@;
            let ghost all = lines.push(current@);
            assert(all =~= text_lines(content@));
            assert(all.drop_last() =~= lines);
            Self::hit(file_path, count, current.as_str(), query, case_sensitive, &mut results);
            proof {
                let hits = hit_lines(lines, query@, case_sensitive);
                let hits2 = hit_lines(all, query@, case_sensitive);
                assert forall|k: int| 0 <= k < results@.len() implies {
                    let j = #[trigger] hits2[k];
                    0 <= j < all.len() && is_line_match(results@[k], file_path@, j, all[j], query@, case_sensitive)
                } by {
                    if k < old_results.len() {
                        assert(hits2[k] == hits[k]);
                        assert(results@[k] == old_results[k]);
                        assert(all[hits[k]] == lines[hits[k]]);
                    } else {
                        assert(hits2[k] == count as int);
                        assert(all[count as int] == current@);
                    }
                }
            }
        } else {
            assert(lines =~= text_lines(content@));
        }
        results
    }

    fn without_cr_text(line: &str) -> (r: String)
        ensures
            r@ == without_cr(line@),
    {
        let n = line.unicode_len();
        if n > 0 && line.get_char(n - 1) == '\r' {
            let r = owned(line.substring_char(0, n - 1));
            assert(r@ =~= line@.drop_last());
            r
        } else {
            owned(line)
        }
    }

    /// The match of one line numbered `line_number`, if the line holds the query.
    pub fn match_line(file_path: &str, line_number: usize, line: &str, query: &str, case_sensitive: bool) -> (r:
        Option<SearchMatch>)
        ensures
            ({
                let q = encode_utf8(searched_text(query@, case_sensitive));
                let h = encode_utf8(searched_text(line@, case_sensitive));
                match r {
                    Some(m) => first_bytes_at(h, q, Some(m.match_start)) && m.file_path@ == file_path@
                        && m.line_number == line_number && m.line_content@ == trimmed(line@)
                        && m.match_end == m.match_start + encode_utf8(query@).len(),
                    None => first_bytes_at(h, q, None) || exists|p: usize|
                        first_bytes_at(h, q, Some(p)) && p + encode_utf8(query@).len() > usize::MAX,
                }
            }),
    {
        match Self::find_match(line, query, case_sensitive) {
            Some(pos) => {
                let len = query.as_bytes().len();
                if pos > usize::MAX - len {
                    return None;
                }
                Some(SearchMatch {
                    file_path: owned(file_path),
                    line_number,
                    line_content: trim(line),
                    match_start: pos,
                    match_end: pos + len,
                })
            },
            None => None,
        }
    }
}

} // verus!
