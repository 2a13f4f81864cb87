//! Input checks on course codes, paths and file names.

use vstd::prelude::*;
use crate::text::push_char;

verus! {

/// Lower case of an ASCII upper-case letter.
pub open spec fn ascii_lower(c: char) -> char {
    ((c as u8) + 32) as char
}

/// What a character of a title becomes in a file name: ASCII letters in lower
/// case, digits, `-` and `_` stay; Nordic letters fall back to their Latin base
/// letter; anything else becomes a dash.
pub open spec fn safe_char(c: char) -> char {
    if ('a' <= c && c <= 'z') || ('0' <= c && c <= '9') || c == '-' || c == '_' {
        c
    } else if 'A' <= c && c <= 'Z' {
        ascii_lower(c)
    } else if c == 'æ' || c == 'Æ' || c == 'å' || c == 'Å' || c == 'ä' || c == 'Ä' {
        'a'
    } else if c == 'ø' || c == 'Ø' || c == 'ö' || c == 'Ö' {
        'o'
    } else {
        '-'
    }
}

fn exec_safe_char(c: char) -> (r: char)
    ensures
        r == safe_char(c),
{
    if ('a' <= c && c <= 'z') || ('0' <= c && c <= '9') || c == '-' || c == '_' {
        c
    } else if 'A' <= c && c <= 'Z' {
        ((c as u8) + 32) as char
    } else if c == 'æ' || c == 'Æ' || c == 'å' || c == 'Å' || c == 'ä' || c == 'Ä' {
        'a'
    } else if c == 'ø' || c == 'Ø' || c == 'ö' || c == 'Ö' {
        'o'
    } else {
        '-'
    }
}


/// Collapses runs of dashes, reading `s` from the left. The first component is
/// the text written so far; the second says that a dash is pending, to be
/// written only if a further non-dash character follows. Leading dashes are
/// never pending, so the text neither starts nor ends with a dash.
pub open spec fn squeeze(s: Seq<char>) -> (Seq<char>, bool)
    decreases s.len(),
{
    if s.len() == 0 {
        (Seq::empty(), false)
    } else {
        let (out, pending) = squeeze(s.drop_last());
        let c = s.last();
        if c == '-' {
            (out, out.len() > 0)
        } else if pending {
            (out.push('-').push(c), false)
        } else {
            (out.push(c), false)
        }
    }
}

/// The file-name form of a title: each character mapped by `safe_char`, runs
/// of dashes collapsed to one, no dash at either end.
pub open spec fn sanitized(s: Seq<char>) -> Seq<char> {
    squeeze(s.map_values(|c: char| safe_char(c))).0
}

/// No dash at the start, none at the end, and no two dashes in a row.
pub open spec fn dash_clean(s: Seq<char>) -> bool {
    &&& (s.len() > 0 ==> s[0] != '-')
    &&& (s.len() > 0 ==> s.last() != '-')
    &&& forall|i: int| 0 <= i < s.len() - 1 ==> !(s[i] == '-' && #[trigger] s[i + 1] == '-')
}

/// Every character is one that `safe_char` keeps.
pub open spec fn all_safe(s: Seq<char>) -> bool {
    forall|i: int| 0 <= i < s.len() ==> safe_char(#[trigger] s[i]) == s[i]
}

proof fn lemma_squeeze_shape(s: Seq<char>)
    ensures
        ({
            let (out, pending) = squeeze(s);
            &&& (out.len() > 0 ==> out[0] != '-')
            &&& (out.len() > 0 ==> out.last() != '-')
            &&& (forall|i: int|
                0 <= i < out.len() - 1 ==> !(out[i] == '-' && #[trigger] out[i + 1] == '-'))
            &&& (pending ==> out.len() > 0)
            &&& (all_safe(s) ==> all_safe(out))
        }),
    decreases s.len(),
{
    if s.len() > 0 {
        let t = s.drop_last();
        lemma_squeeze_shape(t);
        let (out, pending) = squeeze(t);
        let c = s.last();
        if all_safe(s) {
            assert forall|i: int| 0 <= i < t.len() implies safe_char(#[trigger] t[i]) == t[i] by {
                assert(t[i] == s[i]);
            }
            assert(safe_char(s[s.len() - 1]) == s[s.len() - 1]);
        }
        if c == '-' {
        } else if pending {
            let o2 = out.push('-').push(c);
            assert forall|i: int| 0 <= i < o2.len() - 1 implies !(o2[i] == '-' && #[trigger] o2[i
                + 1] == '-') by {
                if i < out.len() - 1 {
                    assert(o2[i] == out[i] && o2[i + 1] == out[i + 1]);
                }
            }
            if all_safe(s) {
                assert forall|i: int| 0 <= i < o2.len() implies safe_char(#[trigger] o2[i])
                    == o2[i] by {
                    if i < out.len() {
                        assert(o2[i] == out[i]);
                    }
                }
            }
        } else {
            let o2 = out.push(c);
            assert forall|i: int| 0 <= i < o2.len() - 1 implies !(o2[i] == '-' && #[trigger] o2[i
                + 1] == '-') by {
                if i < out.len() - 1 {
                    assert(o2[i] == out[i] && o2[i + 1] == out[i + 1]);
                }
            }
            if all_safe(s) {
                assert forall|i: int| 0 <= i < o2.len() implies safe_char(#[trigger] o2[i])
                    == o2[i] by {
                    if i < out.len() {
                        assert(o2[i] == out[i]);
                    }
                }
            }
        }
    }
}

/// On text without leading or doubled dashes, squeezing only drops a trailing dash.
proof fn lemma_squeeze_keeps(t: Seq<char>)
    requires
        t.len() > 0 ==> t[0] != '-',
        forall|i: int| 0 <= i < t.len() - 1 ==> !(t[i] == '-' && #[trigger] t[i + 1] == '-'),
    ensures
        t.len() > 0 && t.last() == '-' ==> squeeze(t) == (t.drop_last(), true),
        !(t.len() > 0 && t.last() == '-') ==> squeeze(t) == (t, false),
    decreases t.len(),
{
    if t.len() > 0 {
        let u = t.drop_last();
        assert forall|i: int| 0 <= i < u.len() - 1 implies !(u[i] == '-' && #[trigger] u[i + 1]
            == '-') by {
            assert(u[i] == t[i] && u[i + 1] == t[i + 1]);
        }
        if u.len() > 0 {
            assert(u[0] == t[0]);
        }
        lemma_squeeze_keeps(u);
        let c = t.last();
        if c == '-' {
            if u.len() > 0 {
                assert(t[u.len() - 1] == u.last());
                assert(!(t[u.len() - 1] == '-' && t[u.len() - 1 + 1] == '-'));
            }
        } else if u.len() > 0 && u.last() == '-' {
            assert(u.drop_last().push('-').push(c) =~= t);
        } else {
            assert(u.push(c) =~= t);
        }
    }
}

/// Sanitising a file name twice gives the same result as once.
pub proof fn sanitize_idempotent(s: Seq<char>)
    ensures
        sanitized(sanitized(s)) == sanitized(s),
{
    let y = sanitized(s);
    sanitize_is_clean(s);
    assert(y.map_values(|c: char| safe_char(c)) =~= y);
    lemma_squeeze_keeps(y);
}

/// A sanitised file name has no dash at either end, no two dashes in a row, and
/// only lower-case ASCII letters, digits, `-` and `_`.
pub proof fn sanitize_is_clean(s: Seq<char>)
    ensures
        dash_clean(sanitized(s)),
        all_safe(sanitized(s)),
        forall|i: int|
            0 <= i < sanitized(s).len() ==> {
                let c = #[trigger] sanitized(s)[i];
                ('a' <= c && c <= 'z') || ('0' <= c && c <= '9') || c == '-' || c == '_'
            },
{
    let m = s.map_values(|c: char| safe_char(c));
    assert forall|i: int| 0 <= i < m.len() implies safe_char(#[trigger] m[i]) == m[i] by {
        lemma_safe_char_fixed(s[i]);
    }
    lemma_squeeze_shape(m);
    let y = sanitized(s);
    assert forall|i: int| 0 <= i < y.len() implies {
        let c = #[trigger] y[i];
        ('a' <= c && c <= 'z') || ('0' <= c && c <= '9') || c == '-' || c == '_'
    } by {
        lemma_safe_char_range(y[i]);
    }
}

proof fn lemma_safe_char_fixed(c: char)
    ensures
        safe_char(safe_char(c)) == safe_char(c),
{
    lemma_safe_char_range(c);
    let d = safe_char(c);
    if 'A' <= c && c <= 'Z' {
        assert(('a' <= d && d <= 'z')) by {
            assert((c as u8) as char == c);
        }
    }
}

proof fn lemma_safe_char_range(c: char)
    ensures
        safe_char(c) == c ==> {
            ||| ('a' <= c && c <= 'z')
            ||| ('0' <= c && c <= '9')
            ||| c == '-'
            ||| c == '_'
        },
{
}


/// A course code: exactly five ASCII digits.
pub open spec fn is_course_code(s: Seq<char>) -> bool {
    s.len() == 5 && forall|i: int| 0 <= i < s.len() ==> '0' <= #[trigger] s[i] && s[i] <= '9'
}

/// Why an input was refused.
#[derive(Debug, Clone, Copy, PartialEq, Eq, Structural)]
pub enum InputError {
    /// A course code whose length is not five.
    CourseIdLength,
    /// A course code of five characters that are not all digits.
    CourseIdDigits,
    /// An empty file path.
    EmptyPath,
}

impl InputError {
    /// The message shown to the user.
    pub fn message(&self) -> (r: String)
        ensures
            *self == InputError::CourseIdLength ==> r@
                == "Course ID must be exactly 5 characters long (e.g., 02101)"@,
            *self == InputError::CourseIdDigits ==> r@
                == "Course ID must contain only digits (e.g., 02101)"@,
            *self == InputError::EmptyPath ==> r@ == "File path cannot be empty"@,
    {
        match self {
            InputError::CourseIdLength => String::from_str(
                "Course ID must be exactly 5 characters long (e.g., 02101)",
            ),
            InputError::CourseIdDigits => String::from_str(
                "Course ID must contain only digits (e.g., 02101)",
            ),
            InputError::EmptyPath => String::from_str("File path cannot be empty"),
        }
    }
}

/// Checks on user input.
pub struct Validator;

impl Validator {
    /// Accepts exactly the five-digit course codes.
    pub fn validate_course_id(course_id: &str) -> (r: Result<(), InputError>)
        ensures
            course_id@.len() != 5 <==> r == Err::<(), InputError>(InputError::CourseIdLength),
            course_id@.len() == 5 && !is_course_code(course_id@) <==> r == Err::<(), InputError>(
                InputError::CourseIdDigits,
            ),
            r is Ok <==> is_course_code(course_id@),
    {
        let n = course_id.unicode_len();
        if n != 5 {
            return Err(InputError::CourseIdLength);
        }
        let mut i: usize = 0;
        while i < n
            invariant
                n == course_id@.len(),
                n == 5,
                i <= n,
                forall|j: int| 0 <= j < i ==> '0' <= #[trigger] course_id@[j] && course_id@[j] <= '9',
            decreases n - i,
        {
            let c = course_id.get_char(i);
            if !('0' <= c && c <= '9') {
                return Err(InputError::CourseIdDigits);
            }
            i = i + 1;
        }
        Ok(())
    }

    /// The file-name form of a title (see `sanitized`).
    pub fn sanitize_filename(input: &str) -> (r: String)
        ensures
            r@ == sanitized(input@),
    {
        let ghost m = input@.map_values(|c: char| safe_char(c));
        let n = input.unicode_len();
        let mut out = String::new();
        let mut pending = false;
        let mut i: usize = 0;
        while i < n
            invariant
                n == input@.len(),
                m == input@.map_values(|c: char| safe_char(c)),
                i <= n,
                (out@, pending) == squeeze(m.subrange(0, i as int)),
            decreases n - i,
        {
            let c = exec_safe_char(input.get_char(i));
            assert(m.subrange(0, i + 1).drop_last() =~= m.subrange(0, i as int));
            assert(m.subrange(0, i + 1).last() == c);
            if c == '-' {
                pending = out.unicode_len() > 0;
            } else {
                if pending {
                    push_char(&mut out, '-');
                }
                push_char(&mut out, c);
                pending = false;
            }
            i = i + 1;
        }
        assert(m.subrange(0, n as int) =~= m);
        out
    }

    /// Accepts every non-empty path.
    pub fn validate_file_path(path: &str) -> (r: Result<(), InputError>)
        ensures
            r is Ok <==> path@.len() > 0,
            r is Err ==> r == Err::<(), InputError>(InputError::EmptyPath),
    {
        if path.unicode_len() == 0 {
            Err(InputError::EmptyPath)
        } else {
            Ok(())
        }
    }
}

} // verus!
