//! A person's names, read off the name of their photograph.
//!
//! A photograph is named `given @ family.jpg`. The stem of the file name,
//! which is the name without its last extension, is cut at each `@`; the first piece is the given name, the second the family
//! name, both without the white space around them. A name without `@` has no
//! family name, and a hint to the operator stands in its place.

use vstd::prelude::*;
use vstd::string::*;

verus! {

/// Stands for the family name where the file name has no `@`.
pub const MISSING_FAMILY: &'static str = "Séparer prénom du nom par un `@`";

/// The character that parts the given name from the family name.
pub const SEPARATOR: char = '@';

/// The final component of a path as `Path::file_name` gives it, by the path
/// syntax that the library is built for.
pub uninterp spec fn path_file_name(path: Seq<char>) -> Option<Seq<char>>;

/// The character that parts a file name from its extension.
pub const DOT: char = '.';

/// White space as Unicode defines it (the property `White_Space`).
pub open spec fn is_white(c: char) -> bool {
    let u = c as u32;
    ||| 0x09 <= u <= 0x0D
    ||| u == 0x20
    ||| u == 0x85
    ||| u == 0xA0
    ||| u == 0x1680
    ||| 0x2000 <= u <= 0x200A
    ||| u == 0x2028
    ||| u == 0x2029
    ||| u == 0x202F
    ||| u == 0x205F
    ||| u == 0x3000
}

/// Number of white characters at the start of `s`.
pub open spec fn leading_white(s: Seq<char>) -> int
    decreases s.len(),
{
    if s.len() > 0 && is_white(s[0]) {
        1 + leading_white(s.drop_first())
    } else {
        0
    }
}

/// Number of white characters at the end of `s`.
pub open spec fn trailing_white(s: Seq<char>) -> int
    decreases s.len(),
{
    if s.len() > 0 && is_white(s.last()) {
        1 + trailing_white(s.drop_last())
    } else {
        0
    }
}

/// `s` without the white space at its start and at its end.
pub open spec fn trimmed(s: Seq<char>) -> Seq<char> {
    let rest = s.skip(leading_white(s));
    rest.take(rest.len() - trailing_white(rest))
}

/// Where the piece that starts at `from` ends: at the next separator, or at
/// the end of `s`.
pub open spec fn piece_end(s: Seq<char>, from: int) -> int
    decreases s.len() - from,
{
    if from < 0 || from >= s.len() {
        s.len() as int
    } else if s[from] == SEPARATOR {
        from
    } else {
        piece_end(s, from + 1)
    }
}

/// Given name and family name that a stem stands for.
pub open spec fn given_family(stem: Seq<char>) -> (Seq<char>, Seq<char>) {
    let first_end = piece_end(stem, 0);
    let given = trimmed(stem.subrange(0, first_end));
    if first_end == stem.len() {
        (given, MISSING_FAMILY@)
    } else {
        let second_end = piece_end(stem, first_end + 1);
        (given, trimmed(stem.subrange(first_end + 1, second_end)))
    }
}

/// Position of the last dot of a file name, or -1 where it has none.
pub open spec fn last_dot(name: Seq<char>) -> int
    decreases name.len(),
{
    if name.len() == 0 {
        -1
    } else if name.last() == DOT {
        name.len() - 1
    } else {
        last_dot(name.drop_last())
    }
}

/// The stem of a file name: what stands before its last dot, or the whole
/// name where it has no dot or only the one it begins with.
pub open spec fn stem_of(name: Seq<char>) -> Seq<char> {
    if last_dot(name) <= 0 {
        name
    } else {
        name.subrange(0, last_dot(name))
    }
}

/// The names that a path stands for: those of the stem of its file name, and
/// none where the path has no file name.
pub open spec fn names_of_path(path: Seq<char>) -> Option<(Seq<char>, Seq<char>)> {
    match path_file_name(path) {
        None => None,
        Some(name) => Some(given_family(stem_of(name))),
    }
}

proof fn lemma_last_dot(name: Seq<char>, d: int)
    requires
        -1 <= d < name.len(),
        d >= 0 ==> name[d] == DOT,
        forall|j: int| d < j < name.len() ==> #[trigger] name[j] != DOT,
    ensures
        last_dot(name) == d,
    decreases name.len(),
{
    if name.len() > 0 && d < name.len() - 1 {
        let rest = name.drop_last();
        assert forall|j: int| d < j < rest.len() implies #[trigger] rest[j] != DOT by {
            assert(rest[j] == name[j]);
        }
        lemma_last_dot(rest, d);
    }
}

proof fn lemma_leading_white(s: Seq<char>, k: int)
    requires
        0 <= k <= s.len(),
        forall|j: int| 0 <= j < k ==> is_white(#[trigger] s[j]),
        k == s.len() || !is_white(s[k]),
    ensures
        leading_white(s) == k,
    decreases k,
{
    if k > 0 {
        let rest = s.drop_first();
        assert forall|j: int| 0 <= j < k - 1 implies is_white(#[trigger] rest[j]) by {
            assert(rest[j] == s[j + 1]);
        }
        lemma_leading_white(rest, k - 1);
    }
}

proof fn lemma_trailing_white(s: Seq<char>, k: int)
    requires
        0 <= k <= s.len(),
        forall|j: int| s.len() - k <= j < s.len() ==> is_white(#[trigger] s[j]),
        k == s.len() || !is_white(s[s.len() - k - 1]),
    ensures
        trailing_white(s) == k,
    decreases k,
{
    if k > 0 {
        let rest = s.drop_last();
        assert forall|j: int| rest.len() - (k - 1) <= j < rest.len() implies is_white(
            #[trigger] rest[j],
        ) by {
            assert(rest[j] == s[j]);
        }
        lemma_trailing_white(rest, k - 1);
    }
}

proof fn lemma_piece_end(s: Seq<char>, from: int, to: int)
    requires
        0 <= from <= to <= s.len(),
        forall|j: int| from <= j < to ==> #[trigger] s[j] != SEPARATOR,
        to == s.len() || s[to] == SEPARATOR,
    ensures
        piece_end(s, from) == to,
    decreases to - from,
{
    if from < to {
        lemma_piece_end(s, from + 1, to);
    }
}

/// Whether a character is white space.
pub fn is_whitespace(c: char) -> (white: bool)
    ensures
        white == is_white(c),
{
    let u: u32 = c as u32;
    (0x09 <= u && u <= 0x0D) || u == 0x20 || u == 0x85 || u == 0xA0 || u == 0x1680 || (0x2000 <= u
        && u <= 0x200A) || u == 0x2028 || u == 0x2029 || u == 0x202F || u == 0x205F || u == 0x3000
}

/// The characters of `s` from `from` to `to`, without the white space at
/// either end.
fn trimmed_piece(s: &str, from: usize, to: usize) -> (out: String)
    requires
        from <= to <= s@.len(),
    ensures
        out@ == trimmed(s@.subrange(from as int, to as int)),
{
    let ghost piece = s@.subrange(from as int, to as int);
    let mut start: usize = from;
    while start < to && is_whitespace(s.get_char(start))
        invariant
            from <= start <= to <= s@.len(),
            piece == s@.subrange(from as int, to as int),
            forall|j: int| 0 <= j < start - from ==> is_white(#[trigger] piece[j]),
        decreases to - start,
    {
        start += 1;
    }
    proof {
        lemma_leading_white(piece, start - from);
    }
    let ghost rest = piece.skip(start - from);
    let mut end: usize = to;
    while end > start && is_whitespace(s.get_char(end - 1))
        invariant
            from <= start <= end <= to <= s@.len(),
            piece == s@.subrange(from as int, to as int),
            rest == piece.skip(start - from),
            forall|j: int| end - start <= j < rest.len() ==> is_white(#[trigger] rest[j]),
        decreases end - start,
    {
        end -= 1;
    }
    proof {
        if end > start {
            assert(rest[end - start - 1] == s@[end - 1]);
        } else {
            assert(start < to ==> rest[0] == s@[start as int]);
        }
        lemma_trailing_white(rest, to - end);
        assert(rest.take(rest.len() - (to - end)) =~= s@.subrange(start as int, end as int));
    }
    s.substring_char(start, end).to_owned()
}

/// Where the piece that starts at `from` ends.
fn find_piece_end(s: &str, from: usize) -> (to: usize)
    requires
        from <= s@.len(),
    ensures
        from <= to <= s@.len(),
        to == piece_end(s@, from as int),
{
    let n = s.unicode_len();
    let mut to: usize = from;
    while to < n && s.get_char(to) != SEPARATOR
        invariant
            from <= to <= n,
            n == s@.len(),
            forall|j: int| from <= j < to ==> #[trigger] s@[j] != SEPARATOR,
        decreases n - to,
    {
        to += 1;
    }
    proof {
        lemma_piece_end(s@, from as int, to as int);
    }
    to
}

/// Given name and family name for the stem of a file name.
pub fn split_given_family(stem: &str) -> (names: (String, String))
    ensures
        names.0@ == given_family(stem@).0,
        names.1@ == given_family(stem@).1,
{
    let n = stem.unicode_len();
    let first_end = find_piece_end(stem, 0);
    let given = trimmed_piece(stem, 0, first_end);
    if first_end == n {
        (given, MISSING_FAMILY.to_owned())
    } else {
        let second_end = find_piece_end(stem, first_end + 1);
        (given, trimmed_piece(stem, first_end + 1, second_end))
    }
}

/// Trusted: `Path::file_name` of std, on a path given as text, with the
/// component handed back as text. Claims only that the outcome is a function
/// of the path's text.
#[verifier::external_body]
pub(crate) fn file_name_of(path: &str) -> (out: Option<String>)
    ensures
        match out {
            Some(name) => path_file_name(path@) == Some(name@),
            None => path_file_name(path@) is None,
        },
{
    match std::path::Path::new(path).file_name() {
        Some(name) => match name.to_str() {
            Some(text) => Some(text.to_owned()),
            None => None,
        },
        None => None,
    }
}

/// The stem of a file name: the name without its last extension.
pub fn file_stem(name: &str) -> (stem: String)
    ensures
        stem@ == stem_of(name@),
{
    let n = name.unicode_len();
    let mut end: usize = n;
    while end > 0 && name.get_char(end - 1) != DOT
        invariant
            end <= n,
            n == name@.len(),
            forall|j: int| end <= j < n ==> #[trigger] name@[j] != DOT,
        decreases end,
    {
        end -= 1;
    }
    proof {
        lemma_last_dot(name@, end - 1);
    }
    if end <= 1 {
        proof {
            assert(name@.subrange(0, n as int) =~= name@);
        }
        name.substring_char(0, n).to_owned()
    } else {
        name.substring_char(0, end - 1).to_owned()
    }
}

/// The names that the path of a photograph stands for: those of the stem of
/// its file name. None where the path has no file name.
pub fn filename_to_given_family(path: &str) -> (out: Option<(String, String)>)
    ensures
        match names_of_path(path@) {
            Some(names) => out matches Some(found) && found.0@ == names.0 && found.1@ == names.1,
            None => out is None,
        },
{
    let name = match file_name_of(path) {
        Some(name) => name,
        None => {
            return None;
        },
    };
    let stem = file_stem(name.as_str());
    Some(split_given_family(stem.as_str()))
}

} // verus!
