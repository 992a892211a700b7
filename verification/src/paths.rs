//! File names and extensions of paths, as `Path` reads them: components
//! separated by `/`, and on Windows by `\\` as well, after a drive such as
//! `C:`.

use vstd::prelude::*;
use crate::text::{ascii_lower, chars_of, lower_char, string_of_range};

verus! {

/// Whether `c` separates components: `/`, and on Windows `\\` too.
pub open spec fn is_sep(c: char, windows: bool) -> bool {
    c == '/' || (windows && c == '\\')
}

/// Whether `c` is an ASCII letter.
pub open spec fn ascii_letter(c: char) -> bool {
    ('a' <= c <= 'z') || ('A' <= c <= 'Z')
}

/// How many characters of `s` a drive takes: on Windows, a letter and a
/// colon at its start (`C:`); none otherwise.
pub open spec fn drive_len(s: Seq<char>, windows: bool) -> int {
    if windows && s.len() >= 2 && ascii_letter(s[0]) && s[1] == ':' { 2 } else { 0 }
}

/// The index of the last separator in `s`, or -1 when it has none.
pub open spec fn last_sep(s: Seq<char>, windows: bool) -> int
    decreases s.len(),
{
    if s.len() == 0 {
        -1
    } else if is_sep(s.last(), windows) {
        s.len() - 1
    } else {
        last_sep(s.drop_last(), windows)
    }
}

/// The final component of the components `s` (a path past its drive):
/// trailing separators and `.` components do not count, and components that
/// end in `..`, or are none at all, have none.
pub open spec fn last_component(s: Seq<char>, windows: bool) -> Option<Seq<char>>
    decreases s.len(),
{
    if s.len() == 0 {
        None
    } else if is_sep(s.last(), windows) {
        last_component(s.drop_last(), windows)
    } else {
        let k = last_sep(s, windows);
        let comp = s.skip(k + 1);
        if comp == seq!['.'] {
            proof {
                lemma_last_sep_bounds(s, windows);
            }
            last_component(s.take(k + 1), windows)
        } else if comp == seq!['.', '.'] {
            None
        } else {
            Some(comp)
        }
    }
}

/// The final component of the path `s`, as `Path::file_name` gives it on
/// Windows (`windows`) or elsewhere: the drive is set aside, and then as
/// [`last_component`].
pub open spec fn file_name(s: Seq<char>, windows: bool) -> Option<Seq<char>> {
    last_component(s.skip(drive_len(s, windows)), windows)
}

/// The index of the last `.` in `s`, or -1 when it has none.
pub open spec fn last_dot(s: Seq<char>) -> int
    decreases s.len(),
{
    if s.len() == 0 {
        -1
    } else if s.last() == '.' {
        s.len() - 1
    } else {
        last_dot(s.drop_last())
    }
}

/// The extension of a file name, as `Path::extension` takes it: the text
/// after its last `.`, unless that dot is the name's first character.
pub open spec fn name_extension(name: Seq<char>) -> Option<Seq<char>> {
    let d = last_dot(name);
    if d <= 0 {
        None
    } else {
        Some(name.skip(d + 1))
    }
}

/// The extension of the path `s`.
pub open spec fn extension(s: Seq<char>, windows: bool) -> Option<Seq<char>> {
    match file_name(s, windows) {
        Some(name) => name_extension(name),
        None => None,
    }
}

pub proof fn lemma_last_sep_bounds(s: Seq<char>, windows: bool)
    ensures
        -1 <= last_sep(s, windows) < s.len(),
        last_sep(s, windows) >= 0 ==> is_sep(s[last_sep(s, windows)], windows),
        forall|i: int| last_sep(s, windows) < i < s.len() ==> !is_sep(s[i], windows),
    decreases s.len(),
{
    if s.len() > 0 && !is_sep(s.last(), windows) {
        lemma_last_sep_bounds(s.drop_last(), windows);
        assert forall|i: int| last_sep(s, windows) < i < s.len() implies !is_sep(s[i], windows) by {
            if i < s.len() - 1 {
                assert(s.drop_last()[i] == s[i]);
            }
        }
    }
}

pub proof fn lemma_last_dot_bounds(s: Seq<char>)
    ensures
        -1 <= last_dot(s) < s.len(),
        forall|i: int| last_dot(s) < i < s.len() ==> s[i] != '.',
    decreases s.len(),
{
    if s.len() > 0 && s.last() != '.' {
        lemma_last_dot_bounds(s.drop_last());
        assert forall|i: int| last_dot(s) < i < s.len() implies s[i] != '.' by {
            if i < s.len() - 1 {
                assert(s.drop_last()[i] == s[i]);
            }
        }
    }
}

/// Lowering a letter never makes or unmakes a separator, a `.`, a `:` or a
/// letter.
proof fn lemma_lower_keeps_marks(c: char)
    ensures
        (lower_char(c) == '/') == (c == '/'),
        (lower_char(c) == '\\') == (c == '\\'),
        (lower_char(c) == '.') == (c == '.'),
        (lower_char(c) == ':') == (c == ':'),
        ascii_letter(lower_char(c)) == ascii_letter(c),
        lower_char(lower_char(c)) == lower_char(c),
{
    if 'A' <= c <= 'Z' {
        assert(97 <= (c as u32) + 32 <= 122);
    }
}

/// Lowered text, cut, is the cut text lowered.
proof fn lemma_lower_cuts(s: Seq<char>, k: int)
    requires
        0 <= k <= s.len(),
    ensures
        ascii_lower(s).take(k) == ascii_lower(s.take(k)),
        ascii_lower(s).skip(k) == ascii_lower(s.skip(k)),
{
    assert(ascii_lower(s).take(k) =~= ascii_lower(s.take(k)));
    assert(ascii_lower(s).skip(k) =~= ascii_lower(s.skip(k)));
}

/// The last separator stays where it is when the text is lowered.
proof fn lemma_last_sep_lowered(s: Seq<char>, windows: bool)
    ensures
        last_sep(ascii_lower(s), windows) == last_sep(s, windows),
    decreases s.len(),
{
    if s.len() > 0 {
        lemma_lower_keeps_marks(s.last());
        lemma_lower_cuts(s, s.len() - 1);
        assert(ascii_lower(s).drop_last() == ascii_lower(s).take(s.len() - 1));
        lemma_last_sep_lowered(s.drop_last(), windows);
    }
}

/// The last `.` stays where it is when the text is lowered.
proof fn lemma_last_dot_lowered(s: Seq<char>)
    ensures
        last_dot(ascii_lower(s)) == last_dot(s),
    decreases s.len(),
{
    if s.len() > 0 {
        lemma_lower_keeps_marks(s.last());
        lemma_lower_cuts(s, s.len() - 1);
        assert(ascii_lower(s).drop_last() == ascii_lower(s).take(s.len() - 1));
        lemma_last_dot_lowered(s.drop_last());
    }
}

/// The lowered option of a text.
pub open spec fn lowered_opt(t: Option<Seq<char>>) -> Option<Seq<char>> {
    match t {
        Some(x) => Some(ascii_lower(x)),
        None => None,
    }
}

/// A component is `.` or `..` exactly when it is so lowered.
proof fn lemma_dots_lowered(comp: Seq<char>)
    ensures
        (ascii_lower(comp) == seq!['.']) == (comp == seq!['.']),
        (ascii_lower(comp) == seq!['.', '.']) == (comp == seq!['.', '.']),
{
    let lc = ascii_lower(comp);
    assert(lc.len() == comp.len());
    if comp.len() == 1 {
        lemma_lower_keeps_marks(comp[0]);
        assert(lc[0] == lower_char(comp[0]));
        if lc == seq!['.'] {
            assert(comp =~= seq!['.']);
        }
        if comp == seq!['.'] {
            assert(lc =~= seq!['.']);
        }
    }
    if comp.len() == 2 {
        lemma_lower_keeps_marks(comp[0]);
        lemma_lower_keeps_marks(comp[1]);
        assert(lc[0] == lower_char(comp[0]));
        assert(lc[1] == lower_char(comp[1]));
        if lc == seq!['.', '.'] {
            assert(comp =~= seq!['.', '.']);
        }
        if comp == seq!['.', '.'] {
            assert(lc =~= seq!['.', '.']);
        }
    }
}

/// Lowered components' last one is their last one, lowered.
proof fn lemma_last_component_lowered(s: Seq<char>, windows: bool)
    ensures
        last_component(ascii_lower(s), windows) == lowered_opt(last_component(s, windows)),
    decreases s.len(),
{
    let l = ascii_lower(s);
    if s.len() > 0 {
        lemma_lower_keeps_marks(s.last());
        lemma_lower_cuts(s, s.len() - 1);
        assert(l.drop_last() == l.take(s.len() - 1));
        if is_sep(s.last(), windows) {
            lemma_last_component_lowered(s.drop_last(), windows);
        } else {
            lemma_last_sep_lowered(s, windows);
            lemma_last_sep_bounds(s, windows);
            let k = last_sep(s, windows);
            lemma_lower_cuts(s, k + 1);
            let comp = s.skip(k + 1);
            lemma_dots_lowered(comp);
            if comp == seq!['.'] {
                lemma_lower_cuts(s, k + 1);
                lemma_last_component_lowered(s.take(k + 1), windows);
            }
        }
    }
}

/// A lowered path's file name is its file name, lowered.
proof fn lemma_file_name_lowered(s: Seq<char>, windows: bool)
    ensures
        file_name(ascii_lower(s), windows) == lowered_opt(file_name(s, windows)),
{
    let l = ascii_lower(s);
    if s.len() >= 2 {
        lemma_lower_keeps_marks(s[0]);
        lemma_lower_keeps_marks(s[1]);
        assert(l[0] == lower_char(s[0]) && l[1] == lower_char(s[1]));
    }
    let d = drive_len(s, windows);
    assert(drive_len(l, windows) == d);
    lemma_lower_cuts(s, d);
    lemma_last_component_lowered(s.skip(d), windows);
}

/// Lowering twice lowers once.
pub proof fn lemma_lower_twice(s: Seq<char>)
    ensures
        ascii_lower(ascii_lower(s)) == ascii_lower(s),
{
    assert forall|i: int| 0 <= i < s.len() implies ascii_lower(ascii_lower(s))[i] == ascii_lower(s)[i] by {
        lemma_lower_keeps_marks(s[i]);
    }
    assert(ascii_lower(ascii_lower(s)) =~= ascii_lower(s));
}

/// A lowered path's extension is its extension, lowered.
pub proof fn lemma_extension_lowered(s: Seq<char>, windows: bool)
    ensures
        extension(ascii_lower(s), windows) == lowered_opt(extension(s, windows)),
{
    lemma_file_name_lowered(s, windows);
    match file_name(s, windows) {
        Some(name) => {
            lemma_last_dot_lowered(name);
            lemma_last_dot_bounds(name);
            let d = last_dot(name);
            if d > 0 {
                lemma_lower_cuts(name, d + 1);
            }
        },
        None => {},
    }
}

fn sep_at(c: char, windows: bool) -> (r: bool)
    ensures
        r == is_sep(c, windows),
{
    c == '/' || (windows && c == '\\')
}

/// The index just past the last separator in `v[..end]`, or 0.
fn after_last_sep(v: &Vec<char>, end: usize, windows: bool) -> (k: usize)
    requires
        end <= v@.len(),
    ensures
        k == last_sep(v@.take(end as int), windows) + 1,
{
    let mut j = end;
    assert(v@.take(end as int).take(j as int) == v@.take(end as int));
    while j > 0 && !sep_at(v[j - 1], windows)
        invariant
            j <= end <= v@.len(),
            last_sep(v@.take(end as int), windows) == last_sep(v@.take(j as int), windows),
        decreases j,
    {
        assert(v@.take(j as int).drop_last() == v@.take(j - 1));
        j = j - 1;
    }
    j
}

fn is_letter(c: char) -> (r: bool)
    ensures
        r == ascii_letter(c),
{
    ('a' <= c && c <= 'z') || ('A' <= c && c <= 'Z')
}

/// The last component of the components `v`.
fn last_component_of(v: &Vec<char>, windows: bool) -> (r: Option<String>)
    ensures
        r matches Some(n) ==> last_component(v@, windows) == Some(n@),
        r is None ==> last_component(v@, windows) is None,
{
    let mut end = v.len();
    assert(v@.take(end as int) == v@);
    loop
        invariant
            end <= v@.len(),
            last_component(v@, windows) == last_component(v@.take(end as int), windows),
        decreases end,
    {
        if end == 0 {
            return None;
        }
        let ghost s = v@.take(end as int);
        if sep_at(v[end - 1], windows) {
            assert(s.drop_last() == v@.take(end - 1));
            end = end - 1;
        } else {
            let k = after_last_sep(v, end, windows);
            proof { lemma_last_sep_bounds(s, windows); }
            assert(s.skip(k as int) == v@.subrange(k as int, end as int));
            let len = end - k;
            if len == 1 && v[k] == '.' {
                assert(v@.subrange(k as int, end as int) =~= seq!['.']);
                assert(s.take(k as int) == v@.take(k as int));
                end = k;
            } else if len == 2 && v[k] == '.' && v[k + 1] == '.' {
                assert(v@.subrange(k as int, end as int) =~= seq!['.', '.']);
                return None;
            } else {
                assert(v@.subrange(k as int, end as int) != seq!['.']) by {
                    if len == 1 {
                        assert(v@.subrange(k as int, end as int)[0] == v@[k as int]);
                    }
                }
                assert(v@.subrange(k as int, end as int) != seq!['.', '.']) by {
                    if len == 2 {
                        assert(v@.subrange(k as int, end as int)[0] == v@[k as int]);
                        assert(v@.subrange(k as int, end as int)[1] == v@[k + 1]);
                    }
                }
                return Some(string_of_range(v, k, end));
            }
        }
    }
}

/// The final component of the path `path`, on Windows (`windows`) or
/// elsewhere.
pub fn file_name_of(path: &str, windows: bool) -> (r: Option<String>)
    ensures
        r matches Some(n) ==> file_name(path@, windows) == Some(n@),
        r is None ==> file_name(path@, windows) is None,
{
    let v = chars_of(path);
    if windows && v.len() >= 2 && is_letter(v[0]) && v[1] == ':' {
        let rest = string_of_range(&v, 2, v.len());
        let w = chars_of(rest.as_str());
        assert(w@ =~= path@.skip(2));
        last_component_of(&w, windows)
    } else {
        assert(path@.skip(0) =~= path@);
        last_component_of(&v, windows)
    }
}

/// The extension of the path `path`, on Windows (`windows`) or elsewhere.
pub fn extension_of(path: &str, windows: bool) -> (r: Option<String>)
    ensures
        r matches Some(e) ==> extension(path@, windows) == Some(e@),
        r is None ==> extension(path@, windows) is None,
{
    let name = match file_name_of(path, windows) {
        Some(n) => n,
        None => return None,
    };
    let v = chars_of(name.as_str());
    let mut j = v.len();
    assert(v@.take(j as int) == v@);
    while j > 0 && v[j - 1] != '.'
        invariant
            j <= v@.len(),
            last_dot(v@) == last_dot(v@.take(j as int)),
        decreases j,
    {
        assert(v@.take(j as int).drop_last() == v@.take(j - 1));
        j = j - 1;
    }
    // `j` is one past the last dot, or 0 when there is none.
    if j <= 1 {
        return None;
    }
    let r = string_of_range(&v, j, v.len());
    assert(v@.subrange(j as int, v@.len() as int) == v@.skip(j as int));
    Some(r)
}

} // verus!
