//! The short name of a process, taken from the path of its executable.
use vstd::prelude::*;
use vstd::string::{StrSliceExecFns, StringExecFns};

verus! {

/// Both separators of the platform's paths.
pub open spec fn is_separator(c: char) -> bool {
    c == '/' || c == '\\'
}

/// Whether `c` names a drive.
pub open spec fn is_drive_letter(c: char) -> bool {
    ('a' <= c && c <= 'z') || ('A' <= c && c <= 'Z')
}

/// The length of a leading drive prefix such as `C:`, or zero.
pub open spec fn drive_len(s: Seq<char>) -> int {
    if s.len() >= 2 && s[1] == ':' && is_drive_letter(s[0]) {
        2
    } else {
        0
    }
}

/// Whether the last character of `s` goes when the tail of a path is
/// trimmed: a separator, or a `.` that forms a whole component.
pub open spec fn removable_last(s: Seq<char>) -> bool {
    s.len() > 0 && (is_separator(s.last()) || (s.last() == '.' && (s.len() == 1 || is_separator(
        s[s.len() - 2],
    ))))
}

/// A path without its trailing separators and trailing `.` components.
pub open spec fn trim_tail(s: Seq<char>) -> Seq<char>
    decreases s.len(),
{
    if removable_last(s) {
        trim_tail(s.drop_last())
    } else {
        s
    }
}

/// The characters after the last separator of `s`.
pub open spec fn last_component(s: Seq<char>) -> Seq<char>
    decreases s.len(),
{
    if s.len() == 0 || is_separator(s.last()) {
        Seq::empty()
    } else {
        last_component(s.drop_last()).push(s.last())
    }
}

/// The file name of a path: its last component after any drive prefix,
/// ignoring trailing separators and `.` components; none where that
/// component is empty or `..`.
pub open spec fn file_name(path: Seq<char>) -> Option<Seq<char>> {
    let c = last_component(trim_tail(path.subrange(drive_len(path), path.len() as int)));
    if c.len() == 0 || c == seq!['.', '.'] {
        None
    } else {
        Some(c)
    }
}

/// Whether a name ends in `.exe`, in any case.
pub open spec fn has_exe_suffix(n: Seq<char>) -> bool {
    &&& n.len() >= 4
    &&& n[n.len() - 4] == '.'
    &&& (n[n.len() - 3] == 'e' || n[n.len() - 3] == 'E')
    &&& (n[n.len() - 2] == 'x' || n[n.len() - 2] == 'X')
    &&& (n[n.len() - 1] == 'e' || n[n.len() - 1] == 'E')
}

/// The short name of an executable: its file name without `.exe`, or
/// `Unknown` where the path has no file name.
pub open spec fn simple_name(path: Seq<char>) -> Seq<char> {
    match file_name(path) {
        None => "Unknown"@,
        Some(n) => if has_exe_suffix(n) {
            n.subrange(0, n.len() - 4)
        } else {
            n
        },
    }
}

fn is_separator_char(c: char) -> (r: bool)
    ensures
        r == is_separator(c),
{
    c == '/' || c == '\\'
}

/// Whether the character before `end` goes when the tail is trimmed.
fn removable_at(path: &str, d: usize, end: usize) -> (r: bool)
    requires
        d < end <= path@.len(),
    ensures
        r == removable_last(path@.subrange(d as int, end as int)),
{
    let c = path.get_char(end - 1);
    if is_separator_char(c) {
        true
    } else if c == '.' {
        end - 1 == d || is_separator_char(path.get_char(end - 2))
    } else {
        false
    }
}

/// The short name of the executable at `path`.
pub fn extract_simple_name(path: &str) -> (r: String)
    ensures
        r@ == simple_name(path@),
{
    let len = path.unicode_len();
    let ghost s = path@;
    let d: usize = if len >= 2 && path.get_char(1) == ':' && (('a' <= path.get_char(0)
        && path.get_char(0) <= 'z') || ('A' <= path.get_char(0) && path.get_char(0) <= 'Z')) {
        2
    } else {
        0
    };
    assert(d == drive_len(s));
    let mut end = len;
    while end > d && removable_at(path, d, end)
        invariant
            d <= end <= len,
            len == s.len(),
            s == path@,
            d == drive_len(s),
            trim_tail(s.subrange(d as int, len as int)) == trim_tail(
                s.subrange(d as int, end as int),
            ),
        decreases end,
    {
        assert(s.subrange(d as int, end as int).drop_last() =~= s.subrange(d as int, end - 1));
        end = end - 1;
    }
    let ghost trimmed = s.subrange(d as int, end as int);
    assert(trim_tail(s.subrange(d as int, len as int)) == trimmed);
    let mut start = end;
    while start > d && !is_separator_char(path.get_char(start - 1))
        invariant
            d <= start <= end,
            end <= len,
            len == s.len(),
            s == path@,
            trimmed == s.subrange(d as int, end as int),
            last_component(trimmed) == last_component(s.subrange(d as int, start as int))
                + s.subrange(start as int, end as int),
        decreases start,
    {
        let ghost before = s.subrange(d as int, start as int);
        assert(before.drop_last() =~= s.subrange(d as int, start - 1));
        assert(s.subrange(start - 1, end as int) =~= seq![before.last()] + s.subrange(
            start as int,
            end as int,
        ));
        assert(last_component(s.subrange(d as int, start - 1)).push(before.last()) + s.subrange(
            start as int,
            end as int,
        ) =~= last_component(s.subrange(d as int, start - 1)) + s.subrange(start - 1, end as int));
        start = start - 1;
    }
    assert(last_component(s.subrange(d as int, start as int)) =~= Seq::<char>::empty());
    let comp = path.substring_char(start, end);
    let ghost c = comp@;
    assert(c =~= last_component(trimmed));
    let n = end - start;
    if n == 0 {
        return String::from_str("Unknown");
    }
    if n == 2 && comp.get_char(0) == '.' && comp.get_char(1) == '.' {
        assert(c =~= seq!['.', '.']);
        return String::from_str("Unknown");
    }
    assert(c != seq!['.', '.']) by {
        if c == seq!['.', '.'] {
            assert(c[0] == '.' && c[1] == '.');
        }
    }
    if n >= 4 {
        let dot = comp.get_char(n - 4);
        let e1 = comp.get_char(n - 3);
        let x = comp.get_char(n - 2);
        let e2 = comp.get_char(n - 1);
        if dot == '.' && (e1 == 'e' || e1 == 'E') && (x == 'x' || x == 'X') && (e2 == 'e' || e2
            == 'E') {
            return String::from_str(comp.substring_char(0, n - 4));
        }
    }
    String::from_str(comp)
}

} // verus!
