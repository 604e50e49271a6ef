use vstd::prelude::*;

use crate::string::{str_chars, string_push};

verus! {

/// A path separator under Windows rules.
pub open spec fn is_separator(c: char) -> bool {
    c == '\\' || c == '/'
}

/// An ASCII letter, as a drive letter must be.
pub open spec fn is_ascii_alpha(c: char) -> bool {
    ('a' as u32 <= c as u32 <= 'z' as u32) || ('A' as u32 <= c as u32 <= 'Z' as u32)
}

/// The separators of a path: only `\` in a verbatim (`\\?\`) path, `\` and
/// `/` otherwise.
pub open spec fn path_sep(verbatim: bool, c: char) -> bool {
    if verbatim {
        c == '\\'
    } else {
        is_separator(c)
    }
}

/// A character of the first eight, with `/` read as `\`, as prefixes are
/// matched.
pub open spec fn prefix_char(c: char) -> char {
    if c == '/' {
        '\\'
    } else {
        c
    }
}

/// The path starts with two separators (`\\` or `//`).
pub open spec fn starts_with_double_sep(p: Seq<char>) -> bool {
    p.len() >= 2 && prefix_char(p[0]) == '\\' && prefix_char(p[1]) == '\\'
}

/// The path starts with exactly `\\?\`: a verbatim path.
pub open spec fn is_verbatim(p: Seq<char>) -> bool {
    p.len() >= 4 && p[0] == '\\' && p[1] == '\\' && p[2] == '?' && p[3] == '\\'
}

/// A verbatim UNC path, `\\?\UNC\server\share`.
pub open spec fn is_verbatim_unc(p: Seq<char>) -> bool {
    is_verbatim(p) && p.len() >= 8 && p[4] == 'U' && p[5] == 'N' && p[6] == 'C' && prefix_char(p[7])
        == '\\'
}

/// A drive such as `C:` at position `i`.
pub open spec fn has_drive_at(p: Seq<char>, i: int) -> bool {
    p.len() >= i + 2 && is_ascii_alpha(p[i]) && p[i + 1] == ':'
}

/// A verbatim disk path, `\\?\C:` followed by its end or by `\`.
pub open spec fn is_verbatim_disk(p: Seq<char>) -> bool {
    is_verbatim(p) && !is_verbatim_unc(p) && has_drive_at(p, 4) && (p.len() == 6 || p[6] == '\\')
}

/// A device path, `\\.\device`.
pub open spec fn is_device(p: Seq<char>) -> bool {
    starts_with_double_sep(p) && !is_verbatim(p) && p.len() >= 4 && p[2] == '.' && prefix_char(
        p[3],
    ) == '\\'
}

/// The first separator at or after `from`; the path's length when there is none.
pub open spec fn next_sep(p: Seq<char>, from: int, verbatim: bool) -> int
    decreases p.len() - from,
{
    if from >= p.len() {
        p.len() as int
    } else if path_sep(verbatim, p[from]) {
        from
    } else {
        next_sep(p, from + 1, verbatim)
    }
}

/// Where a `server\share` that starts at `from` ends: after the share when
/// there is one, else after the server.
pub open spec fn server_share_end(p: Seq<char>, from: int, verbatim: bool) -> int {
    let server_end = next_sep(p, from, verbatim);
    if server_end < p.len() && next_sep(p, server_end + 1, verbatim) > server_end + 1 {
        next_sep(p, server_end + 1, verbatim)
    } else {
        server_end
    }
}

/// A `\\server\share` path with both names present.
pub open spec fn is_unc(p: Seq<char>) -> bool {
    let server_end = next_sep(p, 2, false);
    &&& starts_with_double_sep(p)
    &&& !is_verbatim(p)
    &&& !is_device(p)
    &&& server_end > 2
    &&& server_end < p.len()
    &&& next_sep(p, server_end + 1, false) > server_end + 1
}

/// A path that starts with a drive such as `C:`.
pub open spec fn is_disk(p: Seq<char>) -> bool {
    !starts_with_double_sep(p) && has_drive_at(p, 0)
}

/// The path has a prefix.
pub open spec fn has_prefix(p: Seq<char>) -> bool {
    is_verbatim(p) || is_device(p) || is_unc(p) || is_disk(p)
}

/// The length of the path's prefix (0 without one).
pub open spec fn prefix_len(p: Seq<char>) -> int {
    if is_verbatim_unc(p) {
        server_share_end(p, 8, true)
    } else if is_verbatim_disk(p) {
        6
    } else if is_verbatim(p) {
        next_sep(p, 4, true)
    } else if is_device(p) {
        next_sep(p, 4, false)
    } else if is_unc(p) {
        server_share_end(p, 2, false)
    } else if is_disk(p) {
        2
    } else {
        0
    }
}

/// A separator follows the prefix.
pub open spec fn has_physical_root(p: Seq<char>) -> bool {
    prefix_len(p) < p.len() && is_separator(p[prefix_len(p)])
}

/// The path is rooted: by a separator after its prefix, or by a prefix other
/// than a drive.
pub open spec fn has_root(p: Seq<char>) -> bool {
    has_physical_root(p) || (has_prefix(p) && !is_disk(p))
}

/// An unrooted path whose body starts with a `.` component.
pub open spec fn has_leading_cur_dir(p: Seq<char>) -> bool {
    let pl = prefix_len(p);
    &&& !has_root(p)
    &&& pl < p.len()
    &&& p[pl] == '.'
    &&& (pl + 1 == p.len() || path_sep(is_verbatim(p), p[pl + 1]))
}

/// Where the components after prefix, root and leading `.` start.
pub open spec fn body_start(p: Seq<char>) -> int {
    prefix_len(p) + (if has_physical_root(p) {
        1int
    } else {
        0int
    }) + (if has_leading_cur_dir(p) {
        1int
    } else {
        0int
    })
}

/// The index just past the last separator in `p[start..end]`; `start` when
/// there is none.
pub open spec fn last_sep_end(p: Seq<char>, start: int, end: int, verbatim: bool) -> int
    decreases end - start,
{
    if end <= start {
        start
    } else if path_sep(verbatim, p[end - 1]) {
        end
    } else {
        last_sep_end(p, start, end - 1, verbatim)
    }
}

/// The last component of `p[start..end]` as the path's components run from
/// the back: empty components and (outside verbatim paths) `.` are passed
/// over; a `..` or a verbatim `.` gives no file name, and so does an empty
/// body.
pub open spec fn last_component(p: Seq<char>, start: int, end: int, verbatim: bool) -> Option<
    Seq<char>,
>
    decreases end - start,
{
    if end <= start {
        None
    } else {
        let k = last_sep_end(p, start, end, verbatim);
        let comp = p.subrange(k, end);
        let rest_end = if k > start {
            k - 1
        } else {
            start
        };
        if comp.len() == 0 || (comp == seq!['.'] && !verbatim) {
            if rest_end < end {
                last_component(p, start, rest_end, verbatim)
            } else {
                None
            }
        } else if comp == seq!['.', '.'] || comp == seq!['.'] {
            None
        } else {
            Some(comp)
        }
    }
}

/// The file name of a path under Windows rules, as `Path::file_name` gives
/// it: the last component when that is a normal one.
pub open spec fn path_file_name(path: Seq<char>) -> Option<Seq<char>> {
    last_component(path, body_start(path), path.len() as int, is_verbatim(path))
}

/// The index of the last `.` in `name`; -1 when it has none.
pub open spec fn last_dot(name: Seq<char>) -> int
    decreases name.len(),
{
    if name.len() == 0 {
        -1
    } else if name.last() == '.' {
        name.len() - 1
    } else {
        last_dot(name.drop_last())
    }
}

/// The stem of a file name: the part before its last `.`, unless that part
/// is empty or there is no `.`, in which case the whole name.
pub open spec fn name_stem(name: Seq<char>) -> Seq<char> {
    let d = last_dot(name);
    if d <= 0 {
        name
    } else {
        name.take(d)
    }
}

/// The file stem of a path under Windows rules.
pub open spec fn path_file_stem(path: Seq<char>) -> Option<Seq<char>> {
    match path_file_name(path) {
        Some(name) => Some(name_stem(name)),
        None => None,
    }
}

/// The text after the last separator of `p[start..end]` holds no separator.
proof fn lemma_last_sep_end(p: Seq<char>, start: int, end: int, verbatim: bool)
    requires
        0 <= start <= end <= p.len(),
    ensures
        start <= last_sep_end(p, start, end, verbatim) <= end,
        last_sep_end(p, start, end, verbatim) > start ==> path_sep(
            verbatim,
            p[last_sep_end(p, start, end, verbatim) - 1],
        ),
        forall|j: int|
            last_sep_end(p, start, end, verbatim) <= j < end ==> !path_sep(verbatim, #[trigger] p[j]),
    decreases end - start,
{
    if end > start && !path_sep(verbatim, p[end - 1]) {
        lemma_last_sep_end(p, start, end - 1, verbatim);
    }
}

/// A component found from the back is non-empty and holds no separator.
proof fn lemma_last_component(p: Seq<char>, start: int, end: int, verbatim: bool)
    requires
        0 <= start <= end <= p.len(),
    ensures
        last_component(p, start, end, verbatim) is Some ==> {
            let c = last_component(p, start, end, verbatim)->0;
            &&& c.len() > 0
            &&& forall|j: int| 0 <= j < c.len() ==> !path_sep(verbatim, #[trigger] c[j])
        },
    decreases end - start,
{
    if end > start {
        lemma_last_sep_end(p, start, end, verbatim);
        let k = last_sep_end(p, start, end, verbatim);
        let comp = p.subrange(k, end);
        let rest_end = if k > start {
            k - 1
        } else {
            start
        };
        if comp.len() == 0 || (comp == seq!['.'] && !verbatim) {
            if rest_end < end {
                lemma_last_component(p, start, rest_end, verbatim);
            }
        } else {
            assert forall|j: int| 0 <= j < comp.len() implies !path_sep(verbatim, #[trigger] comp[j]) by {
                assert(comp[j] == p[k + j]);
            }
        }
    }
}

/// The index of the last dot lies inside the name.
proof fn lemma_last_dot(name: Seq<char>)
    ensures
        -1 <= last_dot(name) < name.len(),
    decreases name.len(),
{
    if name.len() > 0 && name.last() != '.' {
        lemma_last_dot(name.drop_last());
    }
}

/// `last_dot` finds the last `.` of a name, and -1 when it has none.
proof fn lemma_last_dot_is_last(name: Seq<char>)
    ensures
        last_dot(name) >= 0 ==> name[last_dot(name)] == '.',
        forall|j: int| last_dot(name) < j < name.len() ==> name[j] != '.',
    decreases name.len(),
{
    lemma_last_dot(name);
    if name.len() > 0 && name.last() != '.' {
        lemma_last_dot_is_last(name.drop_last());
        lemma_last_dot(name.drop_last());
        if last_dot(name) >= 0 {
            assert(name[last_dot(name)] == name.drop_last()[last_dot(name)]);
        }
        assert forall|j: int| last_dot(name) < j < name.len() implies name[j] != '.' by {
            if j < name.len() - 1 {
                assert(name[j] == name.drop_last()[j]);
            }
        }
    }
}

/// The stem is the whole file name before its last dot: when the name has a
/// dot after its first character, the stem is everything before the last
/// one, and stem, dot and extension make up the name; when it has none (a
/// dot in front only starts a hidden name), the stem is the whole name.
pub proof fn law_stem_is_name_before_last_dot(path: Seq<char>)
    requires
        path_file_name(path) is Some,
    ensures
        ({
            let n = path_file_name(path)->0;
            &&& forall|d: int|
                (0 < d < n.len() && #[trigger] n[d] == '.' && forall|j: int|
                    d < j < n.len() ==> n[j] != '.') ==> path_file_stem(path) == Some(n.take(d))
                    && n == n.take(d) + seq!['.'] + n.skip(d + 1)
            &&& (forall|d: int| 0 < d < n.len() ==> #[trigger] n[d] != '.') ==> path_file_stem(path)
                == Some(n)
        }),
{
    let n = path_file_name(path)->0;
    lemma_last_dot(n);
    lemma_last_dot_is_last(n);
    assert forall|d: int|
        (0 < d < n.len() && #[trigger] n[d] == '.' && forall|j: int|
            d < j < n.len() ==> n[j] != '.') implies path_file_stem(path) == Some(n.take(d)) && n
        == n.take(d) + seq!['.'] + n.skip(d + 1) by {
        assert(last_dot(n) == d);
        assert(n =~= n.take(d) + seq!['.'] + n.skip(d + 1));
    }
    if forall|d: int| 0 < d < n.len() ==> #[trigger] n[d] != '.' {
        if last_dot(n) > 0 {
            assert(n[last_dot(n)] != '.');
        }
    }
}

/// Past the last separator of `p[start..end]` when that separator lies at
/// `m - 1`, inside the range, and none follows it.
proof fn lemma_last_sep_end_at(p: Seq<char>, start: int, end: int, verbatim: bool, m: int)
    requires
        0 <= start < m <= end <= p.len(),
        path_sep(verbatim, p[m - 1]),
        forall|j: int| m <= j < end ==> !path_sep(verbatim, #[trigger] p[j]),
    ensures
        last_sep_end(p, start, end, verbatim) == m,
    decreases end - start,
{
    if end > m {
        lemma_last_sep_end_at(p, start, end - 1, verbatim, m);
    }
}

/// `start` when `p[start..end]` holds no separator.
proof fn lemma_last_sep_end_none(p: Seq<char>, start: int, end: int, verbatim: bool)
    requires
        0 <= start <= end <= p.len(),
        forall|j: int| start <= j < end ==> !path_sep(verbatim, #[trigger] p[j]),
    ensures
        last_sep_end(p, start, end, verbatim) == start,
    decreases end - start,
{
    if end > start {
        lemma_last_sep_end_none(p, start, end - 1, verbatim);
    }
}

/// The file name of a path that is not a `\\` or `//` path and ends in
/// `\name`, where the name holds no separator and is not `.` or `..`, is
/// that name; its stem is the name's stem.
pub proof fn law_file_name_is_last_component(a: Seq<char>, name: Seq<char>)
    requires
        name.len() > 0,
        name != seq!['.'],
        name != seq!['.', '.'],
        forall|j: int| 0 <= j < name.len() ==> !is_separator(#[trigger] name[j]),
        !({
            let p = a.push('\\') + name;
            is_separator(p[0]) && is_separator(p[1])
        }),
    ensures
        path_file_name(a.push('\\') + name) == Some(name),
        path_file_stem(a.push('\\') + name) == Some(name_stem(name)),
{
    let p = a.push('\\') + name;
    let m: int = a.len() as int + 1;
    lemma_body_start(p);
    assert(p[m - 1] == '\\');
    assert forall|j: int| m <= j < p.len() implies !path_sep(false, #[trigger] p[j]) by {
        assert(p[j] == name[j - m]);
    }
    assert(!starts_with_double_sep(p));
    assert(!is_verbatim(p));
    assert(body_start(p) <= m);
    if body_start(p) < m {
        lemma_last_sep_end_at(p, body_start(p), p.len() as int, false, m);
    } else {
        lemma_last_sep_end_none(p, m, p.len() as int, false);
    }
    assert(last_sep_end(p, body_start(p), p.len() as int, false) == m);
    let comp = p.subrange(m, p.len() as int);
    assert(comp =~= name);
    assert(comp.len() > 0);
    assert(comp != seq!['.']);
    assert(comp != seq!['.', '.']);
    assert(last_component(p, body_start(p), p.len() as int, false) == Some(name));
}

/// The body of a path starts inside it.
proof fn lemma_body_start(p: Seq<char>)
    ensures
        0 <= prefix_len(p) <= body_start(p) <= p.len(),
{
    lemma_next_sep(p, 4, true);
    lemma_next_sep(p, 4, false);
    lemma_next_sep(p, 2, false);
    lemma_next_sep(p, 8, true);
    let se = next_sep(p, 8, true);
    if se < p.len() {
        lemma_next_sep(p, se + 1, true);
    }
    let su = next_sep(p, 2, false);
    if su < p.len() {
        lemma_next_sep(p, su + 1, false);
    }
}

/// The first separator at or after `from` lies between `from` and the end.
proof fn lemma_next_sep(p: Seq<char>, from: int, verbatim: bool)
    requires
        0 <= from,
    ensures
        from <= p.len() ==> from <= next_sep(p, from, verbatim) <= p.len(),
        from > p.len() ==> next_sep(p, from, verbatim) == p.len(),
        next_sep(p, from, verbatim) < p.len() ==> path_sep(verbatim, p[next_sep(p, from, verbatim)]),
    decreases p.len() - from,
{
    if from < p.len() && !path_sep(verbatim, p[from]) {
        lemma_next_sep(p, from + 1, verbatim);
    }
}

/// A file stem is one non-empty path component: it is the start of the file
/// name and holds no separator of the path (no `\`, and outside verbatim
/// paths no `/`).
pub proof fn law_file_stem_is_one_component(path: Seq<char>)
    requires
        path_file_stem(path) is Some,
    ensures
        path_file_stem(path)->0.len() > 0,
        path_file_stem(path)->0.is_prefix_of(path_file_name(path)->0),
        forall|j: int|
            0 <= j < path_file_stem(path)->0.len() ==> !path_sep(
                is_verbatim(path),
                #[trigger] path_file_stem(path)->0[j],
            ),
{
    lemma_body_start(path);
    lemma_last_component(path, body_start(path), path.len() as int, is_verbatim(path));
    let name = path_file_name(path)->0;
    lemma_last_dot(name);
    let stem = name_stem(name);
    assert(stem.is_prefix_of(name));
    assert forall|j: int| 0 <= j < stem.len() implies !path_sep(
        is_verbatim(path),
        #[trigger] stem[j],
    ) by {
        assert(stem[j] == name[j]);
    }
}

fn is_sep_char(verbatim: bool, c: char) -> (r: bool)
    ensures
        r == path_sep(verbatim, c),
{
    if verbatim {
        c == '\\'
    } else {
        c == '\\' || c == '/'
    }
}

fn is_prefix_backslash(c: char) -> (r: bool)
    ensures
        r == (prefix_char(c) == '\\'),
{
    c == '\\' || c == '/'
}

fn is_alpha(c: char) -> (r: bool)
    ensures
        r == is_ascii_alpha(c),
{
    let v = c as u32;
    (v >= 'a' as u32 && v <= 'z' as u32) || (v >= 'A' as u32 && v <= 'Z' as u32)
}

fn exec_next_sep(p: &Vec<char>, from: usize, verbatim: bool) -> (r: usize)
    requires
        from <= p@.len(),
    ensures
        r == next_sep(p@, from as int, verbatim),
        from <= r <= p@.len(),
{
    let n = p.len();
    let mut i = from;
    while i < n && !is_sep_char(verbatim, p[i])
        invariant
            n == p@.len(),
            from <= i <= n,
            next_sep(p@, from as int, verbatim) == next_sep(p@, i as int, verbatim),
        decreases n - i,
    {
        i = i + 1;
    }
    i
}

fn exec_server_share_end(p: &Vec<char>, from: usize, verbatim: bool) -> (r: usize)
    requires
        from <= p@.len(),
    ensures
        r == server_share_end(p@, from as int, verbatim),
{
    let server_end = exec_next_sep(p, from, verbatim);
    if server_end < p.len() {
        let share_end = exec_next_sep(p, server_end + 1, verbatim);
        if share_end > server_end + 1 {
            return share_end;
        }
    }
    server_end
}

fn exec_is_verbatim(p: &Vec<char>) -> (r: bool)
    ensures
        r == is_verbatim(p@),
{
    p.len() >= 4 && p[0] == '\\' && p[1] == '\\' && p[2] == '?' && p[3] == '\\'
}

fn exec_is_verbatim_unc(p: &Vec<char>) -> (r: bool)
    ensures
        r == is_verbatim_unc(p@),
{
    exec_is_verbatim(p) && p.len() >= 8 && p[4] == 'U' && p[5] == 'N' && p[6] == 'C'
        && is_prefix_backslash(p[7])
}

fn exec_has_drive_at(p: &Vec<char>, i: usize) -> (r: bool)
    requires
        i <= 4,
    ensures
        r == has_drive_at(p@, i as int),
{
    p.len() >= i + 2 && is_alpha(p[i]) && p[i + 1] == ':'
}

fn exec_starts_with_double_sep(p: &Vec<char>) -> (r: bool)
    ensures
        r == starts_with_double_sep(p@),
{
    p.len() >= 2 && is_prefix_backslash(p[0]) && is_prefix_backslash(p[1])
}

fn exec_is_device(p: &Vec<char>) -> (r: bool)
    ensures
        r == is_device(p@),
{
    exec_starts_with_double_sep(p) && !exec_is_verbatim(p) && p.len() >= 4 && p[2] == '.'
        && is_prefix_backslash(p[3])
}

fn exec_is_unc(p: &Vec<char>) -> (r: bool)
    ensures
        r == is_unc(p@),
{
    if !exec_starts_with_double_sep(p) || exec_is_verbatim(p) || exec_is_device(p) {
        return false;
    }
    let server_end = exec_next_sep(p, 2, false);
    server_end > 2 && server_end < p.len() && exec_next_sep(p, server_end + 1, false) > server_end
        + 1
}

fn exec_is_disk(p: &Vec<char>) -> (r: bool)
    ensures
        r == is_disk(p@),
{
    !exec_starts_with_double_sep(p) && exec_has_drive_at(p, 0)
}

fn exec_prefix_len(p: &Vec<char>) -> (r: usize)
    ensures
        r == prefix_len(p@),
{
    proof {
        lemma_body_start(p@);
    }
    if exec_is_verbatim_unc(p) {
        exec_server_share_end(p, 8, true)
    } else if exec_is_verbatim(p) && !exec_is_verbatim_unc(p) && exec_has_drive_at(p, 4) && (
    p.len() == 6 || p[6] == '\\') {
        6
    } else if exec_is_verbatim(p) {
        exec_next_sep(p, 4, true)
    } else if exec_is_device(p) {
        exec_next_sep(p, 4, false)
    } else if exec_is_unc(p) {
        exec_server_share_end(p, 2, false)
    } else if exec_is_disk(p) {
        2
    } else {
        0
    }
}

fn exec_body_start(p: &Vec<char>) -> (r: usize)
    ensures
        r == body_start(p@),
        r <= p@.len(),
{
    proof {
        lemma_body_start(p@);
    }
    let pl = exec_prefix_len(p);
    let n = p.len();
    let physical_root = pl < n && (p[pl] == '\\' || p[pl] == '/');
    let has_prefix = exec_is_verbatim(p) || exec_is_device(p) || exec_is_unc(p) || exec_is_disk(p);
    let rooted = physical_root || (has_prefix && !exec_is_disk(p));
    let verbatim = exec_is_verbatim(p);
    let cur_dir = !rooted && pl < n && p[pl] == '.' && (pl + 1 == n || is_sep_char(
        verbatim,
        p[pl + 1],
    ));
    let mut start = pl;
    if physical_root {
        start = start + 1;
    }
    if cur_dir {
        start = start + 1;
    }
    start
}

fn exec_last_sep_end(p: &Vec<char>, start: usize, end: usize, verbatim: bool) -> (r: usize)
    requires
        start <= end <= p@.len(),
    ensures
        r == last_sep_end(p@, start as int, end as int, verbatim),
{
    let mut j = end;
    while j > start && !is_sep_char(verbatim, p[j - 1])
        invariant
            start <= j <= end,
            end <= p@.len(),
            last_sep_end(p@, start as int, end as int, verbatim) == last_sep_end(
                p@,
                start as int,
                j as int,
                verbatim,
            ),
        decreases j,
    {
        j = j - 1;
    }
    j
}

/// Where the file name of `p` lies in it, when it has one.
fn file_name_bounds(p: &Vec<char>) -> (r: Option<(usize, usize)>)
    ensures
        match path_file_name(p@) {
            Some(name) => match r {
                Some((lo, hi)) => lo <= hi <= p@.len() && name == p@.subrange(lo as int, hi as int),
                None => false,
            },
            None => r is None,
        },
{
    let start = exec_body_start(p);
    let verbatim = exec_is_verbatim(p);
    let mut end = p.len();
    while end > start
        invariant
            start <= end <= p@.len(),
            verbatim == is_verbatim(p@),
            path_file_name(p@) == last_component(p@, start as int, end as int, verbatim),
        decreases end,
    {
        let k = exec_last_sep_end(p, start, end, verbatim);
        proof {
            lemma_last_sep_end(p@, start as int, end as int, verbatim);
        }
        let ghost comp = p@.subrange(k as int, end as int);
        let empty = end == k;
        let dot = end - k == 1 && p[k] == '.';
        let dot_dot = end - k == 2 && p[k] == '.' && p[k + 1] == '.';
        proof {
            if dot {
                assert(comp =~= seq!['.']);
            }
            if comp == seq!['.'] {
                assert(comp[0] == p@[k as int]);
            }
            if dot_dot {
                assert(comp =~= seq!['.', '.']);
            }
            if comp == seq!['.', '.'] {
                assert(comp[0] == p@[k as int] && comp[1] == p@[k + 1]);
            }
        }
        if empty || (dot && !verbatim) {
            end = if k > start {
                k - 1
            } else {
                start
            };
        } else if dot_dot || dot {
            return None;
        } else {
            assert(last_component(p@, start as int, end as int, verbatim) == Some(comp));
            return Some((k, end));
        }
    }
    None
}

/// The characters `p@.subrange(lo, hi)` as a string.
fn string_from_chars(p: &Vec<char>, lo: usize, hi: usize) -> (r: String)
    requires
        lo <= hi <= p@.len(),
    ensures
        r@ == p@.subrange(lo as int, hi as int),
{
    let mut s = String::new();
    let mut i = lo;
    while i < hi
        invariant
            lo <= i <= hi,
            hi <= p@.len(),
            s@ == p@.subrange(lo as int, i as int),
        decreases hi - i,
    {
        assert(p@.subrange(lo as int, i + 1) =~= p@.subrange(lo as int, i as int).push(p@[i as int]));
        string_push(&mut s, p[i]);
        i = i + 1;
    }
    s
}

/// The file stem of `path` under Windows path rules, as `Path::file_stem`
/// gives it on Windows: `None` when the path has no file name.
pub fn file_stem(path: &str) -> (r: Option<String>)
    ensures
        match path_file_stem(path@) {
            Some(stem) => r is Some && r->0@ == stem,
            None => r is None,
        },
{
    let p = str_chars(path);
    let (start, e) = match file_name_bounds(&p) {
        None => {
            return None;
        },
        Some(bounds) => bounds,
    };
    let ghost c = p@.subrange(start as int, e as int);
    // the last '.' of the file name
    let mut j = e;
    while j > start && p[j - 1] != '.'
        invariant
            start <= j <= e,
            e <= p@.len(),
            last_dot(c) == last_dot(p@.subrange(start as int, j as int)),
        decreases j,
    {
        assert(p@.subrange(start as int, j as int).drop_last() =~= p@.subrange(
            start as int,
            j - 1,
        ));
        j = j - 1;
    }
    let ghost d = last_dot(c);
    if j - start <= 1 {
        Some(string_from_chars(&p, start, e))
    } else {
        assert(d == j - 1 - start);
        assert(c.take(d) =~= p@.subrange(start as int, j - 1));
        Some(string_from_chars(&p, start, j - 1))
    }
}

} // verus!
