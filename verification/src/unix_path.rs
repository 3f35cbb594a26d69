//! Paths in Unix syntax, read as `std::path::Path` reads them on macOS and
//! Linux: a path's parent, whether it has the `app` extension, and the
//! application bundle that holds a path.

use vstd::prelude::*;

verus! {

/// Index of the last `/` among positions `start..end` of `s`, or `-1`.
pub open spec fn last_slash(s: Seq<char>, start: int, end: int) -> int
    decreases end - start,
{
    if end <= start {
        -1
    } else if s[end - 1] == '/' {
        end - 1
    } else {
        last_slash(s, start, end - 1)
    }
}

/// The last `/` lies in the range searched.
pub proof fn lemma_last_slash(s: Seq<char>, start: int, end: int)
    requires
        0 <= start,
        end <= s.len(),
    ensures
        last_slash(s, start, end) == -1 || (start <= last_slash(s, start, end) < end && s[last_slash(
            s,
            start,
            end,
        )] == '/'),
    decreases end - start,
{
    if end > start && s[end - 1] != '/' {
        lemma_last_slash(s, start, end - 1);
    }
}

/// The last component of `s` after its first `start` characters: the text
/// after the last `/` (all of it where there is none), and how many
/// characters it takes together with that `/`.
pub open spec fn last_component(s: Seq<char>, start: int) -> (Seq<char>, int) {
    let k = last_slash(s, start, s.len() as int);
    if k < 0 {
        (s.subrange(start, s.len() as int), s.len() - start)
    } else {
        (s.subrange(k + 1, s.len() as int), s.len() - k)
    }
}

/// A component that reading a path skips: an empty one, or `.`.
pub open spec fn is_skipped_component(c: Seq<char>) -> bool {
    c.len() == 0 || c == seq!['.']
}

/// `s` without the skipped components at its end, its first `start`
/// characters always kept.
pub open spec fn trim_skipped(s: Seq<char>, start: int) -> Seq<char>
    decreases s.len(),
{
    if 0 <= start < s.len() && is_skipped_component(last_component(s, start).0) {
        proof {
            lemma_last_slash(s, start, s.len() as int);
        }
        trim_skipped(s.subrange(0, s.len() - last_component(s, start).1), start)
    } else {
        s
    }
}

/// The path starts at the root directory.
pub open spec fn has_root(s: Seq<char>) -> bool {
    s.len() > 0 && s[0] == '/'
}

/// The relative path starts with the current directory: it is `.` or starts with `./`.
pub open spec fn starts_with_cur_dir(s: Seq<char>) -> bool {
    !has_root(s) && s.len() > 0 && s[0] == '.' && (s.len() == 1 || s[1] == '/')
}

/// Characters before the path's first named component: the root or the leading `.`.
pub open spec fn body_start(s: Seq<char>) -> int {
    if has_root(s) || starts_with_cur_dir(s) {
        1
    } else {
        0
    }
}

/// The parent of a path (`Path::parent`): the path without its last
/// component and the separators and `.` components before it; `""` for a
/// single relative component; none for the root or the empty path.
pub open spec fn unix_parent(s: Seq<char>) -> Option<Seq<char>> {
    let start = body_start(s);
    let t = trim_skipped(s, start);
    if t.len() > start {
        Some(trim_skipped(t.subrange(0, t.len() - last_component(t, start).1), start))
    } else if starts_with_cur_dir(s) {
        Some(Seq::empty())
    } else {
        None
    }
}

/// The last component of a path where it is a name (`Path::file_name`).
pub open spec fn unix_file_name(s: Seq<char>) -> Option<Seq<char>> {
    let start = body_start(s);
    let t = trim_skipped(s, start);
    if t.len() > start && last_component(t, start).0 != seq!['.', '.'] {
        Some(last_component(t, start).0)
    } else {
        None
    }
}

/// Index of the last `.` among the first `end` characters of `c`, or `-1`.
pub open spec fn last_dot(c: Seq<char>, end: int) -> int
    decreases end,
{
    if end <= 0 {
        -1
    } else if c[end - 1] == '.' {
        end - 1
    } else {
        last_dot(c, end - 1)
    }
}

/// The path's extension (`Path::extension`) is `app`: its file name has a
/// `.` after the first character, and `app` follows the last one.
pub open spec fn has_app_extension(s: Seq<char>) -> bool {
    match unix_file_name(s) {
        Some(c) => {
            let k = last_dot(c, c.len() as int);
            k > 0 && c.subrange(k + 1, c.len() as int) == seq!['a', 'p', 'p']
        },
        None => false,
    }
}

/// Trimming keeps a prefix of the path, never shorter than the kept start.
pub proof fn lemma_trim_skipped(s: Seq<char>, start: int)
    requires
        0 <= start <= s.len(),
    ensures
        start <= trim_skipped(s, start).len() <= s.len(),
        trim_skipped(s, start) == s.subrange(0, trim_skipped(s, start).len() as int),
    decreases s.len(),
{
    if 0 <= start < s.len() && is_skipped_component(last_component(s, start).0) {
        lemma_last_slash(s, start, s.len() as int);
        let r = s.subrange(0, s.len() - last_component(s, start).1);
        lemma_trim_skipped(r, start);
        assert(trim_skipped(s, start) == trim_skipped(r, start));
        assert(r.subrange(0, trim_skipped(r, start).len() as int) =~= s.subrange(
            0,
            trim_skipped(r, start).len() as int,
        ));
    } else {
        assert(s.subrange(0, s.len() as int) =~= s);
    }
}

/// A parent is shorter than the path.
pub proof fn lemma_unix_parent_shorter(s: Seq<char>)
    ensures
        unix_parent(s) matches Some(q) ==> q.len() < s.len(),
{
    let start = body_start(s);
    if s.len() > 0 {
        lemma_trim_skipped(s, start);
        let t = trim_skipped(s, start);
        if t.len() > start {
            lemma_last_slash(t, start, t.len() as int);
            lemma_trim_skipped(t.subrange(0, t.len() - last_component(t, start).1), start);
        }
    }
}

/// The nearest proper ancestor of a path that has the `app` extension.
pub open spec fn bundle_ancestor(s: Seq<char>) -> Option<Seq<char>>
    decreases s.len(),
{
    if let Some(q) = unix_parent(s) {
        proof {
            lemma_unix_parent_shorter(s);
        }
        if has_app_extension(q) {
            Some(q)
        } else {
            bundle_ancestor(q)
        }
    } else {
        None
    }
}

/// The application bundle holding a path: the path itself where it has the
/// `app` extension, else its nearest ancestor that has it, else the path.
pub open spec fn bundle_around(p: Seq<char>) -> Seq<char> {
    if has_app_extension(p) {
        p
    } else {
        match bundle_ancestor(p) {
            Some(q) => q,
            None => p,
        }
    }
}

fn last_slash_index(s: &str, start: usize, end: usize) -> (res: Option<usize>)
    requires
        start <= end <= s@.len(),
    ensures
        match res {
            Some(i) => last_slash(s@, start as int, end as int) == i,
            None => last_slash(s@, start as int, end as int) == -1,
        },
{
    let mut e = end;
    while e > start
        invariant
            start <= e <= end <= s@.len(),
            last_slash(s@, start as int, end as int) == last_slash(s@, start as int, e as int),
        decreases e,
    {
        if s.get_char(e - 1) == '/' {
            return Some(e - 1);
        }
        e = e - 1;
    }
    None
}

fn last_component_of(s: &str, start: usize) -> (res: (&str, usize))
    requires
        start < s@.len(),
    ensures
        res.0@ == last_component(s@, start as int).0,
        res.1 as int == last_component(s@, start as int).1,
        1 <= res.1 <= s@.len(),
{
    let n = s.unicode_len();
    proof {
        lemma_last_slash(s@, start as int, n as int);
    }
    match last_slash_index(s, start, n) {
        Some(k) => (s.substring_char(k + 1, n), n - k),
        None => (s.substring_char(start, n), n - start),
    }
}

fn is_skipped(c: &str) -> (res: bool)
    ensures
        res == is_skipped_component(c@),
{
    let n = c.unicode_len();
    if n == 0 {
        true
    } else if n == 1 && c.get_char(0) == '.' {
        assert(c@ =~= seq!['.']);
        true
    } else {
        assert(n == 1 ==> c@[0] != '.');
        assert(c@ != seq!['.']) by {
            if n == 1 {
                assert(c@[0] != seq!['.'][0]);
            }
        }
        false
    }
}

fn trim_skipped_of(s: &str, start: usize) -> (res: &str)
    requires
        start <= s@.len(),
    ensures
        res@ == trim_skipped(s@, start as int),
{
    let mut t = s;
    loop
        invariant
            start <= t@.len(),
            trim_skipped(t@, start as int) == trim_skipped(s@, start as int),
        decreases t@.len(),
    {
        let n = t.unicode_len();
        if n <= start {
            return t;
        }
        let (c, size) = last_component_of(t, start);
        if is_skipped(c) {
            proof {
                lemma_last_slash(t@, start as int, n as int);
            }
            t = t.substring_char(0, n - size);
        } else {
            return t;
        }
    }
}

fn starts_with_cur_dir_of(s: &str) -> (res: bool)
    ensures
        res == starts_with_cur_dir(s@),
{
    let n = s.unicode_len();
    if n == 0 {
        false
    } else {
        let c0 = s.get_char(0);
        c0 == '.' && (n == 1 || s.get_char(1) == '/')
    }
}

fn body_start_of(s: &str) -> (res: usize)
    ensures
        res as int == body_start(s@),
        res <= s@.len(),
{
    let n = s.unicode_len();
    if n > 0 && s.get_char(0) == '/' {
        1
    } else if starts_with_cur_dir_of(s) {
        1
    } else {
        0
    }
}

/// The parent of a path in Unix syntax, as `Path::parent` gives it.
pub fn path_parent(s: &str) -> (res: Option<&str>)
    ensures
        match res {
            Some(q) => unix_parent(s@) == Some(q@),
            None => unix_parent(s@) is None,
        },
{
    let start = body_start_of(s);
    let t = trim_skipped_of(s, start);
    proof {
        lemma_trim_skipped(s@, start as int);
    }
    let n = t.unicode_len();
    if n > start {
        let (_, size) = last_component_of(t, start);
        proof {
            lemma_last_slash(t@, start as int, n as int);
        }
        let r = t.substring_char(0, n - size);
        Some(trim_skipped_of(r, start))
    } else if starts_with_cur_dir_of(s) {
        let e = s.substring_char(0, 0);
        assert(e@ =~= Seq::<char>::empty());
        Some(e)
    } else {
        None
    }
}

/// The file name of a path in Unix syntax, as `Path::file_name` gives it.
pub fn path_file_name(s: &str) -> (res: Option<&str>)
    ensures
        match res {
            Some(n) => unix_file_name(s@) == Some(n@),
            None => unix_file_name(s@) is None,
        },
{
    let start = body_start_of(s);
    let t = trim_skipped_of(s, start);
    proof {
        lemma_trim_skipped(s@, start as int);
    }
    let n = t.unicode_len();
    if n <= start {
        return None;
    }
    let (c, _) = last_component_of(t, start);
    let m = c.unicode_len();
    if m == 2 && c.get_char(0) == '.' && c.get_char(1) == '.' {
        assert(c@ =~= seq!['.', '.']);
        return None;
    }
    assert(c@ != seq!['.', '.']) by {
        if m == 2 {
            assert(c@[0] != '.' || c@[1] != '.');
        }
    }
    Some(c)
}

fn last_dot_index(c: &str) -> (res: Option<usize>)
    ensures
        match res {
            Some(i) => last_dot(c@, c@.len() as int) == i && i < c@.len(),
            None => last_dot(c@, c@.len() as int) == -1,
        },
{
    let n = c.unicode_len();
    let mut e = n;
    while e > 0
        invariant
            e <= n == c@.len(),
            last_dot(c@, n as int) == last_dot(c@, e as int),
        decreases e,
    {
        if c.get_char(e - 1) == '.' {
            return Some(e - 1);
        }
        e = e - 1;
    }
    None
}

/// Whether a path in Unix syntax has the extension `app`, as
/// `Path::extension` reads it.
pub fn path_has_app_extension(s: &str) -> (res: bool)
    ensures
        res == has_app_extension(s@),
{
    let start = body_start_of(s);
    let t = trim_skipped_of(s, start);
    proof {
        lemma_trim_skipped(s@, start as int);
    }
    let n = t.unicode_len();
    if n <= start {
        return false;
    }
    let (c, _) = last_component_of(t, start);
    let m = c.unicode_len();
    if m == 2 && c.get_char(0) == '.' && c.get_char(1) == '.' {
        assert(c@ =~= seq!['.', '.']);
        return false;
    }
    assert(c@ != seq!['.', '.']) by {
        if m == 2 {
            assert(c@[0] != '.' || c@[1] != '.');
        }
    }
    match last_dot_index(c) {
        Some(k) => {
            if k == 0 || m - k != 4 {
                assert(k > 0 ==> c@.subrange(k + 1, m as int).len() != 3);
                false
            } else {
                let r = c.get_char(k + 1) == 'a' && c.get_char(k + 2) == 'p' && c.get_char(k + 3) == 'p';
                if r {
                    assert(c@.subrange(k + 1, m as int) =~= seq!['a', 'p', 'p']);
                } else {
                    assert(c@.subrange(k + 1, m as int) != seq!['a', 'p', 'p']) by {
                        let x = c@.subrange(k + 1, m as int);
                        assert(x[0] == c@[k + 1] && x[1] == c@[k + 2] && x[2] == c@[k + 3]);
                    }
                }
                r
            }
        },
        None => false,
    }
}

/// The application bundle holding a path: the path itself where it has the
/// `app` extension, else its nearest ancestor that has it, else the path.
pub fn bundle_around_path(p: &str) -> (res: String)
    ensures
        res@ == bundle_around(p@),
{
    if path_has_app_extension(p) {
        return String::from_str(p);
    }
    let mut cur = p;
    loop
        invariant
            !has_app_extension(p@),
            bundle_ancestor(cur@) == bundle_ancestor(p@),
        decreases cur@.len(),
    {
        match path_parent(cur) {
            Some(q) => {
                proof {
                    lemma_unix_parent_shorter(cur@);
                }
                if path_has_app_extension(q) {
                    return String::from_str(q);
                }
                cur = q;
            },
            None => {
                return String::from_str(p);
            },
        }
    }
}

} // verus!
