use vstd::prelude::*;
use vstd::string::*;
use vstd::utf8::is_ascii_chars;

verus! {

/// Index just after the last `/` of `p`, or 0 when `p` holds none: the start of
/// its last segment.
pub open spec fn seg_start(p: Seq<char>) -> nat
    decreases p.len(),
{
    if p.len() == 0 {
        0
    } else if p.last() == '/' {
        p.len()
    } else {
        seg_start(p.drop_last())
    }
}

/// A position after a separator (or at the start) with no separator after it
/// is where the last segment starts.
pub proof fn lemma_seg_start_at(p: Seq<char>, start: int)
    requires
        0 <= start <= p.len(),
        start == 0 || p[start - 1] == '/',
        forall|k: int| start <= k < p.len() ==> p[k] != '/',
    ensures
        seg_start(p) == start,
    decreases p.len(),
{
    if p.len() > start {
        assert(p.drop_last() =~= p.subrange(0, p.len() - 1));
        lemma_seg_start_at(p.drop_last(), start);
    }
}

/// Whether two strings hold the same characters.
pub fn eq_str(a: &str, b: &str) -> (res: bool)
    ensures
        res == (a@ == b@),
{
    let n = a.unicode_len();
    if n != b.unicode_len() {
        return false;
    }
    let mut i: usize = 0;
    while i < n
        invariant
            n == a@.len(),
            n == b@.len(),
            i <= n,
            forall|k: int| 0 <= k < i ==> a@[k] == b@[k],
        decreases n - i,
    {
        if a.get_char(i) != b.get_char(i) {
            return false;
        }
        i = i + 1;
    }
    assert(a@ =~= b@);
    true
}

/// How paths are written: with `/` alone, or, on Windows, with both `/` and
/// `\` as separators and with an optional drive prefix such as `C:`. Longer
/// Windows prefixes (`\\server\share`, `\\?\`) are read as separators and
/// plain components.
#[derive(Clone, Copy, Debug, PartialEq, Eq, Structural)]
pub enum PathStyle {
    Unix,
    Windows,
}

/// Whether `c` separates path components.
pub open spec fn is_sep(style: PathStyle, c: char) -> bool {
    c == '/' || (style == PathStyle::Windows && c == '\\')
}

/// Whether `c` separates path components (see `is_sep`).
pub fn sep(style: PathStyle, c: char) -> (res: bool)
    ensures
        res == is_sep(style, c),
{
    c == '/' || (style == PathStyle::Windows && c == '\\')
}

/// The separator that joining writes.
pub open spec fn main_sep(style: PathStyle) -> char {
    match style {
        PathStyle::Unix => '/',
        PathStyle::Windows => '\\',
    }
}

/// Whether `c` is an ASCII letter.
pub open spec fn is_ascii_letter(c: char) -> bool {
    ('a' <= c <= 'z') || ('A' <= c <= 'Z')
}

/// The length of the drive prefix that `p` starts with: two for a letter and
/// a colon on Windows, zero otherwise.
pub open spec fn prefix_len(style: PathStyle, p: Seq<char>) -> int {
    if style == PathStyle::Windows && p.len() >= 2 && is_ascii_letter(p[0]) && p[1] == ':' {
        2
    } else {
        0
    }
}

fn drive_prefix(style: PathStyle, s: &str) -> (res: bool)
    ensures
        res == (prefix_len(style, s@) == 2),
{
    if style == PathStyle::Unix {
        return false;
    }
    let n = s.unicode_len();
    if n < 2 {
        return false;
    }
    let c = s.get_char(0);
    (('a' <= c && c <= 'z') || ('A' <= c && c <= 'Z')) && s.get_char(1) == ':'
}

/// Index just after the last separator of `p`, or 0 when it holds none: the
/// start of its last component.
pub open spec fn comp_start(style: PathStyle, p: Seq<char>) -> nat
    decreases p.len(),
{
    if p.len() == 0 {
        0
    } else if is_sep(style, p.last()) {
        p.len()
    } else {
        comp_start(style, p.drop_last())
    }
}

/// The last component starts within the path, and before its end when the
/// path does not end in a separator.
pub proof fn lemma_comp_start_bound(style: PathStyle, p: Seq<char>)
    ensures
        comp_start(style, p) <= p.len(),
        p.len() > 0 && !is_sep(style, p.last()) ==> comp_start(style, p) < p.len(),
    decreases p.len(),
{
    if p.len() > 0 && !is_sep(style, p.last()) {
        lemma_comp_start_bound(style, p.drop_last());
    }
}

proof fn lemma_comp_start_at(style: PathStyle, p: Seq<char>, start: int)
    requires
        0 <= start <= p.len(),
        start == 0 || is_sep(style, p[start - 1]),
        forall|k: int| start <= k < p.len() ==> !is_sep(style, #[trigger] p[k]),
    ensures
        comp_start(style, p) == start,
    decreases p.len(),
{
    if p.len() > start {
        assert(p.drop_last() =~= p.subrange(0, p.len() - 1));
        lemma_comp_start_at(style, p.drop_last(), start);
    }
}

/// The last component of a path without drive prefix: trailing separators and
/// `.` components are skipped, and a path that ends in `..` (or has no
/// component at all) has none.
pub open spec fn last_component(style: PathStyle, p: Seq<char>) -> Option<Seq<char>>
    decreases p.len(),
{
    if p.len() == 0 {
        None
    } else if is_sep(style, p.last()) {
        last_component(style, p.drop_last())
    } else {
        let s = comp_start(style, p);
        let seg = p.subrange(s as int, p.len() as int);
        if seg == seq!['.'] {
            proof {
                lemma_comp_start_bound(style, p);
            }
            last_component(style, p.subrange(0, s as int))
        } else if seg == seq!['.', '.'] {
            None
        } else {
            Some(seg)
        }
    }
}

/// The file name of a path, read as `Path::file_name` reads it: the last
/// component after any drive prefix.
pub open spec fn file_name_spec(style: PathStyle, p: Seq<char>) -> Option<Seq<char>> {
    last_component(style, p.subrange(prefix_len(style, p), p.len() as int))
}

fn last_component_of(style: PathStyle, path: &str) -> (res: Option<String>)
    ensures
        res is None <==> last_component(style, path@) is None,
        res matches Some(n) ==> last_component(style, path@) == Some(n@),
{
    let len = path.unicode_len();
    let mut end: usize = len;
    assert(path@.subrange(0, len as int) =~= path@);
    loop
        invariant
            len == path@.len(),
            end <= len,
            last_component(style, path@) == last_component(style, path@.subrange(0, end as int)),
        decreases end,
    {
        let ghost q = path@.subrange(0, end as int);
        if end == 0 {
            return None;
        }
        if sep(style, path.get_char(end - 1)) {
            assert(q.drop_last() =~= path@.subrange(0, end - 1));
            end = end - 1;
        } else {
            let mut start: usize = end - 1;
            while start > 0 && !sep(style, path.get_char(start - 1))
                invariant
                    len == path@.len(),
                    start < end <= len,
                    forall|k: int| start <= k < end ==> !is_sep(style, #[trigger] path@[k]),
                decreases start,
            {
                start = start - 1;
            }
            proof {
                assert forall|k: int| start <= k < q.len() implies !is_sep(style, #[trigger] q[k]) by {
                    assert(q[k] == path@[k]);
                }
                lemma_comp_start_at(style, q, start as int);
            }
            let n = end - start;
            let seg = path.substring_char(start, end);
            assert(seg@ =~= q.subrange(start as int, q.len() as int));
            if n == 1 && path.get_char(start) == '.' {
                assert(seg@ =~= seq!['.']);
                assert(q.subrange(0, start as int) =~= path@.subrange(0, start as int));
                end = start;
            } else if n == 2 && path.get_char(start) == '.' && path.get_char(start + 1) == '.' {
                assert(seg@ =~= seq!['.', '.']);
                return None;
            } else {
                assert(seg@ != seq!['.']) by {
                    if n == 1 {
                        assert(seg@[0] == path@[start as int]);
                    }
                }
                assert(seg@ != seq!['.', '.']) by {
                    if n == 2 {
                        assert(seg@[0] == path@[start as int]);
                        assert(seg@[1] == path@[start + 1]);
                    }
                }
                return Some(seg.to_owned());
            }
        }
    }
}

/// The file name of a path (see `file_name_spec`).
pub fn file_name(style: PathStyle, path: &str) -> (res: Option<String>)
    ensures
        res is None <==> file_name_spec(style, path@) is None,
        res matches Some(n) ==> file_name_spec(style, path@) == Some(n@),
{
    let n = path.unicode_len();
    let pre: usize = if drive_prefix(style, path) {
        2
    } else {
        0
    };
    last_component_of(style, path.substring_char(pre, n))
}

/// Index of the last `.` in `n`, or -1 when it holds none.
pub open spec fn last_dot(n: Seq<char>) -> int
    decreases n.len(),
{
    if n.len() == 0 {
        -1
    } else if n.last() == '.' {
        n.len() - 1
    } else {
        last_dot(n.drop_last())
    }
}

proof fn lemma_last_dot_at(n: Seq<char>, d: int)
    requires
        -1 <= d < n.len(),
        d >= 0 ==> n[d] == '.',
        forall|k: int| d < k < n.len() ==> n[k] != '.',
    ensures
        last_dot(n) == d,
    decreases n.len(),
{
    if n.len() > d + 1 {
        assert(n.drop_last() =~= n.subrange(0, n.len() - 1));
        lemma_last_dot_at(n.drop_last(), d);
    }
}

/// The extension of a file name, read as `Path::extension` reads it: what
/// follows the last `.`, unless the name holds no `.` or its only `.` leads it.
pub open spec fn name_extension(n: Seq<char>) -> Option<Seq<char>> {
    let d = last_dot(n);
    if d <= 0 {
        None
    } else {
        Some(n.subrange(d + 1, n.len() as int))
    }
}

/// A file name made of a stem, a dot and a suffix without dots has that
/// suffix as its extension; a name without dots, or whose only dot leads it,
/// has none.
pub proof fn lemma_name_extension_rules(stem: Seq<char>, suffix: Seq<char>)
    requires
        stem.len() > 0,
        forall|k: int| 0 <= k < suffix.len() ==> suffix[k] != '.',
    ensures
        name_extension(stem + seq!['.'] + suffix) == Some(suffix),
        (forall|k: int| 0 <= k < suffix.len() ==> suffix[k] != '.') ==> name_extension(suffix) is None,
        name_extension(seq!['.'] + suffix) is None,
{
    let n = stem + seq!['.'] + suffix;
    let d = stem.len() as int;
    assert(n[d] == '.');
    assert forall|k: int| d < k < n.len() implies n[k] != '.' by {
        assert(n[k] == suffix[k - d - 1]);
    }
    lemma_last_dot_at(n, d);
    assert(n.subrange(d + 1, n.len() as int) =~= suffix);
    lemma_last_dot_at(suffix, -1);
    let m = seq!['.'] + suffix;
    assert forall|k: int| 0 < k < m.len() implies m[k] != '.' by {
        assert(m[k] == suffix[k - 1]);
    }
    lemma_last_dot_at(m, 0);
}

/// The extension of the file name of a path.
pub open spec fn extension_spec(style: PathStyle, p: Seq<char>) -> Option<Seq<char>> {
    match file_name_spec(style, p) {
        Some(n) => name_extension(n),
        None => None,
    }
}

/// The extension of the file name of a path (see `extension_spec`).
pub fn extension(style: PathStyle, path: &str) -> (res: Option<String>)
    ensures
        res is None <==> extension_spec(style, path@) is None,
        res matches Some(e) ==> extension_spec(style, path@) == Some(e@),
{
    let name = match file_name(style, path) {
        Some(n) => n,
        None => {
            return None;
        },
    };
    let n = name.as_str().unicode_len();
    let mut i: usize = n;
    while i > 0 && name.as_str().get_char(i - 1) != '.'
        invariant
            n == name@.len(),
            i <= n,
            forall|k: int| i <= k < n ==> name@[k] != '.',
        decreases i,
    {
        i = i - 1;
    }
    proof {
        lemma_last_dot_at(name@, i - 1);
    }
    if i <= 1 {
        None
    } else {
        let e = name.as_str().substring_char(i, n);
        Some(e.to_owned())
    }
}

/// `name` appended to `dir` as `PathBuf::push` appends it: a `name` that starts
/// with a separator or a drive prefix replaces `dir`, and a separator goes
/// between them unless `dir` is empty, ends in one, or is a bare drive prefix.
/// (On Windows `PathBuf::push` keeps the drive of `dir` before a `name` that
/// starts with a separator; that case is read as a replacement here.)
pub open spec fn join_spec(style: PathStyle, dir: Seq<char>, name: Seq<char>) -> Seq<char> {
    if (name.len() > 0 && is_sep(style, name[0])) || prefix_len(style, name) > 0 {
        name
    } else if dir.len() == 0 || is_sep(style, dir.last()) || (prefix_len(style, dir) == 2 && dir.len() == 2) {
        dir + name
    } else {
        dir + seq![main_sep(style)] + name
    }
}

/// Whether `name` is a single plain path component: not empty, free of
/// separators, without drive prefix, and neither `.` nor `..`.
pub open spec fn is_plain_component(style: PathStyle, name: Seq<char>) -> bool {
    &&& name.len() > 0
    &&& forall|i: int| 0 <= i < name.len() ==> !is_sep(style, #[trigger] name[i])
    &&& prefix_len(style, name) == 0
    &&& name != seq!['.']
    &&& name != seq!['.', '.']
}

proof fn lemma_last_component_after(style: PathStyle, a: Seq<char>, name: Seq<char>)
    requires
        is_plain_component(style, name),
        a.len() == 0 || is_sep(style, a.last()),
    ensures
        last_component(style, a + name) == Some(name),
{
    let j = a + name;
    assert(j.last() == name.last());
    assert forall|k: int| a.len() <= k < j.len() implies !is_sep(style, #[trigger] j[k]) by {
        assert(j[k] == name[k - a.len()]);
    }
    if a.len() > 0 {
        assert(j[a.len() - 1] == a.last());
    }
    lemma_comp_start_at(style, j, a.len() as int);
    assert(j.subrange(a.len() as int, j.len() as int) =~= name);
}

/// Joining a plain name to a directory gives a path whose file name is that
/// name.
pub proof fn lemma_file_name_of_join(style: PathStyle, dir: Seq<char>, name: Seq<char>)
    requires
        is_plain_component(style, name),
    ensures
        file_name_spec(style, join_spec(style, dir, name)) == Some(name),
{
    let bare = prefix_len(style, dir) == 2 && dir.len() == 2;
    let pre = if dir.len() == 0 || is_sep(style, dir.last()) || bare {
        dir
    } else {
        dir + seq![main_sep(style)]
    };
    let j = join_spec(style, dir, name);
    assert(name.len() > 0 ==> !is_sep(style, name[0]));
    assert(j =~= pre + name);
    let k = prefix_len(style, j);
    if k == 0 {
        if pre.len() > 0 {
            assert(is_sep(style, pre.last())) by {
                if bare {
                    assert(j[0] == dir[0] && j[1] == dir[1]);
                }
            }
        }
        assert(j.subrange(0, j.len() as int) =~= j);
        lemma_last_component_after(style, pre, name);
    } else {
        assert(pre.len() >= 2) by {
            if pre.len() == 0 {
                assert(j =~= name);
            } else if pre.len() == 1 {
                assert(pre =~= dir);
                assert(j[0] == dir[0]);
            }
        }
        let rest = pre.subrange(2, pre.len() as int);
        assert(j.subrange(2, j.len() as int) =~= rest + name);
        if rest.len() > 0 {
            assert(rest.last() == pre.last());
            assert(is_sep(style, pre.last())) by {
                if bare {
                    assert(pre =~= dir);
                }
            }
        }
        lemma_last_component_after(style, rest, name);
    }
}

/// `name` appended to `dir` as a path (see `join_spec`).
pub fn path_join(style: PathStyle, dir: &str, name: &str) -> (res: String)
    ensures
        res@ == join_spec(style, dir@, name@),
{
    let nl = name.unicode_len();
    if (nl > 0 && sep(style, name.get_char(0))) || drive_prefix(style, name) {
        return name.to_owned();
    }
    let dl = dir.unicode_len();
    let mut res = dir.to_owned();
    if dl > 0 && !sep(style, dir.get_char(dl - 1)) && !(drive_prefix(style, dir) && dl == 2) {
        match style {
            PathStyle::Unix => {
                res.append("/");
                proof {
                    reveal_strlit("/");
                }
            },
            PathStyle::Windows => {
                res.append("\\");
                proof {
                    reveal_strlit("\\");
                }
            },
        }
    }
    res.append(name);
    res
}

/// `c` with `A`..`Z` mapped to `a`..`z`.
pub open spec fn ascii_lower_char(c: char) -> char {
    if 'A' <= c <= 'Z' {
        ((c as u32) + 32) as char
    } else {
        c
    }
}

/// `s` with each ASCII capital mapped to its small letter.
pub open spec fn ascii_lowercase(s: Seq<char>) -> Seq<char> {
    Seq::new(s.len(), |i: int| ascii_lower_char(s[i]))
}

/// What `str::to_lowercase` returns for a string: its Unicode lowercase mapping.
pub uninterp spec fn unicode_lowercase(s: Seq<char>) -> Seq<char>;

/// Calls `str::to_lowercase`. Claimed: the result is the Unicode lowercase
/// mapping of the argument, and on an all-ASCII argument that mapping sends
/// `A`..`Z` to `a`..`z` and keeps every other character. Not stated: the
/// mapping of non-ASCII characters.
#[verifier::external_body]
pub(crate) fn to_lowercase(s: &str) -> (res: String)
    ensures
        res@ == unicode_lowercase(s@),
        is_ascii_chars(s@) ==> res@ == ascii_lowercase(s@),
{
    s.to_lowercase()
}

/// Whether `c` has the Unicode `White_Space` property, the test that
/// `char::is_whitespace` and `str::trim` apply.
pub open spec fn is_white_space(c: char) -> bool {
    let n = c as u32;
    ||| 0x9 <= n <= 0xd
    ||| n == 0x20
    ||| n == 0x85
    ||| n == 0xa0
    ||| n == 0x1680
    ||| 0x2000 <= n <= 0x200a
    ||| n == 0x2028
    ||| n == 0x2029
    ||| n == 0x202f
    ||| n == 0x205f
    ||| n == 0x3000
}

/// Whether `c` is white space (see `is_white_space`).
pub fn white_space(c: char) -> (res: bool)
    ensures
        res == is_white_space(c),
{
    let n = c as u32;
    (0x9 <= n && n <= 0xd) || n == 0x20 || n == 0x85 || n == 0xa0 || n == 0x1680 || (0x2000 <= n && n
        <= 0x200a) || n == 0x2028 || n == 0x2029 || n == 0x202f || n == 0x205f || n == 0x3000
}

/// `s` without its leading white space.
pub open spec fn trim_start_spec(s: Seq<char>) -> Seq<char>
    decreases s.len(),
{
    if s.len() > 0 && is_white_space(s[0]) {
        trim_start_spec(s.drop_first())
    } else {
        s
    }
}

/// `s` without its trailing white space.
pub open spec fn trim_end_spec(s: Seq<char>) -> Seq<char>
    decreases s.len(),
{
    if s.len() > 0 && is_white_space(s.last()) {
        trim_end_spec(s.drop_last())
    } else {
        s
    }
}

/// `s` without its leading and trailing white space, as `str::trim` returns it.
pub open spec fn trim_spec(s: Seq<char>) -> Seq<char> {
    trim_end_spec(trim_start_spec(s))
}

proof fn lemma_trim_start_at(s: Seq<char>, a: int)
    requires
        0 <= a <= s.len(),
        forall|k: int| 0 <= k < a ==> is_white_space(#[trigger] s[k]),
        a == s.len() || !is_white_space(s[a]),
    ensures
        trim_start_spec(s) == s.subrange(a, s.len() as int),
    decreases a,
{
    if a > 0 {
        let t = s.drop_first();
        assert forall|k: int| 0 <= k < a - 1 implies is_white_space(#[trigger] t[k]) by {
            assert(t[k] == s[k + 1]);
        }
        lemma_trim_start_at(t, a - 1);
        assert(t.subrange(a - 1, t.len() as int) =~= s.subrange(a, s.len() as int));
    } else {
        assert(s.subrange(0, s.len() as int) =~= s);
    }
}

proof fn lemma_trim_end_at(s: Seq<char>, b: int)
    requires
        0 <= b <= s.len(),
        forall|k: int| b <= k < s.len() ==> is_white_space(#[trigger] s[k]),
        b == 0 || !is_white_space(s[b - 1]),
    ensures
        trim_end_spec(s) == s.subrange(0, b),
    decreases s.len() - b,
{
    if b < s.len() {
        let t = s.drop_last();
        assert(is_white_space(s[s.len() - 1]));
        lemma_trim_end_at(t, b);
        assert(t.subrange(0, b) =~= s.subrange(0, b));
    } else {
        assert(s.subrange(0, b) =~= s);
    }
}

/// `s` without its leading and trailing white space (see `trim_spec`).
pub fn trim(s: &str) -> (res: String)
    ensures
        res@ == trim_spec(s@),
{
    let n = s.unicode_len();
    let mut a: usize = 0;
    while a < n && white_space(s.get_char(a))
        invariant
            n == s@.len(),
            a <= n,
            forall|k: int| 0 <= k < a ==> is_white_space(#[trigger] s@[k]),
        decreases n - a,
    {
        a = a + 1;
    }
    proof {
        lemma_trim_start_at(s@, a as int);
    }
    let mut b: usize = n;
    while b > a && white_space(s.get_char(b - 1))
        invariant
            n == s@.len(),
            a <= b <= n,
            forall|k: int| b <= k < n ==> is_white_space(#[trigger] s@[k]),
        decreases b,
    {
        b = b - 1;
    }
    let ghost t = s@.subrange(a as int, n as int);
    proof {
        assert forall|k: int| b - a <= k < t.len() implies is_white_space(#[trigger] t[k]) by {
            assert(t[k] == s@[k + a]);
        }
        if b > a {
            assert(t[b - a - 1] == s@[b - 1]);
        }
        lemma_trim_end_at(t, b - a);
        assert(t.subrange(0, b - a) =~= s@.subrange(a as int, b as int));
    }
    s.substring_char(a, b).to_owned()
}

/// Trimming cuts a text into three runs: white space, the result, white
/// space, with the result neither starting nor ending with white space; so a
/// text that has none around it comes back whole.
pub proof fn lemma_trim_shape(s: Seq<char>)
    ensures
        exists|a: int, b: int|
            #![trigger s.subrange(a, b)]
            0 <= a <= b <= s.len() && trim_spec(s) == s.subrange(a, b) && (forall|k: int|
                0 <= k < a ==> is_white_space(#[trigger] s[k])) && (forall|k: int|
                b <= k < s.len() ==> is_white_space(#[trigger] s[k])) && (a < b ==> !is_white_space(s[a])
                && !is_white_space(s[b - 1])),
        s.len() > 0 && !is_white_space(s[0]) && !is_white_space(s.last()) ==> trim_spec(s) == s,
{
    let n = s.len() as int;
    let a = first_non_white(s);
    lemma_first_non_white(s);
    lemma_trim_start_at(s, a);
    let t = s.subrange(a, n);
    let e = kept_length(t);
    lemma_kept_length(t);
    let b = a + e;
    if e > 0 {
        assert(t[e - 1] == s[b - 1]);
    }
    lemma_trim_end_at(t, e);
    assert(t.subrange(0, e) =~= s.subrange(a, b));
    assert forall|k: int| b <= k < s.len() implies is_white_space(#[trigger] s[k]) by {
        assert(t[k - a] == s[k]);
    }
    if a < b {
        assert(t[0] == s[a]);
    }
    assert(0 <= a <= b <= s.len() && trim_spec(s) == s.subrange(a, b));
    if s.len() > 0 && !is_white_space(s[0]) && !is_white_space(s.last()) {
        assert(a == 0);
        assert(t =~= s);
        assert(b == n);
        assert(s.subrange(0, n) =~= s);
    }
}

/// The index of the first character of `s` that is not white space, or its
/// length when there is none.
spec fn first_non_white(s: Seq<char>) -> int
    decreases s.len(),
{
    if s.len() > 0 && is_white_space(s[0]) {
        1 + first_non_white(s.drop_first())
    } else {
        0
    }
}

proof fn lemma_first_non_white(s: Seq<char>)
    ensures
        0 <= first_non_white(s) <= s.len(),
        forall|k: int| 0 <= k < first_non_white(s) ==> is_white_space(#[trigger] s[k]),
        first_non_white(s) == s.len() || !is_white_space(s[first_non_white(s)]),
    decreases s.len(),
{
    if s.len() > 0 && is_white_space(s[0]) {
        let t = s.drop_first();
        lemma_first_non_white(t);
        assert forall|k: int| 0 <= k < first_non_white(s) implies is_white_space(#[trigger] s[k]) by {
            if k > 0 {
                assert(s[k] == t[k - 1]);
            }
        }
        if first_non_white(s) < s.len() {
            assert(s[first_non_white(s)] == t[first_non_white(t)]);
        }
    }
}

/// The length of `s` without its trailing white space.
spec fn kept_length(s: Seq<char>) -> int
    decreases s.len(),
{
    if s.len() > 0 && is_white_space(s.last()) {
        kept_length(s.drop_last())
    } else {
        s.len() as int
    }
}

proof fn lemma_kept_length(s: Seq<char>)
    ensures
        0 <= kept_length(s) <= s.len(),
        forall|k: int| kept_length(s) <= k < s.len() ==> is_white_space(#[trigger] s[k]),
        kept_length(s) == 0 || !is_white_space(s[kept_length(s) - 1]),
    decreases s.len(),
{
    if s.len() > 0 && is_white_space(s.last()) {
        let t = s.drop_last();
        lemma_kept_length(t);
        assert forall|k: int| kept_length(s) <= k < s.len() implies is_white_space(#[trigger] s[k]) by {
            if k < t.len() {
                assert(s[k] == t[k]);
            }
        }
        if kept_length(s) > 0 {
            assert(s[kept_length(s) - 1] == t[kept_length(t) - 1]);
        }
    }
}

/// Whether `p` is a usable path text: not empty, and neither starting nor
/// ending with white space.
pub open spec fn is_clean_path(p: Seq<char>) -> bool {
    &&& p.len() > 0
    &&& !is_white_space(p[0])
    &&& !is_white_space(p.last())
}

proof fn lemma_trim_start_first(s: Seq<char>)
    ensures
        trim_start_spec(s).len() <= s.len(),
        trim_start_spec(s).len() > 0 ==> !is_white_space(trim_start_spec(s)[0]),
    decreases s.len(),
{
    if s.len() > 0 && is_white_space(s[0]) {
        lemma_trim_start_first(s.drop_first());
    }
}

proof fn lemma_trim_end_last(s: Seq<char>)
    ensures
        trim_end_spec(s).len() <= s.len(),
        trim_end_spec(s).len() > 0 ==> !is_white_space(trim_end_spec(s).last()) && trim_end_spec(s)[0] == s[0],
    decreases s.len(),
{
    if s.len() > 0 && is_white_space(s.last()) {
        lemma_trim_end_last(s.drop_last());
    }
}

/// A trimmed text that is not empty is a clean path text.
pub proof fn lemma_trim_clean(s: Seq<char>)
    ensures
        trim_spec(s).len() > 0 ==> is_clean_path(trim_spec(s)),
{
    lemma_trim_start_first(s);
    lemma_trim_end_last(trim_start_spec(s));
}

/// Whether `p` is a clean path text (see `is_clean_path`).
pub fn clean_path(p: &str) -> (res: bool)
    ensures
        res == is_clean_path(p@),
{
    let n = p.unicode_len();
    n > 0 && !white_space(p.get_char(0)) && !white_space(p.get_char(n - 1))
}

/// The text of `s` before its first line feed: the first line that
/// `str::lines` yields, up to a `\r` that ends it, which is white space.
pub open spec fn first_line(s: Seq<char>) -> Seq<char>
    decreases s.len(),
{
    if s.len() == 0 {
        s
    } else if s[0] == '\n' {
        Seq::empty()
    } else {
        seq![s[0]] + first_line(s.drop_first())
    }
}

proof fn lemma_first_line_at(s: Seq<char>, i: int)
    requires
        0 <= i <= s.len(),
        forall|k: int| 0 <= k < i ==> #[trigger] s[k] != '\n',
        i == s.len() || s[i] == '\n',
    ensures
        first_line(s) == s.subrange(0, i),
    decreases i,
{
    if i > 0 {
        let t = s.drop_first();
        assert forall|k: int| 0 <= k < i - 1 implies #[trigger] t[k] != '\n' by {
            assert(t[k] == s[k + 1]);
        }
        lemma_first_line_at(t, i - 1);
        assert(seq![s[0]] + t.subrange(0, i - 1) =~= s.subrange(0, i));
    } else if s.len() > 0 {
        assert(s.subrange(0, 0) =~= Seq::<char>::empty());
    } else {
        assert(s.subrange(0, 0) =~= s);
    }
}

/// The first line of a text is what comes before its first line feed: a
/// line without line feed followed by a line feed and anything else gives that
/// line, and a text without line feed is its own first line.
pub proof fn lemma_first_line_before_feed(line: Seq<char>, rest: Seq<char>)
    requires
        forall|k: int| 0 <= k < line.len() ==> line[k] != '\n',
    ensures
        first_line(line + seq!['\n'] + rest) == line,
        first_line(line) == line,
{
    let s = line + seq!['\n'] + rest;
    assert forall|k: int| 0 <= k < line.len() implies #[trigger] s[k] != '\n' by {
        assert(s[k] == line[k]);
    }
    assert(s[line.len() as int] == '\n');
    lemma_first_line_at(s, line.len() as int);
    assert(s.subrange(0, line.len() as int) =~= line);
    assert forall|k: int| 0 <= k < line.len() implies #[trigger] line[k] != '\n' by {}
    lemma_first_line_at(line, line.len() as int);
    assert(line.subrange(0, line.len() as int) =~= line);
}

/// The first line of `s` (see `first_line`).
pub fn first_line_of(s: &str) -> (res: String)
    ensures
        res@ == first_line(s@),
{
    let n = s.unicode_len();
    let mut i: usize = 0;
    while i < n && s.get_char(i) != '\n'
        invariant
            n == s@.len(),
            i <= n,
            forall|k: int| 0 <= k < i ==> #[trigger] s@[k] != '\n',
        decreases n - i,
    {
        i = i + 1;
    }
    proof {
        lemma_first_line_at(s@, i as int);
    }
    s.substring_char(0, i).to_owned()
}

/// The characters of each string of `v`, in order.
pub open spec fn strings_view(v: Seq<String>) -> Seq<Seq<char>> {
    v.map_values(|s: String| s@)
}

/// Whether `s` is one of the strings of `list`.
pub fn contains_str(list: &Vec<String>, s: &str) -> (res: bool)
    ensures
        res == strings_view(list@).contains(s@),
{
    let mut i: usize = 0;
    while i < list.len()
        invariant
            i <= list.len(),
            forall|k: int| 0 <= k < i ==> list@[k]@ != s@,
        decreases list.len() - i,
    {
        if eq_str(list[i].as_str(), s) {
            assert(strings_view(list@)[i as int] == s@);
            return true;
        }
        i = i + 1;
    }
    assert forall|k: int| 0 <= k < strings_view(list@).len() implies strings_view(list@)[k] != s@ by {
        assert(strings_view(list@)[k] == list@[k]@);
    }
    false
}


/// The characters of an optional string.
pub open spec fn opt_view(o: Option<String>) -> Option<Seq<char>> {
    match o {
        Some(s) => Some(s@),
        None => None,
    }
}

/// A copy of an optional string.
pub fn clone_opt(o: &Option<String>) -> (res: Option<String>)
    ensures
        res == *o,
{
    match o {
        Some(s) => Some(s.clone()),
        None => None,
    }
}

/// A copy of a list of strings.
pub fn clone_strings(v: &Vec<String>) -> (res: Vec<String>)
    ensures
        res@ == v@,
{
    let mut res: Vec<String> = Vec::new();
    let mut i: usize = 0;
    while i < v.len()
        invariant
            i <= v.len(),
            res@ == v@.subrange(0, i as int),
        decreases v.len() - i,
    {
        res.push(v[i].clone());
        assert(res@ =~= v@.subrange(0, i + 1));
        i = i + 1;
    }
    assert(res@ =~= v@);
    res
}

} // verus!
