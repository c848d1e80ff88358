//! Display names and identifiers derived from bundle file names.
use vstd::prelude::*;

use crate::text::{chars_of, push_char};

verus! {

pub open spec fn is_ascii_alnum(c: char) -> bool {
    ('a' <= c && c <= 'z') || ('A' <= c && c <= 'Z') || ('0' <= c && c <= '9')
}

/// Characters that may stand in an identifier.
pub open spec fn is_id_char(c: char) -> bool {
    is_ascii_alnum(c) || c == '-' || c == '_'
}

/// Characters that survive into a display name.
pub open spec fn is_name_char(c: char) -> bool {
    is_ascii_alnum(c) || c == ' ' || c == '-' || c == '_'
}

pub open spec fn id_char(c: char) -> char {
    if is_id_char(c) { c } else { '-' }
}

pub open spec fn name_char(c: char) -> char {
    if is_name_char(c) { c } else { ' ' }
}

pub open spec fn lower_ascii(c: char) -> char {
    if 'A' <= c && c <= 'Z' { ((c as u32) + 32) as char } else { c }
}

/// `s` without its leading `c` characters.
pub open spec fn strip_leading(s: Seq<char>, c: char) -> Seq<char>
    decreases s.len(),
{
    if s.len() > 0 && s[0] == c { strip_leading(s.drop_first(), c) } else { s }
}

/// `s` without its trailing `c` characters.
pub open spec fn strip_trailing(s: Seq<char>, c: char) -> Seq<char>
    decreases s.len(),
{
    if s.len() > 0 && s.last() == c { strip_trailing(s.drop_last(), c) } else { s }
}

/// Runs of spaces become one space; leading and trailing spaces go.
pub open spec fn collapse_spaces(s: Seq<char>) -> Seq<char>
    decreases s.len(),
{
    if s.len() == 0 {
        s
    } else {
        let p = s.drop_last();
        let r = collapse_spaces(p);
        if s.last() == ' ' {
            r
        } else if r.len() > 0 && p.last() == ' ' {
            r.push(' ').push(s.last())
        } else {
            r.push(s.last())
        }
    }
}

/// The identifier for a display name.
pub open spec fn sanitize_spec(name: Seq<char>) -> Seq<char> {
    strip_leading(strip_trailing(name.map_values(|c: char| id_char(c)), '-'), '-').map_values(
        |c: char| lower_ascii(c),
    )
}

/// What an identifier is made of.
pub open spec fn is_valid_id(id: Seq<char>) -> bool {
    &&& forall|i: int| 0 <= i < id.len() ==> is_id_char(#[trigger] id[i]) && !('A' <= id[i] && id[i] <= 'Z')
    &&& id.len() > 0 ==> id[0] != '-' && id.last() != '-'
}

} // verus!

verus! {

/// Position of the last `c` in `s`, or -1.
pub open spec fn last_index_of(s: Seq<char>, c: char) -> int
    decreases s.len(),
{
    if s.len() == 0 {
        -1
    } else if s.last() == c {
        s.len() - 1
    } else {
        last_index_of(s.drop_last(), c)
    }
}

/// A path without its trailing separators and trailing `.` components, which
/// name no further file.
pub open spec fn trim_path_tail(p: Seq<char>) -> Seq<char>
    decreases p.len(),
{
    if p.len() > 0 && p.last() == '/' {
        trim_path_tail(p.drop_last())
    } else if p == seq!['.'] {
        Seq::empty()
    } else if p.len() >= 2 && p.last() == '.' && p[p.len() - 2] == '/' {
        trim_path_tail(p.drop_last())
    } else {
        p
    }
}

/// The last component of a path, where it names a file.
pub open spec fn file_name_of(p: Seq<char>) -> Option<Seq<char>> {
    let t = trim_path_tail(p);
    let n = t.subrange(last_index_of(t, '/') + 1, t.len() as int);
    if n.len() == 0 || n == seq!['.'] || n == seq!['.', '.'] {
        None
    } else {
        Some(n)
    }
}

/// A file name without its final extension; a lone leading dot starts no extension.
pub open spec fn stem_of(name: Seq<char>) -> Seq<char> {
    let k = last_index_of(name, '.');
    if k <= 0 { name } else { name.subrange(0, k) }
}

/// The final extension of a file name, if it has one.
pub open spec fn extension_of(name: Seq<char>) -> Option<Seq<char>> {
    let k = last_index_of(name, '.');
    if k <= 0 { None } else { Some(name.subrange(k + 1, name.len() as int)) }
}

/// The stem of the file that a path names, or `appimage` where it names none.
pub open spec fn path_stem(p: Seq<char>) -> Seq<char> {
    match file_name_of(p) {
        Some(n) => stem_of(n),
        None => seq!['a', 'p', 'p', 'i', 'm', 'a', 'g', 'e'],
    }
}

/// The display name derived from a bundle's path.
pub open spec fn display_name_spec(p: Seq<char>) -> Seq<char> {
    collapse_spaces(path_stem(p).map_values(|c: char| name_char(c)))
}

/// The identifier derived from a bundle's path.
pub open spec fn id_of_path(p: Seq<char>) -> Seq<char> {
    sanitize_spec(display_name_spec(p))
}

pub proof fn lemma_last_index(s: Seq<char>, c: char, k: int)
    requires
        k == -1 || (0 <= k < s.len() && s[k] == c),
        forall|j: int| k < j < s.len() ==> s[j] != c,
    ensures
        last_index_of(s, c) == k,
    decreases s.len(),
{
    if s.len() > 0 && k != s.len() - 1 {
        lemma_last_index(s.drop_last(), c, k);
    }
}

pub proof fn lemma_strip_trailing(s: Seq<char>, c: char, hi: int)
    requires
        0 <= hi <= s.len(),
        forall|i: int| hi <= i < s.len() ==> s[i] == c,
        hi == 0 || s[hi - 1] != c,
    ensures
        strip_trailing(s, c) == s.subrange(0, hi),
    decreases s.len(),
{
    if s.len() > hi {
        lemma_strip_trailing(s.drop_last(), c, hi);
        assert(s.drop_last().subrange(0, hi) =~= s.subrange(0, hi));
    } else {
        assert(s.subrange(0, hi) =~= s);
    }
}

pub proof fn lemma_strip_leading(s: Seq<char>, c: char, lo: int)
    requires
        0 <= lo <= s.len(),
        forall|i: int| 0 <= i < lo ==> s[i] == c,
        lo == s.len() || s[lo] != c,
    ensures
        strip_leading(s, c) == s.subrange(lo, s.len() as int),
    decreases s.len(),
{
    if lo > 0 {
        lemma_strip_leading(s.drop_first(), c, lo - 1);
        assert(s.drop_first().subrange(lo - 1, s.len() - 1) =~= s.subrange(lo, s.len() as int));
    } else {
        assert(s.subrange(0, s.len() as int) =~= s);
    }
}

/// Position of the last `c` in `v[from..to]`.
pub(crate) fn find_last(v: &Vec<char>, from: usize, to: usize, c: char) -> (r: Option<usize>)
    requires
        from <= to <= v@.len(),
    ensures
        last_index_of(v@.subrange(from as int, to as int), c) == match r {
            Some(k) => k - from,
            None => -1,
        },
        r matches Some(k) ==> from <= k < to,
{
    let mut j: usize = to;
    while j > from
        invariant
            from <= j <= to <= v@.len(),
            forall|i: int| j <= i < to ==> v@[i] != c,
        decreases j,
    {
        if v[j - 1] == c {
            proof {
                lemma_last_index(v@.subrange(from as int, to as int), c, j - 1 - from);
            }
            return Some(j - 1);
        }
        j = j - 1;
    }
    proof {
        lemma_last_index(v@.subrange(from as int, to as int), c, -1);
    }
    None
}

fn is_alnum(c: char) -> (r: bool)
    ensures
        r == is_ascii_alnum(c),
{
    ('a' <= c && c <= 'z') || ('A' <= c && c <= 'Z') || ('0' <= c && c <= '9')
}

pub(crate) fn to_lower(c: char) -> (r: char)
    ensures
        r == lower_ascii(c),
{
    if 'A' <= c && c <= 'Z' {
        ((c as u8) + 32) as char
    } else {
        c
    }
}

/// The identifier for a display name: every character that is not an ASCII
/// letter, digit, `-` or `_` becomes `-`, leading and trailing `-` go, and
/// letters are lower-cased.
pub fn sanitize_filename(name: &str) -> (r: String)
    ensures
        r@ == sanitize_spec(name@),
        is_valid_id(r@),
{
    let cs = chars_of(name);
    let n = cs.len();
    let ghost m = name@.map_values(|c: char| id_char(c));
    let mut mapped: Vec<char> = Vec::new();
    let mut i: usize = 0;
    while i < n
        invariant
            n == cs@.len(),
            cs@ == name@,
            i <= n,
            mapped@ == m.subrange(0, i as int),
            m == name@.map_values(|c: char| id_char(c)),
        decreases n - i,
    {
        let c = cs[i];
        assert(m[i as int] == id_char(c));
        if is_alnum(c) || c == '-' || c == '_' {
            mapped.push(c);
        } else {
            mapped.push('-');
        }
        assert(mapped@ =~= m.subrange(0, i + 1));
        i = i + 1;
    }
    assert(mapped@ =~= m);
    let mut hi: usize = n;
    while hi > 0 && mapped[hi - 1] == '-'
        invariant
            hi <= n == mapped@.len(),
            forall|k: int| hi <= k < n ==> mapped@[k] == '-',
        decreases hi,
    {
        hi = hi - 1;
    }
    let mut lo: usize = 0;
    while lo < hi && mapped[lo] == '-'
        invariant
            lo <= hi <= n == mapped@.len(),
            forall|k: int| 0 <= k < lo ==> mapped@[k] == '-',
        decreases hi - lo,
    {
        lo = lo + 1;
    }
    let ghost t = m.subrange(0, hi as int);
    proof {
        lemma_strip_trailing(m, '-', hi as int);
        lemma_strip_leading(t, '-', lo as int);
    }
    let ghost u = t.subrange(lo as int, hi as int);
    let mut r = String::new();
    let mut j: usize = lo;
    while j < hi
        invariant
            lo <= j <= hi <= n == mapped@.len(),
            mapped@ == m,
            u == m.subrange(lo as int, hi as int),
            t == m.subrange(0, hi as int),
            r@ == u.subrange(0, j - lo).map_values(|c: char| lower_ascii(c)),
        decreases hi - j,
    {
        push_char(&mut r, to_lower(mapped[j]));
        proof {
            assert(u.subrange(0, j + 1 - lo) =~= u.subrange(0, j - lo).push(mapped@[j as int]));
        }
        j = j + 1;
        assert(r@ =~= u.subrange(0, j - lo).map_values(|c: char| lower_ascii(c)));
    }
    assert(u.subrange(0, hi - lo) =~= u);
    assert(t.subrange(lo as int, t.len() as int) =~= u);
    r
}

} // verus!

verus! {

/// The characters `v[from..to]`.
pub(crate) fn copy_range(v: &Vec<char>, from: usize, to: usize) -> (r: Vec<char>)
    requires
        from <= to <= v@.len(),
    ensures
        r@ == v@.subrange(from as int, to as int),
{
    let mut r: Vec<char> = Vec::new();
    let mut i: usize = from;
    while i < to
        invariant
            from <= i <= to <= v@.len(),
            r@ == v@.subrange(from as int, i as int),
        decreases to - i,
    {
        r.push(v[i]);
        i = i + 1;
        assert(r@ =~= v@.subrange(from as int, i as int));
    }
    r
}

/// The stem of the file that the path `cs` names, or `appimage`.
fn path_stem_chars(cs: &Vec<char>) -> (r: Vec<char>)
    ensures
        r@ == path_stem(cs@),
{
    let n = cs.len();
    let mut hi: usize = n;
    assert(cs@.subrange(0, n as int) =~= cs@);
    loop
        invariant
            hi <= n == cs@.len(),
            trim_path_tail(cs@) == trim_path_tail(cs@.subrange(0, hi as int)),
        ensures
            hi <= n == cs@.len(),
            trim_path_tail(cs@) == cs@.subrange(0, hi as int),
        decreases hi,
    {
        let ghost u = cs@.subrange(0, hi as int);
        if hi > 0 && cs[hi - 1] == '/' {
            assert(u.drop_last() =~= cs@.subrange(0, hi - 1));
            hi = hi - 1;
        } else if hi == 1 && cs[0] == '.' {
            assert(u =~= seq!['.']);
            assert(trim_path_tail(cs@.subrange(0, 0)) == trim_path_tail(u)) by {
                assert(cs@.subrange(0, 0) =~= Seq::<char>::empty());
            }
            hi = 0;
        } else if hi >= 2 && cs[hi - 1] == '.' && cs[hi - 2] == '/' {
            assert(u.drop_last() =~= cs@.subrange(0, hi - 1));
            hi = hi - 1;
        } else {
            assert(u != seq!['.']) by {
                if hi == 1 {
                    assert(u[0] != '.');
                }
            }
            assert(trim_path_tail(u) == u);
            break;
        }
    }
    let ghost t = cs@.subrange(0, hi as int);
    let start: usize = match find_last(cs, 0, hi, '/') {
        Some(k) => k + 1,
        None => 0,
    };
    assert(t.subrange(last_index_of(t, '/') + 1, t.len() as int) =~= cs@.subrange(
        start as int,
        hi as int,
    ));
    let ghost name = cs@.subrange(start as int, hi as int);
    let len = hi - start;
    if len == 0 || (len == 1 && cs[start] == '.') || (len == 2 && cs[start] == '.' && cs[start
        + 1] == '.') {
        assert(len == 0 || name =~= seq!['.'] || name =~= seq!['.', '.']);
        return vec!['a', 'p', 'p', 'i', 'm', 'a', 'g', 'e'];
    }
    assert(name.len() != 0);
    assert(name != seq!['.']) by {
        if len == 1 {
            assert(name[0] != '.');
        }
    }
    assert(name != seq!['.', '.']) by {
        if len == 2 {
            assert(name[0] != '.' || name[1] != '.');
        }
    }
    match find_last(cs, start, hi, '.') {
        Some(d) => {
            if d > start {
                assert(name.subrange(0, d - start) =~= cs@.subrange(start as int, d as int));
                copy_range(cs, start, d)
            } else {
                copy_range(cs, start, hi)
            }
        },
        None => copy_range(cs, start, hi),
    }
}

fn to_name_char(c: char) -> (r: char)
    ensures
        r == name_char(c),
{
    if is_alnum(c) || c == ' ' || c == '-' || c == '_' {
        c
    } else {
        ' '
    }
}

/// The display name of a bundle: the stem of the file that `path` names, with
/// every character other than ASCII letters, digits, space, `-` and `_` turned
/// into a space, runs of spaces collapsed and the ends trimmed.
pub fn parse_appimage_name(path: &str) -> (r: String)
    ensures
        r@ == display_name_spec(path@),
{
    let cs = chars_of(path);
    let stem = path_stem_chars(&cs);
    let n = stem.len();
    let ghost m = stem@.map_values(|c: char| name_char(c));
    let mut r = String::new();
    let mut nonempty = false;
    let mut pending = false;
    let mut i: usize = 0;
    while i < n
        invariant
            i <= n == stem@.len() == m.len(),
            m == stem@.map_values(|c: char| name_char(c)),
            r@ == collapse_spaces(m.subrange(0, i as int)),
            nonempty == (r@.len() > 0),
            pending == (i > 0 && m[i - 1] == ' '),
        decreases n - i,
    {
        let c = to_name_char(stem[i]);
        proof {
            assert(m.subrange(0, i + 1).drop_last() =~= m.subrange(0, i as int));
        }
        if c == ' ' {
            pending = true;
        } else {
            if pending && nonempty {
                push_char(&mut r, ' ');
            }
            push_char(&mut r, c);
            nonempty = true;
            pending = false;
        }
        i = i + 1;
    }
    assert(m.subrange(0, n as int) =~= m);
    r
}

} // verus!

verus! {

pub open spec fn lower_seq(s: Seq<char>) -> Seq<char> {
    s.map_values(|c: char| lower_ascii(c))
}

/// The final extension of the file name `n`, lower-cased, if it has one.
pub fn lowered_extension(n: &str) -> (r: Option<Vec<char>>)
    ensures
        match extension_of(n@) {
            Some(e) => r matches Some(x) && x@ == lower_seq(e),
            None => r is None,
        },
{
    let cs = chars_of(n);
    let len = cs.len();
    assert(cs@.subrange(0, len as int) =~= cs@);
    match find_last(&cs, 0, len, '.') {
        Some(k) => {
            if k == 0 {
                return None;
            }
            let ext = copy_range(&cs, k + 1, len);
            let mut lowered: Vec<char> = Vec::new();
            let mut i: usize = 0;
            while i < ext.len()
                invariant
                    i <= ext@.len(),
                    lowered@ == lower_seq(ext@.subrange(0, i as int)),
                decreases ext@.len() - i,
            {
                lowered.push(to_lower(ext[i]));
                assert(lowered@ =~= lower_seq(ext@.subrange(0, i + 1)));
                i = i + 1;
            }
            assert(ext@.subrange(0, ext@.len() as int) =~= ext@);
            Some(lowered)
        },
        None => None,
    }
}

} // verus!

verus! {

proof fn lemma_strip_trailing_shape(s: Seq<char>, c: char)
    ensures
        strip_trailing(s, c).len() <= s.len(),
        strip_trailing(s, c) == s.subrange(0, strip_trailing(s, c).len() as int),
        strip_trailing(s, c).len() > 0 ==> strip_trailing(s, c).last() != c,
    decreases s.len(),
{
    if s.len() > 0 && s.last() == c {
        lemma_strip_trailing_shape(s.drop_last(), c);
        let t = strip_trailing(s.drop_last(), c);
        assert(s.drop_last().subrange(0, t.len() as int) =~= s.subrange(0, t.len() as int));
    } else {
        assert(s.subrange(0, s.len() as int) =~= s);
    }
}

proof fn lemma_strip_leading_shape(s: Seq<char>, c: char)
    ensures
        strip_leading(s, c).len() <= s.len(),
        strip_leading(s, c) == s.subrange(
            s.len() - strip_leading(s, c).len(),
            s.len() as int,
        ),
        strip_leading(s, c).len() > 0 ==> strip_leading(s, c)[0] != c,
    decreases s.len(),
{
    if s.len() > 0 && s[0] == c {
        lemma_strip_leading_shape(s.drop_first(), c);
        let t = strip_leading(s.drop_first(), c);
        assert(s.drop_first().subrange(s.len() - 1 - t.len(), s.len() - 1) =~= s.subrange(
            s.len() - t.len(),
            s.len() as int,
        ));
    } else {
        assert(s.subrange(0, s.len() as int) =~= s);
    }
}

/// Every identifier is made only of lower-case ASCII letters, digits, `-` and
/// `_`, and neither starts nor ends with `-`.
pub proof fn lemma_sanitize_valid(name: Seq<char>)
    ensures
        is_valid_id(sanitize_spec(name)),
{
    let m = name.map_values(|c: char| id_char(c));
    lemma_strip_trailing_shape(m, '-');
    let t = strip_trailing(m, '-');
    lemma_strip_leading_shape(t, '-');
    let u = strip_leading(t, '-');
    assert forall|i: int| 0 <= i < u.len() implies is_id_char(#[trigger] u[i]) by {
        assert(u[i] == t[t.len() - u.len() + i]);
        assert(t[t.len() - u.len() + i] == m[t.len() - u.len() + i]);
    }
    if u.len() > 0 {
        assert(u.last() == t.last());
    }
}

/// Two file names with the same display name have the same identifier.
pub proof fn lemma_same_name_same_id(f1: Seq<char>, f2: Seq<char>)
    requires
        display_name_spec(f1) == display_name_spec(f2),
    ensures
        id_of_path(f1) == id_of_path(f2),
{
}

proof fn lemma_collapse_without_spaces(s: Seq<char>)
    requires
        forall|i: int| 0 <= i < s.len() ==> s[i] != ' ',
    ensures
        collapse_spaces(s) == s,
    decreases s.len(),
{
    if s.len() > 0 {
        lemma_collapse_without_spaces(s.drop_last());
        assert(s.drop_last().push(s.last()) =~= s);
    }
}

/// An identifier is its own display name and its own identifier.
pub proof fn lemma_id_fixed(id: Seq<char>)
    requires
        is_valid_id(id),
    ensures
        collapse_spaces(id.map_values(|c: char| name_char(c))) == id,
        sanitize_spec(id) == id,
{
    assert(id.map_values(|c: char| name_char(c)) =~= id);
    lemma_collapse_without_spaces(id);
    let m = id.map_values(|c: char| id_char(c));
    assert(m =~= id);
    assert(strip_trailing(id, '-') == id);
    assert(strip_leading(id, '-') == id);
    assert(id.map_values(|c: char| lower_ascii(c)) =~= id);
}

/// The file named by a path that ends in the plain file name `n`.
pub proof fn lemma_file_name_of_join(d: Seq<char>, n: Seq<char>)
    requires
        n.len() > 0,
        forall|i: int| 0 <= i < n.len() ==> n[i] != '/',
        n != seq!['.'],
        n != seq!['.', '.'],
    ensures
        file_name_of(crate::text::path_join(d, n)) == Some(n),
{
    let p = crate::text::path_join(d, n);
    assert(p.last() == n.last());
    assert(p.len() >= 2 ==> p[p.len() - 2] != '/' || p.last() != '.') by {
        if p.len() >= 2 && p.last() == '.' && n.len() >= 2 {
            assert(p[p.len() - 2] == n[n.len() - 2]);
        }
        if p.len() >= 2 && p.last() == '.' && n.len() == 1 {
            assert(n =~= seq!['.']);
        }
    }
    assert(p != seq!['.']) by {
        if p.len() == 1 {
            assert(d.len() == 0);
            assert(p =~= n);
        }
    }
    assert(trim_path_tail(p) == p);
    let k: int = p.len() - n.len() - 1;
    assert forall|j: int| 0 <= j < n.len() implies p[p.len() - n.len() + j] == n[j] by {
        if d.len() == 0 || d.last() == '/' {
            assert(p == d + n);
        } else {
            assert(p == d + seq!['/'] + n);
        }
    }
    if d.len() == 0 {
        lemma_last_index(p, '/', -1);
    } else if d.last() == '/' {
        assert(p[k] == d.last());
        lemma_last_index(p, '/', k);
    } else {
        assert(p[k] == '/');
        lemma_last_index(p, '/', k);
    }
    assert(p.subrange(k + 1, p.len() as int) =~= n);
}

} // verus!
