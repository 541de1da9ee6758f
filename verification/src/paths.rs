//! Paths as the library reasons about them: strings whose components are
//! separated by `/`.
//!
//! The operations mirror the ones the run needs from a path — its
//! components, its parent, its final component, that component's
//! extension, and joining one path onto another — as `std::path::Path`
//! reads a path on Unix: separators may repeat, a path may end in one,
//! and a `.` component anywhere but at the front says nothing.

use vstd::prelude::*;
use crate::text::push_char;

verus! {

/// The separator between components.
pub const SEPARATOR: char = '/';

/// The position of the last `c` in `s`, or -1 when there is none.
pub open spec fn last_index(s: Seq<char>, c: char) -> int
    decreases s.len(),
{
    if s.len() == 0 {
        -1
    } else if s.last() == c {
        s.len() - 1
    } else {
        last_index(s.drop_last(), c)
    }
}

/// What [`last_index`] says, stated without recursion.
pub proof fn lemma_last_index(s: Seq<char>, c: char)
    ensures
        -1 <= last_index(s, c) < s.len(),
        last_index(s, c) >= 0 ==> s[last_index(s, c)] == c,
        forall|j: int| last_index(s, c) < j < s.len() ==> s[j] != c,
    decreases s.len(),
{
    if s.len() > 0 && s.last() != c {
        lemma_last_index(s.drop_last(), c);
        assert forall|j: int| last_index(s, c) < j < s.len() implies s[j] != c by {
            if j < s.len() - 1 {
                assert(s.drop_last()[j] == s[j]);
            }
        }
    }
}

/// Whether `p` is absolute: it starts at the root.
pub open spec fn absolute(p: Seq<char>) -> bool {
    p.len() > 0 && p[0] == '/'
}

/// `p` without what trails its last component: separators, and `.`
/// components after a separator. A lone root, and a `.` that the path
/// starts with, stay.
pub open spec fn trimmed(p: Seq<char>) -> Seq<char>
    decreases p.len(),
{
    if p.len() > 1 && (p.last() == '/' || (p.last() == '.' && p[p.len() - 2] == '/')) {
        trimmed(p.drop_last())
    } else {
        p
    }
}

/// What [`trimmed`] leaves is a beginning of `p`, empty only when `p` is.
pub proof fn lemma_trimmed(p: Seq<char>)
    ensures
        trimmed(p).len() <= p.len(),
        trimmed(p) =~= p.take(trimmed(p).len() as int),
        p.len() > 0 ==> trimmed(p).len() > 0,
    decreases p.len(),
{
    if p.len() > 1 && (p.last() == '/' || (p.last() == '.' && p[p.len() - 2] == '/')) {
        lemma_trimmed(p.drop_last());
        assert(p.drop_last().take(trimmed(p).len() as int) =~= p.take(trimmed(p).len() as int));
    }
}

/// The parent of `p`, as `Path::parent` gives it: `p` up to the start of
/// its last component, with the separators and `.` components that then
/// trail removed; `None` for the root and for the empty path.
///
/// A relative path of one component has the empty path as its parent,
/// and a component directly under the root has the root.
pub open spec fn parent_spec(p: Seq<char>) -> Option<Seq<char>> {
    let t = trimmed(p);
    let i = last_index(t, '/');
    if t.len() == 0 || t =~= seq!['/'] {
        None
    } else if i < 0 {
        Some(Seq::empty())
    } else if i == 0 {
        Some(seq!['/'])
    } else {
        Some(trimmed(t.take(i)))
    }
}

/// The final component of `p`, as `Path::file_name` gives it: `None`
/// when `p` is empty, is the root, or ends in `.` or `..` as a
/// component of its own.
pub open spec fn file_name_spec(p: Seq<char>) -> Option<Seq<char>> {
    let t = trimmed(p);
    let name = t.skip(last_index(t, '/') + 1);
    if name.len() == 0 || name =~= seq!['.', '.'] || name =~= seq!['.'] {
        None
    } else {
        Some(name)
    }
}

/// A parent is shorter than its child.
pub proof fn lemma_parent_shorter(p: Seq<char>)
    ensures
        parent_spec(p) matches Some(q) ==> q.len() < p.len(),
{
    lemma_trimmed(p);
    let t = trimmed(p);
    lemma_last_index(t, '/');
    let i = last_index(t, '/');
    if i > 0 {
        lemma_trimmed(t.take(i));
    }
    if i == 0 && t.len() == 1 {
        assert(t =~= seq!['/']);
    }
}

/// The extension of a file name: what follows its last `.`, unless that
/// `.` is the name's first character.
pub open spec fn name_extension(name: Seq<char>) -> Option<Seq<char>> {
    let d = last_index(name, '.');
    if d <= 0 {
        None
    } else {
        Some(name.skip(d + 1))
    }
}

/// The extension of `p`'s final component.
pub open spec fn extension_spec(p: Seq<char>) -> Option<Seq<char>> {
    match file_name_spec(p) {
        Some(name) => name_extension(name),
        None => None,
    }
}

/// `rel` joined onto `base`: `rel` itself when it is absolute or `base`
/// is empty, and otherwise the two with one separator between them.
pub open spec fn join_spec(base: Seq<char>, rel: Seq<char>) -> Seq<char> {
    if absolute(rel) || base.len() == 0 {
        rel
    } else if base.last() == '/' {
        base + rel
    } else {
        base + seq!['/'] + rel
    }
}

/// The position of the last `c` in `s`, or `None` when there is none.
pub fn find_last(s: &str, c: char) -> (r: Option<usize>)
    ensures
        match r {
            Some(i) => i as int == last_index(s@, c) && i < s@.len() && s@[i as int] == c,
            None => last_index(s@, c) == -1,
        },
        forall|j: int| last_index(s@, c) < j < s@.len() ==> s@[j] != c,
{
    proof {
        lemma_last_index(s@, c);
    }
    let n = s.unicode_len();
    let mut i: usize = n;
    while i > 0
        invariant
            n == s@.len(),
            i <= n,
            forall|j: int| i <= j < n ==> s@[j] != c,
            -1 <= last_index(s@, c) < n,
            last_index(s@, c) >= 0 ==> s@[last_index(s@, c)] == c,
            forall|j: int| last_index(s@, c) < j < n ==> s@[j] != c,
        decreases i,
    {
        if s.get_char(i - 1) == c {
            return Some(i - 1);
        }
        i = i - 1;
    }
    None
}

/// Whether `p` is absolute.
pub fn is_absolute(p: &str) -> (r: bool)
    ensures
        r == absolute(p@),
{
    p.unicode_len() > 0 && p.get_char(0) == '/'
}

/// How much of `p` [`trimmed`] keeps.
pub fn trimmed_len(p: &str) -> (r: usize)
    ensures
        r as int == trimmed(p@).len(),
{
    proof {
        lemma_trimmed(p@);
    }
    let mut n = p.unicode_len();
    assert(p@.take(n as int) =~= p@);
    while n > 1 && (p.get_char(n - 1) == '/' || (p.get_char(n - 1) == '.' && p.get_char(n - 2)
        == '/'))
        invariant
            n <= p@.len(),
            trimmed(p@.take(n as int)) == trimmed(p@),
        decreases n,
    {
        assert(p@.take(n as int).drop_last() =~= p@.take(n - 1));
        n = n - 1;
    }
    proof {
        let q = p@.take(n as int);
        assert(!(q.len() > 1 && (q.last() == '/' || (q.last() == '.' && q[q.len() - 2] == '/'))));
    }
    n
}

/// The parent of `p`.
pub fn parent(p: &str) -> (r: Option<String>)
    ensures
        r matches Some(q) ==> parent_spec(p@) == Some(q@),
        r is None ==> parent_spec(p@) is None,
{
    proof {
        lemma_trimmed(p@);
    }
    let n = trimmed_len(p);
    if n == 0 {
        return None;
    }
    let t = crate::text::head(p, n);
    assert(t@ =~= trimmed(p@));
    if n == 1 && t.as_str().get_char(0) == '/' {
        assert(t@ =~= seq!['/']);
        return None;
    }
    assert(!(t@ =~= seq!['/'])) by {
        if t@ =~= seq!['/'] {
            assert(t@[0] == '/');
        }
    }
    match find_last(t.as_str(), '/') {
        None => Some(String::new()),
        Some(0) => {
            let mut root = String::new();
            push_char(&mut root, '/');
            assert(root@ =~= seq!['/']);
            Some(root)
        },
        Some(i) => {
            let front = crate::text::head(t.as_str(), i);
            let m = trimmed_len(front.as_str());
            proof {
                lemma_trimmed(front@);
            }
            let q = crate::text::head(front.as_str(), m);
            assert(q@ =~= trimmed(front@));
            Some(q)
        },
    }
}

/// The final component of `p`.
pub fn file_name(p: &str) -> (r: Option<String>)
    ensures
        r matches Some(q) ==> file_name_spec(p@) == Some(q@),
        r is None ==> file_name_spec(p@) is None,
{
    proof {
        lemma_trimmed(p@);
    }
    let len = trimmed_len(p);
    let t = crate::text::head(p, len);
    assert(t@ =~= trimmed(p@));
    let start = match find_last(t.as_str(), '/') {
        Some(i) => i + 1,
        None => 0,
    };
    proof {
        lemma_last_index(t@, '/');
    }
    let name = crate::text::tail(t.as_str(), start);
    let n = name.unicode_len();
    if n == 0 {
        return None;
    }
    if n == 2 && name.as_str().get_char(0) == '.' && name.as_str().get_char(1) == '.' {
        assert(name@ =~= seq!['.', '.']);
        return None;
    }
    if n == 1 && name.as_str().get_char(0) == '.' {
        assert(name@ =~= seq!['.']);
        return None;
    }
    assert(!(name@ =~= seq!['.', '.'])) by {
        if name@ =~= seq!['.', '.'] {
            assert(name@[0] == '.' && name@[1] == '.');
        }
    }
    assert(!(name@ =~= seq!['.'])) by {
        if name@ =~= seq!['.'] {
            assert(name@[0] == '.');
        }
    }
    Some(name)
}

/// The extension of the file name `name`.
pub fn extension_of_name(name: &str) -> (r: Option<String>)
    ensures
        r matches Some(q) ==> name_extension(name@) == Some(q@),
        r is None ==> name_extension(name@) is None,
{
    proof {
        lemma_last_index(name@, '.');
    }
    let len = name.unicode_len();
    match find_last(name, '.') {
        Some(d) => {
            if d == 0 {
                None
            } else {
                Some(crate::text::tail(name, d + 1))
            }
        },
        None => None,
    }
}

/// The extension of `p`'s final component.
pub fn extension(p: &str) -> (r: Option<String>)
    ensures
        r matches Some(q) ==> extension_spec(p@) == Some(q@),
        r is None ==> extension_spec(p@) is None,
{
    match file_name(p) {
        Some(name) => extension_of_name(name.as_str()),
        None => None,
    }
}

/// `rel` joined onto `base`.
pub fn join(base: &str, rel: &str) -> (r: String)
    ensures
        r@ == join_spec(base@, rel@),
{
    if is_absolute(rel) || base.unicode_len() == 0 {
        return String::from_str(rel);
    }
    let n = base.unicode_len();
    let mut r = String::from_str(base);
    if base.get_char(n - 1) != '/' {
        push_char(&mut r, '/');
    }
    r.append(rel);
    r
}

/// The pieces of `segments` that name something: neither empty nor `.`.
pub open spec fn kept(segments: Seq<Seq<char>>) -> Seq<Seq<char>>
    decreases segments.len(),
{
    if segments.len() == 0 {
        Seq::empty()
    } else {
        let rest = kept(segments.drop_last());
        let last = segments.last();
        if last.len() == 0 || last =~= seq!['.'] {
            rest
        } else {
            rest.push(last)
        }
    }
}

/// Whether `p` starts with a `.` component.
pub open spec fn leading_dot(p: Seq<char>) -> bool {
    p.len() > 0 && p[0] == '.' && (p.len() == 1 || p[1] == '/')
}

/// The components of `p`, each by its text, as `Path::components`
/// yields them on Unix: the root as `/` when `p` is absolute, a `.` that
/// `p` starts with, and then every piece between separators that is
/// neither empty nor `.`.
pub open spec fn components(p: Seq<char>) -> Seq<Seq<char>> {
    let body = kept(crate::text::split_on(p, '/'));
    if absolute(p) {
        seq![seq!['/']] + body
    } else if leading_dot(p) {
        seq![seq!['.']] + body
    } else {
        body
    }
}

/// `parts` with one `/` between each two.
pub open spec fn joined(parts: Seq<Seq<char>>) -> Seq<char>
    decreases parts.len(),
{
    if parts.len() == 0 {
        Seq::empty()
    } else if parts.len() == 1 {
        parts[0]
    } else {
        joined(parts.drop_last()) + seq!['/'] + parts.last()
    }
}

/// The text of each of `v`.
pub open spec fn texts(v: Seq<String>) -> Seq<Seq<char>> {
    v.map_values(|s: String| s@)
}

/// The components of `p`.
pub fn components_of(p: &str) -> (r: Vec<String>)
    ensures
        texts(r@) == components(p@),
{
    let pieces = crate::text::split(p, '/');
    let ghost segs = crate::text::split_on(p@, '/');
    assert(texts(pieces@) == segs);
    let mut r: Vec<String> = Vec::new();
    let n = p.unicode_len();
    if n > 0 && p.get_char(0) == '/' {
        let mut root = String::new();
        push_char(&mut root, '/');
        r.push(root);
    } else if n > 0 && p.get_char(0) == '.' && (n == 1 || p.get_char(1) == '/') {
        let mut dot = String::new();
        push_char(&mut dot, '.');
        r.push(dot);
    }
    let ghost front = texts(r@);
    assert(front =~= (if absolute(p@) {
        seq![seq!['/']]
    } else if leading_dot(p@) {
        seq![seq!['.']]
    } else {
        Seq::<Seq<char>>::empty()
    }));
    let mut i: usize = 0;
    assert(segs.take(0) =~= Seq::<Seq<char>>::empty());
    assert(texts(r@) =~= front + kept(segs.take(0)));
    while i < pieces.len()
        invariant
            i <= pieces@.len(),
            texts(pieces@) == segs,
            texts(r@) == front + kept(segs.take(i as int)),
        decreases pieces@.len() - i,
    {
        let piece = &pieces[i];
        let m = piece.unicode_len();
        assert(segs[i as int] == piece@);
        assert(segs.take(i + 1).drop_last() =~= segs.take(i as int));
        assert(segs.take(i + 1).last() == piece@);
        let ghost before = texts(r@);
        if m == 0 || (m == 1 && piece.as_str().get_char(0) == '.') {
            assert(piece@.len() == 0 || piece@ =~= seq!['.']);
        } else {
            assert(!(piece@ =~= seq!['.'])) by {
                if piece@ =~= seq!['.'] {
                    assert(piece@[0] == '.');
                }
            }
            r.push(piece.clone());
            assert(texts(r@) =~= before.push(piece@));
        }
        i = i + 1;
    }
    assert(segs.take(pieces@.len() as int) =~= segs);
    r
}

/// `parts` with one `/` between each two.
pub fn join_parts(parts: &Vec<String>) -> (r: String)
    ensures
        r@ == joined(texts(parts@)),
{
    let mut r = String::new();
    let mut i: usize = 0;
    assert(texts(parts@).take(0) =~= Seq::<Seq<char>>::empty());
    while i < parts.len()
        invariant
            i <= parts@.len(),
            r@ == joined(texts(parts@).take(i as int)),
        decreases parts@.len() - i,
    {
        let ghost was = r@;
        let ghost t = texts(parts@).take(i + 1);
        assert(t.drop_last() =~= texts(parts@).take(i as int));
        assert(t.last() == parts@[i as int]@);
        if i > 0 {
            push_char(&mut r, '/');
        }
        r.append(parts[i].as_str());
        if i == 0 {
            assert(t.len() == 1);
            assert(r@ =~= t[0]);
        } else {
            assert(r@ =~= was + seq!['/'] + parts@[i as int]@);
        }
        i = i + 1;
    }
    assert(texts(parts@).take(parts@.len() as int) =~= texts(parts@));
    r
}

} // verus!

verus! {

/// The position of the first `c` in `s`, or -1 when there is none.
pub open spec fn first_index(s: Seq<char>, c: char) -> int
    decreases s.len(),
{
    if s.len() == 0 {
        -1
    } else if s[0] == c {
        0
    } else {
        let r = first_index(s.skip(1), c);
        if r < 0 {
            -1
        } else {
            r + 1
        }
    }
}

/// What [`first_index`] says, stated without recursion.
pub proof fn lemma_first_index(s: Seq<char>, c: char)
    ensures
        -1 <= first_index(s, c) < s.len(),
        first_index(s, c) >= 0 ==> s[first_index(s, c)] == c,
        forall|j: int| 0 <= j < s.len() && (first_index(s, c) < 0 || j < first_index(s, c)) ==> s[j] != c,
    decreases s.len(),
{
    if s.len() > 0 && s[0] != c {
        lemma_first_index(s.skip(1), c);
        assert forall|j: int| 0 <= j < s.len() && (first_index(s, c) < 0 || j < first_index(s, c)) implies s[j] != c by {
            if j > 0 {
                assert(s.skip(1)[j - 1] == s[j]);
            }
        }
    }
}

/// The position of the first `c` in `s`, or `None` when there is none.
pub fn find_first(s: &str, c: char) -> (r: Option<usize>)
    ensures
        match r {
            Some(i) => i as int == first_index(s@, c) && i < s@.len(),
            None => first_index(s@, c) == -1,
        },
{
    proof {
        lemma_first_index(s@, c);
    }
    let n = s.unicode_len();
    let mut i: usize = 0;
    while i < n
        invariant
            n == s@.len(),
            i <= n,
            forall|j: int| 0 <= j < i ==> s@[j] != c,
            -1 <= first_index(s@, c) < n,
            first_index(s@, c) >= 0 ==> s@[first_index(s@, c)] == c,
            forall|j: int| 0 <= j < n && (first_index(s@, c) < 0 || j < first_index(s@, c)) ==> s@[j] != c,
        decreases n - i,
    {
        if s.get_char(i) == c {
            return Some(i);
        }
        i = i + 1;
    }
    None
}

} // verus!
