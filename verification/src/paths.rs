//! File paths as text: how they are joined, compared and ordered.
//!
//! Two paths are the same when they have the same parts, whatever repeated slashes and
//! inner `.` parts they are written with.
use vstd::prelude::*;
use crate::ast;
use crate::text;
use crate::text::chars_of;

verus! {

broadcast use ast::group_lists;

// ── Joining ─────────────────────────────────────────────────────────────────

/// The path of `rel` as seen from `base`.
pub open spec fn joined(base: Seq<char>, rel: Seq<char>) -> Seq<char> {
    if rel.len() > 0 && rel[0] == '/' {
        rel
    } else if base.len() == 0 || base.last() == '/' {
        base + rel
    } else {
        base + seq!['/'] + rel
    }
}

pub fn join(base: &str, rel: &str) -> (r: String)
    ensures
        r@ == joined(base@, rel@),
{
    let b = chars_of(base);
    let t = chars_of(rel);
    if t.len() > 0 && t[0] == '/' {
        return text::to_text(&t);
    }
    let mut out: Vec<char> = Vec::new();
    text::push_text(&mut out, &b);
    assert(out@ =~= b@);
    if b.len() > 0 && b[b.len() - 1] != '/' {
        out.push('/');
        assert(out@ =~= b@ + seq!['/']);
    }
    text::push_text(&mut out, &t);
    text::to_text(&out)
}

/// The names with `sep` between them.
pub open spec fn listed(names: Seq<Seq<char>>, sep: Seq<char>, n: nat) -> Seq<char>
    decreases n,
{
    if n == 0 {
        seq![]
    } else if n == 1 {
        names[0]
    } else {
        listed(names, sep, (n - 1) as nat) + sep + names[n - 1]
    }
}

/// `names` in one text, with `sep` between them.
pub open spec fn list_text(names: Seq<Seq<char>>, sep: Seq<char>) -> Seq<char> {
    listed(names, sep, names.len())
}

pub fn join_names(names: &Vec<String>, sep: &str) -> (r: String)
    ensures
        r@ == list_text(ast::names_of(names@), sep@),
{
    let mut out: Vec<char> = Vec::new();
    let mut i: usize = 0;
    while i < names.len()
        invariant
            i <= names.len(),
            out@ == listed(ast::names_of(names@), sep@, i as nat),
        decreases names.len() - i,
    {
        if i > 0 {
            text::push_str(&mut out, sep);
        }
        text::push_str(&mut out, names[i].as_str());
        assert(i == 0 ==> out@ =~= names@[0]@);
        i = i + 1;
    }
    text::to_text(&out)
}

// ── Parts ───────────────────────────────────────────────────────────────────

/// `parts` with one more, unless it says nothing: an empty one, or a `.` after another.
pub open spec fn with_part(parts: Seq<Seq<char>>, p: Seq<char>) -> Seq<Seq<char>> {
    if p.len() == 0 || (p == seq!['.'] && parts.len() > 0) {
        parts
    } else {
        parts.push(p)
    }
}

/// The parts that end before character `n`, and the characters of the next.
pub open spec fn parts_to(s: Seq<char>, n: nat) -> (Seq<Seq<char>>, Seq<char>)
    decreases n,
{
    if n == 0 {
        (
            if s.len() > 0 && s[0] == '/' {
                seq![seq!['/']]
            } else {
                seq![]
            },
            seq![],
        )
    } else {
        let (done, p) = parts_to(s, (n - 1) as nat);
        if s[n - 1] == '/' {
            (with_part(done, p), seq![])
        } else {
            (done, p.push(s[n - 1]))
        }
    }
}

/// The parts of a path; the first is `/` where the path is absolute.
pub open spec fn parts(s: Seq<char>) -> Seq<Seq<char>> {
    let (done, p) = parts_to(s, s.len());
    with_part(done, p)
}

fn is_dot(p: &Vec<char>) -> (r: bool)
    ensures
        r == (p@ == seq!['.']),
{
    let r = p.len() == 1 && p[0] == '.';
    assert(r ==> p@ =~= seq!['.']);
    r
}

fn push_part(done: &mut Vec<Vec<char>>, p: Vec<char>)
    ensures
        text::texts(final(done)@) == with_part(text::texts(old(done)@), p@),
{
    assert(text::texts(done@).len() == done@.len());
    if p.len() == 0 || (is_dot(&p) && done.len() > 0) {
        return;
    }
    let ghost before = done@;
    done.push(p);
    assert(text::texts(done@) =~= text::texts(before).push(p@));
}

/// The parts of a path.
pub fn split_parts(path: &str) -> (r: Vec<Vec<char>>)
    ensures
        text::texts(r@) == parts(path@),
{
    let s = chars_of(path);
    let mut done: Vec<Vec<char>> = Vec::new();
    if s.len() > 0 && s[0] == '/' {
        let mut root: Vec<char> = Vec::new();
        root.push('/');
        assert(root@ =~= seq!['/']);
        done.push(root);
        assert(text::texts(done@) =~= seq![seq!['/']]);
    } else {
        assert(text::texts(done@) =~= seq![]);
    }
    let mut p: Vec<char> = Vec::new();
    let mut i: usize = 0;
    while i < s.len()
        invariant
            i <= s.len(),
            (text::texts(done@), p@) == parts_to(s@, i as nat),
        decreases s.len() - i,
    {
        if s[i] == '/' {
            push_part(&mut done, p);
            p = Vec::new();
        } else {
            p.push(s[i]);
        }
        i = i + 1;
    }
    push_part(&mut done, p);
    done
}

/// Whether two paths are the same.
pub open spec fn same(a: Seq<char>, b: Seq<char>) -> bool {
    parts(a) == parts(b)
}

// ── Order ───────────────────────────────────────────────────────────────────

/// Whether `a` comes before `b`, where they agree up to `i`.
pub open spec fn text_less(a: Seq<char>, b: Seq<char>, i: int) -> bool
    decreases b.len() - i,
{
    if i >= b.len() {
        false
    } else if i >= a.len() {
        true
    } else if a[i] != b[i] {
        a[i] < b[i]
    } else {
        text_less(a, b, i + 1)
    }
}

/// The root comes first, then `.`, `..` and the names.
pub open spec fn rank(p: Seq<char>) -> int {
    if p == seq!['/'] {
        0
    } else if p == seq!['.'] {
        1
    } else if p == seq!['.', '.'] {
        2
    } else {
        3
    }
}

pub open spec fn part_less(a: Seq<char>, b: Seq<char>) -> bool {
    rank(a) < rank(b) || (rank(a) == rank(b) && text_less(a, b, 0))
}

/// Whether `a` comes before `b`, where they agree up to `i`.
pub open spec fn parts_less(a: Seq<Seq<char>>, b: Seq<Seq<char>>, i: int) -> bool
    decreases b.len() - i,
{
    if i >= b.len() {
        false
    } else if i >= a.len() {
        true
    } else if a[i] != b[i] {
        part_less(a[i], b[i])
    } else {
        parts_less(a, b, i + 1)
    }
}

/// Whether path `a` comes before path `b`.
pub open spec fn less(a: Seq<char>, b: Seq<char>) -> bool {
    parts_less(parts(a), parts(b), 0)
}

fn text_is_less(a: &Vec<char>, b: &Vec<char>) -> (r: bool)
    ensures
        r == text_less(a@, b@, 0),
{
    let mut i: usize = 0;
    while i < b.len() && i < a.len() && a[i] == b[i]
        invariant
            i <= a.len(),
            i <= b.len(),
            text_less(a@, b@, 0) == text_less(a@, b@, i as int),
        decreases b.len() - i,
    {
        i = i + 1;
    }
    i < b.len() && (i >= a.len() || a[i] < b[i])
}

fn part_rank(p: &Vec<char>) -> (r: u8)
    ensures
        r == rank(p@),
{
    assert(p@.len() == 1 ==> p@ =~= seq![p@[0]]);
    assert(p@.len() == 2 ==> p@ =~= seq![p@[0], p@[1]]);
    if p.len() == 1 && p[0] == '/' {
        0
    } else if p.len() == 1 && p[0] == '.' {
        1
    } else if p.len() == 2 && p[0] == '.' && p[1] == '.' {
        2
    } else {
        3
    }
}

fn same_parts(a: &Vec<Vec<char>>, b: &Vec<Vec<char>>) -> (r: bool)
    ensures
        r == (text::texts(a@) == text::texts(b@)),
{
    assert(text::texts(a@).len() == a@.len());
    assert(text::texts(b@).len() == b@.len());
    if a.len() != b.len() {
        return false;
    }
    let mut i: usize = 0;
    while i < a.len()
        invariant
            i <= a.len(),
            a.len() == b.len(),
            forall|k: int| 0 <= k < i ==> a@[k]@ == b@[k]@,
        decreases a.len() - i,
    {
        if !text::same_text(&a[i], &b[i]) {
            assert(text::texts(a@)[i as int] != text::texts(b@)[i as int]);
            return false;
        }
        i = i + 1;
    }
    assert(text::texts(a@) =~= text::texts(b@));
    true
}

fn parts_are_less(a: &Vec<Vec<char>>, b: &Vec<Vec<char>>) -> (r: bool)
    ensures
        r == parts_less(text::texts(a@), text::texts(b@), 0),
{
    let ghost x = text::texts(a@);
    let ghost y = text::texts(b@);
    assert(x.len() == a@.len() && y.len() == b@.len());
    let mut i: usize = 0;
    while i < b.len()
        invariant
            i <= a.len(),
            i <= b.len(),
            x == text::texts(a@),
            y == text::texts(b@),
            x.len() == a@.len(),
            y.len() == b@.len(),
            parts_less(x, y, 0) == parts_less(x, y, i as int),
        decreases b.len() - i,
    {
        if i >= a.len() {
            return true;
        }
        assert(x[i as int] == a@[i as int]@ && y[i as int] == b@[i as int]@);
        if !text::same_text(&a[i], &b[i]) {
            let p = part_rank(&a[i]);
            let q = part_rank(&b[i]);
            return p < q || (p == q && text_is_less(&a[i], &b[i]));
        }
        i = i + 1;
    }
    false
}

/// Whether two paths are the same.
pub fn same_path(a: &str, b: &str) -> (r: bool)
    ensures
        r == same(a@, b@),
{
    same_parts(&split_parts(a), &split_parts(b))
}

/// Whether path `a` comes before path `b`.
pub fn path_less(a: &str, b: &str) -> (r: bool)
    ensures
        r == less(a@, b@),
{
    parts_are_less(&split_parts(a), &split_parts(b))
}

// ── Sorted lists ────────────────────────────────────────────────────────────

/// Whether `v` holds a path that is the same as `p`.
pub open spec fn holds(v: Seq<Seq<char>>, p: Seq<char>) -> bool {
    exists|k: int| 0 <= k < v.len() && same(#[trigger] v[k], p)
}

pub fn holds_path(v: &Vec<String>, p: &str) -> (r: bool)
    ensures
        r == holds(ast::names_of(v@), p@),
{
    let ghost names = ast::names_of(v@);
    let mut i: usize = 0;
    while i < v.len()
        invariant
            i <= v.len(),
            names == ast::names_of(v@),
            forall|k: int| 0 <= k < i ==> !same(#[trigger] names[k], p@),
        decreases v.len() - i,
    {
        assert(names[i as int] == v@[i as int]@);
        if same_path(v[i].as_str(), p) {
            return true;
        }
        i = i + 1;
    }
    false
}

/// `v` with `p` at its place, unless the path is there already.
pub open spec fn inserted(v: Seq<Seq<char>>, p: Seq<char>) -> Seq<Seq<char>>
    decreases v.len(),
{
    if v.len() == 0 || less(v.last(), p) {
        v.push(p)
    } else if same(v.last(), p) {
        v
    } else {
        inserted(v.drop_last(), p).push(v.last())
    }
}

/// The first `n` paths of `v` in order, each once.
pub open spec fn arranged(v: Seq<Seq<char>>, n: nat) -> Seq<Seq<char>>
    decreases n,
{
    if n == 0 {
        seq![]
    } else {
        inserted(arranged(v, (n - 1) as nat), v[n - 1])
    }
}

fn insert_path(v: &mut Vec<String>, p: String)
    ensures
        ast::names_of(final(v)@) == inserted(ast::names_of(old(v)@), p@),
{
    let ghost names = ast::names_of(v@);
    let mut i: usize = v.len();
    let ghost n = v@.len();
    assert(names.take(n as int) =~= names);
    assert(names.skip(n as int) =~= seq![]);
    while i > 0
        invariant
            i <= v.len(),
            v@ == old(v)@,
            names == ast::names_of(v@),
            names.len() == v@.len(),
            inserted(names, p@) =~= inserted(names.take(i as int), p@) + names.skip(i as int),
        ensures
            i == 0 || less(names[i - 1], p@),
        decreases i,
    {
        let ghost front = names.take(i as int);
        assert(front.last() == v@[i - 1]@);
        if path_less(v[i - 1].as_str(), p.as_str()) {
            break;
        }
        if same_path(v[i - 1].as_str(), p.as_str()) {
            assert(front + names.skip(i as int) =~= names);
            return;
        }
        assert(front.drop_last() =~= names.take(i - 1));
        assert(inserted(front, p@) =~= inserted(names.take(i - 1), p@).push(front.last()));
        assert(inserted(names.take(i - 1), p@).push(front.last()) + names.skip(i as int) =~= inserted(
            names.take(i - 1),
            p@,
        ) + names.skip(i - 1));
        i = i - 1;
    }
    let ghost t = p@;
    assert(inserted(names.take(i as int), t) == names.take(i as int).push(t));
    v.insert(i, p);
    assert(ast::names_of(v@) =~= names.take(i as int).push(t) + names.skip(i as int));
}

/// The paths of `v` in order, each once.
pub fn arrange(v: Vec<String>) -> (r: Vec<String>)
    ensures
        ast::names_of(r@) == arranged(ast::names_of(v@), v@.len()),
{
    let ghost names = ast::names_of(v@);
    let mut r: Vec<String> = Vec::new();
    assert(ast::names_of(r@) =~= seq![]);
    let mut i: usize = 0;
    while i < v.len()
        invariant
            i <= v.len(),
            names == ast::names_of(v@),
            ast::names_of(r@) == arranged(names, i as nat),
        decreases v.len() - i,
    {
        assert(names[i as int] == v@[i as int]@);
        insert_path(&mut r, copy_text(v[i].as_str()));
        i = i + 1;
    }
    r
}

pub fn copy_text(s: &str) -> (r: String)
    ensures
        r@ == s@,
{
    s.to_owned()
}

// ── Names ───────────────────────────────────────────────────────────────────

/// `s` without the slashes and `.` parts at its end.
pub open spec fn body(s: Seq<char>) -> Seq<char>
    decreases s.len(),
{
    if s.len() > 0 && s.last() == '/' {
        body(s.drop_last())
    } else if s.len() > 1 && s.last() == '.' && s[s.len() - 2] == '/' {
        body(s.drop_last().drop_last())
    } else {
        s
    }
}

/// The index after the last `c` of `s`.
pub open spec fn after_last(s: Seq<char>, c: char) -> int
    decreases s.len(),
{
    if s.len() == 0 || s.last() == c {
        s.len() as int
    } else {
        after_last(s.drop_last(), c)
    }
}

/// Where the name of the file starts: after the last slash of the body.
pub open spec fn name_start(s: Seq<char>) -> int {
    after_last(body(s), '/')
}

/// The name of the file that a path names.
pub open spec fn file_name(s: Seq<char>) -> Option<Seq<char>> {
    let n = body(s).skip(name_start(s));
    if n.len() == 0 || n == seq!['.'] || n == seq!['.', '.'] {
        None
    } else {
        Some(n)
    }
}

/// How many characters of a name stand before its extension; all of them where it has
/// none. A dot at the start of a name begins no extension.
pub open spec fn stem_len(n: Seq<char>) -> int {
    let d = after_last(n, '.');
    if d <= 1 {
        n.len() as int
    } else {
        d - 1
    }
}

/// The name without its extension.
pub open spec fn file_stem(s: Seq<char>) -> Option<Seq<char>> {
    match file_name(s) {
        Some(n) => Some(n.take(stem_len(n))),
        None => None,
    }
}

/// The part of the name after its last dot.
pub open spec fn extension(s: Seq<char>) -> Option<Seq<char>> {
    match file_name(s) {
        Some(n) => if stem_len(n) < n.len() {
            Some(n.skip(stem_len(n) + 1))
        } else {
            None
        },
        None => None,
    }
}

/// `s` with extension `ext` in place of its own; without one where `ext` is empty.
pub open spec fn with_extension(s: Seq<char>, ext: Seq<char>) -> Seq<char> {
    match file_name(s) {
        Some(n) => s.take(name_start(s) + stem_len(n)) + (if ext.len() > 0 {
            seq!['.'] + ext
        } else {
            seq![]
        }),
        None => s,
    }
}

pub proof fn lemma_body(s: Seq<char>)
    ensures
        body(s).len() <= s.len(),
        body(s) == s.take(body(s).len() as int),
        0 <= after_last(body(s), '/') <= body(s).len(),
    decreases s.len(),
{
    lemma_after_last(body(s), '/');
    if s.len() > 0 && s.last() == '/' {
        lemma_body(s.drop_last());
        assert(body(s) =~= s.take(body(s).len() as int));
    } else if s.len() > 1 && s.last() == '.' && s[s.len() - 2] == '/' {
        lemma_body(s.drop_last().drop_last());
        assert(body(s) =~= s.take(body(s).len() as int));
    } else {
        assert(body(s) =~= s.take(body(s).len() as int));
    }
}

pub proof fn lemma_after_last(s: Seq<char>, c: char)
    ensures
        0 <= after_last(s, c) <= s.len(),
        after_last(s, c) > 0 ==> s[after_last(s, c) - 1] == c,
        forall|k: int| after_last(s, c) <= k < s.len() ==> s[k] != c,
    decreases s.len(),
{
    if s.len() > 0 && s.last() != c {
        lemma_after_last(s.drop_last(), c);
        assert forall|k: int| after_last(s, c) <= k < s.len() implies s[k] != c by {
            if k < s.len() - 1 {
                assert(s.drop_last()[k] == s[k]);
            }
        }
    }
}

fn body_len(s: &Vec<char>) -> (n: usize)
    ensures
        n == body(s@).len(),
        n <= s@.len(),
        body(s@) == s@.take(n as int),
{
    let mut n: usize = s.len();
    assert(s@.take(n as int) =~= s@);
    while (n > 0 && s[n - 1] == '/') || (n > 1 && s[n - 1] == '.' && s[n - 2] == '/')
        invariant
            n <= s.len(),
            body(s@) == body(s@.take(n as int)),
        decreases n,
    {
        assert(s@.take(n as int).drop_last() =~= s@.take(n - 1));
        if s[n - 1] == '/' {
            n = n - 1;
        } else {
            assert(s@.take(n as int).drop_last().drop_last() =~= s@.take(n - 2));
            n = n - 2;
        }
    }
    n
}

fn index_after_last(s: &Vec<char>, n: usize, c: char) -> (i: usize)
    requires
        n <= s@.len(),
    ensures
        i == after_last(s@.take(n as int), c),
        i <= n,
{
    let mut i: usize = n;
    while i > 0 && s[i - 1] != c
        invariant
            i <= n <= s@.len(),
            after_last(s@.take(n as int), c) == after_last(s@.take(i as int), c),
        decreases i,
    {
        assert(s@.take(i as int).drop_last() =~= s@.take(i - 1));
        i = i - 1;
    }
    i
}

pub open spec fn text_of(v: Option<Vec<char>>) -> Option<Seq<char>> {
    match v {
        Some(t) => Some(t@),
        None => None,
    }
}

fn name_of(s: &Vec<char>) -> (r: Option<Vec<char>>)
    ensures
        text_of(r) == file_name(s@),
{
    let e = body_len(s);
    let b = index_after_last(s, e, '/');
    let n = text::copy_range(s, b, e);
    assert(n@ =~= body(s@).skip(b as int));
    let k = part_rank(&n);
    assert(n@ == seq!['/'] ==> n@[0] == '/');
    proof {
        lemma_after_last(body(s@), '/');
        assert(n@.len() > 0 ==> n@[0] == body(s@)[b as int]);
    }
    if n.len() == 0 || k < 3 {
        None
    } else {
        Some(n)
    }
}

fn stem_size(n: &Vec<char>) -> (r: usize)
    ensures
        r == stem_len(n@),
        r <= n@.len(),
{
    let d = index_after_last(n, n.len(), '.');
    assert(n@.take(n@.len() as int) =~= n@);
    if d <= 1 {
        n.len()
    } else {
        d - 1
    }
}

pub open spec fn string_of(v: Option<String>) -> Option<Seq<char>> {
    match v {
        Some(t) => Some(t@),
        None => None,
    }
}

/// The name of the file that a path names.
pub fn path_file_name(path: &str) -> (r: Option<String>)
    ensures
        string_of(r) == file_name(path@),
{
    match name_of(&chars_of(path)) {
        Some(n) => Some(text::to_text(&n)),
        None => None,
    }
}

/// The name of the file without its extension.
pub fn path_file_stem(path: &str) -> (r: Option<String>)
    ensures
        string_of(r) == file_stem(path@),
{
    match name_of(&chars_of(path)) {
        Some(n) => {
            let k = stem_size(&n);
            let t = text::copy_range(&n, 0, k);
            assert(t@ =~= n@.take(k as int));
            Some(text::to_text(&t))
        },
        None => None,
    }
}

/// The extension of the file that a path names.
pub fn path_extension(path: &str) -> (r: Option<String>)
    ensures
        string_of(r) == extension(path@),
{
    match name_of(&chars_of(path)) {
        Some(n) => {
            let k = stem_size(&n);
            if k < n.len() {
                let t = text::copy_range(&n, k + 1, n.len());
                assert(t@ =~= n@.skip(k + 1));
                Some(text::to_text(&t))
            } else {
                None
            }
        },
        None => None,
    }
}

/// The path with another extension.
pub fn set_extension(path: &str, ext: &str) -> (r: String)
    ensures
        r@ == with_extension(path@, ext@),
{
    let s = chars_of(path);
    match name_of(&s) {
        Some(n) => {
            let e = body_len(&s);
            let b = index_after_last(&s, e, '/');
            let k = stem_size(&n);
            proof {
                lemma_body(s@);
            }
            assert(n@ == body(s@).skip(b as int));
            let mut out = text::copy_range(&s, 0, b + k);
            assert(out@ =~= s@.take(b + k));
            let t = chars_of(ext);
            if t.len() > 0 {
                out.push('.');
                text::push_text(&mut out, &t);
                assert(out@ =~= s@.take(b + k) + (seq!['.'] + ext@));
            } else {
                assert(out@ =~= s@.take(b + k) + Seq::<char>::empty());
            }
            text::to_text(&out)
        },
        None => text::to_text(&s),
    }
}

// ── Laws ────────────────────────────────────────────────────────────────────

proof fn lemma_text_order(a: Seq<char>, b: Seq<char>, c: Seq<char>, i: int)
    requires
        0 <= i,
    ensures
        text_less(a, b, i) && text_less(b, c, i) ==> text_less(a, c, i),
        text_less(a, b, i) ==> !text_less(b, a, i),
        i <= a.len() && i <= b.len() && a.take(i) == b.take(i) && a != b ==> text_less(a, b, i)
            || text_less(b, a, i),
    decreases a.len() + b.len() + c.len() - i,
{
    if i < a.len() && i < b.len() {
        if a.take(i) == b.take(i) && a[i] == b[i] {
            assert(a.take(i + 1) =~= a.take(i).push(a[i]));
            assert(b.take(i + 1) =~= b.take(i).push(b[i]));
        }
        lemma_text_order(a, b, c, i + 1);
    } else if i == a.len() && i == b.len() {
        assert(a.take(i) =~= a);
        assert(b.take(i) =~= b);
    } else if i < b.len() && i < c.len() {
        lemma_text_order(a, b, c, i + 1);
    }
}

proof fn lemma_part_order(a: Seq<char>, b: Seq<char>, c: Seq<char>)
    ensures
        part_less(a, b) && part_less(b, c) ==> part_less(a, c),
        part_less(a, b) ==> !part_less(b, a),
        a != b ==> part_less(a, b) || part_less(b, a),
{
    assert(a.take(0) =~= b.take(0));
    lemma_text_order(a, b, c, 0);
}

proof fn lemma_parts_order(a: Seq<Seq<char>>, b: Seq<Seq<char>>, c: Seq<Seq<char>>, i: int)
    requires
        0 <= i,
    ensures
        parts_less(a, b, i) && parts_less(b, c, i) ==> parts_less(a, c, i),
        parts_less(a, b, i) ==> !parts_less(b, a, i),
        i <= a.len() && i <= b.len() && a.take(i) == b.take(i) && a != b ==> parts_less(a, b, i)
            || parts_less(b, a, i),
    decreases a.len() + b.len() + c.len() - i,
{
    if i < a.len() && i < b.len() {
        lemma_part_order(a[i], b[i], c[i]);
        if a.take(i) == b.take(i) && a[i] == b[i] {
            assert(a.take(i + 1) =~= a.take(i).push(a[i]));
            assert(b.take(i + 1) =~= b.take(i).push(b[i]));
        }
        lemma_parts_order(a, b, c, i + 1);
    } else if i == a.len() && i == b.len() {
        assert(a.take(i) =~= a);
        assert(b.take(i) =~= b);
    } else if i < b.len() && i < c.len() {
        lemma_parts_order(a, b, c, i + 1);
    }
}

/// The order of paths is a strict order in which any two paths that are not the same
/// are comparable.
pub proof fn law_path_order(a: Seq<char>, b: Seq<char>, c: Seq<char>)
    ensures
        less(a, b) && less(b, c) ==> less(a, c),
        less(a, b) ==> !less(b, a),
        !same(a, b) ==> less(a, b) || less(b, a),
        same(a, b) ==> !less(a, b),
{
    assert(parts(a).take(0) =~= parts(b).take(0));
    lemma_parts_order(parts(a), parts(b), parts(c), 0);
}

/// Whether each path of `v` comes before the next.
pub open spec fn in_order(v: Seq<Seq<char>>) -> bool {
    forall|i: int, j: int| 0 <= i < j < v.len() ==> less(#[trigger] v[i], #[trigger] v[j])
}

proof fn lemma_inserted(v: Seq<Seq<char>>, p: Seq<char>)
    requires
        in_order(v),
    ensures
        in_order(inserted(v, p)),
        holds(inserted(v, p), p),
        forall|k: int|
            0 <= k < inserted(v, p).len() ==> inserted(v, p)[k] == p || v.contains(
                #[trigger] inserted(v, p)[k],
            ),
        forall|k: int| 0 <= k < v.len() ==> inserted(v, p).contains(#[trigger] v[k]),
        v.len() > 0 && less(p, v.last()) ==> inserted(v, p).len() > 0 && inserted(v, p).last()
            == v.last(),
    decreases v.len(),
{
    let r = inserted(v, p);
    if v.len() == 0 || less(v.last(), p) {
        assert(r == v.push(p));
        assert(r[v.len() as int] == p);
        assert forall|i: int, j: int| 0 <= i < j < r.len() implies less(#[trigger] r[i], #[trigger] r[j]) by {
            if j == v.len() {
                law_path_order(v[i], v.last(), p);
            }
        }
        assert forall|k: int| 0 <= k < v.len() implies r.contains(#[trigger] v[k]) by {
            assert(r[k] == v[k]);
        }
        if v.len() > 0 {
            law_path_order(v.last(), p, p);
        }
    } else if same(v.last(), p) {
        assert(same(r[v.len() - 1], p));
    } else {
        let w = v.drop_last();
        let q = inserted(w, p);
        lemma_inserted(w, p);
        law_path_order(p, v.last(), p);
        assert(r == q.push(v.last()));
        assert(less(p, v.last()));
        assert forall|i: int, j: int| 0 <= i < j < r.len() implies less(#[trigger] r[i], #[trigger] r[j]) by {
            if j == q.len() {
                if q[i] != p {
                    let k = w.index_of(q[i]);
                    assert(w.contains(q[i]));
                    assert(v[k] == q[i]);
                }
            } else {
                assert(r[i] == q[i] && r[j] == q[j]);
            }
        }
        let h = choose|k: int| 0 <= k < q.len() && same(#[trigger] q[k], p);
        assert(r[h] == q[h]);
        assert forall|k: int| 0 <= k < r.len() implies r[k] == p || v.contains(#[trigger] r[k]) by {
            if k == q.len() {
                assert(v[v.len() - 1] == r[k]);
            } else {
                assert(r[k] == q[k]);
                if q[k] != p {
                    let m = w.index_of(q[k]);
                    assert(w.contains(q[k]));
                    assert(v[m] == q[k]);
                }
            }
        }
        assert forall|k: int| 0 <= k < v.len() implies r.contains(#[trigger] v[k]) by {
            if k == v.len() - 1 {
                assert(r[q.len() as int] == v[k]);
            } else {
                assert(w[k] == v[k]);
                let m = q.index_of(w[k]);
                assert(q.contains(w[k]));
                assert(r[m] == v[k]);
            }
        }
    }
}

/// Arranging paths puts them in order, adds none, and leaves none out.
pub proof fn law_arranged(v: Seq<Seq<char>>, n: nat)
    requires
        n <= v.len(),
    ensures
        in_order(arranged(v, n)),
        forall|k: int| 0 <= k < arranged(v, n).len() ==> v.contains(#[trigger] arranged(v, n)[k]),
        forall|k: int| 0 <= k < n ==> holds(arranged(v, n), #[trigger] v[k]),
    decreases n,
{
    if n > 0 {
        let m = (n - 1) as nat;
        let w = arranged(v, m);
        let r = arranged(v, n);
        law_arranged(v, m);
        lemma_inserted(w, v[n - 1]);
        assert forall|k: int| 0 <= k < r.len() implies v.contains(#[trigger] r[k]) by {
            if r[k] != v[n - 1] {
                let i = w.index_of(r[k]);
                assert(w.contains(r[k]));
                assert(w[i] == r[k]);
            }
        }
        assert forall|k: int| 0 <= k < n implies holds(r, #[trigger] v[k]) by {
            if k < m {
                let i = choose|i: int| 0 <= i < w.len() && same(#[trigger] w[i], v[k]);
                let j = r.index_of(w[i]);
                assert(r.contains(w[i]));
                assert(same(r[j], v[k]));
            }
        }
    }
}

} // verus!
