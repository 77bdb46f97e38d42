//! What an expansion of imports holds.
use vstd::prelude::*;
use crate::modules;
use crate::modules::{Known, Progress};
use crate::paths;
use crate::tree;

verus! {

/// The name that an import can ask for an item by.
pub open spec fn name_of(item: tree::Item) -> Option<Seq<char>> {
    match item {
        tree::Item::Function(f) => Some(f.name),
        tree::Item::Struct(d) => Some(d.name),
        tree::Item::Class(d) => Some(d.name),
        tree::Item::Enum(d) => Some(d.name),
        _ => None,
    }
}

/// Whether `added` is what an import of `list` takes from a file with the items `inner`: every
/// named item that the list asks for and every foreign declaration is there, and nothing is there
/// that the list does not ask for, but foreign declarations.
pub open spec fn is_selection(inner: Seq<tree::Item>, list: Seq<Seq<char>>, added: Seq<tree::Item>) -> bool {
    &&& forall|j: int|
        0 <= j < inner.len() && name_of(#[trigger] inner[j]) is Some && list.contains(name_of(inner[j])->0)
            ==> added.contains(inner[j])
    &&& forall|j: int| 0 <= j < inner.len() && #[trigger] inner[j] is Extern ==> added.contains(inner[j])
    &&& forall|i: int|
        0 <= i < added.len() ==> #[trigger] added[i] is Extern || (name_of(added[i]) is Some && list.contains(
            name_of(added[i])->0,
        ))
}

/// Whether `added` is what an import of a whole file with the items `inner` takes from it: all that
/// is no import.
pub open spec fn is_whole(inner: Seq<tree::Item>, added: Seq<tree::Item>) -> bool {
    &&& forall|j: int| 0 <= j < inner.len() && !(#[trigger] inner[j] is Import) ==> added.contains(inner[j])
    &&& forall|i: int| 0 <= i < added.len() ==> !(#[trigger] added[i] is Import)
}

/// Whether `b` goes on where `a` ends.
pub open spec fn goes_on<T>(a: Seq<T>, b: Seq<T>) -> bool {
    a.len() <= b.len() && forall|i: int| 0 <= i < a.len() ==> #[trigger] b[i] == a[i]
}

/// The items that are brought stand after those that were there, in the order that they had.
proof fn lemma_brought(
    out: Seq<tree::Item>,
    items: Seq<tree::Item>,
    symbols: Option<Seq<Seq<char>>>,
    n: nat,
)
    requires
        n <= items.len(),
    ensures
        ({
            let r = modules::brought(out, items, symbols, n);
            &&& goes_on(out, r)
            &&& forall|j: int|
                0 <= j < n && modules::brings(#[trigger] items[j], symbols) ==> r.skip(out.len() as int).contains(
                    items[j],
                )
            &&& forall|i: int| out.len() <= i < r.len() ==> modules::brings(#[trigger] r[i], symbols)
        }),
    decreases n,
{
    let r = modules::brought(out, items, symbols, n);
    if n > 0 {
        lemma_brought(out, items, symbols, (n - 1) as nat);
        let p = modules::brought(out, items, symbols, (n - 1) as nat);
        let k = out.len() as int;
        assert forall|j: int| 0 <= j < n && modules::brings(#[trigger] items[j], symbols) implies r.skip(k).contains(
            items[j],
        ) by {
            if j < n - 1 {
                let w = p.skip(k);
                let i = choose|i: int| 0 <= i < w.len() && w[i] == items[j];
                assert(r.skip(k)[i] == w[i]);
            } else {
                assert(r.skip(k)[r.len() - 1 - k] == items[j]);
            }
        }
    }
}

/// What was there stays, the files reached and the issues go on, and every item that is no import
/// comes along.
proof fn lemma_included(
    bases: Seq<Seq<char>>,
    store: Seq<Known>,
    importer: Seq<char>,
    items: Seq<tree::Item>,
    k: int,
    st: Progress,
    out: Seq<tree::Item>,
)
    requires
        0 <= k,
    ensures
        ({
            let r = modules::included(bases, store, importer, items, k, st, out);
            &&& goes_on(out, r.0)
            &&& goes_on(st.visited, r.1.visited)
            &&& goes_on(st.issues, r.1.issues)
            &&& modules::unvisited(store, r.1.visited) <= modules::unvisited(store, st.visited)
            &&& forall|j: int|
                k <= j < items.len() && !(#[trigger] items[j] is Import) ==> r.0.skip(out.len() as int).contains(
                    items[j],
                )
        }),
    decreases modules::unvisited(store, st.visited), items.len() - k,
{
    reveal(modules::included);
    let r = modules::included(bases, store, importer, items, k, st, out);
    if k < items.len() {
        match items[k] {
            tree::Item::Import(d) => {
                let s = modules::with_asked(st, d.path, bases, store);
                match modules::resolved(d.path, bases, 0, store) {
                    None => {
                        let t = modules::with_issue(
                            s,
                            modules::unresolved_text(d.path, bases),
                            d.span,
                            importer,
                        );
                        lemma_included(bases, store, importer, items, k + 1, t, out);
                        lemma_on(st.issues, t.issues, r.1.issues);
                    },
                    Some(p) => {
                        if paths::holds(s.visited, p) {
                            lemma_included(bases, store, importer, items, k + 1, s, out);
                        } else {
                            let v = modules::with_visited(s, p);
                            modules::lemma_resolved(d.path, bases, 0, store);
                            modules::lemma_visit(store, s.visited, p);
                            match modules::loaded(store, p) {
                                Err(m) => {
                                    let t = modules::with_issue(v, m, d.span, importer);
                                    lemma_included(bases, store, importer, items, k + 1, t, out);
                                    lemma_on(st.issues, t.issues, r.1.issues);
                                    lemma_on(st.visited, t.visited, r.1.visited);
                                },
                                Ok(inner) => {
                                    lemma_included(bases, store, p, inner, 0, v, seq![]);
                                    let (sub, w) = modules::included(bases, store, p, inner, 0, v, seq![]);
                                    let more = modules::brought(out, sub, d.symbols, sub.len());
                                    lemma_brought(out, sub, d.symbols, sub.len());
                                    lemma_included(bases, store, importer, items, k + 1, w, more);
                                    lemma_on(st.issues, w.issues, r.1.issues);
                                    lemma_on(st.visited, v.visited, w.visited);
                                    lemma_on(st.visited, w.visited, r.1.visited);
                                    lemma_later(items, k + 1, out, more, r.0);
                                },
                            }
                        }
                    },
                }
            },
            other => {
                let more = out.push(other);
                lemma_included(bases, store, importer, items, k + 1, st, more);
                lemma_later(items, k + 1, out, more, r.0);
                assert(r.0.skip(out.len() as int)[0] == r.0[out.len() as int]);
                assert(r.0[out.len() as int] == more[out.len() as int]);
            },
        }
    }
}

proof fn lemma_on<T>(a: Seq<T>, b: Seq<T>, c: Seq<T>)
    requires
        goes_on(a, b),
        goes_on(b, c),
    ensures
        goes_on(a, c),
{
    assert forall|i: int| 0 <= i < a.len() implies #[trigger] c[i] == a[i] by {
        assert(b[i] == a[i]);
    }
}

proof fn lemma_later(items: Seq<tree::Item>, k: int, out: Seq<tree::Item>, more: Seq<tree::Item>, r: Seq<tree::Item>)
    requires
        goes_on(out, more),
        goes_on(more, r),
        forall|j: int|
            k <= j < items.len() && !(#[trigger] items[j] is Import) ==> r.skip(more.len() as int).contains(items[j]),
    ensures
        goes_on(out, r),
        forall|j: int|
            k <= j < items.len() && !(#[trigger] items[j] is Import) ==> r.skip(out.len() as int).contains(items[j]),
{
    lemma_on(out, more, r);
    assert forall|j: int| k <= j < items.len() && !(#[trigger] items[j] is Import) implies r.skip(
        out.len() as int,
    ).contains(items[j]) by {
        let w = r.skip(more.len() as int);
        let i = choose|i: int| 0 <= i < w.len() && w[i] == items[j];
        assert(r.skip(out.len() as int)[i + more.len() - out.len()] == w[i]);
    }
}

/// An import with a list of symbols, of a file that was not reached before and can be read, adds
/// exactly what the list asks for: every function, struct, class and enum of the file that the
/// list names, and none that it does not name. Foreign declarations come along, and nothing else.
/// What was there before stays, and the items after the import follow.
pub proof fn law_import_takes_what_it_names(
    bases: Seq<Seq<char>>,
    store: Seq<Known>,
    importer: Seq<char>,
    items: Seq<tree::Item>,
    k: int,
    st: Progress,
    out: Seq<tree::Item>,
    list: Seq<Seq<char>>,
    file: Seq<char>,
)
    requires
        0 <= k < items.len(),
        items[k] is Import,
        items[k]->Import_0.symbols == Some(list),
        modules::resolved(items[k]->Import_0.path, bases, 0, store) == Some(file),
        !paths::holds(st.visited, file),
        modules::loaded(store, file) is Ok,
    ensures
        exists|added: Seq<tree::Item>, w: Progress|
            is_selection(modules::loaded(store, file)->Ok_0, list, added) && goes_on(st.visited.push(file), w.visited)
                && modules::included(bases, store, importer, items, k, st, out) == #[trigger] modules::included(
                bases,
                store,
                importer,
                items,
                k + 1,
                w,
                out + added,
            ),
{
    reveal(modules::included);
    let d = items[k]->Import_0;
    let s = modules::with_asked(st, d.path, bases, store);
    let v = modules::with_visited(s, file);
    modules::lemma_resolved(d.path, bases, 0, store);
    modules::lemma_visit(store, s.visited, file);
    let inner = modules::loaded(store, file)->Ok_0;
    lemma_included(bases, store, file, inner, 0, v, seq![]);
    let (sub, w) = modules::included(bases, store, file, inner, 0, v, seq![]);
    let more = modules::brought(out, sub, d.symbols, sub.len());
    lemma_brought(out, sub, d.symbols, sub.len());
    let added = more.skip(out.len() as int);
    assert(out + added =~= more);
    assert(sub.skip(0) =~= sub);
    assert forall|j: int| 0 <= j < inner.len() && modules::brings(#[trigger] inner[j], d.symbols) && !(
    inner[j] is Import) implies added.contains(inner[j]) by {
        assert(sub.contains(inner[j]));
        let i = choose|i: int| 0 <= i < sub.len() && sub[i] == inner[j];
        assert(modules::brings(sub[i], d.symbols));
    }
    assert forall|i: int| 0 <= i < added.len() implies #[trigger] added[i] is Extern || (name_of(added[i]) is Some
        && list.contains(name_of(added[i])->0)) by {
        assert(added[i] == more[i + out.len()]);
        assert(modules::brings(more[i + out.len()], d.symbols));
    }
    assert(is_selection(inner, list, added)) by {
        assert forall|j: int| 0 <= j < inner.len() && name_of(#[trigger] inner[j]) is Some && list.contains(
            name_of(inner[j])->0,
        ) implies added.contains(inner[j]) by {
            assert(modules::brings(inner[j], d.symbols));
        }
        assert forall|j: int| 0 <= j < inner.len() && #[trigger] inner[j] is Extern implies added.contains(inner[j]) by {
            assert(modules::brings(inner[j], d.symbols));
        }
    }
    assert(modules::included(bases, store, importer, items, k, st, out) == modules::included(
        bases,
        store,
        importer,
        items,
        k + 1,
        w,
        out + added,
    ));
}

/// An import of a whole file that was not reached before and can be read adds every item of the
/// file that is no import.
pub proof fn law_import_takes_the_whole_file(
    bases: Seq<Seq<char>>,
    store: Seq<Known>,
    importer: Seq<char>,
    items: Seq<tree::Item>,
    k: int,
    st: Progress,
    out: Seq<tree::Item>,
    file: Seq<char>,
)
    requires
        0 <= k < items.len(),
        items[k] is Import,
        items[k]->Import_0.symbols is None,
        modules::resolved(items[k]->Import_0.path, bases, 0, store) == Some(file),
        !paths::holds(st.visited, file),
        modules::loaded(store, file) is Ok,
    ensures
        exists|added: Seq<tree::Item>, w: Progress|
            is_whole(modules::loaded(store, file)->Ok_0, added) && goes_on(st.visited.push(file), w.visited)
                && modules::included(bases, store, importer, items, k, st, out) == #[trigger] modules::included(
                bases,
                store,
                importer,
                items,
                k + 1,
                w,
                out + added,
            ),
{
    reveal(modules::included);
    let d = items[k]->Import_0;
    let s = modules::with_asked(st, d.path, bases, store);
    let v = modules::with_visited(s, file);
    modules::lemma_resolved(d.path, bases, 0, store);
    modules::lemma_visit(store, s.visited, file);
    let inner = modules::loaded(store, file)->Ok_0;
    lemma_included(bases, store, file, inner, 0, v, seq![]);
    let (sub, w) = modules::included(bases, store, file, inner, 0, v, seq![]);
    let more = modules::brought(out, sub, d.symbols, sub.len());
    lemma_brought(out, sub, d.symbols, sub.len());
    let added = more.skip(out.len() as int);
    assert(out + added =~= more);
    assert(sub.skip(0) =~= sub);
    assert forall|j: int| 0 <= j < inner.len() && !(#[trigger] inner[j] is Import) implies added.contains(inner[j]) by {
        assert(sub.contains(inner[j]));
        let i = choose|i: int| 0 <= i < sub.len() && sub[i] == inner[j];
        assert(modules::brings(sub[i], d.symbols));
    }
    assert forall|i: int| 0 <= i < added.len() implies !(#[trigger] added[i] is Import) by {
        assert(added[i] == more[i + out.len()]);
        assert(modules::brings(more[i + out.len()], d.symbols));
    }
    assert(is_whole(inner, added));
    assert(modules::included(bases, store, importer, items, k, st, out) == modules::included(
        bases,
        store,
        importer,
        items,
        k + 1,
        w,
        out + added,
    ));
}

/// The items of a program that are no imports are all in its expansion.
pub proof fn law_own_items_stay(
    p: tree::Program,
    importer: Seq<char>,
    bases: Seq<Seq<char>>,
    store: Seq<Known>,
    j: int,
)
    requires
        0 <= j < p.items.len(),
        !(p.items[j] is Import),
    ensures
        modules::expansion(p, importer, bases, store).program.items.contains(p.items[j]),
{
    let start = Progress { visited: seq![], issues: seq![], wanted: seq![] };
    lemma_included(bases, store, importer, p.items, 0, start, seq![]);
    let r = modules::included(bases, store, importer, p.items, 0, start, seq![]).0;
    assert(r.skip(0) =~= r);
}

/// A program whose imports name no file gets an issue for each import, at its place.
pub proof fn law_missing_file_is_reported(
    bases: Seq<Seq<char>>,
    store: Seq<Known>,
    importer: Seq<char>,
    items: Seq<tree::Item>,
    k: int,
    st: Progress,
    out: Seq<tree::Item>,
)
    requires
        0 <= k < items.len(),
        items[k] is Import,
        modules::resolved(items[k]->Import_0.path, bases, 0, store) is None,
    ensures
        ({
            let r = modules::included(bases, store, importer, items, k, st, out).1;
            &&& st.issues.len() < r.issues.len()
            &&& r.issues[st.issues.len() as int].span == items[k]->Import_0.span
            &&& r.issues[st.issues.len() as int].file == importer
        }),
{
    reveal(modules::included);
    let d = items[k]->Import_0;
    let s = modules::with_asked(st, d.path, bases, store);
    let t = modules::with_issue(s, modules::unresolved_text(d.path, bases), d.span, importer);
    lemma_included(bases, store, importer, items, k + 1, t, out);
    assert(t.issues[st.issues.len() as int].span == d.span);
}

proof fn lemma_resolves(path: Seq<Seq<char>>, bases: Seq<Seq<char>>, n: int, store: Seq<Known>)
    requires
        0 <= n,
    ensures
        match modules::resolved(path, bases, n, store) {
            Some(q) => exists|m: int|
                n <= m < bases.len() && #[trigger] is_first_hit(path, bases, n, m, store, q),
            None => forall|j: int| n <= j < bases.len() ==> has_none(path, #[trigger] bases[j], store),
        },
    decreases bases.len() - n,
{
    if n < bases.len() {
        if has_none(path, bases[n], store) {
            lemma_resolves(path, bases, n + 1, store);
            match modules::resolved(path, bases, n + 1, store) {
                Some(q) => {
                    let m = choose|m: int|
                        n + 1 <= m < bases.len() && #[trigger] is_first_hit(path, bases, n + 1, m, store, q);
                    assert(is_first_hit(path, bases, n, m, store, q));
                },
                None => {},
            }
        } else {
            assert(is_first_hit(path, bases, n, n, store, modules::resolved(path, bases, n, store)->0));
        }
    }
}

/// Whether a base holds neither form of a module.
pub open spec fn has_none(path: Seq<Seq<char>>, base: Seq<char>, store: Seq<Known>) -> bool {
    !modules::is_file(store, modules::module_file(base, path)) && !modules::is_file(
        store,
        modules::folder_file(base, path),
    )
}

/// Whether `q` is the file of a module in base `m`, and no base from `n` up to it has one. A file
/// of the module's own name is taken before one in a directory of that name.
pub open spec fn is_first_hit(
    path: Seq<Seq<char>>,
    bases: Seq<Seq<char>>,
    n: int,
    m: int,
    store: Seq<Known>,
    q: Seq<char>,
) -> bool {
    &&& modules::is_file(store, q)
    &&& q == modules::module_file(bases[m], path) || (q == modules::folder_file(bases[m], path)
        && !modules::is_file(store, modules::module_file(bases[m], path)))
    &&& forall|j: int| n <= j < m ==> has_none(path, #[trigger] bases[j], store)
}

/// An import is found in the first place where it can be found, and nowhere else: no earlier base
/// has a file for it, and it is missing only where no base has one.
pub proof fn law_first_base_wins(path: Seq<Seq<char>>, bases: Seq<Seq<char>>, store: Seq<Known>)
    ensures
        match modules::resolved(path, bases, 0, store) {
            Some(q) => exists|m: int|
                0 <= m < bases.len() && #[trigger] is_first_hit(path, bases, 0, m, store, q),
            None => forall|j: int| 0 <= j < bases.len() ==> has_none(path, #[trigger] bases[j], store),
        },
{
    lemma_resolves(path, bases, 0, store);
}

} // verus!
