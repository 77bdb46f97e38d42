//! The formatter: declarations and whole programs.
use vstd::prelude::*;
use crate::ast;
use crate::ast::{
    AliasDecl, Attribute, AttributeArg, Block, ClassDecl, ConstructorDecl, ConversionDecl, DestructorDecl,
    EnumDecl, ExtensionDecl, ExtensionMember, ExternDecl, ExternMember, Function, GenericParam, ImportDecl,
    Item, OperatorDecl, Param, Program, PropertyDecl, StructDecl, StructField, TraitDecl, TraitMethod,
    VariantDecl, WhereClause,
};
use crate::formatter::compact::{
    fmt_generic_params, fmt_line, fmt_param, fmt_params, fmt_type, fmt_types, fmt_where_clause,
    has_derived_type, join_names, vis_prefix,
};
use crate::formatter::layout;
use crate::formatter::layout_items;
use crate::formatter::layout_items::{Event, MemberKind};
use crate::formatter::print;
use crate::formatter::print::{attach, deeper, push_trail, Formatter};
use crate::text;
use crate::text::{chars_of, push_str, push_text};
use crate::token::Span;
use crate::tree;

verus! {

broadcast use ast::group_lists;

/// The comments of a field.
pub struct Attached {
    pub leads: Vec<char>,
    pub trail: Option<Vec<char>>,
}

impl View for Attached {
    type V = layout_items::Attached;

    open spec fn view(&self) -> layout_items::Attached {
        layout_items::Attached { leads: self.leads@, trail: print::text_of(self.trail) }
    }
}

pub open spec fn attached_of(v: Seq<Attached>) -> Seq<layout_items::Attached> {
    Seq::new(v.len(), |i: int| v[i]@)
}

/// A class member with its comments.
pub struct Placed {
    pub kind: u8,
    pub index: usize,
    pub leads: Vec<char>,
    pub body: Vec<char>,
    pub trail: Option<Vec<char>>,
}

impl View for Placed {
    type V = layout_items::Placed;

    open spec fn view(&self) -> layout_items::Placed {
        layout_items::Placed {
            kind: self.kind as int,
            index: self.index as int,
            leads: self.leads@,
            body: self.body@,
            trail: print::text_of(self.trail),
        }
    }
}

pub open spec fn placed_of(v: Seq<Placed>) -> Seq<layout_items::Placed> {
    Seq::new(v.len(), |i: int| v[i]@)
}

fn flag(b: bool, word: &'static str) -> (r: &'static str)
    ensures
        r@ == layout_items::flag_text(b, word@),
{
    if b {
        word
    } else {
        ""
    }
}

/// A copy of an optional text.
fn copy_trail(t: &Option<Vec<char>>) -> (r: Option<Vec<char>>)
    ensures
        print::text_of(r) == print::text_of(*t),
{
    match t {
        Some(c) => Some(text::copy_range(c, 0, c.len())),
        None => None,
    }
}

// ── Imports, attributes, aliases ────────────────────────────────────────────

pub fn fmt_import(d: &ImportDecl) -> (r: Vec<char>)
    ensures
        r@ == layout_items::import_text(d.tree()),
{
    reveal(layout_items::import_text);
    let mut s = chars_of("import ");
    push_text(&mut s, &join_names(&d.path, "::"));
    if let Some(syms) = &d.symbols {
        push_str(&mut s, "::{");
        push_text(&mut s, &join_names(syms, ", "));
        push_str(&mut s, "}");
    }
    s
}

fn fmt_attribute_args(f: &Formatter, ind: usize, v: &Vec<AttributeArg>) -> (r: Vec<char>)
    requires
        f.wf(),
    ensures
        r@ == layout_items::attribute_args(f@, ind as nat, ast::attribute_args_of(v@), v@.len()),
{
    let mut s: Vec<char> = Vec::new();
    let mut i: usize = 0;
    while i < v.len()
        invariant
            f.wf(),
            i <= v.len(),
            s@ == layout_items::attribute_args(f@, ind as nat, ast::attribute_args_of(v@), i as nat),
        decreases v.len() - i,
    {
        if i > 0 {
            push_str(&mut s, ", ");
        }
        match &v[i] {
            AttributeArg::Value(e) => {
                push_text(&mut s, &fmt_line(f, ind, e));
            },
            AttributeArg::Named { name, value } => {
                push_str(&mut s, name.as_str());
                push_str(&mut s, ": ");
                push_text(&mut s, &fmt_line(f, ind, value));
            },
        }
        i = i + 1;
    }
    s
}

pub fn fmt_attribute(f: &Formatter, ind: usize, a: &Attribute) -> (r: Vec<char>)
    requires
        f.wf(),
    ensures
        r@ == layout_items::attribute_text(f@, ind as nat, a.tree()),
{
    let mut s = chars_of("@");
    push_str(&mut s, a.name.as_str());
    assert(ast::attribute_args_of(a.args@).len() == a.args@.len());
    if a.args.len() > 0 {
        push_str(&mut s, "(");
        push_text(&mut s, &fmt_attribute_args(f, ind, &a.args));
        push_str(&mut s, ")");
    }
    s
}

fn fmt_attributes(f: &Formatter, ind: usize, v: &Vec<Attribute>) -> (r: Vec<char>)
    requires
        f.wf(),
    ensures
        r@ == layout_items::attributes_text(f@, ind as nat, ast::attributes_of(v@), v@.len()),
{
    let mut s: Vec<char> = Vec::new();
    let mut i: usize = 0;
    while i < v.len()
        invariant
            f.wf(),
            i <= v.len(),
            s@ == layout_items::attributes_text(f@, ind as nat, ast::attributes_of(v@), i as nat),
        decreases v.len() - i,
    {
        push_text(&mut s, &fmt_attribute(f, ind, &v[i]));
        s.push('\n');
        i = i + 1;
    }
    s
}

pub fn fmt_typedef(d: &AliasDecl) -> (r: Vec<char>)
    ensures
        r@ == layout_items::typedef_text(d.tree()),
{
    reveal(layout_items::typedef_text);
    let mut s = chars_of(vis_prefix(d.visibility));
    push_str(&mut s, "typedef ");
    push_text(&mut s, &fmt_generic_params(&d.generic_params));
    push_str(&mut s, d.name.as_str());
    push_str(&mut s, " = ");
    push_text(&mut s, &fmt_type(&d.ty));
    s
}

pub fn fmt_distinct(d: &AliasDecl) -> (r: Vec<char>)
    ensures
        r@ == layout_items::distinct_text(d.tree()),
{
    reveal(layout_items::distinct_text);
    let mut s = chars_of(vis_prefix(d.visibility));
    push_str(&mut s, "distinct ");
    push_str(&mut s, d.name.as_str());
    push_text(&mut s, &fmt_generic_params(&d.generic_params));
    push_str(&mut s, " = ");
    push_text(&mut s, &fmt_type(&d.ty));
    s
}

/// The tree of an optional `where` clause.
pub open spec fn where_tree(w: Option<WhereClause>) -> Option<tree::WhereClause> {
    match w {
        Some(v) => Some(v.tree()),
        None => None,
    }
}

fn fmt_decl_head(word: &str, name: &str, generics: &Vec<GenericParam>, w: &Option<WhereClause>) -> (r:
    Vec<char>)
    ensures
        r@ == layout_items::decl_head(word@, name@, ast::generics_of(generics@), where_tree(*w)),
{
    let mut s = chars_of(word);
    push_str(&mut s, name);
    push_text(&mut s, &fmt_generic_params(generics));
    push_text(&mut s, &fmt_where_clause(w));
    s
}

fn fmt_function_head(f: &Function) -> (r: Vec<char>)
    ensures
        r@ == layout_items::function_head(f.tree()),
{
    let mut s = chars_of(vis_prefix(f.visibility));
    push_str(&mut s, flag(f.is_static, "static "));
    push_str(&mut s, flag(f.is_sealed, "sealed "));
    push_str(&mut s, flag(f.is_override, "override "));
    push_text(&mut s, &fmt_type(&f.ret_ty));
    push_str(&mut s, " ");
    push_str(&mut s, f.name.as_str());
    push_text(&mut s, &fmt_generic_params(&f.generic_params));
    push_str(&mut s, "(");
    s
}

fn fmt_variant(f: &Formatter, ind: usize, v: &VariantDecl) -> (r: Vec<char>)
    requires
        f.wf(),
    ensures
        r@ == layout_items::variant_text(f@, ind as nat, v.tree()),
{
    let mut s = chars_of(v.name.as_str());
    assert(ast::params_of(v.payload@).len() == v.payload@.len());
    if v.payload.len() > 0 {
        push_str(&mut s, "(");
        push_text(&mut s, &fmt_params(&v.payload));
        push_str(&mut s, ")");
    }
    if let Some(e) = &v.discriminant {
        push_str(&mut s, " = ");
        push_text(&mut s, &fmt_line(f, ind, e));
    }
    s
}

fn fmt_trait_method(m: &TraitMethod) -> (r: Vec<char>)
    ensures
        r@ == layout_items::trait_method_text(m.tree()),
{
    let mut s = chars_of(flag(m.is_sealed, "sealed "));
    push_text(&mut s, &fmt_type(&m.ret_ty));
    push_str(&mut s, " ");
    push_str(&mut s, m.name.as_str());
    push_str(&mut s, "(");
    push_text(&mut s, &fmt_params(&m.params));
    push_str(&mut s, ")");
    push_text(&mut s, &fmt_where_clause(&m.where_clause));
    s
}

fn fmt_foreign_param(p: &Param) -> (r: Vec<char>)
    ensures
        r@ == layout_items::foreign_param(p.tree()),
{
    let name = chars_of(p.name.as_str());
    if name.len() == 0 {
        return chars_of("...");
    }
    if p.is_variadic && has_derived_type(p) {
        let mut s = chars_of("...");
        push_text(&mut s, &name);
        return s;
    }
    let mut s = chars_of(flag(p.is_variadic, "..."));
    push_text(&mut s, &fmt_type(&p.ty));
    push_str(&mut s, " ");
    push_text(&mut s, &name);
    s
}

fn fmt_foreign_params(v: &Vec<Param>) -> (r: Vec<char>)
    ensures
        r@ == layout_items::foreign_params(ast::params_of(v@), v@.len()),
{
    let mut s: Vec<char> = Vec::new();
    let mut i: usize = 0;
    while i < v.len()
        invariant
            i <= v.len(),
            s@ == layout_items::foreign_params(ast::params_of(v@), i as nat),
        decreases v.len() - i,
    {
        if i > 0 {
            push_str(&mut s, ", ");
        }
        push_text(&mut s, &fmt_foreign_param(&v[i]));
        i = i + 1;
    }
    s
}

// ── Spans ───────────────────────────────────────────────────────────────────

/// The span of an item; attributes do not count.
pub fn item_span(item: &Item) -> (r: Span)
    ensures
        r == layout_items::item_span(item.tree()),
    decreases item,
{
    match item {
        Item::Import(d) => d.span,
        Item::Function(f) => f.span,
        Item::Struct(d) => d.span,
        Item::Class(d) => d.span,
        Item::Enum(d) => d.span,
        Item::Trait(d) => d.span,
        Item::Typedef(d) => d.span,
        Item::Distinct(d) => d.span,
        Item::Extension(d) => d.span,
        Item::Extern(d) => d.span,
        Item::Init(b) => b.span,
        Item::Const(d) => d.span,
        Item::Var(d) => d.span,
        Item::Attributed { item, .. } => item_span(item),
    }
}

fn ext_member_span(m: &ExtensionMember) -> (r: Span)
    ensures
        r == layout_items::extension_member_span(m.tree()),
{
    match m {
        ExtensionMember::Field(f) => f.span,
        ExtensionMember::Function(f) => f.span,
        ExtensionMember::Operator(o) => o.span,
        ExtensionMember::Property(p) => p.span,
        ExtensionMember::Conversion(c) => c.span,
    }
}

fn extern_member_span(m: &ExternMember) -> (r: Span)
    ensures
        r == layout_items::foreign_span(m.tree()),
{
    match m {
        ExternMember::Function { span, .. } => *span,
        ExternMember::Struct { span, .. } => *span,
        ExternMember::Enum { span, .. } => *span,
        ExternMember::Const { span, .. } => *span,
    }
}

// ── Class members ───────────────────────────────────────────────────────────

fn kind_at(k: u8) -> (r: MemberKind)
    ensures
        r == layout_items::kind_at(k as int),
{
    if k == 0 {
        MemberKind::Field
    } else if k == 1 {
        MemberKind::Constructor
    } else if k == 2 {
        MemberKind::Destructor
    } else if k == 3 {
        MemberKind::Property
    } else if k == 4 {
        MemberKind::Operator
    } else if k == 5 {
        MemberKind::Conversion
    } else {
        MemberKind::Method
    }
}

fn member_count(d: &ClassDecl, k: u8) -> (n: usize)
    ensures
        n == layout_items::member_count(d.tree(), k as int),
{
    match kind_at(k) {
        MemberKind::Field => d.fields.len(),
        MemberKind::Constructor => d.constructors.len(),
        MemberKind::Destructor => d.destructors.len(),
        MemberKind::Property => d.properties.len(),
        MemberKind::Operator => d.operators.len(),
        MemberKind::Conversion => d.conversions.len(),
        MemberKind::Method => d.methods.len(),
    }
}

fn member_span(d: &ClassDecl, k: u8, i: usize) -> (r: Span)
    requires
        i < layout_items::member_count(d.tree(), k as int),
    ensures
        r == layout_items::member_span(d.tree(), k as int, i as int),
{
    match kind_at(k) {
        MemberKind::Field => d.fields[i].span,
        MemberKind::Constructor => d.constructors[i].span,
        MemberKind::Destructor => d.destructors[i].span,
        MemberKind::Property => d.properties[i].span,
        MemberKind::Operator => d.operators[i].span,
        MemberKind::Conversion => d.conversions[i].span,
        MemberKind::Method => d.methods[i].span,
    }
}

fn comes_before(a: Event, b: Event) -> (r: bool)
    ensures
        r == layout_items::before(a, b),
{
    a.start < b.start || (a.start == b.start && (a.kind < b.kind || (a.kind == b.kind && a.index
        < b.index)))
}

/// Every event names a member of the class.
pub open spec fn events_in(d: tree::ClassDecl, es: Seq<Event>) -> bool {
    forall|i: int|
        0 <= i < es.len() ==> (#[trigger] es[i]).kind < 7 && es[i].index
            < layout_items::member_count(d, es[i].kind as int)
}

proof fn lemma_insert_event(es: Seq<Event>, e: Event, pos: int)
    requires
        0 <= pos <= es.len(),
        forall|i: int| pos <= i < es.len() ==> layout_items::before(e, #[trigger] es[i]),
        pos > 0 ==> !layout_items::before(e, es[pos - 1]),
    ensures
        layout_items::insert_event(es, e) == es.insert(pos, e),
    decreases es.len(),
{
    if pos < es.len() {
        lemma_insert_event(es.drop_last(), e, pos);
        assert(es.drop_last().insert(pos, e).push(es.last()) =~= es.insert(pos, e));
    } else {
        assert(es.push(e) =~= es.insert(pos, e));
    }
}

fn insert_event(es: &mut Vec<Event>, e: Event)
    ensures
        final(es)@ == layout_items::insert_event(old(es)@, e),
        exists|pos: int| 0 <= pos <= old(es)@.len() && final(es)@ == old(es)@.insert(pos, e),
{
    let mut pos: usize = es.len();
    while pos > 0 && comes_before(e, es[pos - 1])
        invariant
            pos <= es.len(),
            es@ == old(es)@,
            forall|i: int| pos <= i < es.len() ==> layout_items::before(e, #[trigger] es@[i]),
        decreases pos,
    {
        pos = pos - 1;
    }
    proof {
        lemma_insert_event(es@, e, pos as int);
    }
    es.insert(pos, e);
    assert(0 <= pos as int <= old(es)@.len() && es@ == old(es)@.insert(pos as int, e));
}

/// The members of a class in source order.
fn class_events(d: &ClassDecl) -> (es: Vec<Event>)
    ensures
        es@ == layout_items::events(d.tree(), 7),
        events_in(d.tree(), es@),
{
    let ghost t = d.tree();
    let mut es: Vec<Event> = Vec::new();
    let mut k: u8 = 0;
    while k < 7
        invariant
            k <= 7,
            t == d.tree(),
            es@ == layout_items::events(t, k as int),
            events_in(t, es@),
        decreases 7 - k,
    {
        let n = member_count(d, k);
        let ghost base = es@;
        let mut i: usize = 0;
        while i < n
            invariant
                k < 7,
                i <= n,
                t == d.tree(),
                n == layout_items::member_count(t, k as int),
                es@ == layout_items::insert_members(t, base, k as int, i as nat),
                events_in(t, es@),
            decreases n - i,
        {
            let e = Event { start: member_span(d, k, i).start, kind: k, index: i };
            let ghost before = es@;
            insert_event(&mut es, e);
            proof {
                let pos = choose|pos: int|
                    0 <= pos <= before.len() && es@ == before.insert(pos, e);
                assert forall|j: int| 0 <= j < es@.len() implies (#[trigger] es@[j]).kind < 7
                    && es@[j].index < layout_items::member_count(t, es@[j].kind as int) by {
                    if j < pos {
                        assert(es@[j] == before[j]);
                    } else if j > pos {
                        assert(es@[j] == before[j - 1]);
                    }
                }
            }
            i = i + 1;
        }
        k = k + 1;
    }
    es
}

/// Index in `ps` of member `i` of kind `k`.
fn find_placed(ps: &Vec<Placed>, k: u8, i: usize) -> (r: Option<usize>)
    ensures
        match r {
            Some(j) => j < ps@.len() && layout_items::find_placed(
                placed_of(ps@),
                ps@.len(),
                k as int,
                i as int,
            ) == ps@[j as int]@,
            None => layout_items::find_placed(placed_of(ps@), ps@.len(), k as int, i as int) == (
            layout_items::Placed {
                kind: k as int,
                index: i as int,
                leads: seq![],
                body: seq![],
                trail: None,
            }),
        },
{
    let ghost views = placed_of(ps@);
    let mut n: usize = ps.len();
    while n > 0
        invariant
            n <= ps.len(),
            views == placed_of(ps@),
            layout_items::find_placed(views, n as nat, k as int, i as int)
                == layout_items::find_placed(views, ps@.len(), k as int, i as int),
        decreases n,
    {
        assert(views[n - 1] == ps@[n - 1]@);
        if ps[n - 1].kind == k && ps[n - 1].index == i {
            return Some(n - 1);
        }
        n = n - 1;
    }
    None
}

/// The comments of the fields of a class.
fn field_comments(ps: &Vec<Placed>, n: usize) -> (r: Vec<Attached>)
    ensures
        attached_of(r@) == layout_items::field_comments(placed_of(ps@), n as nat),
        r@.len() == n,
{
    let mut out: Vec<Attached> = Vec::new();
    assert(attached_of(out@) =~= seq![]);
    let mut i: usize = 0;
    while i < n
        invariant
            i <= n,
            out@.len() == i,
            attached_of(out@) == layout_items::field_comments(placed_of(ps@), i as nat),
        decreases n - i,
    {
        let ghost before = out@;
        let a = match find_placed(ps, 0, i) {
            Some(j) => Attached {
                leads: text::copy_range(&ps[j].leads, 0, ps[j].leads.len()),
                trail: copy_trail(&ps[j].trail),
            },
            None => Attached { leads: Vec::new(), trail: None },
        };
        proof {
            let p = layout_items::find_placed(placed_of(ps@), placed_of(ps@).len(), 0, i as int);
            assert(a.leads@ =~= p.leads);
            assert(a@ == (layout_items::Attached { leads: p.leads, trail: p.trail }));
        }
        out.push(a);
        assert(attached_of(out@) =~= attached_of(before).push(a@));
        i = i + 1;
    }
    out
}

/// The section of member `i` of kind `k`.
fn member_section(ps: &Vec<Placed>, k: u8, i: usize) -> (r: Vec<char>)
    ensures
        ({
            let p = layout_items::find_placed(placed_of(ps@), ps@.len(), k as int, i as int);
            r@ == layout::with_trail(p.leads + p.body, p.trail)
        }),
{
    let mut s: Vec<char> = Vec::new();
    if let Some(j) = find_placed(ps, k, i) {
        push_text(&mut s, &ps[j].leads);
        assert(s@ =~= ps@[j as int].leads@);
        push_text(&mut s, &ps[j].body);
        push_trail(&mut s, &ps[j].trail);
    } else {
        assert(s@ =~= Seq::<char>::empty() + Seq::<char>::empty());
    }
    s
}

/// The sections of a class in the order in which they are written.
fn class_sections(d: &ClassDecl, ps: &Vec<Placed>, fields: Vec<char>) -> (r: Vec<Vec<char>>)
    ensures
        text::texts(r@) == layout_items::sections(d.tree(), placed_of(ps@), fields@, 7),
{
    let ghost t = d.tree();
    let ghost views = placed_of(ps@);
    let ghost fs = fields@;
    let mut v: Vec<Vec<char>> = Vec::new();
    assert(ast::fields_of(d.fields@).len() == d.fields@.len());
    if d.fields.len() > 0 {
        v.push(fields);
    }
    assert(text::texts(v@) =~= layout_items::sections(t, views, fs, 1));
    let mut k: u8 = 1;
    while k < 7
        invariant
            1 <= k <= 7,
            t == d.tree(),
            views == placed_of(ps@),
            text::texts(v@) == layout_items::sections(t, views, fs, k as int),
        decreases 7 - k,
    {
        let n = member_count(d, k);
        let ghost base = text::texts(v@);
        let mut i: usize = 0;
        while i < n
            invariant
                i <= n,
                views == placed_of(ps@),
                text::texts(v@) == layout_items::kind_sections(views, base, k as int, i as nat),
            decreases n - i,
        {
            let ghost before = v@;
            let s = member_section(ps, k, i);
            v.push(s);
            assert(views.len() == ps@.len());
            assert(text::texts(v@) =~= text::texts(before).push(s@));
            i = i + 1;
        }
        k = k + 1;
    }
    v
}

/// Appends the lines of `t`, each ended by a line feed.
fn push_lines(s: &mut Vec<char>, t: &Vec<char>)
    ensures
        final(s)@ == layout_items::push_lines(
            text::lines(t@),
            text::lines(t@).len(),
            old(s)@,
        ),
{
    let ls = text::split_lines(t);
    let ghost base = s@;
    assert(text::texts(ls@).len() == ls@.len());
    let mut i: usize = 0;
    while i < ls.len()
        invariant
            i <= ls@.len(),
            text::texts(ls@).len() == ls@.len(),
            s@ == layout_items::push_lines(text::texts(ls@), i as nat, base),
        decreases ls.len() - i,
    {
        assert(text::texts(ls@)[i as int] == ls@[i as int]@);
        push_text(s, &ls[i]);
        s.push('\n');
        i = i + 1;
    }
}

fn push_sections(s: &mut Vec<char>, v: &Vec<Vec<char>>)
    ensures
        final(s)@ == layout_items::section_lines(text::texts(v@), v@.len(), old(s)@),
{
    let ghost base = s@;
    let mut i: usize = 0;
    while i < v.len()
        invariant
            i <= v@.len(),
            s@ == layout_items::section_lines(text::texts(v@), i as nat, base),
        decreases v.len() - i,
    {
        assert(text::texts(v@)[i as int] == v@[i as int]@);
        if i > 0 {
            s.push('\n');
        }
        let mut t = text::copy_range(&v[i], 0, v[i].len());
        assert(t@ =~= v@[i as int]@);
        text::trim_newlines_text(&mut t);
        push_lines(s, &t);
        i = i + 1;
    }
}

fn fmt_class_head(d: &ClassDecl) -> (r: Vec<char>)
    ensures
        r@ == layout_items::class_head(d.tree()),
{
    let mut s = chars_of(flag(d.is_open, "open "));
    push_str(&mut s, flag(d.is_sealed, "sealed "));
    push_text(
        &mut s,
        &fmt_decl_head("class ", d.name.as_str(), &d.generic_params, &d.where_clause),
    );
    if let Some(t) = &d.extends {
        push_str(&mut s, " extends ");
        push_text(&mut s, &fmt_type(t));
    }
    assert(ast::types_of(d.implements@).len() == d.implements@.len());
    if d.implements.len() > 0 {
        push_str(&mut s, " implements ");
        push_text(&mut s, &fmt_types(&d.implements));
    }
    push_str(&mut s, " has\n");
    s
}

// ── Layout of declarations ──────────────────────────────────────────────────

impl<'a> Formatter<'a> {
    /// Appends a block one step in and `end`.
    fn push_block(&self, s: &mut Vec<char>, b: &Block, ind: usize, at: &mut usize)
        requires
            self.wf(),
        ensures
            (final(s)@, *final(at) as int) == layout_items::with_block(
                self@,
                ind as nat,
                *old(at) as int,
                old(s)@,
                b.tree(),
            ),
    {
        push_text(s, &self.fmt_block_inner(b, 1, ind, at));
        self.push_pad(s, ind);
        push_str(s, "end");
    }

    /// Appends the comments before `end` one step in, and `end`.
    fn push_end(&self, s: &mut Vec<char>, end: usize, ind: usize, at: &mut usize)
        requires
            self.wf(),
        ensures
            (final(s)@, *final(at) as int) == layout_items::closed_by_end(
                self@,
                ind as nat,
                old(s)@,
                *old(at) as int,
                end as int,
            ),
    {
        push_text(s, &self.take_leading(end, deeper(ind, 1), at));
        self.push_pad(s, ind);
        push_str(s, "end");
    }

    /// Appends one parameter on each line.
    fn push_param_lines(&self, s: &mut Vec<char>, params: &Vec<Param>, ind: usize)
        ensures
            final(s)@ == layout_items::param_lines(
                self@,
                ind as nat,
                ast::params_of(params@),
                params@.len(),
                old(s)@,
            ),
    {
        let ghost base = s@;
        let ghost trees = ast::params_of(params@);
        assert(trees.len() == params@.len());
        let mut i: usize = 0;
        while i < params.len()
            invariant
                i <= params.len(),
                trees == ast::params_of(params@),
                trees.len() == params@.len(),
                s@ == layout_items::param_lines(self@, ind as nat, trees, i as nat, base),
            decreases params.len() - i,
        {
            self.push_pad(s, deeper(ind, 1));
            push_text(s, &fmt_param(&params[i]));
            if params.len() - i > 1 {
                push_str(s, ",");
            }
            s.push('\n');
            i = i + 1;
        }
    }

    /// A function.
    pub fn fmt_function(&self, f: &Function, ind: usize, at: &mut usize) -> (r: Vec<char>)
        requires
            self.wf(),
        ensures
            (r@, *final(at) as int) == layout_items::function_text(
                self@,
                ind as nat,
                *old(at) as int,
                f.tree(),
            ),
    {
        reveal(layout_items::function_text);
        let mut line = fmt_function_head(f);
        push_text(&mut line, &fmt_params(&f.params));
        push_str(&mut line, ")");
        push_text(&mut line, &fmt_where_clause(&f.where_clause));
        push_str(&mut line, " do");
        let mut s = if self.fits(ind, &line) {
            push_str(&mut line, "\n");
            line
        } else {
            let mut s = fmt_function_head(f);
            push_str(&mut s, "\n");
            self.push_param_lines(&mut s, &f.params, ind);
            self.push_pad(&mut s, ind);
            push_str(&mut s, ")");
            push_text(&mut s, &fmt_where_clause(&f.where_clause));
            push_str(&mut s, " do\n");
            s
        };
        self.push_block(&mut s, &f.body, ind, at);
        s
    }

    /// A method, one step in.
    fn fmt_function_indented(&self, f: &Function, ind: usize, at: &mut usize) -> (r: Vec<char>)
        requires
            self.wf(),
        ensures
            (r@, *final(at) as int) == layout_items::method_text(
                self@,
                ind as nat,
                *old(at) as int,
                f.tree(),
            ),
    {
        reveal(layout_items::method_text);
        let inner = deeper(ind, 1);
        let t = self.fmt_function(f, inner, at);
        let ls = text::split_lines(&t);
        let ghost margin = layout::pad(self@, inner as nat);
        assert(text::texts(ls@).len() == ls@.len());
        let mut s: Vec<char> = Vec::new();
        let mut i: usize = 0;
        while i < ls.len()
            invariant
                i <= ls@.len(),
                text::texts(ls@).len() == ls@.len(),
                margin == layout::pad(self@, inner as nat),
                s@ == layout_items::indented_lines(text::texts(ls@), i as nat, margin),
            decreases ls.len() - i,
        {
            assert(text::texts(ls@)[i as int] == ls@[i as int]@);
            if i > 0 {
                push_str(&mut s, "\n");
            }
            if i == 0 && ls[i].len() > 0 {
                self.push_pad(&mut s, inner);
            }
            push_text(&mut s, &ls[i]);
            i = i + 1;
        }
        s
    }

    fn fmt_constructor(&self, c: &ConstructorDecl, ind: usize, at: &mut usize) -> (r: Vec<char>)
        requires
            self.wf(),
        ensures
            (r@, *final(at) as int) == layout_items::constructor_text(
                self@,
                ind as nat,
                *old(at) as int,
                c.tree(),
            ),
    {
        reveal(layout_items::constructor_text);
        let m = deeper(ind, 1);
        let mut s: Vec<char> = Vec::new();
        self.push_pad(&mut s, m);
        assert(s@ =~= layout::pad(self@, m as nat));
        push_str(&mut s, vis_prefix(c.visibility));
        push_str(&mut s, c.name.as_str());
        push_str(&mut s, "(");
        let mut line = text::copy_range(&s, 0, s.len());
        assert(line@ =~= s@);
        push_text(&mut line, &fmt_params(&c.params));
        push_str(&mut line, ") initialize");
        assert(ast::params_of(c.params@).len() == c.params@.len());
        let mut head = if text::text_width(&line) > self.opts.max_width as u128 && c.params.len() > 1 {
            push_str(&mut s, "\n");
            self.push_param_lines(&mut s, &c.params, m);
            self.push_pad(&mut s, m);
            push_str(&mut s, ") initialize");
            s
        } else {
            line
        };
        if let Some(b) = &c.body {
            push_str(&mut head, " do\n");
            self.push_block(&mut head, b, m, at);
        }
        head
    }

    fn fmt_destructor(&self, d: &DestructorDecl, ind: usize, at: &mut usize) -> (r: Vec<char>)
        requires
            self.wf(),
        ensures
            (r@, *final(at) as int) == layout_items::destructor_text(
                self@,
                ind as nat,
                *old(at) as int,
                d.tree(),
            ),
    {
        reveal(layout_items::destructor_text);
        let m = deeper(ind, 1);
        let mut s: Vec<char> = Vec::new();
        self.push_pad(&mut s, m);
        assert(s@ =~= layout::pad(self@, m as nat));
        push_str(&mut s, vis_prefix(d.visibility));
        push_str(&mut s, "~");
        push_str(&mut s, d.name.as_str());
        push_str(&mut s, "() do\n");
        self.push_block(&mut s, &d.body, m, at);
        s
    }

    fn fmt_property_head(&self, p: &PropertyDecl, m: usize) -> (r: Vec<char>)
        ensures
            r@ == layout_items::property_head(self@, m as nat, p.tree()),
    {
        let mut s: Vec<char> = Vec::new();
        self.push_pad(&mut s, m);
        assert(s@ =~= layout::pad(self@, m as nat));
        push_str(&mut s, vis_prefix(p.visibility));
        if let Some(t) = &p.ty {
            push_text(&mut s, &fmt_type(t));
            push_str(&mut s, " ");
        }
        push_str(&mut s, p.name.as_str());
        s
    }

    fn fmt_property(&self, p: &PropertyDecl, ind: usize, at: &mut usize) -> (r: Vec<char>)
        requires
            self.wf(),
        ensures
            (r@, *final(at) as int) == layout_items::property_text(
                self@,
                ind as nat,
                *old(at) as int,
                p.tree(),
            ),
    {
        reveal(layout_items::property_text);
        let m = deeper(ind, 1);
        let mut s: Vec<char> = match &p.getter {
            Some(b) => {
                let mut s = self.fmt_property_head(p, m);
                push_str(&mut s, " get do\n");
                self.push_block(&mut s, b, m, at);
                s
            },
            None => Vec::new(),
        };
        if let Some(st) = &p.setter {
            if p.getter.is_some() {
                push_str(&mut s, "\n");
                self.push_pad(&mut s, m);
                push_str(&mut s, "set(");
            } else {
                s = self.fmt_property_head(p, m);
                push_str(&mut s, " set(");
            }
            push_text(&mut s, &fmt_param(&st.param));
            push_str(&mut s, ") do\n");
            self.push_block(&mut s, &st.body, m, at);
        }
        s
    }

    fn fmt_operator(&self, o: &OperatorDecl, ind: usize, at: &mut usize) -> (r: Vec<char>)
        requires
            self.wf(),
        ensures
            (r@, *final(at) as int) == layout_items::operator_text(
                self@,
                ind as nat,
                *old(at) as int,
                o.tree(),
            ),
    {
        reveal(layout_items::operator_text);
        let m = deeper(ind, 1);
        let mut s: Vec<char> = Vec::new();
        self.push_pad(&mut s, m);
        assert(s@ =~= layout::pad(self@, m as nat));
        push_str(&mut s, vis_prefix(o.visibility));
        push_str(&mut s, flag(o.is_static, "static "));
        push_str(&mut s, "operator ");
        push_str(&mut s, o.op.as_str());
        push_str(&mut s, "(");
        push_text(&mut s, &fmt_params(&o.params));
        push_str(&mut s, ")");
        push_text(&mut s, &fmt_where_clause(&o.where_clause));
        push_str(&mut s, " do\n");
        self.push_block(&mut s, &o.body, m, at);
        s
    }

    fn fmt_conversion(&self, c: &ConversionDecl, ind: usize, at: &mut usize) -> (r: Vec<char>)
        requires
            self.wf(),
        ensures
            (r@, *final(at) as int) == layout_items::conversion_text(
                self@,
                ind as nat,
                *old(at) as int,
                c.tree(),
            ),
    {
        reveal(layout_items::conversion_text);
        let m = deeper(ind, 1);
        let mut s: Vec<char> = Vec::new();
        self.push_pad(&mut s, m);
        assert(s@ =~= layout::pad(self@, m as nat));
        push_str(&mut s, vis_prefix(c.visibility));
        push_str(&mut s, flag(c.is_explicit, "explicit "));
        push_str(&mut s, "convert ");
        push_text(&mut s, &fmt_type(&c.from_ty));
        push_str(&mut s, " to ");
        push_text(&mut s, &fmt_type(&c.to_ty));
        push_str(&mut s, " do\n");
        self.push_block(&mut s, &c.body, m, at);
        s
    }

    // ── Fields ──

    /// The comments of each field, in source order.
    fn attach_field_comments(&self, fields: &Vec<StructField>, ind: usize, at: &mut usize) -> (r: Vec<
        Attached,
    >)
        requires
            self.wf(),
        ensures
            (attached_of(r@), *final(at) as int) == layout_items::attach_fields(
                self@,
                ind as nat,
                *old(at) as int,
                ast::fields_of(fields@),
                fields@.len(),
            ),
            r@.len() == fields@.len(),
    {
        let ghost from = *at as int;
        let ghost trees = ast::fields_of(fields@);
        assert(trees.len() == fields@.len());
        let mut out: Vec<Attached> = Vec::new();
        assert(attached_of(out@) =~= seq![]);
        let mut i: usize = 0;
        while i < fields.len()
            invariant
                self.wf(),
                i <= fields.len(),
                out@.len() == i,
                trees == ast::fields_of(fields@),
                trees.len() == fields@.len(),
                (attached_of(out@), *at as int) == layout_items::attach_fields(
                    self@,
                    ind as nat,
                    from,
                    trees,
                    i as nat,
                ),
            decreases fields.len() - i,
        {
            let f = &fields[i];
            let ghost before = out@;
            let leads = self.take_leading(f.span.start, deeper(ind, 1), at);
            let trail = self.drain_same_line_trailing(f.span.end, at);
            let a = Attached { leads, trail };
            out.push(a);
            assert(attached_of(out@) =~= attached_of(before).push(a@));
            i = i + 1;
        }
        out
    }

    fn field_group_end(&self, fields: &Vec<StructField>, from: usize) -> (k: usize)
        requires
            self.wf(),
            0 < from <= fields.len(),
        ensures
            k == layout_items::field_group_end(self@, ast::fields_of(fields@), from as int),
            from <= k <= fields.len(),
    {
        let ghost trees = ast::fields_of(fields@);
        assert(trees.len() == fields@.len());
        let mut k: usize = from;
        while k < fields.len() && fields[k].visibility == fields[k - 1].visibility
            && !self.has_blank_between(fields[k - 1].span.end, fields[k].span.start)
            invariant
                self.wf(),
                0 < from <= k <= fields.len(),
                trees == ast::fields_of(fields@),
                trees.len() == fields@.len(),
                layout_items::field_group_end(self@, trees, k as int)
                    == layout_items::field_group_end(self@, trees, from as int),
            decreases fields.len() - k,
        {
            assert(trees[k as int] == fields@[k as int].tree());
            assert(trees[k - 1] == fields@[k - 1].tree());
            k = k + 1;
        }
        assert(k < fields.len() ==> trees[k as int] == fields@[k as int].tree());
        assert(trees[k - 1] == fields@[k - 1].tree());
        k
    }

    fn field_type(&self, f: &StructField) -> (r: Vec<char>)
        ensures
            r@ == layout_items::field_type(f.tree()),
    {
        let mut s = chars_of(vis_prefix(f.visibility));
        push_text(&mut s, &fmt_type(&f.ty));
        s
    }

    /// The widths of the type and name columns of fields `i..j`.
    fn field_widths(&self, fields: &Vec<StructField>, i: usize, j: usize) -> (r: (u128, u128))
        requires
            i <= j <= fields.len(),
        ensures
            r.0 == layout_items::field_type_width(ast::fields_of(fields@), i as int, j as int),
            r.1 == layout_items::field_name_width(ast::fields_of(fields@), i as int, j as int),
    {
        let ghost trees = ast::fields_of(fields@);
        assert(trees.len() == fields@.len());
        let mut tw: u128 = 0;
        let mut nw: u128 = 0;
        let mut k: usize = i;
        while k < j
            invariant
                i <= k <= j <= fields.len(),
                trees == ast::fields_of(fields@),
                trees.len() == fields@.len(),
                tw == layout_items::field_type_width(trees, i as int, k as int),
                nw == layout_items::field_name_width(trees, i as int, k as int),
            decreases j - k,
        {
            assert(trees[k as int] == fields@[k as int].tree());
            let t = text::text_width(&self.field_type(&fields[k]));
            if t > tw {
                tw = t;
            }
            let n = text::text_width(&chars_of(fields[k].name.as_str()));
            if n > nw {
                nw = n;
            }
            k = k + 1;
        }
        (tw, nw)
    }

    /// Fields in groups: visibility and blank lines separate them, and the types and
    /// names of a group stand in columns.
    fn fmt_fields_aligned(
        &self,
        fields: &Vec<StructField>,
        comments: &Vec<Attached>,
        ind: usize,
        at: &mut usize,
    ) -> (r: Vec<char>)
        requires
            self.wf(),
            comments@.len() == fields@.len(),
        ensures
            (r@, *final(at) as int) == layout_items::fields_text(
                self@,
                ind as nat,
                *old(at) as int,
                ast::fields_of(fields@),
                attached_of(comments@),
            ),
    {
        let ghost trees = ast::fields_of(fields@);
        let ghost att = attached_of(comments@);
        let ghost all = layout_items::fields_text(self@, ind as nat, *at as int, trees, att);
        assert(trees.len() == fields@.len());
        let mut s: Vec<char> = Vec::new();
        let mut i: usize = 0;
        while i < fields.len()
            invariant
                self.wf(),
                i <= fields.len(),
                comments@.len() == fields@.len(),
                trees == ast::fields_of(fields@),
                trees.len() == fields@.len(),
                att == attached_of(comments@),
                layout_items::fields_from(self@, ind as nat, *at as int, trees, att, i as int, s@)
                    == all,
            decreases fields.len() - i,
        {
            let j = self.field_group_end(fields, i + 1);
            if i > 0 {
                s.push('\n');
            }
            let (tw, nw): (u128, u128) = if j - i >= 2 {
                self.field_widths(fields, i, j)
            } else {
                (0, 0)
            };
            self.push_field_lines(&mut s, fields, comments, i, j, tw, nw, ind, at);
            i = j;
        }
        s
    }

    /// Appends fields `i..j` with columns `tw` and `nw` wide.
    fn push_field_lines(
        &self,
        s: &mut Vec<char>,
        fields: &Vec<StructField>,
        comments: &Vec<Attached>,
        i: usize,
        j: usize,
        tw: u128,
        nw: u128,
        ind: usize,
        at: &mut usize,
    )
        requires
            self.wf(),
            comments@.len() == fields@.len(),
            i <= j <= fields@.len(),
        ensures
            (final(s)@, *final(at) as int) == layout_items::field_lines(
                self@,
                ind as nat,
                *old(at) as int,
                ast::fields_of(fields@),
                attached_of(comments@),
                i as int,
                j as int,
                tw as nat,
                nw as nat,
                old(s)@,
            ),
    {
        let ghost trees = ast::fields_of(fields@);
        let ghost att = attached_of(comments@);
        let ghost from = *at as int;
        let ghost base = s@;
        assert(trees.len() == fields@.len());
        let mut k: usize = i;
        while k < j
            invariant
                self.wf(),
                i <= k <= j <= fields@.len(),
                comments@.len() == fields@.len(),
                trees == ast::fields_of(fields@),
                trees.len() == fields@.len(),
                att == attached_of(comments@),
                (s@, *at as int) == layout_items::field_lines(
                    self@,
                    ind as nat,
                    from,
                    trees,
                    att,
                    i as int,
                    k as int,
                    tw as nat,
                    nw as nat,
                    base,
                ),
            decreases j - k,
        {
            let f = &fields[k];
            assert(trees[k as int] == f.tree());
            assert(att[k as int] == comments@[k as int]@);
            push_text(s, &comments[k].leads);
            self.push_pad(s, deeper(ind, 1));
            text::push_padded(s, &self.field_type(f), tw);
            push_str(s, " ");
            match &f.default {
                Some(e) => {
                    text::push_padded(s, &chars_of(f.name.as_str()), nw);
                    push_str(s, " = ");
                    push_text(s, &self.fmt_expr_wrapped(e, 1, ind, at));
                },
                None => {
                    push_str(s, f.name.as_str());
                },
            }
            push_trail(s, &comments[k].trail);
            s.push('\n');
            k = k + 1;
        }
    }

    // ── Structs, enums, traits ──

    fn fmt_struct(&self, d: &StructDecl, ind: usize, at: &mut usize) -> (r: Vec<char>)
        requires
            self.wf(),
        ensures
            (r@, *final(at) as int) == layout_items::struct_text(
                self@,
                ind as nat,
                *old(at) as int,
                d.tree(),
            ),
    {
        reveal(layout_items::struct_text);
        assert(ast::fields_of(d.fields@).len() == d.fields@.len());
        let mut s = fmt_decl_head("struct ", d.name.as_str(), &d.generic_params, &d.where_clause);
        push_str(&mut s, " has\n");
        let comments = self.attach_field_comments(&d.fields, ind, at);
        push_text(&mut s, &self.fmt_fields_aligned(&d.fields, &comments, ind, at));
        self.push_end(&mut s, d.span.end, ind, at);
        s
    }

    /// Appends a line of a member with its comments.
    fn push_member_line(&self, s: &mut Vec<char>, line: &Vec<char>, span: Span, ind: usize, at: &mut usize)
        requires
            self.wf(),
        ensures
            (final(s)@, *final(at) as int) == layout_items::member_line(
                self@,
                ind as nat,
                *old(at) as int,
                span,
                line@,
                old(s)@,
            ),
    {
        let m = deeper(ind, 1);
        push_text(s, &self.take_leading(span.start, m, at));
        self.push_pad(s, m);
        push_text(s, line);
        let t = self.drain_same_line_trailing(span.end, at);
        push_trail(s, &t);
        s.push('\n');
    }

    fn fmt_enum(&self, d: &EnumDecl, ind: usize, at: &mut usize) -> (r: Vec<char>)
        requires
            self.wf(),
        ensures
            (r@, *final(at) as int) == layout_items::enum_text(
                self@,
                ind as nat,
                *old(at) as int,
                d.tree(),
            ),
    {
        reveal(layout_items::enum_text);
        let mut s = fmt_decl_head("enum ", d.name.as_str(), &d.generic_params, &d.where_clause);
        push_str(&mut s, " has\n");
        let ghost base = s@;
        let ghost from = *at as int;
        let ghost trees = ast::variants_of(d.variants@);
        assert(trees.len() == d.variants@.len());
        let mut i: usize = 0;
        while i < d.variants.len()
            invariant
                self.wf(),
                i <= d.variants.len(),
                trees == ast::variants_of(d.variants@),
                trees.len() == d.variants@.len(),
                (s@, *at as int) == layout_items::variant_lines(
                    self@,
                    ind as nat,
                    from,
                    trees,
                    i as nat,
                    base,
                ),
            decreases d.variants.len() - i,
        {
            assert(trees[i as int] == d.variants@[i as int].tree());
            let line = fmt_variant(self, deeper(ind, 1), &d.variants[i]);
            self.push_member_line(&mut s, &line, d.variants[i].span, ind, at);
            i = i + 1;
        }
        self.push_end(&mut s, d.span.end, ind, at);
        s
    }

    fn fmt_trait(&self, d: &TraitDecl, ind: usize, at: &mut usize) -> (r: Vec<char>)
        requires
            self.wf(),
        ensures
            (r@, *final(at) as int) == layout_items::trait_text(
                self@,
                ind as nat,
                *old(at) as int,
                d.tree(),
            ),
    {
        reveal(layout_items::trait_text);
        let mut s = fmt_decl_head("trait ", d.name.as_str(), &d.generic_params, &d.where_clause);
        push_str(&mut s, " has\n");
        let ghost base = s@;
        let ghost from = *at as int;
        let ghost trees = ast::trait_methods_of(d.methods@);
        assert(trees.len() == d.methods@.len());
        let mut i: usize = 0;
        while i < d.methods.len()
            invariant
                self.wf(),
                i <= d.methods.len(),
                trees == ast::trait_methods_of(d.methods@),
                trees.len() == d.methods@.len(),
                (s@, *at as int) == layout_items::trait_method_lines(
                    self@,
                    ind as nat,
                    from,
                    trees,
                    i as nat,
                    base,
                ),
            decreases d.methods.len() - i,
        {
            assert(trees[i as int] == d.methods@[i as int].tree());
            if i > 0 {
                s.push('\n');
            }
            let line = fmt_trait_method(&d.methods[i]);
            self.push_member_line(&mut s, &line, d.methods[i].span, ind, at);
            i = i + 1;
        }
        self.push_end(&mut s, d.span.end, ind, at);
        s
    }

    // ── Extensions and foreign libraries ──

    fn fmt_extension_member(&self, m: &ExtensionMember, ind: usize, at: &mut usize) -> (r: Vec<char>)
        requires
            self.wf(),
        ensures
            (r@, *final(at) as int) == layout_items::extension_member_text(
                self@,
                ind as nat,
                *old(at) as int,
                m.tree(),
            ),
    {
        match m {
            ExtensionMember::Field(f) => {
                let mut s: Vec<char> = Vec::new();
                let inner = deeper(ind, 1);
                self.push_pad(&mut s, inner);
                assert(s@ =~= layout::pad(self@, inner as nat));
                push_text(&mut s, &fmt_type(&f.ty));
                push_str(&mut s, " ");
                push_str(&mut s, f.name.as_str());
                if let Some(e) = &f.default {
                    push_str(&mut s, " = ");
                    push_text(&mut s, &fmt_line(self, deeper(ind, 1), e));
                }
                s
            },
            ExtensionMember::Function(f) => self.fmt_function_indented(f, ind, at),
            ExtensionMember::Operator(o) => self.fmt_operator(o, ind, at),
            ExtensionMember::Property(p) => self.fmt_property(p, ind, at),
            ExtensionMember::Conversion(c) => self.fmt_conversion(c, ind, at),
        }
    }

    fn fmt_extension(&self, d: &ExtensionDecl, ind: usize, at: &mut usize) -> (r: Vec<char>)
        requires
            self.wf(),
        ensures
            (r@, *final(at) as int) == layout_items::extension_text(
                self@,
                ind as nat,
                *old(at) as int,
                d.tree(),
            ),
    {
        reveal(layout_items::extension_text);
        let mut s = chars_of("extend ");
        push_text(&mut s, &fmt_type(&d.ty));
        push_str(&mut s, " do\n");
        let ghost base = s@;
        let ghost from = *at as int;
        let ghost trees = ast::extension_members_of(d.members@);
        assert(trees.len() == d.members@.len());
        let mut i: usize = 0;
        while i < d.members.len()
            invariant
                self.wf(),
                i <= d.members.len(),
                trees == ast::extension_members_of(d.members@),
                trees.len() == d.members@.len(),
                (s@, *at as int) == layout_items::extension_lines(
                    self@,
                    ind as nat,
                    from,
                    trees,
                    i as nat,
                    base,
                ),
            decreases d.members.len() - i,
        {
            let m = &d.members[i];
            assert(trees[i as int] == m.tree());
            if i > 0 {
                s.push('\n');
            }
            let sp = ext_member_span(m);
            push_text(&mut s, &self.take_leading(sp.start, deeper(ind, 1), at));
            push_text(&mut s, &self.fmt_extension_member(m, ind, at));
            let t = self.drain_same_line_trailing(sp.end, at);
            push_trail(&mut s, &t);
            s.push('\n');
            i = i + 1;
        }
        self.push_end(&mut s, d.span.end, ind, at);
        s
    }

    fn push_foreign_fields(&self, s: &mut Vec<char>, v: &Vec<StructField>, ind: usize)
        ensures
            final(s)@ == layout_items::foreign_field_lines(
                self@,
                ind as nat,
                ast::fields_of(v@),
                v@.len(),
                old(s)@,
            ),
    {
        let ghost base = s@;
        let ghost trees = ast::fields_of(v@);
        assert(trees.len() == v@.len());
        let mut i: usize = 0;
        while i < v.len()
            invariant
                i <= v.len(),
                trees == ast::fields_of(v@),
                trees.len() == v@.len(),
                s@ == layout_items::foreign_field_lines(self@, ind as nat, trees, i as nat, base),
            decreases v.len() - i,
        {
            assert(trees[i as int] == v@[i as int].tree());
            self.push_pad(s, deeper(ind, 2));
            push_text(s, &fmt_type(&v[i].ty));
            push_str(s, " ");
            push_str(s, v[i].name.as_str());
            push_str(s, "\n");
            i = i + 1;
        }
    }

    fn push_foreign_variants(&self, s: &mut Vec<char>, v: &Vec<VariantDecl>, ind: usize)
        ensures
            final(s)@ == layout_items::foreign_variant_lines(
                self@,
                ind as nat,
                ast::variants_of(v@),
                v@.len(),
                old(s)@,
            ),
    {
        let ghost base = s@;
        let ghost trees = ast::variants_of(v@);
        assert(trees.len() == v@.len());
        let mut i: usize = 0;
        while i < v.len()
            invariant
                i <= v.len(),
                trees == ast::variants_of(v@),
                trees.len() == v@.len(),
                s@ == layout_items::foreign_variant_lines(self@, ind as nat, trees, i as nat, base),
            decreases v.len() - i,
        {
            assert(trees[i as int] == v@[i as int].tree());
            self.push_pad(s, deeper(ind, 2));
            push_str(s, v[i].name.as_str());
            push_str(s, "\n");
            i = i + 1;
        }
    }

    /// Appends a declaration of a foreign library.
    fn push_foreign_member(&self, s: &mut Vec<char>, m: &ExternMember, ind: usize, at: &mut usize)
        requires
            self.wf(),
        ensures
            (final(s)@, *final(at) as int) == layout_items::foreign_member(
                self@,
                ind as nat,
                *old(at) as int,
                m.tree(),
                old(s)@,
            ),
    {
        let inner = deeper(ind, 1);
        let sp = extern_member_span(m);
        push_text(s, &self.take_leading(sp.start, inner, at));
        self.push_pad(s, inner);
        match m {
            ExternMember::Function { ty, name, params, .. } => {
                push_text(s, &fmt_type(ty));
                push_str(s, " ");
                push_str(s, name.as_str());
                push_str(s, "(");
                push_text(s, &fmt_foreign_params(params));
                push_str(s, ")");
                let t = self.drain_same_line_trailing(sp.end, at);
                push_trail(s, &t);
                s.push('\n');
            },
            ExternMember::Struct { name, fields, .. } => {
                push_str(s, "struct ");
                push_str(s, name.as_str());
                assert(ast::fields_of(fields@).len() == fields@.len());
                if fields.len() == 0 {
                    s.push('\n');
                } else {
                    push_str(s, " has\n");
                    self.push_foreign_fields(s, fields, ind);
                    self.push_pad(s, inner);
                    push_str(s, "end\n");
                }
            },
            ExternMember::Enum { name, variants, .. } => {
                push_str(s, "enum ");
                push_str(s, name.as_str());
                push_str(s, " has\n");
                self.push_foreign_variants(s, variants, ind);
                self.push_pad(s, inner);
                push_str(s, "end\n");
            },
            ExternMember::Const { ty, name, .. } => {
                push_str(s, "const ");
                push_text(s, &fmt_type(ty));
                push_str(s, " ");
                push_str(s, name.as_str());
                let t = self.drain_same_line_trailing(sp.end, at);
                push_trail(s, &t);
                s.push('\n');
            },
        }
    }

    fn fmt_extern(&self, d: &ExternDecl, ind: usize, at: &mut usize) -> (r: Vec<char>)
        requires
            self.wf(),
        ensures
            (r@, *final(at) as int) == layout_items::foreign_text(
                self@,
                ind as nat,
                *old(at) as int,
                d.tree(),
            ),
    {
        reveal(layout_items::foreign_text);
        let mut s = chars_of("extern \"");
        push_str(&mut s, d.lib.as_str());
        push_str(&mut s, "\" from \"");
        push_str(&mut s, d.file.as_str());
        push_str(&mut s, "\" do\n");
        let ghost base = s@;
        let ghost from = *at as int;
        let ghost trees = ast::extern_members_of(d.members@);
        assert(trees.len() == d.members@.len());
        let mut i: usize = 0;
        while i < d.members.len()
            invariant
                self.wf(),
                i <= d.members.len(),
                trees == ast::extern_members_of(d.members@),
                trees.len() == d.members@.len(),
                (s@, *at as int) == layout_items::foreign_members(
                    self@,
                    ind as nat,
                    from,
                    trees,
                    i as nat,
                    base,
                ),
            decreases d.members.len() - i,
        {
            assert(trees[i as int] == d.members@[i as int].tree());
            self.push_foreign_member(&mut s, &d.members[i], ind, at);
            i = i + 1;
        }
        self.push_end(&mut s, d.span.end, ind, at);
        s
    }

    // ── Classes ──

    fn fmt_member(&self, d: &ClassDecl, k: u8, i: usize, ind: usize, at: &mut usize) -> (r: Vec<char>)
        requires
            self.wf(),
            i < layout_items::member_count(d.tree(), k as int),
        ensures
            (r@, *final(at) as int) == layout_items::member_text(
                self@,
                ind as nat,
                *old(at) as int,
                d.tree(),
                k as int,
                i as int,
            ),
    {
        match kind_at(k) {
            MemberKind::Field => Vec::new(),
            MemberKind::Constructor => self.fmt_constructor(&d.constructors[i], ind, at),
            MemberKind::Destructor => self.fmt_destructor(&d.destructors[i], ind, at),
            MemberKind::Property => self.fmt_property(&d.properties[i], ind, at),
            MemberKind::Operator => self.fmt_operator(&d.operators[i], ind, at),
            MemberKind::Conversion => self.fmt_conversion(&d.conversions[i], ind, at),
            MemberKind::Method => self.fmt_function_indented(&d.methods[i], ind, at),
        }
    }

    /// The members of a class in source order, with their comments.
    fn place_members(&self, d: &ClassDecl, es: &Vec<Event>, ind: usize, at: &mut usize) -> (r: Vec<Placed>)
        requires
            self.wf(),
            events_in(d.tree(), es@),
        ensures
            (placed_of(r@), *final(at) as int) == layout_items::place(
                self@,
                ind as nat,
                *old(at) as int,
                d.tree(),
                es@,
                es@.len(),
            ),
    {
        let ghost t = d.tree();
        let ghost from = *at as int;
        let mut out: Vec<Placed> = Vec::new();
        assert(placed_of(out@) =~= seq![]);
        let mut n: usize = 0;
        while n < es.len()
            invariant
                self.wf(),
                n <= es.len(),
                t == d.tree(),
                events_in(t, es@),
                (placed_of(out@), *at as int) == layout_items::place(
                    self@,
                    ind as nat,
                    from,
                    t,
                    es@,
                    n as nat,
                ),
            decreases es.len() - n,
        {
            let e = es[n];
            assert(es@[n as int] == e);
            let sp = member_span(d, e.kind, e.index);
            let leads = self.take_leading(sp.start, deeper(ind, 1), at);
            let body = self.fmt_member(d, e.kind, e.index, ind, at);
            let trail = self.drain_same_line_trailing(sp.end, at);
            let ghost before = out@;
            let p = Placed { kind: e.kind, index: e.index, leads, body, trail };
            out.push(p);
            assert(placed_of(out@) =~= placed_of(before).push(p@));
            n = n + 1;
        }
        out
    }

    /// A class with its members in canonical order.
    fn fmt_class(&self, d: &ClassDecl, ind: usize, at: &mut usize) -> (r: Vec<char>)
        requires
            self.wf(),
        ensures
            (r@, *final(at) as int) == layout_items::class_text(
                self@,
                ind as nat,
                *old(at) as int,
                d.tree(),
            ),
    {
        reveal(layout_items::class_text);
        assert(ast::fields_of(d.fields@).len() == d.fields@.len());
        let es = class_events(d);
        let ps = self.place_members(d, &es, ind, at);
        let comments = field_comments(&ps, d.fields.len());
        let fields = self.fmt_fields_aligned(&d.fields, &comments, ind, at);
        let v = class_sections(d, &ps, fields);
        assert(text::texts(v@).len() == v@.len());
        let mut s = fmt_class_head(d);
        push_sections(&mut s, &v);
        self.push_end(&mut s, d.span.end, ind, at);
        s
    }

    // ── Items and programs ──

    /// An item.
    pub fn fmt_item(&self, item: &Item, ind: usize, at: &mut usize) -> (r: Vec<char>)
        requires
            self.wf(),
        ensures
            (r@, *final(at) as int) == layout_items::item_text(
                self@,
                ind as nat,
                *old(at) as int,
                item.tree(),
            ),
        decreases item,
    {
        match item {
            Item::Import(d) => fmt_import(d),
            Item::Function(f) => self.fmt_function(f, ind, at),
            Item::Struct(d) => self.fmt_struct(d, ind, at),
            Item::Class(d) => self.fmt_class(d, ind, at),
            Item::Enum(d) => self.fmt_enum(d, ind, at),
            Item::Trait(d) => self.fmt_trait(d, ind, at),
            Item::Typedef(d) => fmt_typedef(d),
            Item::Distinct(d) => fmt_distinct(d),
            Item::Extension(d) => self.fmt_extension(d, ind, at),
            Item::Extern(d) => self.fmt_extern(d, ind, at),
            Item::Init(b) => {
                let mut s = chars_of("init do\n");
                self.push_block(&mut s, b, ind, at);
                s
            },
            Item::Const(d) => self.fmt_const_decl(d, ind, at),
            Item::Var(d) => self.fmt_var_decl_noalign(d, ind, at),
            Item::Attributed { attrs, item } => {
                let mut s = fmt_attributes(self, ind, attrs);
                push_text(&mut s, &self.fmt_item(item, ind, at));
                s
            },
        }
    }

    /// Appends the comments before `pos` at the outermost level.
    fn flush_leading(&self, s: &mut Vec<char>, pos: usize, at: &mut usize)
        requires
            self.wf(),
        ensures
            (final(s)@, *final(at) as int) == layout::top_leads(
                self@,
                *old(at) as int,
                pos as int,
                old(s)@,
            ),
    {
        let ghost from = *at as int;
        let ghost base = s@;
        while *at < self.comments.len() && self.comments[*at].span.start < pos
            invariant
                self.wf(),
                layout::top_leads(self@, *at as int, pos as int, s@) == layout::top_leads(
                    self@,
                    from,
                    pos as int,
                    base,
                ),
            decreases self.comments.len() - *at,
        {
            let c = &self.comments[*at];
            assert(self@.notes[*at as int] == c@);
            if c.own_line {
                push_stripped(s, &c.text);
            } else {
                push_stripped(s, &text::trim_text(&c.text));
            }
            *at = *at + 1;
        }
        assert(*at < self.comments@.len() ==> self@.notes[*at as int] == self.comments@[*at as int]@);
    }

    /// Appends the comments on the line of `end`.
    fn drain_trailing(&self, s: &mut Vec<char>, end: usize, at: &mut usize)
        requires
            self.wf(),
        ensures
            (final(s)@, *final(at) as int) == layout::top_trailing(
                self@,
                *old(at) as int,
                end as int,
                old(s)@,
            ),
    {
        let line = self.line_of(end);
        let ghost from = *at as int;
        let ghost base = s@;
        while *at < self.comments.len() && self.line_of(self.comments[*at].span.start) == line
            && !self.comments[*at].own_line
            invariant
                self.wf(),
                line == layout::line_of(self@, end as int),
                layout::top_trailing(self@, *at as int, end as int, s@) == layout::top_trailing(
                    self@,
                    from,
                    end as int,
                    base,
                ),
            decreases self.comments.len() - *at,
        {
            assert(self@.notes[*at as int] == self.comments@[*at as int]@);
            attach(s, &text::trim_text(&self.comments[*at].text));
            *at = *at + 1;
        }
        assert(*at < self.comments@.len() ==> self@.notes[*at as int] == self.comments@[*at as int]@);
    }

    /// Appends an import with the comments before it.
    fn push_import(&self, s: &mut Vec<char>, item: &Item, at: &mut usize)
        requires
            self.wf(),
        ensures
            (final(s)@, *final(at) as int) == layout_items::import_item(
                self@,
                *old(at) as int,
                item.tree(),
                old(s)@,
            ),
    {
        reveal(layout_items::import_item);
        self.flush_leading(s, item_span(item).start, at);
        let t = self.fmt_item(item, 0, at);
        push_lines(s, &t);
    }

    /// Appends an item that is no import with its comments.
    fn push_item(&self, s: &mut Vec<char>, item: &Item, at: &mut usize)
        requires
            self.wf(),
        ensures
            (final(s)@, *final(at) as int) == layout_items::rest_item(
                self@,
                *old(at) as int,
                item.tree(),
                old(s)@,
            ),
    {
        reveal(layout_items::rest_item);
        let sp = item_span(item);
        self.flush_leading(s, sp.start, at);
        let t = self.fmt_item(item, 0, at);
        push_lines(s, &t);
        self.drain_trailing(s, sp.end, at);
    }

    /// The formatted text of a program.
    pub fn format_program(&self, p: &Program) -> (r: Vec<char>)
        requires
            self.wf(),
        ensures
            r@ == layout_items::formatted(self@, p.tree()),
    {
        let ghost trees = ast::items_of(p.items@);
        assert(trees.len() == p.items@.len());
        let mut s: Vec<char> = Vec::new();
        let mut at: usize = 0;
        let mut imports: usize = 0;
        let mut i: usize = 0;
        while i < p.items.len()
            invariant
                self.wf(),
                i <= p.items.len(),
                imports <= i,
                trees == ast::items_of(p.items@),
                trees.len() == p.items@.len(),
                imports == layout_items::imports(trees, i as nat),
                (s@, at as int) == layout_items::import_lines(self@, 0, trees, i as nat, seq![]),
            decreases p.items.len() - i,
        {
            let item = &p.items[i];
            assert(trees[i as int] == item.tree());
            if is_import(item) {
                self.push_import(&mut s, item, &mut at);
                imports = imports + 1;
            }
            i = i + 1;
        }
        if 0 < imports && imports < p.items.len() {
            s.push('\n');
            s.push('\n');
        }
        let ghost base = s@;
        let ghost from = at as int;
        let mut seen: usize = 0;
        let mut k: usize = 0;
        while k < p.items.len()
            invariant
                self.wf(),
                k <= p.items.len(),
                seen <= k,
                trees == ast::items_of(p.items@),
                trees.len() == p.items@.len(),
                seen == layout_items::imports(trees, k as nat),
                (s@, at as int) == layout_items::rest_lines(self@, from, trees, k as nat, base),
            decreases p.items.len() - k,
        {
            let item = &p.items[k];
            assert(trees[k as int] == item.tree());
            if is_import(item) {
                seen = seen + 1;
            } else {
                if seen != k {
                    push_blank(&mut s);
                }
                self.push_item(&mut s, item, &mut at);
            }
            k = k + 1;
        }
        self.finish(s, at)
    }

    /// Appends the comments that are left, and ends the text.
    fn finish(&self, text: Vec<char>, from: usize) -> (r: Vec<char>)
        requires
            self.wf(),
        ensures
            r@ == layout_items::line_ended(
                layout_items::squeezed(
                    layout::top_leads(self@, from as int, usize::MAX as int, text@).0,
                ),
            ),
    {
        let mut s = text;
        let mut at: usize = from;
        self.flush_leading(&mut s, usize::MAX, &mut at);
        let mut out = squeeze(&s);
        if out.len() == 0 || out[out.len() - 1] != '\n' {
            out.push('\n');
        }
        out
    }
}

fn is_import(item: &Item) -> (r: bool)
    ensures
        r == (item.tree() is Import),
{
    match item {
        Item::Import(_) => true,
        _ => false,
    }
}

/// Appends the lines of a comment at the outermost level.
fn push_stripped(s: &mut Vec<char>, t: &Vec<char>)
    ensures
        final(s)@ == layout::stripped_lines(text::lines(t@), text::lines(t@).len(), old(s)@),
{
    let ls = text::split_lines(t);
    let ghost base = s@;
    assert(text::texts(ls@).len() == ls@.len());
    let mut i: usize = 0;
    while i < ls.len()
        invariant
            i <= ls@.len(),
            text::texts(ls@).len() == ls@.len(),
            s@ == layout::stripped_lines(text::texts(ls@), i as nat, base),
        decreases ls.len() - i,
    {
        assert(text::texts(ls@)[i as int] == ls@[i as int]@);
        let l = text::trim_end_text(&ls[i]);
        if text::trim_text(&l).len() == 0 {
            s.push('\n');
        } else {
            assert(s@ + Seq::<char>::empty() =~= s@);
            push_text(s, &text::trim_start_text(&l));
            s.push('\n');
        }
        i = i + 1;
    }
}

/// Ends the text with a blank line, unless it is empty or has one.
fn push_blank(s: &mut Vec<char>)
    ensures
        final(s)@ == layout_items::with_blank(old(s)@),
{
    let n: usize = s.len();
    if n == 0 || (n > 1 && s[n - 1] == '\n' && s[n - 2] == '\n') {
        return;
    }
    s.push('\n');
}

/// Cuts every run of line feeds to three.
fn squeeze(s: &Vec<char>) -> (r: Vec<char>)
    ensures
        r@ == layout_items::squeezed(s@),
{
    let mut out: Vec<char> = Vec::new();
    let mut i: usize = 0;
    while i < s.len()
        invariant
            i <= s.len(),
            out@ == layout_items::squeezed(s@.take(i as int)),
        decreases s.len() - i,
    {
        assert(s@.take(i + 1).drop_last() =~= s@.take(i as int));
        let n: usize = out.len();
        if !(s[i] == '\n' && n >= 3 && out[n - 1] == '\n' && out[n - 2] == '\n' && out[n - 3] == '\n') {
            out.push(s[i]);
        }
        i = i + 1;
    }
    assert(s@.take(i as int) =~= s@);
    out
}

} // verus!
