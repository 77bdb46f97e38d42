//! The state of a lowering, and the operations that it is built from.
use vstd::prelude::*;
use crate::ast;
use crate::ast::{DeferInner, Expr, Type};
use crate::codegen::ir::{
    BlockInfo, FieldInfo, FuncInfo, GlobalInfo, Label, LoopInfo, Member, MemberKind, Op, Operand,
    ParamInfo, Runtime, Step, TagInfo, TyDef, Val,
};
use crate::formatter::compact;
use crate::formatter::compact::fmt_type;
use crate::paths::copy_text;
use crate::text;
use crate::text::chars_of;
use crate::token::Span;

verus! {

broadcast use ast::group_lists;

/// A program that could not be lowered.
#[derive(Debug)]
pub struct CodegenError {
    pub message: String,
    pub span: Span,
}

/// What is wrong with a program, as a mathematical value.
pub struct Trouble {
    pub message: Seq<char>,
    pub span: Span,
}

/// How a lowering stops: what is wrong, and what the module is by then.
pub struct Failure<'a> {
    pub trouble: Trouble,
    pub after: State<'a>,
}

impl View for CodegenError {
    type V = Trouble;

    open spec fn view(&self) -> Trouble {
        Trouble { message: self.message@, span: self.span }
    }
}

/// A lowering under way: the module so far, and what is in scope.
pub struct Codegen<'a> {
    /// The name of the module.
    pub module_name: String,
    /// The table of types.
    pub types: Vec<TyDef>,
    /// The code, in the order in which it was made.
    pub steps: Vec<Step>,
    pub blocks: Vec<BlockInfo>,
    /// Whether each block has its last step.
    pub ended: Vec<bool>,
    pub func_names: Vec<String>,
    /// The functions.
    pub funcs: Vec<FuncInfo>,
    pub params: Vec<ParamInfo>,
    pub param_names: Vec<String>,
    pub layout_names: Vec<String>,
    /// Whether each layout is that of an enum.
    pub layout_enums: Vec<bool>,
    pub field_names: Vec<String>,
    pub fields: Vec<FieldInfo>,
    /// The default of each field.
    pub defaults: Vec<Option<&'a Expr>>,
    pub tag_names: Vec<String>,
    pub tags: Vec<TagInfo>,
    pub member_names: Vec<String>,
    pub members: Vec<Member>,
    pub global_names: Vec<String>,
    pub globals: Vec<GlobalInfo>,
    /// The initial values of globals.
    pub consts: Vec<Operand>,
    /// Strings.
    pub texts: Vec<String>,
    pub var_names: Vec<String>,
    /// The variables: address, and type of what is there.
    pub vars: Vec<Operand>,
    /// How many variables there were when each open scope began.
    pub marks: Vec<usize>,
    pub vec_vars: Vec<String>,
    pub map_vars: Vec<String>,
    pub str_vars: Vec<String>,
    pub loop_labels: Vec<String>,
    pub loops: Vec<LoopInfo>,
    /// What is deferred in the open scopes.
    pub defers: Vec<&'a DeferInner>,
    pub defer_marks: Vec<usize>,
    /// The variables to destroy when the open scopes end: address and layout.
    pub dtors: Vec<Operand>,
    pub dtor_marks: Vec<usize>,
    /// The function that is being lowered.
    pub func: Option<usize>,
    /// The block that steps are added to.
    pub block: usize,
    pub is_main: bool,
    /// The layout of the class that is being lowered.
    pub class: Option<usize>,
    /// The number of closures so far.
    pub closures: usize,
}

/// Numbers without their bound.
pub open spec fn numbers(v: Seq<usize>) -> Seq<nat> {
    Seq::new(v.len(), |i: int| v[i] as nat)
}

/// A lowering under way, as a mathematical value.
pub struct State<'a> {
    pub module_name: Seq<char>,
    pub types: Seq<TyDef>,
    pub steps: Seq<Step>,
    pub blocks: Seq<BlockInfo>,
    pub ended: Seq<bool>,
    pub func_names: Seq<Seq<char>>,
    pub funcs: Seq<FuncInfo>,
    pub params: Seq<ParamInfo>,
    pub param_names: Seq<Seq<char>>,
    pub layout_names: Seq<Seq<char>>,
    pub layout_enums: Seq<bool>,
    pub field_names: Seq<Seq<char>>,
    pub fields: Seq<FieldInfo>,
    pub defaults: Seq<Option<&'a Expr>>,
    pub tag_names: Seq<Seq<char>>,
    pub tags: Seq<TagInfo>,
    pub member_names: Seq<Seq<char>>,
    pub members: Seq<Member>,
    pub global_names: Seq<Seq<char>>,
    pub globals: Seq<GlobalInfo>,
    pub consts: Seq<Operand>,
    pub texts: Seq<Seq<char>>,
    pub var_names: Seq<Seq<char>>,
    pub vars: Seq<Operand>,
    pub marks: Seq<nat>,
    pub vec_vars: Seq<Seq<char>>,
    pub map_vars: Seq<Seq<char>>,
    pub str_vars: Seq<Seq<char>>,
    pub loop_labels: Seq<Seq<char>>,
    pub loops: Seq<LoopInfo>,
    pub defers: Seq<&'a DeferInner>,
    pub defer_marks: Seq<nat>,
    pub dtors: Seq<Operand>,
    pub dtor_marks: Seq<nat>,
    pub func: Option<usize>,
    pub block: usize,
    pub is_main: bool,
    pub class: Option<usize>,
    pub closures: usize,
}

impl<'a> View for Codegen<'a> {
    type V = State<'a>;

    closed spec fn view(&self) -> State<'a> {
        State {
            module_name: self.module_name@,
            types: self.types@,
            steps: self.steps@,
            blocks: self.blocks@,
            ended: self.ended@,
            func_names: ast::names_of(self.func_names@),
            funcs: self.funcs@,
            params: self.params@,
            param_names: ast::names_of(self.param_names@),
            layout_names: ast::names_of(self.layout_names@),
            layout_enums: self.layout_enums@,
            field_names: ast::names_of(self.field_names@),
            fields: self.fields@,
            defaults: self.defaults@,
            tag_names: ast::names_of(self.tag_names@),
            tags: self.tags@,
            member_names: ast::names_of(self.member_names@),
            members: self.members@,
            global_names: ast::names_of(self.global_names@),
            globals: self.globals@,
            consts: self.consts@,
            texts: ast::names_of(self.texts@),
            var_names: ast::names_of(self.var_names@),
            vars: self.vars@,
            marks: numbers(self.marks@),
            vec_vars: ast::names_of(self.vec_vars@),
            map_vars: ast::names_of(self.map_vars@),
            str_vars: ast::names_of(self.str_vars@),
            loop_labels: ast::names_of(self.loop_labels@),
            loops: self.loops@,
            defers: self.defers@,
            defer_marks: numbers(self.defer_marks@),
            dtors: self.dtors@,
            dtor_marks: numbers(self.dtor_marks@),
            func: self.func,
            block: self.block,
            is_main: self.is_main,
            class: self.class,
            closures: self.closures,
        }
    }
}

/// A lowering stands for the state whose tables hold what its own hold.
pub proof fn law_view<'a>(c: Codegen<'a>)
    ensures
        c@.module_name == c.module_name@,
        c@.types == c.types@,
        c@.steps == c.steps@,
        c@.blocks == c.blocks@,
        c@.ended == c.ended@,
        c@.func_names == ast::names_of(c.func_names@),
        c@.funcs == c.funcs@,
        c@.params == c.params@,
        c@.param_names == ast::names_of(c.param_names@),
        c@.layout_names == ast::names_of(c.layout_names@),
        c@.layout_enums == c.layout_enums@,
        c@.field_names == ast::names_of(c.field_names@),
        c@.fields == c.fields@,
        c@.defaults == c.defaults@,
        c@.tag_names == ast::names_of(c.tag_names@),
        c@.tags == c.tags@,
        c@.member_names == ast::names_of(c.member_names@),
        c@.members == c.members@,
        c@.global_names == ast::names_of(c.global_names@),
        c@.globals == c.globals@,
        c@.consts == c.consts@,
        c@.texts == ast::names_of(c.texts@),
        c@.var_names == ast::names_of(c.var_names@),
        c@.vars == c.vars@,
        c@.marks == numbers(c.marks@),
        c@.vec_vars == ast::names_of(c.vec_vars@),
        c@.map_vars == ast::names_of(c.map_vars@),
        c@.str_vars == ast::names_of(c.str_vars@),
        c@.loop_labels == ast::names_of(c.loop_labels@),
        c@.loops == c.loops@,
        c@.defers == c.defers@,
        c@.defer_marks == numbers(c.defer_marks@),
        c@.dtors == c.dtors@,
        c@.dtor_marks == numbers(c.dtor_marks@),
        c@.func == c.func,
        c@.block == c.block,
        c@.is_main == c.is_main,
        c@.class == c.class,
        c@.closures == c.closures,
{
}

/// A lowering that has done nothing.
pub open spec fn initial<'a>(module_name: Seq<char>) -> State<'a> {
    State {
        module_name,
        types: seq![TyDef::Int(1), TyDef::Int(8), TyDef::Int(32), TyDef::Int(64), TyDef::Ptr, TyDef::F32, TyDef::F64, TyDef::Nil],
        steps: seq![],
        blocks: seq![],
        ended: seq![],
        func_names: seq![],
        funcs: seq![],
        params: seq![],
        param_names: seq![],
        layout_names: seq![],
        layout_enums: seq![],
        field_names: seq![],
        fields: seq![],
        defaults: seq![],
        tag_names: seq![],
        tags: seq![],
        member_names: seq![],
        members: seq![],
        global_names: seq![],
        globals: seq![],
        consts: seq![],
        texts: seq![],
        var_names: seq![],
        vars: seq![],
        marks: seq![],
        vec_vars: seq![],
        map_vars: seq![],
        str_vars: seq![],
        loop_labels: seq![],
        loops: seq![],
        defers: seq![],
        defer_marks: seq![],
        dtors: seq![],
        dtor_marks: seq![],
        func: None,
        block: 0,
        is_main: false,
        class: None,
        closures: 0,
    }
}

/// The index of the last of the first `n` names that is `name`.
pub open spec fn last_named(names: Seq<Seq<char>>, name: Seq<char>, n: nat) -> Option<usize>
    decreases n,
{
    if n == 0 {
        None
    } else if names[n - 1] == name {
        Some((n - 1) as usize)
    } else {
        last_named(names, name, (n - 1) as nat)
    }
}

fn find_last(names: &Vec<String>, name: &str) -> (r: Option<usize>)
    ensures
        r == last_named(ast::names_of(names@), name@, names@.len()),
        r is Some ==> r->0 < names@.len(),
{
    let ghost all = ast::names_of(names@);
    let mut n: usize = names.len();
    while n > 0
        invariant
            n <= names.len(),
            all == ast::names_of(names@),
            last_named(all, name@, names@.len()) == last_named(all, name@, n as nat),
        decreases n,
    {
        assert(all[n - 1] == names@[n - 1]@);
        if text::same_str(names[n - 1].as_str(), name) {
            return Some(n - 1);
        }
        n = n - 1;
    }
    None
}

/// The index after the last `::` of the first `n` characters, or 0.
pub open spec fn after_colons(s: Seq<char>, n: nat) -> nat
    decreases n,
{
    if n < 2 {
        0
    } else if s[n - 1] == ':' && s[n - 2] == ':' {
        n
    } else {
        after_colons(s, (n - 1) as nat)
    }
}

/// The last part of a qualified name.
pub open spec fn base_name(s: Seq<char>) -> Seq<char> {
    s.skip(after_colons(s, s.len()) as int)
}

/// The last part of a qualified name.
pub fn base_of(name: &str) -> (r: String)
    ensures
        r@ == base_name(name@),
{
    let s = chars_of(name);
    let mut n: usize = s.len();
    while n >= 2 && !(s[n - 1] == ':' && s[n - 2] == ':')
        invariant
            n <= s.len(),
            s@ == name@,
            after_colons(s@, s@.len()) == after_colons(s@, n as nat),
        decreases n,
    {
        n = n - 1;
    }
    if n < 2 {
        n = 0;
    }
    proof {
        lemma_after_colons(s@, s@.len());
    }
    let t = text::copy_range(&s, n, s.len());
    assert(t@ =~= s@.skip(n as int));
    text::to_text(&t)
}

proof fn lemma_after_colons(s: Seq<char>, n: nat)
    ensures
        after_colons(s, n) <= n,
    decreases n,
{
    if n >= 2 {
        lemma_after_colons(s, (n - 1) as nat);
    }
}

/// An error about a place.
pub fn fault(message: &str, span: Span) -> (r: CodegenError)
    ensures
        r@ == (Trouble { message: message@, span }),
{
    CodegenError { message: copy_text(message), span }
}

/// An error about a place, whose message names something.
pub open spec fn naming(head: Seq<char>, name: Seq<char>, tail: Seq<char>, span: Span) -> Trouble {
    Trouble { message: head + name + tail, span }
}

pub fn fault_naming(head: &str, name: &str, tail: &str, span: Span) -> (r: CodegenError)
    ensures
        r@ == naming(head@, name@, tail@, span),
{
    let mut out = chars_of(head);
    text::push_str(&mut out, name);
    text::push_str(&mut out, tail);
    CodegenError { message: text::to_text(&out), span }
}

impl CodegenError {
    /// The error in one sentence, with its place.
    pub fn render(&self) -> (r: String)
        ensures
            r@ == self@.message + " at "@ + text::decimal(self@.span.start as nat) + ".."@ + text::decimal(
                self@.span.end as nat,
            ),
    {
        let mut out = chars_of(self.message.as_str());
        text::push_str(&mut out, " at ");
        text::push_decimal(&mut out, self.span.start as u64);
        text::push_str(&mut out, "..");
        text::push_decimal(&mut out, self.span.end as u64);
        text::to_text(&out)
    }
}

/// The definition of a type.
pub open spec fn def<'a>(st: State<'a>, t: usize) -> TyDef {
    if t < st.types.len() {
        st.types[t as int]
    } else {
        TyDef::Nil
    }
}

/// The index of the first of the types from `i` on that is `d`.
pub open spec fn find_type(types: Seq<TyDef>, d: TyDef, i: int) -> Option<usize>
    decreases types.len() - i,
{
    if i < 0 || i >= types.len() {
        None
    } else if types[i] == d {
        Some(i as usize)
    } else {
        find_type(types, d, i + 1)
    }
}

/// The entry of a type; a new one where there is none.
#[verifier::opaque]
pub open spec fn intern<'a>(st: State<'a>, d: TyDef) -> (usize, State<'a>) {
    match find_type(st.types, d, 0) {
        Some(t) => (t, st),
        None => (st.types.len() as usize, State { types: st.types.push(d), ..st }),
    }
}

/// Field `k` of a struct type, or of a declared one.
pub open spec fn member_ty<'a>(st: State<'a>, t: usize, k: u32) -> Option<usize> {
    member_from(st, t, k, st.types.len())
}

/// Field `k` of a struct type; `n` bounds how many fields are passed over.
pub open spec fn member_from<'a>(st: State<'a>, t: usize, k: u32, n: nat) -> Option<usize>
    decreases n,
{
    match def(st, t) {
        TyDef::Cons(a, b) => if k == 0 {
            Some(a)
        } else if n == 0 {
            None
        } else {
            member_from(st, b, (k - 1) as u32, (n - 1) as nat)
        },
        TyDef::Named(l) => field_ty_from(st.fields, l, k, st.fields.len()),
        _ => None,
    }
}

/// The type of field `k` of layout `l`, looked for in the first `n` fields.
pub open spec fn field_ty_from(fields: Seq<FieldInfo>, l: usize, k: u32, n: nat) -> Option<usize>
    decreases n,
{
    if n == 0 {
        None
    } else if fields[n - 1].layout == l && fields[n - 1].index == k {
        Some(fields[n - 1].ty)
    } else {
        field_ty_from(fields, l, k, (n - 1) as nat)
    }
}

/// The layout of a name.
pub open spec fn layout<'a>(st: State<'a>, name: Seq<char>) -> Option<usize> {
    last_named(st.layout_names, name, st.layout_names.len())
}

/// The function of a name.
pub open spec fn function<'a>(st: State<'a>, name: Seq<char>) -> Option<usize> {
    last_named(st.func_names, name, st.func_names.len())
}

/// Whether a variable of this name holds a vector.
pub open spec fn is_vec<'a>(st: State<'a>, name: Seq<char>) -> bool {
    last_named(st.vec_vars, name, st.vec_vars.len()) is Some || last_named(st.vec_vars, base_name(name), st.vec_vars.len()) is Some
}

/// Notes that a variable of this name holds a vector.
#[verifier::opaque]
pub open spec fn note_vec<'a>(st: State<'a>, name: Seq<char>) -> State<'a> {
    State { vec_vars: st.vec_vars.push(name), ..st }
}

/// Whether a variable of this name holds a map.
pub open spec fn is_map<'a>(st: State<'a>, name: Seq<char>) -> bool {
    last_named(st.map_vars, name, st.map_vars.len()) is Some || last_named(st.map_vars, base_name(name), st.map_vars.len()) is Some
}

/// Notes that a variable of this name holds a map.
#[verifier::opaque]
pub open spec fn note_map<'a>(st: State<'a>, name: Seq<char>) -> State<'a> {
    State { map_vars: st.map_vars.push(name), ..st }
}

/// Whether a variable of this name holds a string.
pub open spec fn is_str<'a>(st: State<'a>, name: Seq<char>) -> bool {
    last_named(st.str_vars, name, st.str_vars.len()) is Some || last_named(st.str_vars, base_name(name), st.str_vars.len()) is Some
}

/// Notes that a variable of this name holds a string.
#[verifier::opaque]
pub open spec fn note_str<'a>(st: State<'a>, name: Seq<char>) -> State<'a> {
    State { str_vars: st.str_vars.push(name), ..st }
}

/// Whether a layout is that of an enum.
pub open spec fn is_enum<'a>(st: State<'a>, l: usize) -> bool {
    l < st.layout_enums.len() && st.layout_enums[l as int]
}

/// The last of the first `n` entries with this name and owner.
pub open spec fn field_entry_from(names: Seq<Seq<char>>, v: Seq<FieldInfo>, name: Seq<char>, l: usize, n: nat) -> Option<usize>
    decreases n,
{
    if n == 0 {
        None
    } else if n <= v.len() && names[n - 1] == name && v[n - 1].layout == l {
        Some((n - 1) as usize)
    } else {
        field_entry_from(names, v, name, l, (n - 1) as nat)
    }
}

/// The entry of a field of a layout.
pub open spec fn field_entry<'a>(st: State<'a>, name: Seq<char>, l: usize) -> Option<usize> {
    field_entry_from(st.field_names, st.fields, name, l, st.field_names.len())
}

/// The last of the first `n` entries with this name and owner.
pub open spec fn tag_entry_from(names: Seq<Seq<char>>, v: Seq<TagInfo>, name: Seq<char>, l: usize, n: nat) -> Option<usize>
    decreases n,
{
    if n == 0 {
        None
    } else if n <= v.len() && names[n - 1] == name && v[n - 1].layout == l {
        Some((n - 1) as usize)
    } else {
        tag_entry_from(names, v, name, l, (n - 1) as nat)
    }
}

/// The entry of a variant of an enum.
pub open spec fn tag_entry<'a>(st: State<'a>, name: Seq<char>, l: usize) -> Option<usize> {
    tag_entry_from(st.tag_names, st.tags, name, l, st.tag_names.len())
}

/// The last of the first `n` entries with this name and owner.
pub open spec fn member_entry_from(names: Seq<Seq<char>>, v: Seq<Member>, name: Seq<char>, l: usize, kind: MemberKind, n: nat) -> Option<usize>
    decreases n,
{
    if n == 0 {
        None
    } else if n <= v.len() && names[n - 1] == name && v[n - 1].layout == l && v[n - 1].kind == kind {
        Some((n - 1) as usize)
    } else {
        member_entry_from(names, v, name, l, kind, (n - 1) as nat)
    }
}

/// The entry of a member of a class.
pub open spec fn member_entry<'a>(st: State<'a>, name: Seq<char>, l: usize, kind: MemberKind) -> Option<usize> {
    member_entry_from(st.member_names, st.members, name, l, kind, st.member_names.len())
}

/// The position of a field.
pub open spec fn field_info<'a>(st: State<'a>, k: usize) -> FieldInfo {
    if k < st.fields.len() {
        st.fields[k as int]
    } else {
        FieldInfo { layout: 0, index: 0, ty: 0 }
    }
}

/// The tag of a variant.
pub open spec fn tag_info<'a>(st: State<'a>, k: usize) -> TagInfo {
    if k < st.tags.len() {
        st.tags[k as int]
    } else {
        TagInfo { layout: 0, tag: 0 }
    }
}

/// A member of a class.
pub open spec fn member_info<'a>(st: State<'a>, k: usize) -> Member {
    if k < st.members.len() {
        st.members[k as int]
    } else {
        Member { layout: 0, kind: MemberKind::Method, func: 0, params: 0 }
    }
}

/// What is known of a function.
pub open spec fn func_info<'a>(st: State<'a>, f: usize) -> FuncInfo {
    if f < st.funcs.len() {
        st.funcs[f as int]
    } else {
        FuncInfo { ret: None, c_varargs: false, converts: false, first: 0, count: 0 }
    }
}

/// Parameter `k` of a function.
pub open spec fn param_info<'a>(st: State<'a>, f: FuncInfo, k: usize) -> ParamInfo {
    if f.first + k < st.params.len() {
        st.params[f.first + k]
    } else {
        ParamInfo { ty: None, elem: None, is_variadic: false }
    }
}

/// Whether parameter `k` of a function has this name.
pub open spec fn param_is<'a>(st: State<'a>, f: FuncInfo, k: usize, name: Seq<char>) -> bool {
    f.first + k < st.param_names.len() && st.param_names[f.first + k] == name
}

/// The width of a built-in integer type that is written as a name.
pub open spec fn int_name(name: Seq<char>) -> Option<u32> {
    if name == "i8"@ || name == "u8"@ {
        Some(8)
    } else if name == "i16"@ || name == "u16"@ {
        Some(16)
    } else if name == "i32"@ || name == "u32"@ {
        Some(32)
    } else if name == "i64"@ || name == "u64"@ || name == "uint"@ {
        Some(64)
    } else if name == "i128"@ || name == "u128"@ {
        Some(128)
    } else {
        None
    }
}

/// Whether a name is a type parameter: one capital letter.
pub open spec fn is_letter(name: Seq<char>) -> bool {
    name.len() == 1 && 'A' <= name[0] <= 'Z'
}

/// The variable or global of exactly this name.
pub open spec fn exact_var<'a>(st: State<'a>, name: Seq<char>) -> Option<Operand> {
    match last_named(st.var_names, name, st.var_names.len()) {
        Some(k) => if k < st.vars.len() {
            Some(st.vars[k as int])
        } else {
            None
        },
        None => match last_named(st.global_names, name, st.global_names.len()) {
            Some(k) => if k < st.globals.len() {
                Some(Operand { val: Val::Global(k), ty: st.globals[k as int].ty })
            } else {
                None
            },
            None => None,
        },
    }
}

/// The variable or global that a name stands for: its address, and the type of what is there.
pub open spec fn lookup_var<'a>(st: State<'a>, name: Seq<char>) -> Option<Operand> {
    match exact_var(st, name) {
        Some(v) => Some(v),
        None => exact_var(st, base_name(name)),
    }
}

/// The local variable that a name stands for.
pub open spec fn local_var<'a>(st: State<'a>, name: Seq<char>) -> Option<Operand> {
    match last_named(st.var_names, name, st.var_names.len()) {
        Some(k) => if k < st.vars.len() {
            Some(st.vars[k as int])
        } else {
            None
        },
        None => None,
    }
}

/// Binds a name to an address in the innermost scope.
#[verifier::opaque]
pub open spec fn bind<'a>(st: State<'a>, name: Seq<char>, v: Operand) -> State<'a> {
    State { var_names: st.var_names.push(name), vars: st.vars.push(v), ..st }
}

/// Opens a scope of variables.
#[verifier::opaque]
pub open spec fn open_scope<'a>(st: State<'a>) -> State<'a> {
    State { marks: st.marks.push(st.vars.len()), ..st }
}

/// The first `n` of `s`, or all of it.
pub open spec fn cut<T>(s: Seq<T>, n: nat) -> Seq<T> {
    if n < s.len() {
        s.take(n as int)
    } else {
        s
    }
}

fn cut_names(v: &mut Vec<String>, n: usize)
    ensures
        ast::names_of(final(v)@) == cut(ast::names_of(old(v)@), n as nat),
{
    assert(ast::names_of(v@).len() == v@.len());
    if n < v.len() {
        let ghost before = v@;
        v.truncate(n);
        assert(ast::names_of(v@) =~= ast::names_of(before).take(n as int));
    }
}

/// Closes the innermost scope of variables.
#[verifier::opaque]
pub open spec fn close_scope<'a>(st: State<'a>) -> State<'a> {
    if st.marks.len() == 0 {
        st
    } else {
        let n = st.marks.last();
        State {
            marks: st.marks.drop_last(),
            var_names: cut(st.var_names, n),
            vars: cut(st.vars, n),
            ..st
        }
    }
}

/// Opens a scope of deferred code and destructors.
#[verifier::opaque]
pub open spec fn open_defers<'a>(st: State<'a>) -> State<'a> {
    State {
        defer_marks: st.defer_marks.push(st.defers.len()),
        dtor_marks: st.dtor_marks.push(st.dtors.len()),
        ..st
    }
}

/// Closes the innermost scope of deferred code and destructors.
#[verifier::opaque]
pub open spec fn close_defers<'a>(st: State<'a>) -> State<'a> {
    let s = if st.defer_marks.len() == 0 {
        st
    } else {
        State { defer_marks: st.defer_marks.drop_last(), defers: cut(st.defers, st.defer_marks.last()), ..st }
    };
    if s.dtor_marks.len() == 0 {
        s
    } else {
        State { dtor_marks: s.dtor_marks.drop_last(), dtors: cut(s.dtors, s.dtor_marks.last()), ..s }
    }
}

/// Defers code to the end of the innermost scope.
#[verifier::opaque]
pub open spec fn add_defer<'a>(st: State<'a>, d: &'a DeferInner) -> State<'a> {
    State { defers: st.defers.push(d), ..st }
}

/// Destroys a variable at the end of the innermost scope.
#[verifier::opaque]
pub open spec fn add_dtor<'a>(st: State<'a>, v: Operand) -> State<'a> {
    State { dtors: st.dtors.push(v), ..st }
}

/// The number of open scopes of deferred code.
pub open spec fn defer_depth<'a>(st: State<'a>) -> usize {
    st.defer_marks.len() as usize
}

/// Where the deferred code of scope `k` starts; past the last scope, where all of it ends.
pub open spec fn defer_start<'a>(st: State<'a>, k: usize) -> usize {
    if k < st.defer_marks.len() {
        st.defer_marks[k as int] as usize
    } else {
        st.defers.len() as usize
    }
}

/// Where the destructors of scope `k` start; past the last scope, where all of them end.
pub open spec fn dtor_start<'a>(st: State<'a>, k: usize) -> usize {
    if k < st.dtor_marks.len() {
        st.dtor_marks[k as int] as usize
    } else {
        st.dtors.len() as usize
    }
}

/// Deferred code number `k`.
pub open spec fn defer_at<'a>(st: State<'a>, k: usize) -> Option<&'a DeferInner> {
    if k < st.defers.len() {
        Some(st.defers[k as int])
    } else {
        None
    }
}

/// Variable number `k` to destroy.
pub open spec fn dtor_at<'a>(st: State<'a>, k: usize) -> Option<Operand> {
    if k < st.dtors.len() {
        Some(st.dtors[k as int])
    } else {
        None
    }
}

/// The number of destructor entries.
pub open spec fn member_count<'a>(st: State<'a>) -> usize {
    st.members.len() as usize
}

/// The default of field entry `k`.
pub open spec fn default_at<'a>(st: State<'a>, k: usize) -> Option<&'a Expr> {
    if k < st.defaults.len() {
        st.defaults[k as int]
    } else {
        None
    }
}

/// The number of field entries.
pub open spec fn field_count<'a>(st: State<'a>) -> usize {
    st.field_names.len() as usize
}

/// Enters a loop.
#[verifier::opaque]
pub open spec fn enter_loop<'a>(st: State<'a>, label: Seq<char>, l: LoopInfo) -> State<'a> {
    State { loop_labels: st.loop_labels.push(label), loops: st.loops.push(l), ..st }
}

/// Leaves the innermost loop.
#[verifier::opaque]
pub open spec fn leave_loop<'a>(st: State<'a>) -> State<'a> {
    if st.loops.len() == 0 || st.loop_labels.len() == 0 {
        st
    } else {
        State { loop_labels: st.loop_labels.drop_last(), loops: st.loops.drop_last(), ..st }
    }
}

/// The innermost loop.
pub open spec fn inner_loop<'a>(st: State<'a>) -> Option<LoopInfo> {
    if st.loops.len() > 0 {
        Some(st.loops.last())
    } else {
        None
    }
}

/// The innermost loop with a label.
pub open spec fn labelled_loop<'a>(st: State<'a>, label: Seq<char>) -> Option<LoopInfo> {
    match last_named(st.loop_labels, label, st.loop_labels.len()) {
        Some(k) => if k < st.loops.len() {
            Some(st.loops[k as int])
        } else {
            None
        },
        None => None,
    }
}

/// Adds a step that makes a value of a type.
#[verifier::opaque]
pub open spec fn emit<'a>(st: State<'a>, op: Op, ty: usize) -> (Operand, State<'a>) {
    (
        Operand { val: Val::Reg(st.steps.len() as usize), ty },
        State { steps: st.steps.push(Step { block: st.block, op }), ..st },
    )
}

/// Adds a step.
#[verifier::opaque]
pub open spec fn perform<'a>(st: State<'a>, op: Op) -> State<'a> {
    State { steps: st.steps.push(Step { block: st.block, op }), ..st }
}

/// Adds the last step of the block.
#[verifier::opaque]
pub open spec fn finish<'a>(st: State<'a>, op: Op) -> State<'a> {
    State {
        steps: st.steps.push(Step { block: st.block, op }),
        ended: if st.block < st.ended.len() {
            st.ended.update(st.block as int, true)
        } else {
            st.ended
        },
        ..st
    }
}

/// Whether the block has its last step.
pub open spec fn done<'a>(st: State<'a>) -> bool {
    st.block < st.ended.len() && st.ended[st.block as int]
}

/// A new block of the function.
#[verifier::opaque]
pub open spec fn block<'a>(st: State<'a>, label: Label) -> (usize, State<'a>) {
    (
        st.blocks.len() as usize,
        State {
            blocks: st.blocks.push(
                BlockInfo {
                    func: match st.func {
                        Some(f) => f,
                        None => 0,
                    },
                    label,
                },
            ),
            ended: st.ended.push(false),
            ..st
        },
    )
}

/// Goes on in a block.
#[verifier::opaque]
pub open spec fn at<'a>(st: State<'a>, b: usize) -> State<'a> {
    State { block: b, ..st }
}

/// The block that steps are added to.
pub open spec fn here<'a>(st: State<'a>) -> usize {
    st.block
}

/// The function that is being lowered.
pub open spec fn this_function<'a>(st: State<'a>) -> Option<usize> {
    st.func
}

/// Whether the main function is being lowered.
pub open spec fn in_main<'a>(st: State<'a>) -> bool {
    st.is_main
}

/// The class that is being lowered.
pub open spec fn this_class<'a>(st: State<'a>) -> Option<usize> {
    st.class
}

/// Starts or ends a function of a class.
#[verifier::opaque]
pub open spec fn set_function<'a>(st: State<'a>, func: Option<usize>, is_main: bool, class: Option<usize>) -> State<'a> {
    State { func, is_main, class, ..st }
}

/// The number of the next closure.
#[verifier::opaque]
pub open spec fn next_closure<'a>(st: State<'a>) -> (usize, State<'a>) {
    (
        st.closures,
        State {
            closures: if st.closures < usize::MAX {
                (st.closures + 1) as usize
            } else {
                st.closures
            },
            ..st
        },
    )
}

/// The entry of a string.
#[verifier::opaque]
pub open spec fn text<'a>(st: State<'a>, s: Seq<char>) -> (usize, State<'a>) {
    (st.texts.len() as usize, State { texts: st.texts.push(s), ..st })
}

/// Whether none of the first `n` blocks of a function lacks its last step.
pub open spec fn closed_to<'a>(st: State<'a>, f: usize, n: nat) -> bool
    decreases n,
{
    n == 0 || (closed_to(st, f, (n - 1) as nat) && (st.blocks[n - 1].func != f || (n - 1 < st.ended.len()
        && st.ended[n - 1])))
}

/// Whether a step may stand in a function whose result type is `r`: what it returns, where it
/// returns, is of that type.
pub open spec fn gives(op: Op, r: Option<usize>) -> bool {
    match op {
        Op::Return(v) => r == Some(v.ty),
        Op::ReturnVoid => r is None,
        _ => true,
    }
}

/// Whether step `k` returns what the function gives in which it stands.
pub open spec fn step_gives<'a>(st: State<'a>, k: int) -> bool {
    let b = st.steps[k].block as int;
    b < st.blocks.len() && st.blocks[b].func < st.funcs.len() ==> gives(
        st.steps[k].op,
        st.funcs[st.blocks[b].func as int].ret,
    )
}

/// Whether none of the first `n` steps returns in function `f` what it does not give.
pub open spec fn gives_to<'a>(st: State<'a>, f: usize, n: nat) -> bool
    decreases n,
{
    n == 0 || (gives_to(st, f, (n - 1) as nat) && (st.steps[n - 1].block < st.blocks.len()
        && st.blocks[st.steps[n - 1].block as int].func == f ==> step_gives(st, n - 1)))
}

/// Whether none of the first `n` steps returns what its function does not give.
pub open spec fn all_give_to<'a>(st: State<'a>, n: nat) -> bool
    decreases n,
{
    n == 0 || (all_give_to(st, (n - 1) as nat) && step_gives(st, n - 1))
}

/// Whether every block of a function has its last step, and the function returns what it gives.
pub open spec fn is_sound<'a>(st: State<'a>, f: usize) -> bool {
    closed_to(st, f, st.blocks.len()) && gives_to(st, f, st.steps.len())
}

/// A function of the C library by its name.
pub open spec fn named_runtime(name: Seq<char>) -> Option<Runtime> {
    if name == "puts"@ {
        Some(Runtime::Puts)
    } else if name == "printf"@ {
        Some(Runtime::Printf)
    } else if name == "abort"@ {
        Some(Runtime::Abort)
    } else if name == "strcat"@ {
        Some(Runtime::Strcat)
    } else if name == "sprintf"@ {
        Some(Runtime::Sprintf)
    } else if name == "strdup"@ {
        Some(Runtime::Strdup)
    } else if name == "strcmp"@ {
        Some(Runtime::Strcmp)
    } else if name == "strlen"@ {
        Some(Runtime::Strlen)
    } else {
        None
    }
}

/// Whether one of the first `n` steps calls a function of the C library.
pub open spec fn calls_to<'a>(st: State<'a>, f: Runtime, n: nat) -> bool
    decreases n,
{
    n > 0 && (calls_to(st, f, (n - 1) as nat) || (st.steps[n - 1].op is CallRuntime
        && st.steps[n - 1].op->CallRuntime_0 == f))
}

/// The function of the C library of a name, where the code so far calls it.
pub open spec fn brought_in<'a>(st: State<'a>, name: Seq<char>) -> Option<Runtime> {
    match named_runtime(name) {
        Some(f) => if calls_to(st, f, st.steps.len()) {
            Some(f)
        } else {
            None
        },
        None => None,
    }
}

/// Declares a layout.
#[verifier::opaque]
pub open spec fn add_layout<'a>(st: State<'a>, name: Seq<char>, is_enum: bool) -> (usize, State<'a>) {
    (
        st.layout_names.len() as usize,
        State { layout_names: st.layout_names.push(name), layout_enums: st.layout_enums.push(is_enum), ..st },
    )
}

/// Adds a field to a layout.
#[verifier::opaque]
pub open spec fn add_field<'a>(st: State<'a>, name: Seq<char>, info: FieldInfo, default: Option<&'a Expr>) -> State<'a> {
    State {
        field_names: st.field_names.push(name),
        fields: st.fields.push(info),
        defaults: st.defaults.push(default),
        ..st
    }
}

/// Adds a variant to an enum.
#[verifier::opaque]
pub open spec fn add_tag<'a>(st: State<'a>, name: Seq<char>, info: TagInfo) -> State<'a> {
    State { tag_names: st.tag_names.push(name), tags: st.tags.push(info), ..st }
}

/// Adds a member to a class.
#[verifier::opaque]
pub open spec fn add_member<'a>(st: State<'a>, name: Seq<char>, info: Member) -> State<'a> {
    State { member_names: st.member_names.push(name), members: st.members.push(info), ..st }
}

/// Starts the parameters of a function.
#[verifier::opaque]
pub open spec fn param_start<'a>(st: State<'a>) -> (usize, State<'a>) {
    (st.params.len() as usize, st)
}

/// Adds a parameter of the function that is declared next.
#[verifier::opaque]
pub open spec fn add_param<'a>(st: State<'a>, name: Seq<char>, info: ParamInfo) -> State<'a> {
    State { param_names: st.param_names.push(name), params: st.params.push(info), ..st }
}

/// Declares a function.
#[verifier::opaque]
pub open spec fn add_function<'a>(st: State<'a>, name: Seq<char>, info: FuncInfo) -> (usize, State<'a>) {
    (
        st.func_names.len() as usize,
        State { func_names: st.func_names.push(name), funcs: st.funcs.push(info), ..st },
    )
}

/// Declares a global.
#[verifier::opaque]
pub open spec fn add_global<'a>(st: State<'a>, name: Seq<char>, info: GlobalInfo) -> State<'a> {
    State { global_names: st.global_names.push(name), globals: st.globals.push(info), ..st }
}

/// Adds an initial value.
#[verifier::opaque]
pub open spec fn add_const<'a>(st: State<'a>, v: Operand) -> State<'a> {
    State { consts: st.consts.push(v), ..st }
}

/// The number of initial values.
pub open spec fn const_count<'a>(st: State<'a>) -> usize {
    st.consts.len() as usize
}

/// The layout of field entry `k`.
pub open spec fn field_layout<'a>(st: State<'a>, k: usize) -> Option<usize> {
    if k < st.fields.len() {
        Some(st.fields[k as int].layout)
    } else {
        None
    }
}

/// The name of closure number `id`.
pub open spec fn closure_text(id: usize) -> Seq<char> {
    "hella.closure."@ + text::decimal(id as nat)
}

/// The name of closure number `id`.
pub fn closure_name(id: usize) -> (r: String)
    ensures
        r@ == closure_text(id),
{
    let mut out = chars_of("hella.closure.");
    text::push_decimal(&mut out, id as u64);
    text::to_text(&out)
}

/// Three texts in a row.
pub open spec fn joined(a: Seq<char>, b: Seq<char>, c: Seq<char>) -> Seq<char> {
    a + b + c
}

/// Three texts in a row.
pub fn join3(a: &str, b: &str, c: &str) -> (r: String)
    ensures
        r@ == joined(a@, b@, c@),
{
    let mut out = chars_of(a);
    text::push_str(&mut out, b);
    text::push_str(&mut out, c);
    text::to_text(&out)
}

/// A name made of two parts, with a number where there are several of its kind.
pub open spec fn numbered(a: Seq<char>, b: Seq<char>, many: bool, k: usize) -> Seq<char> {
    if many {
        a + b + text::decimal(k as nat)
    } else {
        a + b
    }
}

/// A name made of two parts, with a number where there are several of its kind.
pub fn number3(a: &str, b: &str, many: bool, k: usize) -> (r: String)
    ensures
        r@ == numbered(a@, b@, many, k),
{
    let mut out = chars_of(a);
    text::push_str(&mut out, b);
    if many {
        text::push_decimal(&mut out, k as u64);
    }
    text::to_text(&out)
}

/// A number in decimal digits.
pub open spec fn decimal_text(n: usize) -> Seq<char> {
    text::decimal(n as nat)
}

/// A number in decimal digits.
pub fn decimal_of(n: usize) -> (r: String)
    ensures
        r@ == decimal_text(n),
{
    let mut out: Vec<char> = Vec::new();
    text::push_decimal(&mut out, n as u64);
    assert(out@ =~= text::decimal(n as nat));
    text::to_text(&out)
}

/// An error about a place, whose message names two things.
pub open spec fn naming_two(
    head: Seq<char>,
    name: Seq<char>,
    mid: Seq<char>,
    other: Seq<char>,
    tail: Seq<char>,
    span: Span,
) -> Trouble {
    Trouble { message: head + name + mid + other + tail, span }
}

pub fn fault_naming_two(head: &str, name: &str, mid: &str, other: &str, tail: &str, span: Span) -> (r: CodegenError)
    ensures
        r@ == naming_two(head@, name@, mid@, other@, tail@, span),
{
    let mut out = chars_of(head);
    text::push_str(&mut out, name);
    text::push_str(&mut out, mid);
    text::push_str(&mut out, other);
    text::push_str(&mut out, tail);
    CodegenError { message: text::to_text(&out), span }
}

/// The word for an operator in the name of its function.
pub open spec fn op_word(op: Seq<char>) -> Seq<char> {
    if op == "+"@ {
        "plus"@
    } else if op == "-"@ {
        "minus"@
    } else if op == "*"@ {
        "star"@
    } else if op == "/"@ {
        "slash"@
    } else if op == "%"@ {
        "percent"@
    } else if op == "<"@ {
        "lt"@
    } else if op == "<="@ {
        "le"@
    } else if op == ">"@ {
        "gt"@
    } else if op == ">="@ {
        "ge"@
    } else if op == "is"@ {
        "is"@
    } else if op == "is not"@ {
        "is_not"@
    } else if op == "&"@ {
        "bitand"@
    } else if op == "|"@ {
        "bitor"@
    } else if op == "^"@ {
        "xor"@
    } else if op == "~"@ {
        "tilde"@
    } else if op == "<<"@ {
        "lshift"@
    } else if op == ">>"@ {
        "rshift"@
    } else if op == "="@ {
        "assign"@
    } else if op == "[]"@ {
        "index"@
    } else if op == "++"@ {
        "inc"@
    } else if op == "--"@ {
        "dec"@
    } else if op == "+="@ {
        "plus_assign"@
    } else if op == "-="@ {
        "minus_assign"@
    } else if op == "*="@ {
        "star_assign"@
    } else if op == "/="@ {
        "slash_assign"@
    } else if op == "%="@ {
        "percent_assign"@
    } else if op == "&="@ {
        "and_assign"@
    } else if op == "|="@ {
        "or_assign"@
    } else if op == "^="@ {
        "xor_assign"@
    } else if op == "<<="@ {
        "lshift_assign"@
    } else if op == ">>="@ {
        "rshift_assign"@
    } else {
        "op"@
    }
}

/// The word for an operator in the name of its function.
pub fn op_word_of(op: &str) -> (r: String)
    ensures
        r@ == op_word(op@),
{
    if text::same_str(op, "+") {
        copy_text("plus")
    } else if text::same_str(op, "-") {
        copy_text("minus")
    } else if text::same_str(op, "*") {
        copy_text("star")
    } else if text::same_str(op, "/") {
        copy_text("slash")
    } else if text::same_str(op, "%") {
        copy_text("percent")
    } else if text::same_str(op, "<") {
        copy_text("lt")
    } else if text::same_str(op, "<=") {
        copy_text("le")
    } else if text::same_str(op, ">") {
        copy_text("gt")
    } else if text::same_str(op, ">=") {
        copy_text("ge")
    } else if text::same_str(op, "is") {
        copy_text("is")
    } else if text::same_str(op, "is not") {
        copy_text("is_not")
    } else if text::same_str(op, "&") {
        copy_text("bitand")
    } else if text::same_str(op, "|") {
        copy_text("bitor")
    } else if text::same_str(op, "^") {
        copy_text("xor")
    } else if text::same_str(op, "~") {
        copy_text("tilde")
    } else if text::same_str(op, "<<") {
        copy_text("lshift")
    } else if text::same_str(op, ">>") {
        copy_text("rshift")
    } else if text::same_str(op, "=") {
        copy_text("assign")
    } else if text::same_str(op, "[]") {
        copy_text("index")
    } else if text::same_str(op, "++") {
        copy_text("inc")
    } else if text::same_str(op, "--") {
        copy_text("dec")
    } else if text::same_str(op, "+=") {
        copy_text("plus_assign")
    } else if text::same_str(op, "-=") {
        copy_text("minus_assign")
    } else if text::same_str(op, "*=") {
        copy_text("star_assign")
    } else if text::same_str(op, "/=") {
        copy_text("slash_assign")
    } else if text::same_str(op, "%=") {
        copy_text("percent_assign")
    } else if text::same_str(op, "&=") {
        copy_text("and_assign")
    } else if text::same_str(op, "|=") {
        copy_text("or_assign")
    } else if text::same_str(op, "^=") {
        copy_text("xor_assign")
    } else if text::same_str(op, "<<=") {
        copy_text("lshift_assign")
    } else if text::same_str(op, ">>=") {
        copy_text("rshift_assign")
    } else {
        copy_text("op")
    }
}

/// The name of a layout.
pub open spec fn layout_name<'a>(st: State<'a>, l: usize) -> Seq<char> {
    if l < st.layout_names.len() {
        st.layout_names[l as int]
    } else {
        ""@
    }
}

/// The first of the members from `i` on that is such a constructor.
pub open spec fn constructor_for_from(v: Seq<Member>, l: usize, n: usize, i: int) -> Option<usize>
    decreases v.len() - i,
{
    if i < 0 || i >= v.len() {
        None
    } else if v[i].layout == l && v[i].kind == MemberKind::Constructor && v[i].params == n {
        Some(i as usize)
    } else {
        constructor_for_from(v, l, n, i + 1)
    }
}

/// The first constructor of a class that takes `n` arguments.
pub open spec fn constructor_for<'a>(st: State<'a>, l: usize, n: usize) -> Option<usize> {
    constructor_for_from(st.members, l, n, 0)
}

/// The first of the members from `i` on that is a constructor of the class.
pub open spec fn first_constructor_from(v: Seq<Member>, l: usize, i: int) -> Option<usize>
    decreases v.len() - i,
{
    if i < 0 || i >= v.len() {
        None
    } else if v[i].layout == l && v[i].kind == MemberKind::Constructor {
        Some(i as usize)
    } else {
        first_constructor_from(v, l, i + 1)
    }
}

/// The first constructor of a class.
pub open spec fn first_constructor<'a>(st: State<'a>, l: usize) -> Option<usize> {
    first_constructor_from(st.members, l, 0)
}

/// How many of the first `n` members are destructors of a class.
pub open spec fn destructors_in(v: Seq<Member>, l: usize, n: nat) -> nat
    decreases n,
{
    if n == 0 {
        0
    } else if v[n - 1].layout == l && v[n - 1].kind == MemberKind::Destructor {
        destructors_in(v, l, (n - 1) as nat) + 1
    } else {
        destructors_in(v, l, (n - 1) as nat)
    }
}

/// Destructor number `k` of a class, among the first `n` members.
pub open spec fn destructor_in(v: Seq<Member>, l: usize, k: usize, n: nat) -> Option<usize>
    decreases n,
{
    if n == 0 {
        None
    } else if v[n - 1].layout == l && v[n - 1].kind == MemberKind::Destructor && destructors_in(v, l, (n - 1) as nat) == k {
        Some((n - 1) as usize)
    } else {
        destructor_in(v, l, k, (n - 1) as nat)
    }
}

proof fn lemma_destructors_in(v: Seq<Member>, l: usize, n: nat)
    ensures
        destructors_in(v, l, n) <= n,
    decreases n,
{
    if n > 0 {
        lemma_destructors_in(v, l, (n - 1) as nat);
    }
}

/// How many of the first `n` fields belong to a layout.
pub open spec fn fields_in(v: Seq<FieldInfo>, l: usize, n: nat) -> nat
    decreases n,
{
    if n == 0 {
        0
    } else if v[n - 1].layout == l {
        fields_in(v, l, (n - 1) as nat) + 1
    } else {
        fields_in(v, l, (n - 1) as nat)
    }
}

proof fn lemma_fields_in(v: Seq<FieldInfo>, l: usize, n: nat)
    ensures
        fields_in(v, l, n) <= n,
    decreases n,
{
    if n > 0 {
        lemma_fields_in(v, l, (n - 1) as nat);
    }
}

/// Whether one of the first `n` members of a class has the name of member `k` and is, like it,
/// a method, or like it part of a property.
pub open spec fn like_in<'a>(st: State<'a>, k: usize, l: usize, n: nat) -> bool
    decreases n,
{
    n > 0 && (like_in(st, k, l, (n - 1) as nat) || (n <= st.members.len() && n <= st.member_names.len() && k
        < st.members.len() && k < st.member_names.len() && st.members[n - 1].layout == l && st.member_names[n - 1]
        == st.member_names[k as int] && (st.members[n - 1].kind == MemberKind::Method) == (
    st.members[k as int].kind == MemberKind::Method) && passes_on(st.members[n - 1].kind)))
}

/// Whether members of a kind are passed on to classes that extend theirs.
pub open spec fn passes_on(kind: MemberKind) -> bool {
    kind == MemberKind::Method || kind == MemberKind::Getter || kind == MemberKind::Setter
}

/// How many destructors a class has.
pub open spec fn destructor_count<'a>(st: State<'a>, l: usize) -> usize {
    destructors_in(st.members, l, st.members.len()) as usize
}

/// Destructor number `k` of a class.
pub open spec fn destructor<'a>(st: State<'a>, l: usize, k: usize) -> Option<usize> {
    destructor_in(st.members, l, k, st.members.len())
}

/// The last variant of this name, of any enum.
pub open spec fn any_tag<'a>(st: State<'a>, name: Seq<char>) -> Option<usize> {
    last_named(st.tag_names, name, st.tag_names.len())
}

/// Whether field entry `k` has this name.
pub open spec fn field_is<'a>(st: State<'a>, k: usize, name: Seq<char>) -> bool {
    k < st.field_names.len() && st.field_names[k as int] == name
}

/// How many fields a layout has.
pub open spec fn field_total<'a>(st: State<'a>, l: usize) -> u32 {
    fields_in(st.fields, l, st.fields.len()) as u32
}

/// Whether field entry `k` is the one that its name stands for.
pub open spec fn is_current_field<'a>(st: State<'a>, k: usize) -> bool {
    k < st.field_names.len() && k < st.fields.len() && field_entry(st, st.field_names[k as int], st.fields[k as int].layout)
        == Some(k)
}

/// Adds field entry `k` to another layout, as its next field.
#[verifier::opaque]
pub open spec fn copy_field<'a>(st: State<'a>, k: usize, l: usize) -> State<'a> {
    if k < st.fields.len() && k < st.field_names.len() && k < st.defaults.len() {
        State {
            field_names: st.field_names.push(st.field_names[k as int]),
            fields: st.fields.push(FieldInfo { layout: l, index: field_total(st, l), ty: st.fields[k as int].ty }),
            defaults: st.defaults.push(st.defaults[k as int]),
            ..st
        }
    } else {
        st
    }
}

/// Whether one of the first `n` members of a class has the name of member `k` and is, like it, a method, or like it part of a property.
pub open spec fn owns_like<'a>(st: State<'a>, k: usize, l: usize, n: usize) -> bool {
    like_in(st, k, l, n as nat)
}

/// Adds member `k` to another class.
#[verifier::opaque]
pub open spec fn copy_member<'a>(st: State<'a>, k: usize, l: usize) -> State<'a> {
    if k < st.members.len() && k < st.member_names.len() {
        State {
            member_names: st.member_names.push(st.member_names[k as int]),
            members: st.members.push(Member { layout: l, ..st.members[k as int] }),
            ..st
        }
    } else {
        st
    }
}

/// Whether none of the first `n` blocks lacks its last step.
pub open spec fn all_closed_to<'a>(st: State<'a>, n: nat) -> bool
    decreases n,
{
    n == 0 || (all_closed_to(st, (n - 1) as nat) && n - 1 < st.ended.len() && st.ended[n - 1])
}

/// Whether every block has its last step, and every function returns what it gives.
pub open spec fn all_sound<'a>(st: State<'a>) -> bool {
    all_closed_to(st, st.blocks.len()) && all_give_to(st, st.steps.len())
}

/// The layout of the last part of a name.
pub open spec fn base_layout<'a>(st: State<'a>, name: Seq<char>) -> Option<usize> {
    layout(st, base_name(name))
}

/// A text in which the characters that names cannot hold are underscores.
pub open spec fn word(t: Seq<char>) -> Seq<char> {
    Seq::new(t.len(), |i: int| if t[i] == '<' || t[i] == '>' || t[i] == ',' { '_' } else { t[i] })
}

/// A written type as part of a name.
pub open spec fn type_word(t: &Type) -> Seq<char> {
    word(compact::type_text(t.tree()))
}

/// A written type as part of a name.
pub fn type_word_of(t: &Type) -> (r: String)
    ensures
        r@ == type_word(t),
{
    let s = fmt_type(t);
    let mut out: Vec<char> = Vec::new();
    let mut i: usize = 0;
    while i < s.len()
        invariant
            i <= s.len(),
            out@ =~= word(s@).take(i as int),
        decreases s.len() - i,
    {
        let c = s[i];
        if c == '<' || c == '>' || c == ',' {
            out.push('_');
        } else {
            out.push(c);
        }
        i = i + 1;
    }
    text::to_text(&out)
}

impl<'a> Codegen<'a> {
    /// A lowering that has done nothing.
    pub fn new(module_name: &str) -> (r: Codegen<'a>)
        ensures
            r@ == initial(module_name@),
    {
        let mut types: Vec<TyDef> = Vec::new();
        types.push(TyDef::Int(1));
        types.push(TyDef::Int(8));
        types.push(TyDef::Int(32));
        types.push(TyDef::Int(64));
        types.push(TyDef::Ptr);
        types.push(TyDef::F32);
        types.push(TyDef::F64);
        types.push(TyDef::Nil);
        assert(types@ =~= initial(module_name@).types);
        let r = Codegen {
            module_name: copy_text(module_name),
            types,
            steps: Vec::new(),
            blocks: Vec::new(),
            ended: Vec::new(),
            func_names: Vec::new(),
            funcs: Vec::new(),
            params: Vec::new(),
            param_names: Vec::new(),
            layout_names: Vec::new(),
            layout_enums: Vec::new(),
            field_names: Vec::new(),
            fields: Vec::new(),
            defaults: Vec::new(),
            tag_names: Vec::new(),
            tags: Vec::new(),
            member_names: Vec::new(),
            members: Vec::new(),
            global_names: Vec::new(),
            globals: Vec::new(),
            consts: Vec::new(),
            texts: Vec::new(),
            var_names: Vec::new(),
            vars: Vec::new(),
            marks: Vec::new(),
            vec_vars: Vec::new(),
            map_vars: Vec::new(),
            str_vars: Vec::new(),
            loop_labels: Vec::new(),
            loops: Vec::new(),
            defers: Vec::new(),
            defer_marks: Vec::new(),
            dtors: Vec::new(),
            dtor_marks: Vec::new(),
            func: None,
            block: 0,
            is_main: false,
            class: None,
            closures: 0,
        };
        assert(ast::names_of(Seq::<String>::empty()) =~= seq![]);
        assert(numbers(Seq::<usize>::empty()) =~= seq![]);
        r
    }

    /// The definition of a type.
    pub fn def(&self, t: usize) -> (r: TyDef)
        ensures
            r == def(self@, t),
    {
        if t < self.types.len() {
            self.types[t]
        } else {
            TyDef::Nil
        }
    }

    /// The entry of a type; a new one where there is none.
    pub fn intern(&mut self, d: TyDef) -> (r: usize)
        ensures
            (r, final(self)@) == intern(old(self)@, d),
    {
        reveal(intern);
        let mut i: usize = 0;
        while i < self.types.len()
            invariant
                self@ == old(self)@,
                self.types == old(self).types,
                i <= self.types.len(),
                find_type(self.types@, d, 0) == find_type(self.types@, d, i as int),
            decreases self.types.len() - i,
        {
            if self.types[i] == d {
                reveal(intern);
                return i;
            }
            i = i + 1;
        }
        let t: usize = self.types.len();
        self.types.push(d);
        t
    }

    /// Field `k` of a struct type, or of a declared one.
    pub fn member_ty(&self, t: usize, k: u32) -> (r: Option<usize>)
        ensures
            r == member_ty(self@, t, k),
    {
        self.member_ty_from(t, k, self.types.len())
    }

    fn member_ty_from(&self, t: usize, k: u32, n: usize) -> (r: Option<usize>)
        ensures
            r == member_from(self@, t, k, n as nat),
        decreases n,
    {
        match self.def(t) {
            TyDef::Cons(a, b) => {
                if k == 0 {
                    Some(a)
                } else if n == 0 {
                    None
                } else {
                    self.member_ty_from(b, k - 1, n - 1)
                }
            },
            TyDef::Named(l) => self.layout_field_ty(l, k),
            _ => None,
        }
    }

    fn layout_field_ty(&self, l: usize, k: u32) -> (r: Option<usize>)
        ensures
            r == field_ty_from(self@.fields, l, k, self@.fields.len()),
    {
        let mut n: usize = self.fields.len();
        while n > 0
            invariant
                n <= self.fields.len(),
                field_ty_from(self.fields@, l, k, self.fields@.len()) == field_ty_from(self.fields@, l, k, n as nat),
            decreases n,
        {
            let f = self.fields[n - 1];
            if f.layout == l && f.index == k {
                return Some(f.ty);
            }
            n = n - 1;
        }
        None
    }

    /// The layout of a name.
    pub fn layout(&self, name: &str) -> (r: Option<usize>)
        ensures
            r == layout(self@, name@),
    {
        let r = find_last(&self.layout_names, name);
        assert(ast::names_of(self.layout_names@).len() == self.layout_names@.len());
        r
    }

    /// The function of a name.
    pub fn function(&self, name: &str) -> (r: Option<usize>)
        ensures
            r == function(self@, name@),
    {
        let r = find_last(&self.func_names, name);
        assert(ast::names_of(self.func_names@).len() == self.func_names@.len());
        r
    }

    /// Whether a variable of this name holds a vector.
    pub fn is_vec(&self, name: &str) -> (r: bool)
        ensures
            r == is_vec(self@, name@),
    {
        assert(ast::names_of(self.vec_vars@).len() == self.vec_vars@.len());
        if find_last(&self.vec_vars, name).is_some() {
            return true;
        }
        let b = base_of(name);
        find_last(&self.vec_vars, b.as_str()).is_some()
    }

    /// Notes that a variable of this name holds a vector.
    pub fn note_vec(&mut self, name: &str)
        ensures
            final(self)@ == note_vec(old(self)@, name@),
    {
        reveal(note_vec);
        self.vec_vars.push(copy_text(name));
    }

    /// Whether a variable of this name holds a map.
    pub fn is_map(&self, name: &str) -> (r: bool)
        ensures
            r == is_map(self@, name@),
    {
        assert(ast::names_of(self.map_vars@).len() == self.map_vars@.len());
        if find_last(&self.map_vars, name).is_some() {
            return true;
        }
        let b = base_of(name);
        find_last(&self.map_vars, b.as_str()).is_some()
    }

    /// Notes that a variable of this name holds a map.
    pub fn note_map(&mut self, name: &str)
        ensures
            final(self)@ == note_map(old(self)@, name@),
    {
        reveal(note_map);
        self.map_vars.push(copy_text(name));
    }

    /// Whether a variable of this name holds a string.
    pub fn is_str(&self, name: &str) -> (r: bool)
        ensures
            r == is_str(self@, name@),
    {
        assert(ast::names_of(self.str_vars@).len() == self.str_vars@.len());
        if find_last(&self.str_vars, name).is_some() {
            return true;
        }
        let b = base_of(name);
        find_last(&self.str_vars, b.as_str()).is_some()
    }

    /// Notes that a variable of this name holds a string.
    pub fn note_str(&mut self, name: &str)
        ensures
            final(self)@ == note_str(old(self)@, name@),
    {
        reveal(note_str);
        self.str_vars.push(copy_text(name));
    }

    /// Whether a layout is that of an enum.
    pub fn is_enum(&self, l: usize) -> (r: bool)
        ensures
            r == is_enum(self@, l),
    {
        l < self.layout_enums.len() && self.layout_enums[l]
    }

    /// The entry of a field of a layout.
    pub fn field_entry(&self, name: &str, l: usize) -> (r: Option<usize>)
        ensures
            r == field_entry(self@, name@, l),
    {
        let ghost all = ast::names_of(self.field_names@);
        let mut n: usize = self.field_names.len();
        assert(all.len() == n);
        while n > 0
            invariant
                n <= self.field_names.len(),
                all == ast::names_of(self.field_names@),
                field_entry_from(all, self.fields@, name@, l, all.len()) == field_entry_from(all, self.fields@, name@, l, n as nat),
            decreases n,
        {
            assert(all[n - 1] == self.field_names@[n - 1]@);
            if n <= self.fields.len() && text::same_str(self.field_names[n - 1].as_str(), name) && self.fields[n - 1].layout == l {
                return Some(n - 1);
            }
            n = n - 1;
        }
        None
    }

    /// The entry of a variant of an enum.
    pub fn tag_entry(&self, name: &str, l: usize) -> (r: Option<usize>)
        ensures
            r == tag_entry(self@, name@, l),
    {
        let ghost all = ast::names_of(self.tag_names@);
        let mut n: usize = self.tag_names.len();
        assert(all.len() == n);
        while n > 0
            invariant
                n <= self.tag_names.len(),
                all == ast::names_of(self.tag_names@),
                tag_entry_from(all, self.tags@, name@, l, all.len()) == tag_entry_from(all, self.tags@, name@, l, n as nat),
            decreases n,
        {
            assert(all[n - 1] == self.tag_names@[n - 1]@);
            if n <= self.tags.len() && text::same_str(self.tag_names[n - 1].as_str(), name) && self.tags[n - 1].layout == l {
                return Some(n - 1);
            }
            n = n - 1;
        }
        None
    }

    /// The entry of a member of a class.
    pub fn member_entry(&self, name: &str, l: usize, kind: MemberKind) -> (r: Option<usize>)
        ensures
            r == member_entry(self@, name@, l, kind),
    {
        let ghost all = ast::names_of(self.member_names@);
        let mut n: usize = self.member_names.len();
        assert(all.len() == n);
        while n > 0
            invariant
                n <= self.member_names.len(),
                all == ast::names_of(self.member_names@),
                member_entry_from(all, self.members@, name@, l, kind, all.len()) == member_entry_from(all, self.members@, name@, l, kind, n as nat),
            decreases n,
        {
            assert(all[n - 1] == self.member_names@[n - 1]@);
            if n <= self.members.len() && text::same_str(self.member_names[n - 1].as_str(), name) && self.members[n - 1].layout == l && self.members[n - 1].kind == kind {
                return Some(n - 1);
            }
            n = n - 1;
        }
        None
    }

    /// The position of a field.
    pub fn field_info(&self, k: usize) -> (r: FieldInfo)
        ensures
            r == field_info(self@, k),
    {
        if k < self.fields.len() {
            self.fields[k]
        } else {
            FieldInfo { layout: 0, index: 0, ty: 0 }
        }
    }

    /// The tag of a variant.
    pub fn tag_info(&self, k: usize) -> (r: TagInfo)
        ensures
            r == tag_info(self@, k),
    {
        if k < self.tags.len() {
            self.tags[k]
        } else {
            TagInfo { layout: 0, tag: 0 }
        }
    }

    /// A member of a class.
    pub fn member_info(&self, k: usize) -> (r: Member)
        ensures
            r == member_info(self@, k),
    {
        if k < self.members.len() {
            self.members[k]
        } else {
            Member { layout: 0, kind: MemberKind::Method, func: 0, params: 0 }
        }
    }

    /// What is known of a function.
    pub fn func_info(&self, f: usize) -> (r: FuncInfo)
        ensures
            r == func_info(self@, f),
    {
        if f < self.funcs.len() {
            self.funcs[f]
        } else {
            FuncInfo { ret: None, c_varargs: false, converts: false, first: 0, count: 0 }
        }
    }

    /// Parameter `k` of a function.
    pub fn param_info(&self, f: FuncInfo, k: usize) -> (r: ParamInfo)
        ensures
            r == param_info(self@, f, k),
    {
        if f.first < self.params.len() && k < self.params.len() - f.first {
            self.params[f.first + k]
        } else {
            ParamInfo { ty: None, elem: None, is_variadic: false }
        }
    }

    /// Whether parameter `k` of a function has this name.
    pub fn param_is(&self, f: FuncInfo, k: usize, name: &str) -> (r: bool)
        ensures
            r == param_is(self@, f, k, name@),
    {
        assert(ast::names_of(self.param_names@).len() == self.param_names@.len());
        if f.first < self.param_names.len() && k < self.param_names.len() - f.first {
            assert(ast::names_of(self.param_names@)[f.first + k] == self.param_names@[f.first + k]@);
            text::same_str(self.param_names[f.first + k].as_str(), name)
        } else {
            false
        }
    }

    /// The width of a built-in integer type that is written as a name.
    pub fn int_name(&self, name: &str) -> (r: Option<u32>)
        ensures
            r == int_name(name@),
    {
        if text::same_str(name, "i8") || text::same_str(name, "u8") {
            Some(8)
        } else if text::same_str(name, "i16") || text::same_str(name, "u16") {
            Some(16)
        } else if text::same_str(name, "i32") || text::same_str(name, "u32") {
            Some(32)
        } else if text::same_str(name, "i64") || text::same_str(name, "u64") || text::same_str(name, "uint") {
            Some(64)
        } else if text::same_str(name, "i128") || text::same_str(name, "u128") {
            Some(128)
        } else {
            None
        }
    }

    /// Whether a name is a type parameter: one capital letter.
    pub fn is_letter(&self, name: &str) -> (r: bool)
        ensures
            r == is_letter(name@),
    {
        let s = chars_of(name);
        s.len() == 1 && 'A' <= s[0] && s[0] <= 'Z'
    }

    /// The variable or global of exactly this name.
    pub fn exact_var(&self, name: &str) -> (r: Option<Operand>)
        ensures
            r == exact_var(self@, name@),
    {
        assert(ast::names_of(self.var_names@).len() == self.var_names@.len());
        assert(ast::names_of(self.global_names@).len() == self.global_names@.len());
        match find_last(&self.var_names, name) {
            Some(k) => {
                if k < self.vars.len() {
                    Some(self.vars[k])
                } else {
                    None
                }
            },
            None => match find_last(&self.global_names, name) {
                Some(k) => {
                    if k < self.globals.len() {
                        Some(Operand { val: Val::Global(k), ty: self.globals[k].ty })
                    } else {
                        None
                    }
                },
                None => None,
            },
        }
    }

    /// The variable or global that a name stands for: its address, and the type of what is there.
    pub fn lookup_var(&self, name: &str) -> (r: Option<Operand>)
        ensures
            r == lookup_var(self@, name@),
    {
        match self.exact_var(name) {
            Some(v) => Some(v),
            None => {
                let b = base_of(name);
                self.exact_var(b.as_str())
            },
        }
    }

    /// The local variable that a name stands for.
    pub fn local_var(&self, name: &str) -> (r: Option<Operand>)
        ensures
            r == local_var(self@, name@),
    {
        assert(ast::names_of(self.var_names@).len() == self.var_names@.len());
        match find_last(&self.var_names, name) {
            Some(k) => {
                if k < self.vars.len() {
                    Some(self.vars[k])
                } else {
                    None
                }
            },
            None => None,
        }
    }

    /// Binds a name to an address in the innermost scope.
    pub fn bind(&mut self, name: &str, v: Operand)
        ensures
            final(self)@ == bind(old(self)@, name@, v),
    {
        reveal(bind);
        self.var_names.push(copy_text(name));
        self.vars.push(v);
    }

    /// Opens a scope of variables.
    pub fn open_scope(&mut self)
        ensures
            final(self)@ == open_scope(old(self)@),
    {
        reveal(open_scope);
        let n: usize = self.vars.len();
        let ghost before = self.marks@;
        self.marks.push(n);
        assert(numbers(self.marks@) =~= numbers(before).push(n as nat));
    }

    /// Closes the innermost scope of variables.
    pub fn close_scope(&mut self)
        ensures
            final(self)@ == close_scope(old(self)@),
    {
        reveal(close_scope);
        let ghost before = self.marks@;
        if let Some(n) = self.marks.pop() {
            assert(numbers(before).last() == n);
            assert(numbers(self.marks@) =~= numbers(before).drop_last());
            cut_names(&mut self.var_names, n);
            if n < self.vars.len() {
                self.vars.truncate(n);
            }
        }
    }

    /// Opens a scope of deferred code and destructors.
    pub fn open_defers(&mut self)
        ensures
            final(self)@ == open_defers(old(self)@),
    {
        reveal(open_defers);
        let n: usize = self.defers.len();
        let ghost a = self.defer_marks@;
        self.defer_marks.push(n);
        assert(numbers(self.defer_marks@) =~= numbers(a).push(n as nat));
        let k: usize = self.dtors.len();
        let ghost b = self.dtor_marks@;
        self.dtor_marks.push(k);
        assert(numbers(self.dtor_marks@) =~= numbers(b).push(k as nat));
    }

    /// Closes the innermost scope of deferred code and destructors.
    pub fn close_defers(&mut self)
        ensures
            final(self)@ == close_defers(old(self)@),
    {
        reveal(close_defers);
        let ghost a = self.defer_marks@;
        if let Some(n) = self.defer_marks.pop() {
            assert(numbers(a).last() == n);
            assert(numbers(self.defer_marks@) =~= numbers(a).drop_last());
            if n < self.defers.len() {
                self.defers.truncate(n);
            }
        }
        let ghost b = self.dtor_marks@;
        if let Some(n) = self.dtor_marks.pop() {
            assert(numbers(b).last() == n);
            assert(numbers(self.dtor_marks@) =~= numbers(b).drop_last());
            if n < self.dtors.len() {
                self.dtors.truncate(n);
            }
        }
    }

    /// Defers code to the end of the innermost scope.
    pub fn add_defer(&mut self, d: &'a DeferInner)
        ensures
            final(self)@ == add_defer(old(self)@, d),
    {
        reveal(add_defer);
        self.defers.push(d);
    }

    /// Destroys a variable at the end of the innermost scope.
    pub fn add_dtor(&mut self, v: Operand)
        ensures
            final(self)@ == add_dtor(old(self)@, v),
    {
        reveal(add_dtor);
        self.dtors.push(v);
    }

    /// The number of open scopes of deferred code.
    pub fn defer_depth(&self) -> (r: usize)
        ensures
            r == defer_depth(self@),
    {
        self.defer_marks.len()
    }

    /// Where the deferred code of scope `k` starts; past the last scope, where all of it ends.
    pub fn defer_start(&self, k: usize) -> (r: usize)
        ensures
            r == defer_start(self@, k),
    {
        if k < self.defer_marks.len() {
            self.defer_marks[k]
        } else {
            self.defers.len()
        }
    }

    /// Where the destructors of scope `k` start; past the last scope, where all of them end.
    pub fn dtor_start(&self, k: usize) -> (r: usize)
        ensures
            r == dtor_start(self@, k),
    {
        if k < self.dtor_marks.len() {
            self.dtor_marks[k]
        } else {
            self.dtors.len()
        }
    }

    /// Deferred code number `k`.
    pub fn defer_at(&self, k: usize) -> (r: Option<&'a DeferInner>)
        ensures
            r == defer_at(self@, k),
    {
        if k < self.defers.len() {
            Some(self.defers[k])
        } else {
            None
        }
    }

    /// Variable number `k` to destroy.
    pub fn dtor_at(&self, k: usize) -> (r: Option<Operand>)
        ensures
            r == dtor_at(self@, k),
    {
        if k < self.dtors.len() {
            Some(self.dtors[k])
        } else {
            None
        }
    }

    /// The number of destructor entries.
    pub fn member_count(&self) -> (r: usize)
        ensures
            r == member_count(self@),
    {
        self.members.len()
    }

    /// The default of field entry `k`.
    pub fn default_at(&self, k: usize) -> (r: Option<&'a Expr>)
        ensures
            r == default_at(self@, k),
    {
        if k < self.defaults.len() {
            self.defaults[k]
        } else {
            None
        }
    }

    /// The number of field entries.
    pub fn field_count(&self) -> (r: usize)
        ensures
            r == field_count(self@),
    {
        assert(ast::names_of(self.field_names@).len() == self.field_names@.len());
        self.field_names.len()
    }

    /// Enters a loop.
    pub fn enter_loop(&mut self, label: &str, l: LoopInfo)
        ensures
            final(self)@ == enter_loop(old(self)@, label@, l),
    {
        reveal(enter_loop);
        self.loop_labels.push(copy_text(label));
        self.loops.push(l);
    }

    /// Leaves the innermost loop.
    pub fn leave_loop(&mut self)
        ensures
            final(self)@ == leave_loop(old(self)@),
    {
        reveal(leave_loop);
        assert(ast::names_of(self.loop_labels@).len() == self.loop_labels@.len());
        if self.loops.len() == 0 || self.loop_labels.len() == 0 {
            return;
        }
        let n: usize = self.loop_labels.len() - 1;
        cut_names(&mut self.loop_labels, n);
        assert(self@.loop_labels =~= old(self)@.loop_labels.drop_last());
        self.loops.pop();
    }

    /// The innermost loop.
    pub fn inner_loop(&self) -> (r: Option<LoopInfo>)
        ensures
            r == inner_loop(self@),
    {
        if self.loops.len() > 0 {
            Some(self.loops[self.loops.len() - 1])
        } else {
            None
        }
    }

    /// The innermost loop with a label.
    pub fn labelled_loop(&self, label: &str) -> (r: Option<LoopInfo>)
        ensures
            r == labelled_loop(self@, label@),
    {
        assert(ast::names_of(self.loop_labels@).len() == self.loop_labels@.len());
        match find_last(&self.loop_labels, label) {
            Some(k) => {
                if k < self.loops.len() {
                    Some(self.loops[k])
                } else {
                    None
                }
            },
            None => None,
        }
    }

    /// Adds a step that makes a value of a type.
    pub fn emit(&mut self, op: Op, ty: usize) -> (r: Operand)
        ensures
            (r, final(self)@) == emit(old(self)@, op, ty),
    {
        reveal(emit);
        let n: usize = self.steps.len();
        self.steps.push(Step { block: self.block, op });
        Operand { val: Val::Reg(n), ty }
    }

    /// Adds a step.
    pub fn perform(&mut self, op: Op)
        ensures
            final(self)@ == perform(old(self)@, op),
    {
        reveal(perform);
        self.steps.push(Step { block: self.block, op });
    }

    /// Adds the last step of the block.
    pub fn finish(&mut self, op: Op)
        ensures
            final(self)@ == finish(old(self)@, op),
    {
        reveal(finish);
        self.steps.push(Step { block: self.block, op });
        let k = self.block;
        if k < self.ended.len() {
            self.ended.set(k, true);
        }
    }

    /// Whether the block has its last step.
    pub fn done(&self) -> (r: bool)
        ensures
            r == done(self@),
    {
        self.block < self.ended.len() && self.ended[self.block]
    }

    /// A new block of the function.
    pub fn block(&mut self, label: Label) -> (r: usize)
        ensures
            (r, final(self)@) == block(old(self)@, label),
    {
        reveal(block);
        let n: usize = self.blocks.len();
        let func: usize = match self.func {
            Some(f) => f,
            None => 0,
        };
        self.blocks.push(BlockInfo { func, label });
        self.ended.push(false);
        n
    }

    /// Goes on in a block.
    pub fn at(&mut self, b: usize)
        ensures
            final(self)@ == at(old(self)@, b),
    {
        reveal(at);
        self.block = b;
    }

    /// The block that steps are added to.
    pub fn here(&self) -> (r: usize)
        ensures
            r == here(self@),
    {
        self.block
    }

    /// The function that is being lowered.
    pub fn this_function(&self) -> (r: Option<usize>)
        ensures
            r == this_function(self@),
    {
        self.func
    }

    /// Whether the main function is being lowered.
    pub fn in_main(&self) -> (r: bool)
        ensures
            r == in_main(self@),
    {
        self.is_main
    }

    /// The class that is being lowered.
    pub fn this_class(&self) -> (r: Option<usize>)
        ensures
            r == this_class(self@),
    {
        self.class
    }

    /// Starts or ends a function of a class.
    pub fn set_function(&mut self, func: Option<usize>, is_main: bool, class: Option<usize>)
        ensures
            final(self)@ == set_function(old(self)@, func, is_main, class),
    {
        reveal(set_function);
        self.func = func;
        self.is_main = is_main;
        self.class = class;
    }

    /// The number of the next closure.
    pub fn next_closure(&mut self) -> (r: usize)
        ensures
            (r, final(self)@) == next_closure(old(self)@),
    {
        reveal(next_closure);
        let n: usize = self.closures;
        if n < usize::MAX {
            self.closures = n + 1;
        }
        n
    }

    /// The entry of a string.
    pub fn text(&mut self, s: &str) -> (r: usize)
        ensures
            (r, final(self)@) == text(old(self)@, s@),
    {
        reveal(text);
        let n: usize = self.texts.len();
        self.texts.push(copy_text(s));
        n
    }

    /// Whether step `k` returns what the function gives in which it stands.
    fn does_give(&self, k: usize) -> (r: bool)
        requires
            k < self.steps.len(),
        ensures
            r == step_gives(self@, k as int),
    {
        let b = self.steps[k].block;
        if b < self.blocks.len() && self.blocks[b].func < self.funcs.len() {
            let want = self.funcs[self.blocks[b].func].ret;
            match self.steps[k].op {
                Op::Return(v) => match want {
                    Some(t) => t == v.ty,
                    None => false,
                },
                Op::ReturnVoid => want.is_none(),
                _ => true,
            }
        } else {
            true
        }
    }

    /// Whether every block of a function has its last step, and the function returns what it gives.
    pub fn is_sound(&self, f: usize) -> (r: bool)
        ensures
            r == is_sound(self@, f),
    {
        let mut ok = true;
        let mut n: usize = 0;
        while n < self.blocks.len()
            invariant
                n <= self.blocks.len(),
                ok == closed_to(self@, f, n as nat),
            decreases self.blocks.len() - n,
        {
            if self.blocks[n].func == f && !(n < self.ended.len() && self.ended[n]) {
                ok = false;
            }
            n = n + 1;
        }
        let mut fits = true;
        let mut k: usize = 0;
        while k < self.steps.len()
            invariant
                k <= self.steps.len(),
                fits == gives_to(self@, f, k as nat),
            decreases self.steps.len() - k,
        {
            let b = self.steps[k].block;
            if b < self.blocks.len() && self.blocks[b].func == f && !self.does_give(k) {
                fits = false;
            }
            k = k + 1;
        }
        ok && fits
    }

    fn find_runtime(&self, name: &str) -> (r: Option<Runtime>)
        ensures
            r == named_runtime(name@),
    {
        if text::same_str(name, "puts") {
            Some(Runtime::Puts)
        } else if text::same_str(name, "printf") {
            Some(Runtime::Printf)
        } else if text::same_str(name, "abort") {
            Some(Runtime::Abort)
        } else if text::same_str(name, "strcat") {
            Some(Runtime::Strcat)
        } else if text::same_str(name, "sprintf") {
            Some(Runtime::Sprintf)
        } else if text::same_str(name, "strdup") {
            Some(Runtime::Strdup)
        } else if text::same_str(name, "strcmp") {
            Some(Runtime::Strcmp)
        } else if text::same_str(name, "strlen") {
            Some(Runtime::Strlen)
        } else {
            None
        }
    }

    /// The function of the C library of a name, where the code so far calls it.
    pub fn brought_in(&self, name: &str) -> (r: Option<Runtime>)
        ensures
            r == brought_in(self@, name@),
    {
        match self.find_runtime(name) {
            Some(f) => {
                let mut found = false;
                let mut n: usize = 0;
                while n < self.steps.len()
                    invariant
                        n <= self.steps.len(),
                        found == calls_to(self@, f, n as nat),
                    decreases self.steps.len() - n,
                {
                    if let Op::CallRuntime(g, _) = self.steps[n].op {
                        if g == f {
                            found = true;
                        }
                    }
                    n = n + 1;
                }
                if found {
                    Some(f)
                } else {
                    None
                }
            },
            None => None,
        }
    }

    /// Declares a layout.
    pub fn add_layout(&mut self, name: &str, is_enum: bool) -> (r: usize)
        ensures
            (r, final(self)@) == add_layout(old(self)@, name@, is_enum),
    {
        reveal(add_layout);
        assert(ast::names_of(self.layout_names@).len() == self.layout_names@.len());
        let n: usize = self.layout_names.len();
        self.layout_names.push(copy_text(name));
        self.layout_enums.push(is_enum);
        n
    }

    /// Adds a field to a layout.
    pub fn add_field(&mut self, name: &str, info: FieldInfo, default: Option<&'a Expr>)
        ensures
            final(self)@ == add_field(old(self)@, name@, info, default),
    {
        reveal(add_field);
        self.field_names.push(copy_text(name));
        self.fields.push(info);
        self.defaults.push(default);
    }

    /// Adds a variant to an enum.
    pub fn add_tag(&mut self, name: &str, info: TagInfo)
        ensures
            final(self)@ == add_tag(old(self)@, name@, info),
    {
        reveal(add_tag);
        self.tag_names.push(copy_text(name));
        self.tags.push(info);
    }

    /// Adds a member to a class.
    pub fn add_member(&mut self, name: &str, info: Member)
        ensures
            final(self)@ == add_member(old(self)@, name@, info),
    {
        reveal(add_member);
        self.member_names.push(copy_text(name));
        self.members.push(info);
    }

    /// Starts the parameters of a function.
    pub fn param_start(&mut self) -> (r: usize)
        ensures
            (r, final(self)@) == param_start(old(self)@),
    {
        reveal(param_start);
        self.params.len()
    }

    /// Adds a parameter of the function that is declared next.
    pub fn add_param(&mut self, name: &str, info: ParamInfo)
        ensures
            final(self)@ == add_param(old(self)@, name@, info),
    {
        reveal(add_param);
        self.param_names.push(copy_text(name));
        self.params.push(info);
    }

    /// Declares a function.
    pub fn add_function(&mut self, name: &str, info: FuncInfo) -> (r: usize)
        ensures
            (r, final(self)@) == add_function(old(self)@, name@, info),
    {
        reveal(add_function);
        assert(ast::names_of(self.func_names@).len() == self.func_names@.len());
        let n: usize = self.func_names.len();
        self.func_names.push(copy_text(name));
        self.funcs.push(info);
        n
    }

    /// Declares a global.
    pub fn add_global(&mut self, name: &str, info: GlobalInfo)
        ensures
            final(self)@ == add_global(old(self)@, name@, info),
    {
        reveal(add_global);
        self.global_names.push(copy_text(name));
        self.globals.push(info);
    }

    /// Adds an initial value.
    pub fn add_const(&mut self, v: Operand)
        ensures
            final(self)@ == add_const(old(self)@, v),
    {
        reveal(add_const);
        self.consts.push(v);
    }

    /// The number of initial values.
    pub fn const_count(&self) -> (r: usize)
        ensures
            r == const_count(self@),
    {
        self.consts.len()
    }

    /// The layout of field entry `k`.
    pub fn field_layout(&self, k: usize) -> (r: Option<usize>)
        ensures
            r == field_layout(self@, k),
    {
        if k < self.fields.len() {
            Some(self.fields[k].layout)
        } else {
            None
        }
    }

    /// The name of a layout.
    pub fn layout_name_of(&self, l: usize) -> (r: String)
        ensures
            r@ == layout_name(self@, l),
    {
        assert(ast::names_of(self.layout_names@).len() == self.layout_names@.len());
        if l < self.layout_names.len() {
            assert(ast::names_of(self.layout_names@)[l as int] == self.layout_names@[l as int]@);
            copy_text(self.layout_names[l].as_str())
        } else {
            copy_text("")
        }
    }

    /// The first constructor of a class that takes `n` arguments.
    pub fn constructor_for(&self, l: usize, n: usize) -> (r: Option<usize>)
        ensures
            r == constructor_for(self@, l, n),
    {
        let mut i: usize = 0;
        while i < self.members.len()
            invariant
                i <= self.members.len(),
                constructor_for_from(self.members@, l, n, 0) == constructor_for_from(self.members@, l, n, i as int),
            decreases self.members.len() - i,
        {
            if self.members[i].layout == l && self.members[i].kind == MemberKind::Constructor && self.members[i].params == n {
                return Some(i);
            }
            i = i + 1;
        }
        None
    }

    /// The first constructor of a class.
    pub fn first_constructor(&self, l: usize) -> (r: Option<usize>)
        ensures
            r == first_constructor(self@, l),
    {
        let mut i: usize = 0;
        while i < self.members.len()
            invariant
                i <= self.members.len(),
                first_constructor_from(self.members@, l, 0) == first_constructor_from(self.members@, l, i as int),
            decreases self.members.len() - i,
        {
            if self.members[i].layout == l && self.members[i].kind == MemberKind::Constructor {
                return Some(i);
            }
            i = i + 1;
        }
        None
    }

    /// How many destructors a class has.
    pub fn destructor_count(&self, l: usize) -> (r: usize)
        ensures
            r == destructor_count(self@, l),
    {
        let mut c: usize = 0;
        let mut n: usize = 0;
        while n < self.members.len()
            invariant
                n <= self.members.len(),
                c == destructors_in(self.members@, l, n as nat),
                c <= n,
            decreases self.members.len() - n,
        {
            let m = self.members[n];
            if m.layout == l && m.kind == MemberKind::Destructor {
                c = c + 1;
            }
            n = n + 1;
        }
        c
    }

    /// Destructor number `k` of a class.
    pub fn destructor(&self, l: usize, k: usize) -> (r: Option<usize>)
        ensures
            r == destructor(self@, l, k),
    {
        let mut c: usize = 0;
        let mut n: usize = 0;
        let mut found: Option<usize> = None;
        while n < self.members.len()
            invariant
                n <= self.members.len(),
                c == destructors_in(self.members@, l, n as nat),
                c <= n,
                found == destructor_in(self.members@, l, k, n as nat),
            decreases self.members.len() - n,
        {
            let m = self.members[n];
            if m.layout == l && m.kind == MemberKind::Destructor {
                if c == k {
                    found = Some(n);
                }
                c = c + 1;
            }
            n = n + 1;
        }
        found
    }

    /// The last variant of this name, of any enum.
    pub fn any_tag(&self, name: &str) -> (r: Option<usize>)
        ensures
            r == any_tag(self@, name@),
    {
        let r = find_last(&self.tag_names, name);
        assert(ast::names_of(self.tag_names@).len() == self.tag_names@.len());
        r
    }

    /// Whether field entry `k` has this name.
    pub fn field_is(&self, k: usize, name: &str) -> (r: bool)
        ensures
            r == field_is(self@, k, name@),
    {
        assert(ast::names_of(self.field_names@).len() == self.field_names@.len());
        if k < self.field_names.len() {
            assert(ast::names_of(self.field_names@)[k as int] == self.field_names@[k as int]@);
            text::same_str(self.field_names[k].as_str(), name)
        } else {
            false
        }
    }

    /// How many fields a layout has.
    pub fn field_total(&self, l: usize) -> (r: u32)
        ensures
            r == field_total(self@, l),
    {
        let mut c: usize = 0;
        let mut n: usize = 0;
        while n < self.fields.len()
            invariant
                n <= self.fields.len(),
                c == fields_in(self.fields@, l, n as nat),
                c <= n,
            decreases self.fields.len() - n,
        {
            if self.fields[n].layout == l {
                c = c + 1;
            }
            n = n + 1;
        }
        c as u32
    }

    /// Whether field entry `k` is the one that its name stands for.
    pub fn is_current_field(&self, k: usize) -> (r: bool)
        ensures
            r == is_current_field(self@, k),
    {
        assert(ast::names_of(self.field_names@).len() == self.field_names@.len());
        if k < self.field_names.len() && k < self.fields.len() {
            assert(ast::names_of(self.field_names@)[k as int] == self.field_names@[k as int]@);
            match self.field_entry(self.field_names[k].as_str(), self.fields[k].layout) {
                Some(j) => j == k,
                None => false,
            }
        } else {
            false
        }
    }

    /// Adds field entry `k` to another layout, as its next field.
    pub fn copy_field(&mut self, k: usize, l: usize)
        ensures
            final(self)@ == copy_field(old(self)@, k, l),
    {
        reveal(copy_field);
        assert(ast::names_of(self.field_names@).len() == self.field_names@.len());
        if k < self.fields.len() && k < self.field_names.len() && k < self.defaults.len() {
            assert(ast::names_of(self.field_names@)[k as int] == self.field_names@[k as int]@);
            let index = self.field_total(l);
            let name = copy_text(self.field_names[k].as_str());
            let ty = self.fields[k].ty;
            let default = self.defaults[k];
            self.field_names.push(name);
            self.fields.push(FieldInfo { layout: l, index, ty });
            self.defaults.push(default);
        }
    }

    /// Whether one of the first `n` members of a class has the name of member `k` and is, like it, a method, or like it part of a property.
    pub fn owns_like(&self, k: usize, l: usize, n: usize) -> (r: bool)
        ensures
            r == owns_like(self@, k, l, n),
    {
        assert(ast::names_of(self.member_names@).len() == self.member_names@.len());
        let mut found = false;
        let mut i: usize = 0;
        while i < n
            invariant
                i <= n,
                found == like_in(self@, k, l, i as nat),
                ast::names_of(self.member_names@).len() == self.member_names@.len(),
            decreases n - i,
        {
            if i < self.members.len() && i < self.member_names.len() && k < self.members.len() && k < self.member_names.len() {
                assert(ast::names_of(self.member_names@)[k as int] == self.member_names@[k as int]@);
                assert(ast::names_of(self.member_names@)[i as int] == self.member_names@[i as int]@);
                let m = self.members[i];
                let o = self.members[k];
                if m.layout == l && text::same_str(self.member_names[i].as_str(), self.member_names[k].as_str())
                    && (m.kind == MemberKind::Method) == (o.kind == MemberKind::Method) && (m.kind == MemberKind::Method
                    || m.kind == MemberKind::Getter || m.kind == MemberKind::Setter) {
                    found = true;
                }
            }
            i = i + 1;
        }
        found
    }

    /// Adds member `k` to another class.
    pub fn copy_member(&mut self, k: usize, l: usize)
        ensures
            final(self)@ == copy_member(old(self)@, k, l),
    {
        reveal(copy_member);
        assert(ast::names_of(self.member_names@).len() == self.member_names@.len());
        if k < self.members.len() && k < self.member_names.len() {
            assert(ast::names_of(self.member_names@)[k as int] == self.member_names@[k as int]@);
            let name = copy_text(self.member_names[k].as_str());
            let m = self.members[k];
            self.member_names.push(name);
            self.members.push(Member { layout: l, kind: m.kind, func: m.func, params: m.params });
        }
    }

    /// Whether every block has its last step, and every function returns what it gives.
    pub fn all_sound(&self) -> (r: bool)
        ensures
            r == all_sound(self@),
    {
        let mut ok = true;
        let mut n: usize = 0;
        while n < self.blocks.len()
            invariant
                n <= self.blocks.len(),
                ok == all_closed_to(self@, n as nat),
            decreases self.blocks.len() - n,
        {
            if !(n < self.ended.len() && self.ended[n]) {
                ok = false;
            }
            n = n + 1;
        }
        let mut fits = true;
        let mut k: usize = 0;
        while k < self.steps.len()
            invariant
                k <= self.steps.len(),
                fits == all_give_to(self@, k as nat),
            decreases self.steps.len() - k,
        {
            if !self.does_give(k) {
                fits = false;
            }
            k = k + 1;
        }
        ok && fits
    }

    /// The layout of the last part of a name.
    pub fn base_layout(&self, name: &str) -> (r: Option<usize>)
        ensures
            r == base_layout(self@, name@),
    {
        let b = base_of(name);
        self.layout(b.as_str())
    }
}

} // verus!
