//! Declarations of types, classes and functions.
use vstd::prelude::*;
use crate::ast::{
    Block, ConstructorDecl, DestructorDecl, ClassDecl, EnumDecl, ExprKind, ExtensionDecl,
    ExtensionMember, ExternMember, Function, OperatorDecl, Param, PropertyDecl, StructDecl,
    StructField, AliasDecl, Type, VariantDecl, ParamMode,
};
use crate::codegen::ir::{
    FieldInfo, FuncInfo, GlobalForm, GlobalInfo, Member, MemberKind, ParamInfo,
    TagInfo, F32, F64, I1, I32, I64, PTR,
};
use crate::codegen::lower;
use crate::codegen::calls;
use crate::codegen::nest;
use crate::codegen::nest::Nest;
use crate::codegen::state;
use crate::codegen::state::{Codegen, CodegenError, Failure, State, base_of, fault_naming, join3, number3, op_word_of};
use crate::text;

verus! {

/// Adds fields to a layout from `i` on.
#[verifier::opaque]
pub open spec fn add_fields<'a>(nest: Nest<'a>, st: State<'a>, l: usize, fs: &'a Vec<StructField>, i: usize) -> Result<((), State<'a>), Failure<'a>>
    decreases fs.len() - i,
{
    if i >= fs.len() {
        Ok(((), st))
    } else {
        let f = &fs@[i as int];
        match add_one_field(nest, st, l, f) {
            Ok((_, st)) => {
                add_fields(nest, st, l, fs, (i + 1) as usize)
            },
            Err(e) => Err(e),
        }
    }
}

/// Adds a field to a layout.
#[verifier::opaque]
pub open spec fn add_one_field<'a>(nest: Nest<'a>, st: State<'a>, l: usize, f: &'a StructField) -> Result<((), State<'a>), Failure<'a>>
{
    match (nest.ty)(st, &f.ty) {
        Ok((t, st)) => {
            let k = state::field_total(st, l);
            match f.default {
                Some(e) => {
                    let st = state::add_field(st, f.name@, FieldInfo { layout: l, index: k, ty: t }, Some(&e));
                    Ok(((), st))
                },
                _ => {
                    let st = state::add_field(st, f.name@, FieldInfo { layout: l, index: k, ty: t }, None);
                    Ok(((), st))
                },
            }
        },
        Err(e) => Err(e),
    }
}

/// The struct or class of a name.
#[verifier::opaque]
pub open spec fn struct_named<'a>(st: State<'a>, n: Seq<char>) -> Option<usize>
{
    match state::layout(st, n) {
        Some(l) => {
            if state::is_enum(st, l) {
                None
            } else {
                Some(l)
            }
        },
        _ => {
            None
        },
    }
}

/// Whether a name is that of a struct or class.
#[verifier::opaque]
pub open spec fn is_struct_name<'a>(st: State<'a>, n: Seq<char>) -> bool
{
    match struct_named(st, n) {
        Some(_) => {
            true
        },
        _ => {
            false
        },
    }
}

/// Whether a name is that of a declared type.
#[verifier::opaque]
pub open spec fn is_type_name<'a>(st: State<'a>, n: Seq<char>) -> bool
{
    match state::layout(st, n) {
        Some(_) => {
            true
        },
        _ => {
            false
        },
    }
}

/// Declares a struct.
#[verifier::opaque]
pub open spec fn declare_struct<'a>(nest: Nest<'a>, st: State<'a>, s: &'a StructDecl) -> Result<((), State<'a>), Failure<'a>>
{
    if is_struct_name(st, s.name@) {
        Err(Failure { trouble: state::naming("duplicate struct "@, s.name@, ""@, s.name_span), after: st })
    } else {
        let (l, st) = state::add_layout(st, s.name@, false);
        add_fields(nest, st, l, &s.fields, 0)
    }
}

/// Passes on the fields of a class among the field entries `k..n`.
#[verifier::opaque]
pub open spec fn inherit_fields<'a>(st: State<'a>, parent: usize, l: usize, k: usize, n: usize) -> State<'a>
    decreases n-k,
{
    if k >= n {
        st
    } else {
        let st = if state::field_layout(st, k) == Some(parent) && state::is_current_field(st, k) {
            state::copy_field(st, k, l)
        } else {
            st
        };
        let st = inherit_fields(st, parent, l, (k + 1) as usize, n);
        st
    }
}

/// Passes on the methods, or the properties, of a class among the members `k..n` that class `l` does not have.
#[verifier::opaque]
pub open spec fn inherit_members<'a>(st: State<'a>, parent: usize, l: usize, methods: bool, k: usize, n: usize) -> State<'a>
    decreases n-k,
{
    if k >= n {
        st
    } else {
        let m = state::member_info(st, k);
        let st = if m.layout == parent && is_passed_on(m.kind, methods) && !state::owns_like(st, k, l, n) {
            state::copy_member(st, k, l)
        } else {
            st
        };
        let st = inherit_members(st, parent, l, methods, (k + 1) as usize, n);
        st
    }
}

/// Whether members of a kind are passed on with the methods, or with the properties.
#[verifier::opaque]
pub open spec fn is_passed_on(kind: MemberKind, methods: bool) -> bool
{
    match kind {
        MemberKind::Method => {
            methods
        },
        MemberKind::Getter => {
            !methods
        },
        MemberKind::Setter => {
            !methods
        },
        _ => {
            false
        },
    }
}

/// The class that a class extends.
#[verifier::opaque]
pub open spec fn parent_of<'a>(st: State<'a>, c: &'a ClassDecl) -> Option<usize>
{
    match c.extends {
        Some(Type::Named(n)) => {
            struct_named(st, n@)
        },
        _ => {
            None
        },
    }
}

/// The type of the values that parameter `i` gathers: its own, or that of the parameter before it.
#[verifier::opaque]
pub open spec fn variadic_elem<'a>(nest: Nest<'a>, st: State<'a>, ps: &'a Vec<Param>, i: usize) -> Result<(usize, State<'a>), Failure<'a>>
{
    if i < ps.len() {
        let q = &ps@[i as int];
        if lower::is_derived(&q.ty) {
            if i == 0 {
                Ok((I64, st))
            } else {
                let j = (i - 1) as usize;
                let p = &ps@[j as int];
                (nest.ty)(st, &p.ty)
            }
        } else {
            (nest.ty)(st, &q.ty)
        }
    } else {
        Ok((I64, st))
    }
}

/// The type of gathered values in a function: an array of integers or addresses, and of structs where `structs` tells so.
#[verifier::opaque]
pub open spec fn gathered<'a>(st: State<'a>, e: usize, structs: bool) -> (usize, State<'a>)
{
    if lower::is_int(st, e) {
        let (r, st) = lower::array_of(st, I64, 16);
        (r, st)
    } else if lower::is_ptr(st, e) || structs && lower::is_struct(st, e) {
        let (r, st) = lower::array_of(st, e, 16);
        (r, st)
    } else {
        (e, st)
    }
}

/// Declares parameter `i` of a method.
#[verifier::opaque]
pub open spec fn method_param<'a>(nest: Nest<'a>, st: State<'a>, ps: &'a Vec<Param>, i: usize) -> Result<((), State<'a>), Failure<'a>>
{
    if i < ps.len() {
        let q = &ps@[i as int];
        if q.is_variadic {
            match variadic_elem(nest, st, ps, i) {
                Ok((e, st)) => {
                    let (t, st) = lower::array_of(st, e, 16);
                    let st = state::add_param(st, q.name@, ParamInfo { ty: Some(t), elem: Some(e), is_variadic: true });
                    Ok(((), st))
                },
                Err(e) => Err(e),
            }
        } else {
            match (nest.ty)(st, &q.ty) {
                Ok((t, st)) => {
                    let st = state::add_param(st, q.name@, ParamInfo { ty: Some(t), elem: None, is_variadic: false });
                    Ok(((), st))
                },
                Err(e) => Err(e),
            }
        }
    } else {
        Ok(((), st))
    }
}

/// Declares the parameters of a method from `i` on.
#[verifier::opaque]
pub open spec fn method_params<'a>(nest: Nest<'a>, st: State<'a>, ps: &'a Vec<Param>, i: usize) -> Result<((), State<'a>), Failure<'a>>
    decreases ps.len() - i,
{
    if i >= ps.len() {
        Ok(((), st))
    } else {
        match method_param(nest, st, ps, i) {
            Ok((_, st)) => {
                method_params(nest, st, ps, (i + 1) as usize)
            },
            Err(e) => Err(e),
        }
    }
}

/// Declares a function that works on an object.
#[verifier::opaque]
pub open spec fn add_method<'a>(nest: Nest<'a>, st: State<'a>, name: Seq<char>, r: Option<usize>, ps: &'a Vec<Param>) -> Result<(usize, State<'a>), Failure<'a>>
{
    let (first, st) = state::param_start(st);
    let st = state::add_param(st, "this"@, ParamInfo { ty: Some(PTR), elem: None, is_variadic: false });
    match method_params(nest, st, ps, 0) {
        Ok((_, st)) => {
            let (f, st) = state::add_function(st, name, FuncInfo { ret: r, c_varargs: false, converts: false, first: first, count: calls::more(ps.len()) });
            Ok((f, st))
        },
        Err(e) => Err(e),
    }
}

/// Declares a method of a type.
#[verifier::opaque]
pub open spec fn declare_method<'a>(nest: Nest<'a>, st: State<'a>, c: Seq<char>, l: Option<usize>, f: &'a Function) -> Result<((), State<'a>), Failure<'a>>
{
    match lower::ret_ty(nest, st, &f.ret_ty) {
        Ok((r, st)) => {
            let name = state::joined(c, "__"@, f.name@);
            match add_method(nest, st, name, r, &f.params) {
                Ok((k, st)) => {
                    match l {
                        Some(t) => {
                            let st = state::add_member(st, f.name@, Member { layout: t, kind: MemberKind::Method, func: k, params: f.params.len() });
                            Ok(((), st))
                        },
                        _ => {
                            Ok(((), st))
                        },
                    }
                },
                Err(e) => Err(e),
            }
        },
        Err(e) => Err(e),
    }
}

/// Declares the methods of a class from `i` on.
#[verifier::opaque]
pub open spec fn declare_methods<'a>(nest: Nest<'a>, st: State<'a>, c: Seq<char>, l: usize, fs: &'a Vec<Function>, i: usize) -> Result<((), State<'a>), Failure<'a>>
    decreases fs.len() - i,
{
    if i >= fs.len() {
        Ok(((), st))
    } else {
        match declare_method(nest, st, c, Some(l), &fs@[i as int]) {
            Ok((_, st)) => {
                declare_methods(nest, st, c, l, fs, (i + 1) as usize)
            },
            Err(e) => Err(e),
        }
    }
}

/// Declares an operator of a type; it returns an integer.
#[verifier::opaque]
pub open spec fn declare_operator<'a>(nest: Nest<'a>, st: State<'a>, c: Seq<char>, l: Option<usize>, o: &'a OperatorDecl) -> Result<((), State<'a>), Failure<'a>>
{
    let w = state::op_word(o.op@);
    let name = state::joined(c, "__op_"@, w);
    match add_method(nest, st, name, Some(I64), &o.params) {
        Ok((k, st)) => {
            match l {
                Some(t) => {
                    let st = state::add_member(st, o.op@, Member { layout: t, kind: MemberKind::Operator, func: k, params: o.params.len() });
                    Ok(((), st))
                },
                _ => {
                    Ok(((), st))
                },
            }
        },
        Err(e) => Err(e),
    }
}

/// Declares the operators of a class from `i` on.
#[verifier::opaque]
pub open spec fn declare_operators<'a>(nest: Nest<'a>, st: State<'a>, c: Seq<char>, l: usize, os: &'a Vec<OperatorDecl>, i: usize) -> Result<((), State<'a>), Failure<'a>>
    decreases os.len() - i,
{
    if i >= os.len() {
        Ok(((), st))
    } else {
        match declare_operator(nest, st, c, Some(l), &os@[i as int]) {
            Ok((_, st)) => {
                declare_operators(nest, st, c, l, os, (i + 1) as usize)
            },
            Err(e) => Err(e),
        }
    }
}

/// Declares the constructors of a class from `i` on.
#[verifier::opaque]
pub open spec fn declare_ctors<'a>(nest: Nest<'a>, st: State<'a>, c: Seq<char>, l: usize, cs: &'a Vec<ConstructorDecl>, i: usize) -> Result<((), State<'a>), Failure<'a>>
    decreases cs.len() - i,
{
    if i >= cs.len() {
        Ok(((), st))
    } else {
        let d = &cs@[i as int];
        let name = state::numbered(c, "__ctor"@, cs.len() > 1, i);
        match add_method(nest, st, name, None, &d.params) {
            Ok((k, st)) => {
                let st = state::add_member(st, d.name@, Member { layout: l, kind: MemberKind::Constructor, func: k, params: d.params.len() });
                declare_ctors(nest, st, c, l, cs, (i + 1) as usize)
            },
            Err(e) => Err(e),
        }
    }
}

/// Declares a function that works on an object alone.
#[verifier::opaque]
pub open spec fn add_plain_method<'a>(st: State<'a>, name: Seq<char>, r: Option<usize>) -> (usize, State<'a>)
{
    let (first, st) = state::param_start(st);
    let st = state::add_param(st, "this"@, ParamInfo { ty: Some(PTR), elem: None, is_variadic: false });
    let (f, st) = state::add_function(st, name, FuncInfo { ret: r, c_varargs: false, converts: false, first: first, count: 1 });
    (f, st)
}

/// Declares the destructors of a class from `i` on.
#[verifier::opaque]
pub open spec fn declare_dtors<'a>(st: State<'a>, c: Seq<char>, l: usize, ds: &'a Vec<DestructorDecl>, i: usize) -> State<'a>
    decreases ds.len() - i,
{
    if i >= ds.len() {
        st
    } else {
        let d = &ds@[i as int];
        let name = state::numbered(c, "__dtor"@, ds.len() > 1, i);
        let (k, st) = add_plain_method(st, name, None);
        let st = state::add_member(st, d.name@, Member { layout: l, kind: MemberKind::Destructor, func: k, params: 0 });
        let st = declare_dtors(st, c, l, ds, (i + 1) as usize);
        st
    }
}

/// The type of a property: its own, that of its setter, or that of integers.
#[verifier::opaque]
pub open spec fn property_ty<'a>(nest: Nest<'a>, st: State<'a>, p: &'a PropertyDecl) -> Result<(usize, State<'a>), Failure<'a>>
{
    match p.ty {
        Some(t) => {
            (nest.ty)(st, &t)
        },
        _ => {
            match p.setter {
                Some(s) => {
                    (nest.ty)(st, &s.param.ty)
                },
                _ => {
                    Ok((I64, st))
                },
            }
        },
    }
}

/// Whether a type has a member.
#[verifier::opaque]
pub open spec fn has_member<'a>(st: State<'a>, n: Seq<char>, l: Option<usize>, kind: MemberKind) -> bool
{
    match l {
        Some(t) => {
            match state::member_entry(st, n, t, kind) {
                Some(_) => {
                    true
                },
                _ => {
                    false
                },
            }
        },
        _ => {
            false
        },
    }
}

/// Adds a member to a type.
#[verifier::opaque]
pub open spec fn note_member<'a>(st: State<'a>, n: Seq<char>, l: Option<usize>, kind: MemberKind, f: usize, params: usize) -> State<'a>
{
    match l {
        Some(t) => {
            let st = state::add_member(st, n, Member { layout: t, kind: kind, func: f, params: params });
            st
        },
        _ => {
            st
        },
    }
}

/// Declares the getter of a property, unless the type has one.
#[verifier::opaque]
pub open spec fn declare_getter<'a>(st: State<'a>, c: Seq<char>, l: Option<usize>, p: &'a PropertyDecl, t: usize) -> State<'a>
{
    if has_member(st, p.name@, l, MemberKind::Getter) {
        st
    } else {
        let name = state::joined(c, "__get_"@, p.name@);
        let (k, st) = add_plain_method(st, name, Some(t));
        let st = note_member(st, p.name@, l, MemberKind::Getter, k, 0);
        st
    }
}

/// Declares the setter of a property, unless the type has one.
#[verifier::opaque]
pub open spec fn declare_setter<'a>(nest: Nest<'a>, st: State<'a>, c: Seq<char>, l: Option<usize>, p: &'a PropertyDecl, q: &'a Param) -> Result<((), State<'a>), Failure<'a>>
{
    match (nest.ty)(st, &q.ty) {
        Ok((t, st)) => {
            if has_member(st, p.name@, l, MemberKind::Setter) {
                Ok(((), st))
            } else {
                let name = state::joined(c, "__set_"@, p.name@);
                let (first, st) = state::param_start(st);
                let st = state::add_param(st, "this"@, ParamInfo { ty: Some(PTR), elem: None, is_variadic: false });
                let st = state::add_param(st, q.name@, ParamInfo { ty: Some(t), elem: None, is_variadic: false });
                let (k, st) = state::add_function(st, name, FuncInfo { ret: None, c_varargs: false, converts: false, first: first, count: 2 });
                let st = note_member(st, p.name@, l, MemberKind::Setter, k, 1);
                Ok(((), st))
            }
        },
        Err(e) => Err(e),
    }
}

/// Whether there is a block.
#[verifier::opaque]
pub open spec fn is_given<'a>(st: State<'a>, b: &'a Option<Block>) -> bool
{
    match *b {
        Some(_) => {
            true
        },
        _ => {
            false
        },
    }
}

/// Declares the accessors of a property.
#[verifier::opaque]
pub open spec fn declare_property<'a>(nest: Nest<'a>, st: State<'a>, c: Seq<char>, l: Option<usize>, p: &'a PropertyDecl) -> Result<((), State<'a>), Failure<'a>>
{
    match property_ty(nest, st, p) {
        Ok((t, st)) => {
            let st = if is_given(st, &p.getter) {
                declare_getter(st, c, l, p, t)
            } else {
                st
            };
            match p.setter {
                Some(s) => {
                    match declare_setter(nest, st, c, l, p, &s.param) {
                        Ok((_, st)) => {
                            Ok(((), st))
                        },
                        Err(e) => Err(e),
                    }
                },
                _ => {
                    Ok(((), st))
                },
            }
        },
        Err(e) => Err(e),
    }
}

/// Declares the properties of a class from `i` on.
#[verifier::opaque]
pub open spec fn declare_properties<'a>(nest: Nest<'a>, st: State<'a>, c: Seq<char>, l: usize, ps: &'a Vec<PropertyDecl>, i: usize) -> Result<((), State<'a>), Failure<'a>>
    decreases ps.len() - i,
{
    if i >= ps.len() {
        Ok(((), st))
    } else {
        match declare_property(nest, st, c, Some(l), &ps@[i as int]) {
            Ok((_, st)) => {
                declare_properties(nest, st, c, l, ps, (i + 1) as usize)
            },
            Err(e) => Err(e),
        }
    }
}

/// Gives a class the fields of the one that it extends.
#[verifier::opaque]
pub open spec fn take_fields<'a>(st: State<'a>, c: &'a ClassDecl, l: usize) -> State<'a>
{
    match parent_of(st, c) {
        Some(p) => {
            let st = inherit_fields(st, p, l, 0, state::field_count(st));
            st
        },
        _ => {
            st
        },
    }
}

/// Gives a class the methods, or the properties, of the one that it extends.
#[verifier::opaque]
pub open spec fn take_members<'a>(st: State<'a>, c: &'a ClassDecl, l: usize, methods: bool) -> State<'a>
{
    match parent_of(st, c) {
        Some(p) => {
            let st = inherit_members(st, p, l, methods, 0, state::member_count(st));
            st
        },
        _ => {
            st
        },
    }
}

/// Declares a class: its fields after those of the class that it extends, and its members.
#[verifier::opaque]
pub open spec fn declare_class<'a>(nest: Nest<'a>, st: State<'a>, c: &'a ClassDecl) -> Result<((), State<'a>), Failure<'a>>
{
    if is_struct_name(st, c.name@) {
        Err(Failure { trouble: state::naming("duplicate class/struct `"@, c.name@, "`"@, c.name_span), after: st })
    } else {
        let (l, st) = state::add_layout(st, c.name@, false);
        let st = take_fields(st, c, l);
        match add_fields(nest, st, l, &c.fields, 0) {
            Ok((_, st)) => {
                match declare_methods(nest, st, c.name@, l, &c.methods, 0) {
                    Ok((_, st)) => {
                        match declare_operators(nest, st, c.name@, l, &c.operators, 0) {
                            Ok((_, st)) => {
                                let st = take_members(st, c, l, true);
                                match declare_ctors(nest, st, c.name@, l, &c.constructors, 0) {
                                    Ok((_, st)) => {
                                        let st = declare_dtors(st, c.name@, l, &c.destructors, 0);
                                        match declare_properties(nest, st, c.name@, l, &c.properties, 0) {
                                            Ok((_, st)) => {
                                                let st = take_members(st, c, l, false);
                                                Ok(((), st))
                                            },
                                            Err(e) => Err(e),
                                        }
                                    },
                                    Err(e) => Err(e),
                                }
                            },
                            Err(e) => Err(e),
                        }
                    },
                    Err(e) => Err(e),
                }
            },
            Err(e) => Err(e),
        }
    }
}

/// The tag of a variant: the integer that is written, else its position.
#[verifier::opaque]
pub open spec fn tag_of<'a>(v: &'a VariantDecl, i: usize) -> u32
{
    match v.discriminant {
        Some(e) => {
            match e.kind {
                ExprKind::IntLit(n) => {
                    n as u32
                },
                _ => {
                    i as u32
                },
            }
        },
        _ => {
            i as u32
        },
    }
}

/// Adds the variants of an enum from `i` on.
#[verifier::opaque]
pub open spec fn add_tags<'a>(st: State<'a>, l: usize, vs: &'a Vec<VariantDecl>, i: usize) -> State<'a>
    decreases vs.len() - i,
{
    if i >= vs.len() {
        st
    } else {
        let v = &vs@[i as int];
        let t = tag_of(v, i);
        let st = state::add_tag(st, v.name@, TagInfo { layout: l, tag: t });
        let st = add_tags(st, l, vs, (i + 1) as usize);
        st
    }
}

/// Declares an enum: a tag and a payload.
#[verifier::opaque]
pub open spec fn new_enum<'a>(st: State<'a>, n: Seq<char>, vs: &'a Vec<VariantDecl>) -> State<'a>
{
    let (l, st) = state::add_layout(st, n, true);
    let st = state::add_field(st, ""@, FieldInfo { layout: l, index: 0, ty: I32 }, None);
    let st = state::add_field(st, ""@, FieldInfo { layout: l, index: 1, ty: I64 }, None);
    let st = add_tags(st, l, vs, 0);
    st
}

/// Declares an enum.
#[verifier::opaque]
pub open spec fn declare_enum<'a>(st: State<'a>, e: &'a EnumDecl) -> Result<((), State<'a>), Failure<'a>>
{
    if is_type_name(st, e.name@) {
        Err(Failure { trouble: state::naming("duplicate enum `"@, e.name@, "`"@, e.name_span), after: st })
    } else {
        let st = new_enum(st, e.name@, &e.variants);
        Ok(((), st))
    }
}

/// Checks the type that an alias stands for.
#[verifier::opaque]
pub open spec fn declare_alias<'a>(nest: Nest<'a>, st: State<'a>, d: &'a AliasDecl) -> Result<((), State<'a>), Failure<'a>>
{
    match (nest.ty)(st, &d.ty) {
        Ok((t, st)) => {
            Ok(((), st))
        },
        Err(e) => Err(e),
    }
}

/// Declares a distinct type: a struct with one value.
#[verifier::opaque]
pub open spec fn declare_distinct<'a>(nest: Nest<'a>, st: State<'a>, d: &'a AliasDecl) -> Result<((), State<'a>), Failure<'a>>
{
    match (nest.ty)(st, &d.ty) {
        Ok((t, st)) => {
            if is_struct_name(st, d.name@) {
                Ok(((), st))
            } else {
                let (l, st) = state::add_layout(st, d.name@, false);
                let st = state::add_field(st, "value"@, FieldInfo { layout: l, index: 0, ty: t }, None);
                Ok(((), st))
            }
        },
        Err(e) => Err(e),
    }
}

/// Adds the fields of an extension from `i` on.
#[verifier::opaque]
pub open spec fn extend_fields<'a>(nest: Nest<'a>, st: State<'a>, l: usize, ms: &'a Vec<ExtensionMember>, i: usize) -> Result<((), State<'a>), Failure<'a>>
    decreases ms.len() - i,
{
    if i >= ms.len() {
        Ok(((), st))
    } else {
        match ms@[i as int] {
            ExtensionMember::Field(f) => {
                match add_one_field(nest, st, l, &f) {
                    Ok((_, st)) => {
                        match extend_fields(nest, st, l, ms, (i + 1) as usize) {
                            Ok((_, st)) => {
                                Ok(((), st))
                            },
                            Err(e) => Err(e),
                        }
                    },
                    Err(e) => Err(e),
                }
            },
            _ => {
                extend_fields(nest, st, l, ms, (i + 1) as usize)
            },
        }
    }
}

/// Declares a member of an extension.
#[verifier::opaque]
pub open spec fn extend_member<'a>(nest: Nest<'a>, st: State<'a>, n: Seq<char>, l: Option<usize>, m: &'a ExtensionMember) -> Result<((), State<'a>), Failure<'a>>
{
    match *m {
        ExtensionMember::Function(f) => {
            match declare_method(nest, st, n, l, &f) {
                Ok((_, st)) => {
                    Ok(((), st))
                },
                Err(e) => Err(e),
            }
        },
        ExtensionMember::Operator(o) => {
            match declare_operator(nest, st, n, l, &o) {
                Ok((_, st)) => {
                    Ok(((), st))
                },
                Err(e) => Err(e),
            }
        },
        ExtensionMember::Property(p) => {
            match declare_property(nest, st, n, l, &p) {
                Ok((_, st)) => {
                    Ok(((), st))
                },
                Err(e) => Err(e),
            }
        },
        _ => {
            Ok(((), st))
        },
    }
}

/// Declares the members of an extension from `i` on.
#[verifier::opaque]
pub open spec fn extend_members<'a>(nest: Nest<'a>, st: State<'a>, n: Seq<char>, l: Option<usize>, ms: &'a Vec<ExtensionMember>, i: usize) -> Result<((), State<'a>), Failure<'a>>
    decreases ms.len() - i,
{
    if i >= ms.len() {
        Ok(((), st))
    } else {
        match extend_member(nest, st, n, l, &ms@[i as int]) {
            Ok((_, st)) => {
                extend_members(nest, st, n, l, ms, (i + 1) as usize)
            },
            Err(e) => Err(e),
        }
    }
}

/// Declares the fields and members that an extension adds to a type.
#[verifier::opaque]
pub open spec fn extend<'a>(nest: Nest<'a>, st: State<'a>, n: Seq<char>, ms: &'a Vec<ExtensionMember>) -> Result<((), State<'a>), Failure<'a>>
{
    match struct_named(st, n) {
        Some(l) => {
            match extend_fields(nest, st, l, ms, 0) {
                Ok((_, st)) => {
                    match extend_members(nest, st, n, Some(l), ms, 0) {
                        Ok((_, st)) => {
                            Ok(((), st))
                        },
                        Err(e) => Err(e),
                    }
                },
                Err(e) => Err(e),
            }
        },
        _ => {
            extend_members(nest, st, n, state::layout(st, n), ms, 0)
        },
    }
}

/// Declares an extension; one of a type without a name adds nothing.
#[verifier::opaque]
pub open spec fn declare_extension<'a>(nest: Nest<'a>, st: State<'a>, x: &'a ExtensionDecl) -> Result<((), State<'a>), Failure<'a>>
{
    match x.ty {
        Type::Named(n) => {
            match (nest.ty)(st, &x.ty) {
                Ok((t, st)) => {
                    match extend(nest, st, n@, &x.members) {
                        Ok((_, st)) => {
                            Ok(((), st))
                        },
                        Err(e) => Err(e),
                    }
                },
                Err(e) => Err(e),
            }
        },
        Type::Generic(n, _) => {
            match (nest.ty)(st, &x.ty) {
                Ok((t, st)) => {
                    match extend(nest, st, n@, &x.members) {
                        Ok((_, st)) => {
                            Ok(((), st))
                        },
                        Err(e) => Err(e),
                    }
                },
                Err(e) => Err(e),
            }
        },
        _ => {
            Ok(((), st))
        },
    }
}

/// Whether a parameter is the `...` of C.
#[verifier::opaque]
pub open spec fn is_open_end<'a>(p: &'a Param) -> bool
{
    p.is_variadic && (p.name@ == ""@)
}

/// Whether a parameter from `i` on is the `...` of C.
#[verifier::opaque]
pub open spec fn has_open_end<'a>(ps: &'a Vec<Param>, i: usize) -> bool
    decreases ps.len() - i,
{
    if i >= ps.len() {
        false
    } else if is_open_end(&ps@[i as int]) {
        true
    } else {
        has_open_end(ps, (i + 1) as usize)
    }
}

/// The result type of a foreign function whose written type is a name; integers of other widths count as nothing.
#[verifier::opaque]
pub open spec fn foreign_named<'a>(st: State<'a>, n: Seq<char>) -> Result<(Option<usize>, State<'a>), Failure<'a>>
{
    let b = state::base_name(n);
    match state::int_name(b) {
        Some(_) => {
            Ok((None, st))
        },
        _ => {
            match lower::named_ty(st, n) {
                Ok((r, st)) => {
                    Ok((Some(r), st))
                },
                Err(e) => Err(e),
            }
        },
    }
}

/// The result type of a foreign function; other types than plain and declared ones count as nothing.
#[verifier::opaque]
pub open spec fn foreign_ret<'a>(nest: Nest<'a>, st: State<'a>, t: &'a Type) -> Result<(Option<usize>, State<'a>), Failure<'a>>
{
    match *t {
        Type::Int => {
            Ok((Some(I64), st))
        },
        Type::Bool => {
            Ok((Some(I1), st))
        },
        Type::Char => {
            Ok((Some(I32), st))
        },
        Type::Str => {
            Ok((Some(PTR), st))
        },
        Type::Float => {
            Ok((Some(F32), st))
        },
        Type::Double => {
            Ok((Some(F64), st))
        },
        Type::Named(n) => {
            foreign_named(st, n@)
        },
        Type::Generic(_, _) => {
            (nest.held_ty)(st, t)
        },
        _ => {
            Ok((None, st))
        },
    }
}

/// A type, where there is one, else that of integers.
#[verifier::opaque]
pub open spec fn or_int(h: Option<usize>) -> usize
{
    match h {
        Some(t) => {
            t
        },
        _ => {
            I64
        },
    }
}

/// Declares the parameters of a foreign function from `i` on that are something; how many there are.
#[verifier::opaque]
pub open spec fn foreign_params<'a>(nest: Nest<'a>, st: State<'a>, ps: &'a Vec<Param>, i: usize) -> Result<(usize, State<'a>), Failure<'a>>
    decreases ps.len() - i,
{
    if i >= ps.len() {
        Ok((0, st))
    } else {
        let q = &ps@[i as int];
        if is_open_end(q) {
            foreign_params(nest, st, ps, (i + 1) as usize)
        } else {
            match (nest.held_ty)(st, &q.ty) {
                Ok((h, st)) => {
                    if q.is_variadic {
                        let e = or_int(h);
                        let (a, st) = lower::array_of(st, e, 16);
                        let st = state::add_param(st, q.name@, ParamInfo { ty: Some(a), elem: Some(e), is_variadic: true });
                        match foreign_params(nest, st, ps, (i + 1) as usize) {
                            Ok((n, st)) => {
                                Ok((calls::more(n), st))
                            },
                            Err(e) => Err(e),
                        }
                    } else {
                        match h {
                            Some(t) => {
                                let st = state::add_param(st, q.name@, ParamInfo { ty: Some(t), elem: None, is_variadic: false });
                                match foreign_params(nest, st, ps, (i + 1) as usize) {
                                    Ok((n, st)) => {
                                        Ok((calls::more(n), st))
                                    },
                                    Err(e) => Err(e),
                                }
                            },
                            _ => {
                                foreign_params(nest, st, ps, (i + 1) as usize)
                            },
                        }
                    }
                },
                Err(e) => Err(e),
            }
        }
    }
}

/// Whether the only parameter is a string.
#[verifier::opaque]
pub open spec fn takes_one_string<'a>(ps: &'a Vec<Param>) -> bool
{
    if ps.len() == 1 {
        let q = &ps@[0 as int];
        lower::is_str_ty(&q.ty)
    } else {
        false
    }
}

/// Declares the formatted output of C.
#[verifier::opaque]
pub open spec fn foreign_printf<'a>(st: State<'a>, n: Seq<char>) -> State<'a>
{
    let (first, st) = state::param_start(st);
    let st = state::add_param(st, "format"@, ParamInfo { ty: Some(PTR), elem: None, is_variadic: false });
    let (f, st) = state::add_function(st, n, FuncInfo { ret: Some(I32), c_varargs: true, converts: false, first: first, count: 1 });
    st
}

/// Whether a name is that of a function.
#[verifier::opaque]
pub open spec fn is_function<'a>(st: State<'a>, n: Seq<char>) -> bool
{
    match state::function(st, n) {
        Some(_) => {
            true
        },
        _ => {
            false
        },
    }
}

/// Declares a foreign function, unless there is one of its name.
#[verifier::opaque]
pub open spec fn foreign_function<'a>(nest: Nest<'a>, st: State<'a>, t: &'a Type, n: Seq<char>, ps: &'a Vec<Param>) -> Result<((), State<'a>), Failure<'a>>
{
    if is_function(st, n) {
        Ok(((), st))
    } else {
        let open = has_open_end(ps, 0);
        if (n == "printf"@) && (open || takes_one_string(ps)) {
            let st = foreign_printf(st, n);
            Ok(((), st))
        } else {
            match foreign_ret(nest, st, t) {
                Ok((r, st)) => {
                    let (first, st) = state::param_start(st);
                    match foreign_params(nest, st, ps, 0) {
                        Ok((k, st)) => {
                            let (f, st) = state::add_function(st, n, FuncInfo { ret: r, c_varargs: open, converts: false, first: first, count: k });
                            Ok(((), st))
                        },
                        Err(e) => Err(e),
                    }
                },
                Err(e) => Err(e),
            }
        }
    }
}

/// Adds fields without defaults to a layout from `i` on.
#[verifier::opaque]
pub open spec fn plain_fields<'a>(nest: Nest<'a>, st: State<'a>, l: usize, fs: &'a Vec<StructField>, i: usize) -> Result<((), State<'a>), Failure<'a>>
    decreases fs.len() - i,
{
    if i >= fs.len() {
        Ok(((), st))
    } else {
        let f = &fs@[i as int];
        match (nest.ty)(st, &f.ty) {
            Ok((t, st)) => {
                let k = state::field_total(st, l);
                let st = state::add_field(st, f.name@, FieldInfo { layout: l, index: k, ty: t }, None);
                plain_fields(nest, st, l, fs, (i + 1) as usize)
            },
            Err(e) => Err(e),
        }
    }
}

/// Declares what is defined elsewhere; a type that is declared already stays.
#[verifier::opaque]
pub open spec fn foreign_member<'a>(nest: Nest<'a>, st: State<'a>, m: &'a ExternMember) -> Result<((), State<'a>), Failure<'a>>
{
    match *m {
        ExternMember::Function { ty, name, params, span: _ } => {
            match foreign_function(nest, st, &ty, name@, &params) {
                Ok((_, st)) => {
                    Ok(((), st))
                },
                Err(e) => Err(e),
            }
        },
        ExternMember::Struct { name, fields, span: _ } => {
            if is_struct_name(st, name@) {
                Ok(((), st))
            } else {
                let (l, st) = state::add_layout(st, name@, false);
                match plain_fields(nest, st, l, &fields, 0) {
                    Ok((_, st)) => {
                        Ok(((), st))
                    },
                    Err(e) => Err(e),
                }
            }
        },
        ExternMember::Enum { name, variants, span: _ } => {
            if is_type_name(st, name@) {
                Ok(((), st))
            } else {
                let st = new_enum(st, name@, &variants);
                Ok(((), st))
            }
        },
        ExternMember::Const { ty, name, span: _ } => {
            match (nest.ty)(st, &ty) {
                Ok((t, st)) => {
                    let st = state::add_global(st, name@, GlobalInfo { ty: t, is_constant: true, first: 0, count: 0, len: 0, form: GlobalForm::Foreign });
                    Ok(((), st))
                },
                Err(e) => Err(e),
            }
        },
    }
}

/// Declares what is defined elsewhere from `i` on.
#[verifier::opaque]
pub open spec fn foreign_members<'a>(nest: Nest<'a>, st: State<'a>, ms: &'a Vec<ExternMember>, i: usize) -> Result<((), State<'a>), Failure<'a>>
    decreases ms.len() - i,
{
    if i >= ms.len() {
        Ok(((), st))
    } else {
        match foreign_member(nest, st, &ms@[i as int]) {
            Ok((_, st)) => {
                foreign_members(nest, st, ms, (i + 1) as usize)
            },
            Err(e) => Err(e),
        }
    }
}

/// Declares parameter `i` of a function; one that the caller's variable stands for is an address.
#[verifier::opaque]
pub open spec fn function_param<'a>(nest: Nest<'a>, st: State<'a>, ps: &'a Vec<Param>, i: usize) -> Result<((), State<'a>), Failure<'a>>
{
    if i < ps.len() {
        let q = &ps@[i as int];
        if is_open_end(q) {
            let st = state::add_param(st, q.name@, ParamInfo { ty: None, elem: None, is_variadic: true });
            Ok(((), st))
        } else if q.mode != ParamMode::Plain {
            let st = state::add_param(st, q.name@, ParamInfo { ty: Some(PTR), elem: None, is_variadic: q.is_variadic });
            Ok(((), st))
        } else if q.is_variadic {
            match variadic_elem(nest, st, ps, i) {
                Ok((e, st)) => {
                    let (t, st) = function_gathers(st, e);
                    let st = state::add_param(st, q.name@, ParamInfo { ty: Some(t), elem: Some(e), is_variadic: true });
                    Ok(((), st))
                },
                Err(e) => Err(e),
            }
        } else {
            match (nest.ty)(st, &q.ty) {
                Ok((t, st)) => {
                    let st = state::add_param(st, q.name@, ParamInfo { ty: Some(t), elem: None, is_variadic: false });
                    Ok(((), st))
                },
                Err(e) => Err(e),
            }
        }
    } else {
        Ok(((), st))
    }
}

/// The type of a parameter that gathers values: an array of integers or addresses, else one value.
#[verifier::opaque]
pub open spec fn function_gathers<'a>(st: State<'a>, e: usize) -> (usize, State<'a>)
{
    if lower::is_int(st, e) || lower::is_ptr(st, e) {
        let (r, st) = lower::array_of(st, e, 16);
        (r, st)
    } else {
        (e, st)
    }
}

/// Declares the parameters of a function from `i` on.
#[verifier::opaque]
pub open spec fn function_params<'a>(nest: Nest<'a>, st: State<'a>, ps: &'a Vec<Param>, i: usize) -> Result<((), State<'a>), Failure<'a>>
    decreases ps.len() - i,
{
    if i >= ps.len() {
        Ok(((), st))
    } else {
        match function_param(nest, st, ps, i) {
            Ok((_, st)) => {
                function_params(nest, st, ps, (i + 1) as usize)
            },
            Err(e) => Err(e),
        }
    }
}

/// Whether a written type is that of lists of strings.
#[verifier::opaque]
pub open spec fn is_strings<'a>(t: &'a Type) -> bool
{
    match *t {
        Type::Array(el) => {
            lower::is_str_ty(&*el)
        },
        _ => {
            false
        },
    }
}

/// Whether a function is a main function that takes the arguments of the program.
#[verifier::opaque]
pub open spec fn takes_args<'a>(f: &'a Function) -> bool
{
    if (f.name@ == "main"@) && f.params.len() == 1 {
        let q = &f.params@[0 as int];
        (q.name@ == "args"@) && is_strings(&q.ty)
    } else {
        false
    }
}

/// Whether a name is that of a type: a built-in integer, a type parameter, or a declared type.
#[verifier::opaque]
pub open spec fn is_known_type<'a>(st: State<'a>, n: Seq<char>) -> bool
{
    if (n == "__derived__"@) {
        true
    } else {
        let b = state::base_name(n);
        match state::int_name(b) {
            Some(_) => {
                true
            },
            _ => {
                if state::is_letter(b) {
                    true
                } else {
                    match state::layout(st, b) {
                        Some(_) => {
                            true
                        },
                        _ => {
                            false
                        },
                    }
                }
            },
        }
    }
}

/// The result type of a function, `None` where it returns nothing.
#[verifier::opaque]
pub open spec fn function_ret<'a>(nest: Nest<'a>, st: State<'a>, f: &'a Function) -> Result<(Option<usize>, State<'a>), Failure<'a>>
{
    match f.ret_ty {
        Type::Named(n) => {
            if is_known_type(st, n@) {
                lower::ret_ty(nest, st, &f.ret_ty)
            } else {
                Err(Failure { trouble: state::naming("unknown struct "@, n@, ""@, f.ret_span), after: st })
            }
        },
        _ => {
            lower::ret_ty(nest, st, &f.ret_ty)
        },
    }
}

/// Declares a function; the main function returns the exit code.
#[verifier::opaque]
pub open spec fn declare_function<'a>(nest: Nest<'a>, st: State<'a>, f: &'a Function) -> Result<((), State<'a>), Failure<'a>>
{
    let (first, st) = state::param_start(st);
    if takes_args(f) {
        let (k, st) = state::add_function(st, f.name@, FuncInfo { ret: Some(I32), c_varargs: false, converts: true, first: first, count: 0 });
        Ok(((), st))
    } else {
        match function_params(nest, st, &f.params, 0) {
            Ok((_, st)) => {
                let open = has_open_end(&f.params, 0);
                if (f.name@ == "main"@) {
                    let (k, st) = state::add_function(st, f.name@, FuncInfo { ret: Some(I32), c_varargs: open, converts: true, first: first, count: f.params.len() });
                    Ok(((), st))
                } else {
                    match function_ret(nest, st, f) {
                        Ok((r, st)) => {
                            let (k, st) = state::add_function(st, f.name@, FuncInfo { ret: r, c_varargs: open, converts: true, first: first, count: f.params.len() });
                            Ok(((), st))
                        },
                        Err(e) => Err(e),
                    }
                }
            },
            Err(e) => Err(e),
        }
    }
}

impl<'a> Codegen<'a> {
    /// Adds fields to a layout from `i` on.
    pub fn add_fields(&mut self, depth: usize, l: usize, fs: &'a Vec<StructField>, i: usize) -> (out: Result<(), CodegenError>)
        ensures
            match out {
                Ok(made) => add_fields(nest::nest(depth as nat), old(self)@, l, fs, i) == Ok::<((), State<'a>), Failure<'a>>((made, final(self)@)),
                Err(trouble) => add_fields(nest::nest(depth as nat), old(self)@, l, fs, i) == Err::<((), State<'a>), Failure<'a>>(Failure { trouble: trouble@, after: final(self)@ }),
            },
        decreases depth, 2int, fs.len() - i,
    {
        reveal(add_fields);
        if i >= fs.len() {
            return Ok(());
        }
        let f = &fs[i];
        if let Err(e) = self.add_one_field(depth, l, f) {
            return Err(e);
        }
        if let Err(e) = self.add_fields(depth, l, fs, i + 1) {
            return Err(e);
        }
        Ok(())
    }

    /// Adds a field to a layout.
    pub fn add_one_field(&mut self, depth: usize, l: usize, f: &'a StructField) -> (out: Result<(), CodegenError>)
        ensures
            match out {
                Ok(made) => add_one_field(nest::nest(depth as nat), old(self)@, l, f) == Ok::<((), State<'a>), Failure<'a>>((made, final(self)@)),
                Err(trouble) => add_one_field(nest::nest(depth as nat), old(self)@, l, f) == Err::<((), State<'a>), Failure<'a>>(Failure { trouble: trouble@, after: final(self)@ }),
            },
        decreases depth, 1int, 0int,
    {
        reveal(add_one_field);
        let t = match self.nested_ty(depth, &f.ty) {
            Ok(v) => v,
            Err(e) => {
                return Err(e);
            },
        };
        let k: u32 = self.field_total(l);
        match &f.default {
            Some(e) => {
                self.add_field(f.name.as_str(), FieldInfo { layout: l, index: k, ty: t }, Some(e));
                return Ok(());
            },
            _ => {},
        }
        self.add_field(f.name.as_str(), FieldInfo { layout: l, index: k, ty: t }, None);
        Ok(())
    }

    /// The struct or class of a name.
    pub fn struct_named(&self, n: &str) -> (out: Option<usize>)
        ensures
            out == struct_named(self@, n@),
    {
        reveal(struct_named);
        match self.layout(n) {
            Some(l) => {
                if self.is_enum(l) {
                    return None;
                }
                return Some(l);
            },
            _ => {},
        }
        None
    }

    /// Whether a name is that of a struct or class.
    pub fn is_struct_name(&self, n: &str) -> (out: bool)
        ensures
            out == is_struct_name(self@, n@),
    {
        reveal(is_struct_name);
        match self.struct_named(n) {
            Some(_) => {
                return true;
            },
            _ => {},
        }
        false
    }

    /// Whether a name is that of a declared type.
    pub fn is_type_name(&self, n: &str) -> (out: bool)
        ensures
            out == is_type_name(self@, n@),
    {
        reveal(is_type_name);
        match self.layout(n) {
            Some(_) => {
                return true;
            },
            _ => {},
        }
        false
    }

    /// Declares a struct.
    pub fn declare_struct(&mut self, depth: usize, s: &'a StructDecl) -> (out: Result<(), CodegenError>)
        ensures
            match out {
                Ok(made) => declare_struct(nest::nest(depth as nat), old(self)@, s) == Ok::<((), State<'a>), Failure<'a>>((made, final(self)@)),
                Err(trouble) => declare_struct(nest::nest(depth as nat), old(self)@, s) == Err::<((), State<'a>), Failure<'a>>(Failure { trouble: trouble@, after: final(self)@ }),
            },
        decreases depth, 3int, 0int,
    {
        reveal(declare_struct);
        if self.is_struct_name(s.name.as_str()) {
            return Err(fault_naming("duplicate struct ", s.name.as_str(), "", s.name_span));
        }
        let l = self.add_layout(s.name.as_str(), false);
        if let Err(e) = self.add_fields(depth, l, &s.fields, 0) {
            return Err(e);
        }
        Ok(())
    }

    /// Passes on the fields of a class among the field entries `k..n`.
    pub fn inherit_fields(&mut self, parent: usize, l: usize, k: usize, n: usize)
        ensures
            final(self)@ == inherit_fields(old(self)@, parent, l, k, n),
        decreases n-k,
    {
        reveal(inherit_fields);
        if k >= n {
            return;
        }
        if self.field_layout(k) == Some(parent) && self.is_current_field(k) {
            self.copy_field(k, l);
        }
        self.inherit_fields(parent, l, k + 1, n);
    }

    /// Passes on the methods, or the properties, of a class among the members `k..n` that class `l` does not have.
    pub fn inherit_members(&mut self, parent: usize, l: usize, methods: bool, k: usize, n: usize)
        ensures
            final(self)@ == inherit_members(old(self)@, parent, l, methods, k, n),
        decreases n-k,
    {
        reveal(inherit_members);
        if k >= n {
            return;
        }
        let m = self.member_info(k);
        if m.layout == parent && self.is_passed_on(m.kind, methods) && !self.owns_like(k, l, n) {
            self.copy_member(k, l);
        }
        self.inherit_members(parent, l, methods, k + 1, n);
    }

    /// Whether members of a kind are passed on with the methods, or with the properties.
    pub fn is_passed_on(&self, kind: MemberKind, methods: bool) -> (out: bool)
        ensures
            out == is_passed_on(kind, methods),
    {
        reveal(is_passed_on);
        match kind {
            MemberKind::Method => {
                return methods;
            },
            MemberKind::Getter => {
                return !methods;
            },
            MemberKind::Setter => {
                return !methods;
            },
            _ => {},
        }
        false
    }

    /// The class that a class extends.
    pub fn parent_of(&self, c: &'a ClassDecl) -> (out: Option<usize>)
        ensures
            out == parent_of(self@, c),
    {
        reveal(parent_of);
        match &c.extends {
            Some(Type::Named(n)) => {
                return self.struct_named(n.as_str());
            },
            _ => {},
        }
        None
    }

    /// The type of the values that parameter `i` gathers: its own, or that of the parameter before it.
    pub fn variadic_elem(&mut self, depth: usize, ps: &'a Vec<Param>, i: usize) -> (out: Result<usize, CodegenError>)
        ensures
            match out {
                Ok(made) => variadic_elem(nest::nest(depth as nat), old(self)@, ps, i) == Ok::<(usize, State<'a>), Failure<'a>>((made, final(self)@)),
                Err(trouble) => variadic_elem(nest::nest(depth as nat), old(self)@, ps, i) == Err::<(usize, State<'a>), Failure<'a>>(Failure { trouble: trouble@, after: final(self)@ }),
            },
        decreases depth, 2int, 0int,
    {
        reveal(variadic_elem);
        if i < ps.len() {
            let q = &ps[i];
            if self.is_derived(&q.ty) {
                if i == 0 {
                    return Ok(I64);
                }
                let j: usize = i - 1;
                let p = &ps[j];
                let r = match self.nested_ty(depth, &p.ty) {
                    Ok(v) => v,
                    Err(e) => {
                        return Err(e);
                    },
                };
                return Ok(r);
            }
            let r = match self.nested_ty(depth, &q.ty) {
                Ok(v) => v,
                Err(e) => {
                    return Err(e);
                },
            };
            return Ok(r);
        }
        Ok(I64)
    }

    /// The type of gathered values in a function: an array of integers or addresses, and of structs where `structs` tells so.
    pub fn gathered(&mut self, e: usize, structs: bool) -> (out: usize)
        ensures
            (out, final(self)@) == gathered(old(self)@, e, structs),
    {
        reveal(gathered);
        if self.is_int(e) {
            let r = self.array_of(I64, 16);
            return r;
        }
        if self.is_ptr(e) || structs && self.is_struct(e) {
            let r = self.array_of(e, 16);
            return r;
        }
        e
    }

    /// Declares parameter `i` of a method.
    pub fn method_param(&mut self, depth: usize, ps: &'a Vec<Param>, i: usize) -> (out: Result<(), CodegenError>)
        ensures
            match out {
                Ok(made) => method_param(nest::nest(depth as nat), old(self)@, ps, i) == Ok::<((), State<'a>), Failure<'a>>((made, final(self)@)),
                Err(trouble) => method_param(nest::nest(depth as nat), old(self)@, ps, i) == Err::<((), State<'a>), Failure<'a>>(Failure { trouble: trouble@, after: final(self)@ }),
            },
        decreases depth, 3int, 0int,
    {
        reveal(method_param);
        if i < ps.len() {
            let q = &ps[i];
            if q.is_variadic {
                let e = match self.variadic_elem(depth, ps, i) {
                    Ok(v) => v,
                    Err(e) => {
                        return Err(e);
                    },
                };
                let t = self.array_of(e, 16);
                self.add_param(q.name.as_str(), ParamInfo { ty: Some(t), elem: Some(e), is_variadic: true });
                return Ok(());
            }
            let t = match self.nested_ty(depth, &q.ty) {
                Ok(v) => v,
                Err(e) => {
                    return Err(e);
                },
            };
            self.add_param(q.name.as_str(), ParamInfo { ty: Some(t), elem: None, is_variadic: false });
            return Ok(());
        }
        Ok(())
    }

    /// Declares the parameters of a method from `i` on.
    pub fn method_params(&mut self, depth: usize, ps: &'a Vec<Param>, i: usize) -> (out: Result<(), CodegenError>)
        ensures
            match out {
                Ok(made) => method_params(nest::nest(depth as nat), old(self)@, ps, i) == Ok::<((), State<'a>), Failure<'a>>((made, final(self)@)),
                Err(trouble) => method_params(nest::nest(depth as nat), old(self)@, ps, i) == Err::<((), State<'a>), Failure<'a>>(Failure { trouble: trouble@, after: final(self)@ }),
            },
        decreases depth, 4int, ps.len() - i,
    {
        reveal(method_params);
        if i >= ps.len() {
            return Ok(());
        }
        if let Err(e) = self.method_param(depth, ps, i) {
            return Err(e);
        }
        if let Err(e) = self.method_params(depth, ps, i + 1) {
            return Err(e);
        }
        Ok(())
    }

    /// Declares a function that works on an object.
    pub fn add_method(&mut self, depth: usize, name: &str, r: Option<usize>, ps: &'a Vec<Param>) -> (out: Result<usize, CodegenError>)
        ensures
            match out {
                Ok(made) => add_method(nest::nest(depth as nat), old(self)@, name@, r, ps) == Ok::<(usize, State<'a>), Failure<'a>>((made, final(self)@)),
                Err(trouble) => add_method(nest::nest(depth as nat), old(self)@, name@, r, ps) == Err::<(usize, State<'a>), Failure<'a>>(Failure { trouble: trouble@, after: final(self)@ }),
            },
        decreases depth, 5int, 0int,
    {
        reveal(add_method);
        let first = self.param_start();
        self.add_param("this", ParamInfo { ty: Some(PTR), elem: None, is_variadic: false });
        if let Err(e) = self.method_params(depth, ps, 0) {
            return Err(e);
        }
        let f = self.add_function(name, FuncInfo { ret: r, c_varargs: false, converts: false, first: first, count: self.more(ps.len()) });
        Ok(f)
    }

    /// Declares a method of a type.
    pub fn declare_method(&mut self, depth: usize, c: &str, l: Option<usize>, f: &'a Function) -> (out: Result<(), CodegenError>)
        ensures
            match out {
                Ok(made) => declare_method(nest::nest(depth as nat), old(self)@, c@, l, f) == Ok::<((), State<'a>), Failure<'a>>((made, final(self)@)),
                Err(trouble) => declare_method(nest::nest(depth as nat), old(self)@, c@, l, f) == Err::<((), State<'a>), Failure<'a>>(Failure { trouble: trouble@, after: final(self)@ }),
            },
        decreases depth, 6int, 0int,
    {
        reveal(declare_method);
        let r = match self.ret_ty(depth, &f.ret_ty) {
            Ok(v) => v,
            Err(e) => {
                return Err(e);
            },
        };
        let name_text = join3(c, "__", f.name.as_str());
        let name = name_text.as_str();
        let k = match self.add_method(depth, name, r, &f.params) {
            Ok(v) => v,
            Err(e) => {
                return Err(e);
            },
        };
        match l {
            Some(t) => {
                self.add_member(f.name.as_str(), Member { layout: t, kind: MemberKind::Method, func: k, params: f.params.len() });
                return Ok(());
            },
            _ => {},
        }
        Ok(())
    }

    /// Declares the methods of a class from `i` on.
    pub fn declare_methods(&mut self, depth: usize, c: &str, l: usize, fs: &'a Vec<Function>, i: usize) -> (out: Result<(), CodegenError>)
        ensures
            match out {
                Ok(made) => declare_methods(nest::nest(depth as nat), old(self)@, c@, l, fs, i) == Ok::<((), State<'a>), Failure<'a>>((made, final(self)@)),
                Err(trouble) => declare_methods(nest::nest(depth as nat), old(self)@, c@, l, fs, i) == Err::<((), State<'a>), Failure<'a>>(Failure { trouble: trouble@, after: final(self)@ }),
            },
        decreases depth, 7int, fs.len() - i,
    {
        reveal(declare_methods);
        if i >= fs.len() {
            return Ok(());
        }
        if let Err(e) = self.declare_method(depth, c, Some(l), &fs[i]) {
            return Err(e);
        }
        if let Err(e) = self.declare_methods(depth, c, l, fs, i + 1) {
            return Err(e);
        }
        Ok(())
    }

    /// Declares an operator of a type; it returns an integer.
    pub fn declare_operator(&mut self, depth: usize, c: &str, l: Option<usize>, o: &'a OperatorDecl) -> (out: Result<(), CodegenError>)
        ensures
            match out {
                Ok(made) => declare_operator(nest::nest(depth as nat), old(self)@, c@, l, o) == Ok::<((), State<'a>), Failure<'a>>((made, final(self)@)),
                Err(trouble) => declare_operator(nest::nest(depth as nat), old(self)@, c@, l, o) == Err::<((), State<'a>), Failure<'a>>(Failure { trouble: trouble@, after: final(self)@ }),
            },
        decreases depth, 6int, 0int,
    {
        reveal(declare_operator);
        let w_text = op_word_of(o.op.as_str());
        let w = w_text.as_str();
        let name_text = join3(c, "__op_", w);
        let name = name_text.as_str();
        let k = match self.add_method(depth, name, Some(I64), &o.params) {
            Ok(v) => v,
            Err(e) => {
                return Err(e);
            },
        };
        match l {
            Some(t) => {
                self.add_member(o.op.as_str(), Member { layout: t, kind: MemberKind::Operator, func: k, params: o.params.len() });
                return Ok(());
            },
            _ => {},
        }
        Ok(())
    }

    /// Declares the operators of a class from `i` on.
    pub fn declare_operators(&mut self, depth: usize, c: &str, l: usize, os: &'a Vec<OperatorDecl>, i: usize) -> (out: Result<(), CodegenError>)
        ensures
            match out {
                Ok(made) => declare_operators(nest::nest(depth as nat), old(self)@, c@, l, os, i) == Ok::<((), State<'a>), Failure<'a>>((made, final(self)@)),
                Err(trouble) => declare_operators(nest::nest(depth as nat), old(self)@, c@, l, os, i) == Err::<((), State<'a>), Failure<'a>>(Failure { trouble: trouble@, after: final(self)@ }),
            },
        decreases depth, 7int, os.len() - i,
    {
        reveal(declare_operators);
        if i >= os.len() {
            return Ok(());
        }
        if let Err(e) = self.declare_operator(depth, c, Some(l), &os[i]) {
            return Err(e);
        }
        if let Err(e) = self.declare_operators(depth, c, l, os, i + 1) {
            return Err(e);
        }
        Ok(())
    }

    /// Declares the constructors of a class from `i` on.
    pub fn declare_ctors(&mut self, depth: usize, c: &str, l: usize, cs: &'a Vec<ConstructorDecl>, i: usize) -> (out: Result<(), CodegenError>)
        ensures
            match out {
                Ok(made) => declare_ctors(nest::nest(depth as nat), old(self)@, c@, l, cs, i) == Ok::<((), State<'a>), Failure<'a>>((made, final(self)@)),
                Err(trouble) => declare_ctors(nest::nest(depth as nat), old(self)@, c@, l, cs, i) == Err::<((), State<'a>), Failure<'a>>(Failure { trouble: trouble@, after: final(self)@ }),
            },
        decreases depth, 6int, cs.len() - i,
    {
        reveal(declare_ctors);
        if i >= cs.len() {
            return Ok(());
        }
        let d = &cs[i];
        let name_text = number3(c, "__ctor", cs.len() > 1, i);
        let name = name_text.as_str();
        let k = match self.add_method(depth, name, None, &d.params) {
            Ok(v) => v,
            Err(e) => {
                return Err(e);
            },
        };
        self.add_member(d.name.as_str(), Member { layout: l, kind: MemberKind::Constructor, func: k, params: d.params.len() });
        if let Err(e) = self.declare_ctors(depth, c, l, cs, i + 1) {
            return Err(e);
        }
        Ok(())
    }

    /// Declares a function that works on an object alone.
    pub fn add_plain_method(&mut self, name: &str, r: Option<usize>) -> (out: usize)
        ensures
            (out, final(self)@) == add_plain_method(old(self)@, name@, r),
    {
        reveal(add_plain_method);
        let first = self.param_start();
        self.add_param("this", ParamInfo { ty: Some(PTR), elem: None, is_variadic: false });
        let f = self.add_function(name, FuncInfo { ret: r, c_varargs: false, converts: false, first: first, count: 1 });
        f
    }

    /// Declares the destructors of a class from `i` on.
    pub fn declare_dtors(&mut self, c: &str, l: usize, ds: &'a Vec<DestructorDecl>, i: usize)
        ensures
            final(self)@ == declare_dtors(old(self)@, c@, l, ds, i),
        decreases ds.len() - i,
    {
        reveal(declare_dtors);
        if i >= ds.len() {
            return;
        }
        let d = &ds[i];
        let name_text = number3(c, "__dtor", ds.len() > 1, i);
        let name = name_text.as_str();
        let k = self.add_plain_method(name, None);
        self.add_member(d.name.as_str(), Member { layout: l, kind: MemberKind::Destructor, func: k, params: 0 });
        self.declare_dtors(c, l, ds, i + 1);
    }

    /// The type of a property: its own, that of its setter, or that of integers.
    pub fn property_ty(&mut self, depth: usize, p: &'a PropertyDecl) -> (out: Result<usize, CodegenError>)
        ensures
            match out {
                Ok(made) => property_ty(nest::nest(depth as nat), old(self)@, p) == Ok::<(usize, State<'a>), Failure<'a>>((made, final(self)@)),
                Err(trouble) => property_ty(nest::nest(depth as nat), old(self)@, p) == Err::<(usize, State<'a>), Failure<'a>>(Failure { trouble: trouble@, after: final(self)@ }),
            },
        decreases depth, 1int, 0int,
    {
        reveal(property_ty);
        match &p.ty {
            Some(t) => {
                let r = match self.nested_ty(depth, t) {
                    Ok(v) => v,
                    Err(e) => {
                        return Err(e);
                    },
                };
                return Ok(r);
            },
            _ => {},
        }
        match &p.setter {
            Some(s) => {
                let r = match self.nested_ty(depth, &s.param.ty) {
                    Ok(v) => v,
                    Err(e) => {
                        return Err(e);
                    },
                };
                return Ok(r);
            },
            _ => {},
        }
        Ok(I64)
    }

    /// Whether a type has a member.
    pub fn has_member(&self, n: &str, l: Option<usize>, kind: MemberKind) -> (out: bool)
        ensures
            out == has_member(self@, n@, l, kind),
    {
        reveal(has_member);
        match l {
            Some(t) => {
                match self.member_entry(n, t, kind) {
                    Some(_) => {
                        return true;
                    },
                    _ => {},
                }
                return false;
            },
            _ => {},
        }
        false
    }

    /// Adds a member to a type.
    pub fn note_member(&mut self, n: &str, l: Option<usize>, kind: MemberKind, f: usize, params: usize)
        ensures
            final(self)@ == note_member(old(self)@, n@, l, kind, f, params),
    {
        reveal(note_member);
        match l {
            Some(t) => {
                self.add_member(n, Member { layout: t, kind: kind, func: f, params: params });
                return;
            },
            _ => {},
        }
        return;
    }

    /// Declares the getter of a property, unless the type has one.
    pub fn declare_getter(&mut self, c: &str, l: Option<usize>, p: &'a PropertyDecl, t: usize)
        ensures
            final(self)@ == declare_getter(old(self)@, c@, l, p, t),
    {
        reveal(declare_getter);
        if self.has_member(p.name.as_str(), l, MemberKind::Getter) {
            return;
        }
        let name_text = join3(c, "__get_", p.name.as_str());
        let name = name_text.as_str();
        let k = self.add_plain_method(name, Some(t));
        self.note_member(p.name.as_str(), l, MemberKind::Getter, k, 0);
    }

    /// Declares the setter of a property, unless the type has one.
    pub fn declare_setter(&mut self, depth: usize, c: &str, l: Option<usize>, p: &'a PropertyDecl, q: &'a Param) -> (out: Result<(), CodegenError>)
        ensures
            match out {
                Ok(made) => declare_setter(nest::nest(depth as nat), old(self)@, c@, l, p, q) == Ok::<((), State<'a>), Failure<'a>>((made, final(self)@)),
                Err(trouble) => declare_setter(nest::nest(depth as nat), old(self)@, c@, l, p, q) == Err::<((), State<'a>), Failure<'a>>(Failure { trouble: trouble@, after: final(self)@ }),
            },
        decreases depth, 2int, 0int,
    {
        reveal(declare_setter);
        let t = match self.nested_ty(depth, &q.ty) {
            Ok(v) => v,
            Err(e) => {
                return Err(e);
            },
        };
        if self.has_member(p.name.as_str(), l, MemberKind::Setter) {
            return Ok(());
        }
        let name_text = join3(c, "__set_", p.name.as_str());
        let name = name_text.as_str();
        let first = self.param_start();
        self.add_param("this", ParamInfo { ty: Some(PTR), elem: None, is_variadic: false });
        self.add_param(q.name.as_str(), ParamInfo { ty: Some(t), elem: None, is_variadic: false });
        let k = self.add_function(name, FuncInfo { ret: None, c_varargs: false, converts: false, first: first, count: 2 });
        self.note_member(p.name.as_str(), l, MemberKind::Setter, k, 1);
        Ok(())
    }

    /// Whether there is a block.
    pub fn is_given(&self, b: &'a Option<Block>) -> (out: bool)
        ensures
            out == is_given(self@, b),
    {
        reveal(is_given);
        match b {
            Some(_) => {
                return true;
            },
            _ => {},
        }
        false
    }

    /// Declares the accessors of a property.
    pub fn declare_property(&mut self, depth: usize, c: &str, l: Option<usize>, p: &'a PropertyDecl) -> (out: Result<(), CodegenError>)
        ensures
            match out {
                Ok(made) => declare_property(nest::nest(depth as nat), old(self)@, c@, l, p) == Ok::<((), State<'a>), Failure<'a>>((made, final(self)@)),
                Err(trouble) => declare_property(nest::nest(depth as nat), old(self)@, c@, l, p) == Err::<((), State<'a>), Failure<'a>>(Failure { trouble: trouble@, after: final(self)@ }),
            },
        decreases depth, 3int, 0int,
    {
        reveal(declare_property);
        let t = match self.property_ty(depth, p) {
            Ok(v) => v,
            Err(e) => {
                return Err(e);
            },
        };
        if self.is_given(&p.getter) {
            self.declare_getter(c, l, p, t);
        }
        match &p.setter {
            Some(s) => {
                if let Err(e) = self.declare_setter(depth, c, l, p, &s.param) {
                    return Err(e);
                }
                return Ok(());
            },
            _ => {},
        }
        Ok(())
    }

    /// Declares the properties of a class from `i` on.
    pub fn declare_properties(&mut self, depth: usize, c: &str, l: usize, ps: &'a Vec<PropertyDecl>, i: usize) -> (out: Result<(), CodegenError>)
        ensures
            match out {
                Ok(made) => declare_properties(nest::nest(depth as nat), old(self)@, c@, l, ps, i) == Ok::<((), State<'a>), Failure<'a>>((made, final(self)@)),
                Err(trouble) => declare_properties(nest::nest(depth as nat), old(self)@, c@, l, ps, i) == Err::<((), State<'a>), Failure<'a>>(Failure { trouble: trouble@, after: final(self)@ }),
            },
        decreases depth, 4int, ps.len() - i,
    {
        reveal(declare_properties);
        if i >= ps.len() {
            return Ok(());
        }
        if let Err(e) = self.declare_property(depth, c, Some(l), &ps[i]) {
            return Err(e);
        }
        if let Err(e) = self.declare_properties(depth, c, l, ps, i + 1) {
            return Err(e);
        }
        Ok(())
    }

    /// Gives a class the fields of the one that it extends.
    pub fn take_fields(&mut self, c: &'a ClassDecl, l: usize)
        ensures
            final(self)@ == take_fields(old(self)@, c, l),
    {
        reveal(take_fields);
        match self.parent_of(c) {
            Some(p) => {
                self.inherit_fields(p, l, 0, self.field_count());
                return;
            },
            _ => {},
        }
        return;
    }

    /// Gives a class the methods, or the properties, of the one that it extends.
    pub fn take_members(&mut self, c: &'a ClassDecl, l: usize, methods: bool)
        ensures
            final(self)@ == take_members(old(self)@, c, l, methods),
    {
        reveal(take_members);
        match self.parent_of(c) {
            Some(p) => {
                self.inherit_members(p, l, methods, 0, self.member_count());
                return;
            },
            _ => {},
        }
        return;
    }

    /// Declares a class: its fields after those of the class that it extends, and its members.
    pub fn declare_class(&mut self, depth: usize, c: &'a ClassDecl) -> (out: Result<(), CodegenError>)
        ensures
            match out {
                Ok(made) => declare_class(nest::nest(depth as nat), old(self)@, c) == Ok::<((), State<'a>), Failure<'a>>((made, final(self)@)),
                Err(trouble) => declare_class(nest::nest(depth as nat), old(self)@, c) == Err::<((), State<'a>), Failure<'a>>(Failure { trouble: trouble@, after: final(self)@ }),
            },
        decreases depth, 8int, 0int,
    {
        reveal(declare_class);
        if self.is_struct_name(c.name.as_str()) {
            return Err(fault_naming("duplicate class/struct `", c.name.as_str(), "`", c.name_span));
        }
        let l = self.add_layout(c.name.as_str(), false);
        self.take_fields(c, l);
        if let Err(e) = self.add_fields(depth, l, &c.fields, 0) {
            return Err(e);
        }
        if let Err(e) = self.declare_methods(depth, c.name.as_str(), l, &c.methods, 0) {
            return Err(e);
        }
        if let Err(e) = self.declare_operators(depth, c.name.as_str(), l, &c.operators, 0) {
            return Err(e);
        }
        self.take_members(c, l, true);
        if let Err(e) = self.declare_ctors(depth, c.name.as_str(), l, &c.constructors, 0) {
            return Err(e);
        }
        self.declare_dtors(c.name.as_str(), l, &c.destructors, 0);
        if let Err(e) = self.declare_properties(depth, c.name.as_str(), l, &c.properties, 0) {
            return Err(e);
        }
        self.take_members(c, l, false);
        Ok(())
    }

    /// The tag of a variant: the integer that is written, else its position.
    pub fn tag_of(&self, v: &'a VariantDecl, i: usize) -> (out: u32)
        ensures
            out == tag_of(v, i),
    {
        reveal(tag_of);
        match &v.discriminant {
            Some(e) => {
                match &e.kind {
                    ExprKind::IntLit(n) => {
                        return *n as u32;
                    },
                    _ => {},
                }
                return i as u32;
            },
            _ => {},
        }
        i as u32
    }

    /// Adds the variants of an enum from `i` on.
    pub fn add_tags(&mut self, l: usize, vs: &'a Vec<VariantDecl>, i: usize)
        ensures
            final(self)@ == add_tags(old(self)@, l, vs, i),
        decreases vs.len() - i,
    {
        reveal(add_tags);
        if i >= vs.len() {
            return;
        }
        let v = &vs[i];
        let t: u32 = self.tag_of(v, i);
        self.add_tag(v.name.as_str(), TagInfo { layout: l, tag: t });
        self.add_tags(l, vs, i + 1);
    }

    /// Declares an enum: a tag and a payload.
    pub fn new_enum(&mut self, n: &str, vs: &'a Vec<VariantDecl>)
        ensures
            final(self)@ == new_enum(old(self)@, n@, vs),
    {
        reveal(new_enum);
        let l = self.add_layout(n, true);
        self.add_field("", FieldInfo { layout: l, index: 0, ty: I32 }, None);
        self.add_field("", FieldInfo { layout: l, index: 1, ty: I64 }, None);
        self.add_tags(l, vs, 0);
    }

    /// Declares an enum.
    pub fn declare_enum(&mut self, e: &'a EnumDecl) -> (out: Result<(), CodegenError>)
        ensures
            match out {
                Ok(made) => declare_enum(old(self)@, e) == Ok::<((), State<'a>), Failure<'a>>((made, final(self)@)),
                Err(trouble) => declare_enum(old(self)@, e) == Err::<((), State<'a>), Failure<'a>>(Failure { trouble: trouble@, after: final(self)@ }),
            },
    {
        reveal(declare_enum);
        if self.is_type_name(e.name.as_str()) {
            return Err(fault_naming("duplicate enum `", e.name.as_str(), "`", e.name_span));
        }
        self.new_enum(e.name.as_str(), &e.variants);
        Ok(())
    }

    /// Checks the type that an alias stands for.
    pub fn declare_alias(&mut self, depth: usize, d: &'a AliasDecl) -> (out: Result<(), CodegenError>)
        ensures
            match out {
                Ok(made) => declare_alias(nest::nest(depth as nat), old(self)@, d) == Ok::<((), State<'a>), Failure<'a>>((made, final(self)@)),
                Err(trouble) => declare_alias(nest::nest(depth as nat), old(self)@, d) == Err::<((), State<'a>), Failure<'a>>(Failure { trouble: trouble@, after: final(self)@ }),
            },
        decreases depth, 1int, 0int,
    {
        reveal(declare_alias);
        let t = match self.nested_ty(depth, &d.ty) {
            Ok(v) => v,
            Err(e) => {
                return Err(e);
            },
        };
        Ok(())
    }

    /// Declares a distinct type: a struct with one value.
    pub fn declare_distinct(&mut self, depth: usize, d: &'a AliasDecl) -> (out: Result<(), CodegenError>)
        ensures
            match out {
                Ok(made) => declare_distinct(nest::nest(depth as nat), old(self)@, d) == Ok::<((), State<'a>), Failure<'a>>((made, final(self)@)),
                Err(trouble) => declare_distinct(nest::nest(depth as nat), old(self)@, d) == Err::<((), State<'a>), Failure<'a>>(Failure { trouble: trouble@, after: final(self)@ }),
            },
        decreases depth, 3int, 0int,
    {
        reveal(declare_distinct);
        let t = match self.nested_ty(depth, &d.ty) {
            Ok(v) => v,
            Err(e) => {
                return Err(e);
            },
        };
        if self.is_struct_name(d.name.as_str()) {
            return Ok(());
        }
        let l = self.add_layout(d.name.as_str(), false);
        self.add_field("value", FieldInfo { layout: l, index: 0, ty: t }, None);
        Ok(())
    }

    /// Adds the fields of an extension from `i` on.
    pub fn extend_fields(&mut self, depth: usize, l: usize, ms: &'a Vec<ExtensionMember>, i: usize) -> (out: Result<(), CodegenError>)
        ensures
            match out {
                Ok(made) => extend_fields(nest::nest(depth as nat), old(self)@, l, ms, i) == Ok::<((), State<'a>), Failure<'a>>((made, final(self)@)),
                Err(trouble) => extend_fields(nest::nest(depth as nat), old(self)@, l, ms, i) == Err::<((), State<'a>), Failure<'a>>(Failure { trouble: trouble@, after: final(self)@ }),
            },
        decreases depth, 2int, ms.len() - i,
    {
        reveal(extend_fields);
        if i >= ms.len() {
            return Ok(());
        }
        match &ms[i] {
            ExtensionMember::Field(f) => {
                if let Err(e) = self.add_one_field(depth, l, f) {
                    return Err(e);
                }
                if let Err(e) = self.extend_fields(depth, l, ms, i + 1) {
                    return Err(e);
                }
                return Ok(());
            },
            _ => {},
        }
        if let Err(e) = self.extend_fields(depth, l, ms, i + 1) {
            return Err(e);
        }
        Ok(())
    }

    /// Declares a member of an extension.
    pub fn extend_member(&mut self, depth: usize, n: &str, l: Option<usize>, m: &'a ExtensionMember) -> (out: Result<(), CodegenError>)
        ensures
            match out {
                Ok(made) => extend_member(nest::nest(depth as nat), old(self)@, n@, l, m) == Ok::<((), State<'a>), Failure<'a>>((made, final(self)@)),
                Err(trouble) => extend_member(nest::nest(depth as nat), old(self)@, n@, l, m) == Err::<((), State<'a>), Failure<'a>>(Failure { trouble: trouble@, after: final(self)@ }),
            },
        decreases depth, 7int, 0int,
    {
        reveal(extend_member);
        match m {
            ExtensionMember::Function(f) => {
                if let Err(e) = self.declare_method(depth, n, l, f) {
                    return Err(e);
                }
                return Ok(());
            },
            ExtensionMember::Operator(o) => {
                if let Err(e) = self.declare_operator(depth, n, l, o) {
                    return Err(e);
                }
                return Ok(());
            },
            ExtensionMember::Property(p) => {
                if let Err(e) = self.declare_property(depth, n, l, p) {
                    return Err(e);
                }
                return Ok(());
            },
            _ => {},
        }
        Ok(())
    }

    /// Declares the members of an extension from `i` on.
    pub fn extend_members(&mut self, depth: usize, n: &str, l: Option<usize>, ms: &'a Vec<ExtensionMember>, i: usize) -> (out: Result<(), CodegenError>)
        ensures
            match out {
                Ok(made) => extend_members(nest::nest(depth as nat), old(self)@, n@, l, ms, i) == Ok::<((), State<'a>), Failure<'a>>((made, final(self)@)),
                Err(trouble) => extend_members(nest::nest(depth as nat), old(self)@, n@, l, ms, i) == Err::<((), State<'a>), Failure<'a>>(Failure { trouble: trouble@, after: final(self)@ }),
            },
        decreases depth, 8int, ms.len() - i,
    {
        reveal(extend_members);
        if i >= ms.len() {
            return Ok(());
        }
        if let Err(e) = self.extend_member(depth, n, l, &ms[i]) {
            return Err(e);
        }
        if let Err(e) = self.extend_members(depth, n, l, ms, i + 1) {
            return Err(e);
        }
        Ok(())
    }

    /// Declares the fields and members that an extension adds to a type.
    pub fn extend(&mut self, depth: usize, n: &str, ms: &'a Vec<ExtensionMember>) -> (out: Result<(), CodegenError>)
        ensures
            match out {
                Ok(made) => extend(nest::nest(depth as nat), old(self)@, n@, ms) == Ok::<((), State<'a>), Failure<'a>>((made, final(self)@)),
                Err(trouble) => extend(nest::nest(depth as nat), old(self)@, n@, ms) == Err::<((), State<'a>), Failure<'a>>(Failure { trouble: trouble@, after: final(self)@ }),
            },
        decreases depth, 9int, 0int,
    {
        reveal(extend);
        match self.struct_named(n) {
            Some(l) => {
                if let Err(e) = self.extend_fields(depth, l, ms, 0) {
                    return Err(e);
                }
                if let Err(e) = self.extend_members(depth, n, Some(l), ms, 0) {
                    return Err(e);
                }
                return Ok(());
            },
            _ => {},
        }
        if let Err(e) = self.extend_members(depth, n, self.layout(n), ms, 0) {
            return Err(e);
        }
        Ok(())
    }

    /// Declares an extension; one of a type without a name adds nothing.
    pub fn declare_extension(&mut self, depth: usize, x: &'a ExtensionDecl) -> (out: Result<(), CodegenError>)
        ensures
            match out {
                Ok(made) => declare_extension(nest::nest(depth as nat), old(self)@, x) == Ok::<((), State<'a>), Failure<'a>>((made, final(self)@)),
                Err(trouble) => declare_extension(nest::nest(depth as nat), old(self)@, x) == Err::<((), State<'a>), Failure<'a>>(Failure { trouble: trouble@, after: final(self)@ }),
            },
        decreases depth, 10int, 0int,
    {
        reveal(declare_extension);
        match &x.ty {
            Type::Named(n) => {
                let t = match self.nested_ty(depth, &x.ty) {
                    Ok(v) => v,
                    Err(e) => {
                        return Err(e);
                    },
                };
                if let Err(e) = self.extend(depth, n.as_str(), &x.members) {
                    return Err(e);
                }
                return Ok(());
            },
            Type::Generic(n, _) => {
                let t = match self.nested_ty(depth, &x.ty) {
                    Ok(v) => v,
                    Err(e) => {
                        return Err(e);
                    },
                };
                if let Err(e) = self.extend(depth, n.as_str(), &x.members) {
                    return Err(e);
                }
                return Ok(());
            },
            _ => {},
        }
        Ok(())
    }

    /// Whether a parameter is the `...` of C.
    pub fn is_open_end(&self, p: &'a Param) -> (out: bool)
        ensures
            out == is_open_end(p),
    {
        reveal(is_open_end);
        p.is_variadic && text::same_str(p.name.as_str(), "")
    }

    /// Whether a parameter from `i` on is the `...` of C.
    pub fn has_open_end(&self, ps: &'a Vec<Param>, i: usize) -> (out: bool)
        ensures
            out == has_open_end(ps, i),
        decreases ps.len() - i,
    {
        reveal(has_open_end);
        if i >= ps.len() {
            return false;
        }
        if self.is_open_end(&ps[i]) {
            return true;
        }
        self.has_open_end(ps, i + 1)
    }

    /// The result type of a foreign function whose written type is a name; integers of other widths count as nothing.
    pub fn foreign_named(&mut self, n: &str) -> (out: Result<Option<usize>, CodegenError>)
        ensures
            match out {
                Ok(made) => foreign_named(old(self)@, n@) == Ok::<(Option<usize>, State<'a>), Failure<'a>>((made, final(self)@)),
                Err(trouble) => foreign_named(old(self)@, n@) == Err::<(Option<usize>, State<'a>), Failure<'a>>(Failure { trouble: trouble@, after: final(self)@ }),
            },
    {
        reveal(foreign_named);
        let b_text = base_of(n);
        let b = b_text.as_str();
        match self.int_name(b) {
            Some(_) => {
                return Ok(None);
            },
            _ => {},
        }
        let r = match self.named_ty(n) {
            Ok(v) => v,
            Err(e) => {
                return Err(e);
            },
        };
        Ok(Some(r))
    }

    /// The result type of a foreign function; other types than plain and declared ones count as nothing.
    pub fn foreign_ret(&mut self, depth: usize, t: &'a Type) -> (out: Result<Option<usize>, CodegenError>)
        ensures
            match out {
                Ok(made) => foreign_ret(nest::nest(depth as nat), old(self)@, t) == Ok::<(Option<usize>, State<'a>), Failure<'a>>((made, final(self)@)),
                Err(trouble) => foreign_ret(nest::nest(depth as nat), old(self)@, t) == Err::<(Option<usize>, State<'a>), Failure<'a>>(Failure { trouble: trouble@, after: final(self)@ }),
            },
        decreases depth, 4int, 0int,
    {
        reveal(foreign_ret);
        match t {
            Type::Int => {
                return Ok(Some(I64));
            },
            Type::Bool => {
                return Ok(Some(I1));
            },
            Type::Char => {
                return Ok(Some(I32));
            },
            Type::Str => {
                return Ok(Some(PTR));
            },
            Type::Float => {
                return Ok(Some(F32));
            },
            Type::Double => {
                return Ok(Some(F64));
            },
            Type::Named(n) => {
                let r = match self.foreign_named(n.as_str()) {
                    Ok(v) => v,
                    Err(e) => {
                        return Err(e);
                    },
                };
                return Ok(r);
            },
            Type::Generic(_, _) => {
                let r = match self.nested_held_ty(depth, t) {
                    Ok(v) => v,
                    Err(e) => {
                        return Err(e);
                    },
                };
                return Ok(r);
            },
            _ => {},
        }
        Ok(None)
    }

    /// A type, where there is one, else that of integers.
    pub fn or_int(&self, h: Option<usize>) -> (out: usize)
        ensures
            out == or_int(h),
    {
        reveal(or_int);
        match h {
            Some(t) => {
                return t;
            },
            _ => {},
        }
        I64
    }

    /// Declares the parameters of a foreign function from `i` on that are something; how many there are.
    pub fn foreign_params(&mut self, depth: usize, ps: &'a Vec<Param>, i: usize) -> (out: Result<usize, CodegenError>)
        ensures
            match out {
                Ok(made) => foreign_params(nest::nest(depth as nat), old(self)@, ps, i) == Ok::<(usize, State<'a>), Failure<'a>>((made, final(self)@)),
                Err(trouble) => foreign_params(nest::nest(depth as nat), old(self)@, ps, i) == Err::<(usize, State<'a>), Failure<'a>>(Failure { trouble: trouble@, after: final(self)@ }),
            },
        decreases depth, 2int, ps.len() - i,
    {
        reveal(foreign_params);
        if i >= ps.len() {
            return Ok(0);
        }
        let q = &ps[i];
        if self.is_open_end(q) {
            let n = match self.foreign_params(depth, ps, i + 1) {
                Ok(v) => v,
                Err(e) => {
                    return Err(e);
                },
            };
            return Ok(n);
        }
        let h = match self.nested_held_ty(depth, &q.ty) {
            Ok(v) => v,
            Err(e) => {
                return Err(e);
            },
        };
        if q.is_variadic {
            let e: usize = self.or_int(h);
            let a = self.array_of(e, 16);
            self.add_param(q.name.as_str(), ParamInfo { ty: Some(a), elem: Some(e), is_variadic: true });
            let n = match self.foreign_params(depth, ps, i + 1) {
                Ok(v) => v,
                Err(e) => {
                    return Err(e);
                },
            };
            return Ok(self.more(n));
        }
        match h {
            Some(t) => {
                self.add_param(q.name.as_str(), ParamInfo { ty: Some(t), elem: None, is_variadic: false });
                let n = match self.foreign_params(depth, ps, i + 1) {
                    Ok(v) => v,
                    Err(e) => {
                        return Err(e);
                    },
                };
                return Ok(self.more(n));
            },
            _ => {},
        }
        let n = match self.foreign_params(depth, ps, i + 1) {
            Ok(v) => v,
            Err(e) => {
                return Err(e);
            },
        };
        Ok(n)
    }

    /// Whether the only parameter is a string.
    pub fn takes_one_string(&self, ps: &'a Vec<Param>) -> (out: bool)
        ensures
            out == takes_one_string(ps),
    {
        reveal(takes_one_string);
        if ps.len() == 1 {
            let q = &ps[0];
            return self.is_str_ty(&q.ty);
        }
        false
    }

    /// Declares the formatted output of C.
    pub fn foreign_printf(&mut self, n: &str)
        ensures
            final(self)@ == foreign_printf(old(self)@, n@),
    {
        reveal(foreign_printf);
        let first = self.param_start();
        self.add_param("format", ParamInfo { ty: Some(PTR), elem: None, is_variadic: false });
        let f = self.add_function(n, FuncInfo { ret: Some(I32), c_varargs: true, converts: false, first: first, count: 1 });
    }

    /// Whether a name is that of a function.
    pub fn is_function(&self, n: &str) -> (out: bool)
        ensures
            out == is_function(self@, n@),
    {
        reveal(is_function);
        match self.function(n) {
            Some(_) => {
                return true;
            },
            _ => {},
        }
        false
    }

    /// Declares a foreign function, unless there is one of its name.
    pub fn foreign_function(&mut self, depth: usize, t: &'a Type, n: &str, ps: &'a Vec<Param>) -> (out: Result<(), CodegenError>)
        ensures
            match out {
                Ok(made) => foreign_function(nest::nest(depth as nat), old(self)@, t, n@, ps) == Ok::<((), State<'a>), Failure<'a>>((made, final(self)@)),
                Err(trouble) => foreign_function(nest::nest(depth as nat), old(self)@, t, n@, ps) == Err::<((), State<'a>), Failure<'a>>(Failure { trouble: trouble@, after: final(self)@ }),
            },
        decreases depth, 5int, 0int,
    {
        reveal(foreign_function);
        if self.is_function(n) {
            return Ok(());
        }
        let open: bool = self.has_open_end(ps, 0);
        if text::same_str(n, "printf") && (open || self.takes_one_string(ps)) {
            self.foreign_printf(n);
            return Ok(());
        }
        let r = match self.foreign_ret(depth, t) {
            Ok(v) => v,
            Err(e) => {
                return Err(e);
            },
        };
        let first = self.param_start();
        let k = match self.foreign_params(depth, ps, 0) {
            Ok(v) => v,
            Err(e) => {
                return Err(e);
            },
        };
        let f = self.add_function(n, FuncInfo { ret: r, c_varargs: open, converts: false, first: first, count: k });
        Ok(())
    }

    /// Adds fields without defaults to a layout from `i` on.
    pub fn plain_fields(&mut self, depth: usize, l: usize, fs: &'a Vec<StructField>, i: usize) -> (out: Result<(), CodegenError>)
        ensures
            match out {
                Ok(made) => plain_fields(nest::nest(depth as nat), old(self)@, l, fs, i) == Ok::<((), State<'a>), Failure<'a>>((made, final(self)@)),
                Err(trouble) => plain_fields(nest::nest(depth as nat), old(self)@, l, fs, i) == Err::<((), State<'a>), Failure<'a>>(Failure { trouble: trouble@, after: final(self)@ }),
            },
        decreases depth, 1int, fs.len() - i,
    {
        reveal(plain_fields);
        if i >= fs.len() {
            return Ok(());
        }
        let f = &fs[i];
        let t = match self.nested_ty(depth, &f.ty) {
            Ok(v) => v,
            Err(e) => {
                return Err(e);
            },
        };
        let k: u32 = self.field_total(l);
        self.add_field(f.name.as_str(), FieldInfo { layout: l, index: k, ty: t }, None);
        if let Err(e) = self.plain_fields(depth, l, fs, i + 1) {
            return Err(e);
        }
        Ok(())
    }

    /// Declares what is defined elsewhere; a type that is declared already stays.
    pub fn foreign_member(&mut self, depth: usize, m: &'a ExternMember) -> (out: Result<(), CodegenError>)
        ensures
            match out {
                Ok(made) => foreign_member(nest::nest(depth as nat), old(self)@, m) == Ok::<((), State<'a>), Failure<'a>>((made, final(self)@)),
                Err(trouble) => foreign_member(nest::nest(depth as nat), old(self)@, m) == Err::<((), State<'a>), Failure<'a>>(Failure { trouble: trouble@, after: final(self)@ }),
            },
        decreases depth, 6int, 0int,
    {
        reveal(foreign_member);
        match m {
            ExternMember::Function { ty, name, params, span: _ } => {
                if let Err(e) = self.foreign_function(depth, ty, name.as_str(), params) {
                    return Err(e);
                }
                return Ok(());
            },
            ExternMember::Struct { name, fields, span: _ } => {
                if self.is_struct_name(name.as_str()) {
                    return Ok(());
                }
                let l = self.add_layout(name.as_str(), false);
                if let Err(e) = self.plain_fields(depth, l, fields, 0) {
                    return Err(e);
                }
                return Ok(());
            },
            ExternMember::Enum { name, variants, span: _ } => {
                if self.is_type_name(name.as_str()) {
                    return Ok(());
                }
                self.new_enum(name.as_str(), variants);
                return Ok(());
            },
            ExternMember::Const { ty, name, span: _ } => {
                let t = match self.nested_ty(depth, ty) {
                    Ok(v) => v,
                    Err(e) => {
                        return Err(e);
                    },
                };
                self.add_global(name.as_str(), GlobalInfo { ty: t, is_constant: true, first: 0, count: 0, len: 0, form: GlobalForm::Foreign });
                return Ok(());
            },
        }
    }

    /// Declares what is defined elsewhere from `i` on.
    pub fn foreign_members(&mut self, depth: usize, ms: &'a Vec<ExternMember>, i: usize) -> (out: Result<(), CodegenError>)
        ensures
            match out {
                Ok(made) => foreign_members(nest::nest(depth as nat), old(self)@, ms, i) == Ok::<((), State<'a>), Failure<'a>>((made, final(self)@)),
                Err(trouble) => foreign_members(nest::nest(depth as nat), old(self)@, ms, i) == Err::<((), State<'a>), Failure<'a>>(Failure { trouble: trouble@, after: final(self)@ }),
            },
        decreases depth, 7int, ms.len() - i,
    {
        reveal(foreign_members);
        if i >= ms.len() {
            return Ok(());
        }
        if let Err(e) = self.foreign_member(depth, &ms[i]) {
            return Err(e);
        }
        if let Err(e) = self.foreign_members(depth, ms, i + 1) {
            return Err(e);
        }
        Ok(())
    }

    /// Declares parameter `i` of a function; one that the caller's variable stands for is an address.
    pub fn function_param(&mut self, depth: usize, ps: &'a Vec<Param>, i: usize) -> (out: Result<(), CodegenError>)
        ensures
            match out {
                Ok(made) => function_param(nest::nest(depth as nat), old(self)@, ps, i) == Ok::<((), State<'a>), Failure<'a>>((made, final(self)@)),
                Err(trouble) => function_param(nest::nest(depth as nat), old(self)@, ps, i) == Err::<((), State<'a>), Failure<'a>>(Failure { trouble: trouble@, after: final(self)@ }),
            },
        decreases depth, 3int, 0int,
    {
        reveal(function_param);
        if i < ps.len() {
            let q = &ps[i];
            if self.is_open_end(q) {
                self.add_param(q.name.as_str(), ParamInfo { ty: None, elem: None, is_variadic: true });
                return Ok(());
            }
            if q.mode != ParamMode::Plain {
                self.add_param(q.name.as_str(), ParamInfo { ty: Some(PTR), elem: None, is_variadic: q.is_variadic });
                return Ok(());
            }
            if q.is_variadic {
                let e = match self.variadic_elem(depth, ps, i) {
                    Ok(v) => v,
                    Err(e) => {
                        return Err(e);
                    },
                };
                let t = self.function_gathers(e);
                self.add_param(q.name.as_str(), ParamInfo { ty: Some(t), elem: Some(e), is_variadic: true });
                return Ok(());
            }
            let t = match self.nested_ty(depth, &q.ty) {
                Ok(v) => v,
                Err(e) => {
                    return Err(e);
                },
            };
            self.add_param(q.name.as_str(), ParamInfo { ty: Some(t), elem: None, is_variadic: false });
            return Ok(());
        }
        Ok(())
    }

    /// The type of a parameter that gathers values: an array of integers or addresses, else one value.
    pub fn function_gathers(&mut self, e: usize) -> (out: usize)
        ensures
            (out, final(self)@) == function_gathers(old(self)@, e),
    {
        reveal(function_gathers);
        if self.is_int(e) || self.is_ptr(e) {
            let r = self.array_of(e, 16);
            return r;
        }
        e
    }

    /// Declares the parameters of a function from `i` on.
    pub fn function_params(&mut self, depth: usize, ps: &'a Vec<Param>, i: usize) -> (out: Result<(), CodegenError>)
        ensures
            match out {
                Ok(made) => function_params(nest::nest(depth as nat), old(self)@, ps, i) == Ok::<((), State<'a>), Failure<'a>>((made, final(self)@)),
                Err(trouble) => function_params(nest::nest(depth as nat), old(self)@, ps, i) == Err::<((), State<'a>), Failure<'a>>(Failure { trouble: trouble@, after: final(self)@ }),
            },
        decreases depth, 4int, ps.len() - i,
    {
        reveal(function_params);
        if i >= ps.len() {
            return Ok(());
        }
        if let Err(e) = self.function_param(depth, ps, i) {
            return Err(e);
        }
        if let Err(e) = self.function_params(depth, ps, i + 1) {
            return Err(e);
        }
        Ok(())
    }

    /// Whether a written type is that of lists of strings.
    pub fn is_strings(&self, t: &'a Type) -> (out: bool)
        ensures
            out == is_strings(t),
    {
        reveal(is_strings);
        match t {
            Type::Array(el) => {
                return self.is_str_ty(el);
            },
            _ => {},
        }
        false
    }

    /// Whether a function is a main function that takes the arguments of the program.
    pub fn takes_args(&self, f: &'a Function) -> (out: bool)
        ensures
            out == takes_args(f),
    {
        reveal(takes_args);
        if text::same_str(f.name.as_str(), "main") && f.params.len() == 1 {
            let q = &f.params[0];
            return text::same_str(q.name.as_str(), "args") && self.is_strings(&q.ty);
        }
        false
    }

    /// Whether a name is that of a type: a built-in integer, a type parameter, or a declared type.
    pub fn is_known_type(&self, n: &str) -> (out: bool)
        ensures
            out == is_known_type(self@, n@),
    {
        reveal(is_known_type);
        if text::same_str(n, "__derived__") {
            return true;
        }
        let b_text = base_of(n);
        let b = b_text.as_str();
        match self.int_name(b) {
            Some(_) => {
                return true;
            },
            _ => {},
        }
        if self.is_letter(b) {
            return true;
        }
        match self.layout(b) {
            Some(_) => {
                return true;
            },
            _ => {},
        }
        false
    }

    /// The result type of a function, `None` where it returns nothing.
    pub fn function_ret(&mut self, depth: usize, f: &'a Function) -> (out: Result<Option<usize>, CodegenError>)
        ensures
            match out {
                Ok(made) => function_ret(nest::nest(depth as nat), old(self)@, f) == Ok::<(Option<usize>, State<'a>), Failure<'a>>((made, final(self)@)),
                Err(trouble) => function_ret(nest::nest(depth as nat), old(self)@, f) == Err::<(Option<usize>, State<'a>), Failure<'a>>(Failure { trouble: trouble@, after: final(self)@ }),
            },
        decreases depth, 5int, 0int,
    {
        reveal(function_ret);
        match &f.ret_ty {
            Type::Named(n) => {
                if self.is_known_type(n.as_str()) {
                    let r = match self.ret_ty(depth, &f.ret_ty) {
                        Ok(v) => v,
                        Err(e) => {
                            return Err(e);
                        },
                    };
                    return Ok(r);
                }
                return Err(fault_naming("unknown struct ", n.as_str(), "", f.ret_span));
            },
            _ => {},
        }
        let r = match self.ret_ty(depth, &f.ret_ty) {
            Ok(v) => v,
            Err(e) => {
                return Err(e);
            },
        };
        Ok(r)
    }

    /// Declares a function; the main function returns the exit code.
    pub fn declare_function(&mut self, depth: usize, f: &'a Function) -> (out: Result<(), CodegenError>)
        ensures
            match out {
                Ok(made) => declare_function(nest::nest(depth as nat), old(self)@, f) == Ok::<((), State<'a>), Failure<'a>>((made, final(self)@)),
                Err(trouble) => declare_function(nest::nest(depth as nat), old(self)@, f) == Err::<((), State<'a>), Failure<'a>>(Failure { trouble: trouble@, after: final(self)@ }),
            },
        decreases depth, 6int, 0int,
    {
        reveal(declare_function);
        let first = self.param_start();
        if self.takes_args(f) {
            let k = self.add_function(f.name.as_str(), FuncInfo { ret: Some(I32), c_varargs: false, converts: true, first: first, count: 0 });
            return Ok(());
        }
        if let Err(e) = self.function_params(depth, &f.params, 0) {
            return Err(e);
        }
        let open: bool = self.has_open_end(&f.params, 0);
        if text::same_str(f.name.as_str(), "main") {
            let k = self.add_function(f.name.as_str(), FuncInfo { ret: Some(I32), c_varargs: open, converts: true, first: first, count: f.params.len() });
            return Ok(());
        }
        let r = match self.function_ret(depth, f) {
            Ok(v) => v,
            Err(e) => {
                return Err(e);
            },
        };
        let k = self.add_function(f.name.as_str(), FuncInfo { ret: r, c_varargs: open, converts: true, first: first, count: f.params.len() });
        Ok(())
    }
}

} // verus!
