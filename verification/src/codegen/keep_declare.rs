//! What the functions of `declare` keep.
use vstd::prelude::*;
use crate::ast::{
    ConstructorDecl, DestructorDecl, ClassDecl, EnumDecl, ExtensionDecl, ExtensionMember, ExternMember,
    Function, OperatorDecl, Param, PropertyDecl, StructDecl, StructField, AliasDecl,
    Type, VariantDecl,
};
use crate::codegen::ir::{
    FieldInfo, Member, MemberKind, ParamInfo, TagInfo,
};
use crate::codegen::declare;
use crate::codegen::keep;
use crate::codegen::keep_lower;
use crate::codegen::keep_state;
use crate::codegen::lower;
use crate::codegen::state;
use crate::codegen::nest::Nest;
use crate::codegen::state::State;

verus! {

/// `add_fields` keeps what was there.
pub broadcast proof fn keeps_add_fields<'a>(base: State<'a>, nest: Nest<'a>, st: State<'a>, l: usize, fs: &'a Vec<StructField>, i: usize)
    requires
        #[trigger] keep::kept(base, st),
        keep::nest_keeps(nest),
    ensures
        match #[trigger] declare::add_fields(nest, st, l, fs, i) {
            Ok((_, after)) => keep::kept(base, after),
            Err(_) => true,
        },
    decreases fs.len() - i,
{
    broadcast use keeps_add_one_field;

    reveal(declare::add_fields);
    if i >= fs.len() {
    } else {
        let f = &fs@[i as int];
        match declare::add_one_field(nest, st, l, f) {
            Ok((_, st)) => {
                keeps_add_fields(base, nest, st, l, fs, (i + 1) as usize);
                match declare::add_fields(nest, st, l, fs, (i + 1) as usize) {
                    Ok((_, st)) => {
                    },
                    Err(_) => {},
                }
            },
            Err(_) => {},
        }
    }
}

/// `add_one_field` keeps what was there.
pub broadcast proof fn keeps_add_one_field<'a>(base: State<'a>, nest: Nest<'a>, st: State<'a>, l: usize, f: &'a StructField)
    requires
        #[trigger] keep::kept(base, st),
        keep::nest_keeps(nest),
    ensures
        match #[trigger] declare::add_one_field(nest, st, l, f) {
            Ok((_, after)) => keep::kept(base, after),
            Err(_) => true,
        },
{
    broadcast use keep_state::keeps_add_field;

    reveal(declare::add_one_field);
}

/// `declare_struct` keeps what was there.
pub broadcast proof fn keeps_declare_struct<'a>(base: State<'a>, nest: Nest<'a>, st: State<'a>, s: &'a StructDecl)
    requires
        #[trigger] keep::kept(base, st),
        keep::nest_keeps(nest),
    ensures
        match #[trigger] declare::declare_struct(nest, st, s) {
            Ok((_, after)) => keep::kept(base, after),
            Err(_) => true,
        },
{
    broadcast use {keeps_add_fields, keep_state::keeps_add_layout};

    reveal(declare::declare_struct);
}

/// `inherit_fields` keeps what was there.
pub broadcast proof fn keeps_inherit_fields<'a>(base: State<'a>, st: State<'a>, parent: usize, l: usize, k: usize, n: usize)
    requires
        #[trigger] keep::kept(base, st),
    ensures
        keep::kept(base, #[trigger] declare::inherit_fields(st, parent, l, k, n)),
    decreases n-k,
{
    broadcast use keep_state::keeps_copy_field;

    reveal(declare::inherit_fields);
    if k >= n {
    } else {
        let st = if state::field_layout(st, k) == Some(parent) && state::is_current_field(st, k) {
            state::copy_field(st, k, l)
        } else {
            st
        };
        keeps_inherit_fields(base, st, parent, l, (k + 1) as usize, n);
        let st = declare::inherit_fields(st, parent, l, (k + 1) as usize, n);
    }
}

/// `inherit_members` keeps what was there.
pub broadcast proof fn keeps_inherit_members<'a>(base: State<'a>, st: State<'a>, parent: usize, l: usize, methods: bool, k: usize, n: usize)
    requires
        #[trigger] keep::kept(base, st),
    ensures
        keep::kept(base, #[trigger] declare::inherit_members(st, parent, l, methods, k, n)),
    decreases n-k,
{
    broadcast use keep_state::keeps_copy_member;

    reveal(declare::inherit_members);
    if k >= n {
    } else {
        let m = state::member_info(st, k);
        let st = if m.layout == parent && declare::is_passed_on(m.kind, methods) && !state::owns_like(st, k, l, n) {
            state::copy_member(st, k, l)
        } else {
            st
        };
        keeps_inherit_members(base, st, parent, l, methods, (k + 1) as usize, n);
        let st = declare::inherit_members(st, parent, l, methods, (k + 1) as usize, n);
    }
}

/// `variadic_elem` keeps what was there.
pub broadcast proof fn keeps_variadic_elem<'a>(base: State<'a>, nest: Nest<'a>, st: State<'a>, ps: &'a Vec<Param>, i: usize)
    requires
        #[trigger] keep::kept(base, st),
        keep::nest_keeps(nest),
    ensures
        match #[trigger] declare::variadic_elem(nest, st, ps, i) {
            Ok((_, after)) => keep::kept(base, after),
            Err(_) => true,
        },
{

    reveal(declare::variadic_elem);
}

/// `gathered` keeps what was there.
pub broadcast proof fn keeps_gathered<'a>(base: State<'a>, st: State<'a>, e: usize, structs: bool)
    requires
        #[trigger] keep::kept(base, st),
    ensures
        keep::kept(base, (#[trigger] declare::gathered(st, e, structs)).1),
{
    broadcast use keep_lower::keeps_array_of;

    reveal(declare::gathered);
}

/// `method_param` keeps what was there.
pub broadcast proof fn keeps_method_param<'a>(base: State<'a>, nest: Nest<'a>, st: State<'a>, ps: &'a Vec<Param>, i: usize)
    requires
        #[trigger] keep::kept(base, st),
        keep::nest_keeps(nest),
    ensures
        match #[trigger] declare::method_param(nest, st, ps, i) {
            Ok((_, after)) => keep::kept(base, after),
            Err(_) => true,
        },
{
    broadcast use {keeps_variadic_elem, keep_lower::keeps_array_of, keep_state::keeps_add_param};

    reveal(declare::method_param);
}

/// `method_params` keeps what was there.
pub broadcast proof fn keeps_method_params<'a>(base: State<'a>, nest: Nest<'a>, st: State<'a>, ps: &'a Vec<Param>, i: usize)
    requires
        #[trigger] keep::kept(base, st),
        keep::nest_keeps(nest),
    ensures
        match #[trigger] declare::method_params(nest, st, ps, i) {
            Ok((_, after)) => keep::kept(base, after),
            Err(_) => true,
        },
    decreases ps.len() - i,
{
    broadcast use keeps_method_param;

    reveal(declare::method_params);
    if i >= ps.len() {
    } else {
        match declare::method_param(nest, st, ps, i) {
            Ok((_, st)) => {
                keeps_method_params(base, nest, st, ps, (i + 1) as usize);
                match declare::method_params(nest, st, ps, (i + 1) as usize) {
                    Ok((_, st)) => {
                    },
                    Err(_) => {},
                }
            },
            Err(_) => {},
        }
    }
}

/// `add_method` keeps what was there.
pub broadcast proof fn keeps_add_method<'a>(base: State<'a>, nest: Nest<'a>, st: State<'a>, name: Seq<char>, r: Option<usize>, ps: &'a Vec<Param>)
    requires
        #[trigger] keep::kept(base, st),
        keep::nest_keeps(nest),
    ensures
        match #[trigger] declare::add_method(nest, st, name, r, ps) {
            Ok((_, after)) => keep::kept(base, after),
            Err(_) => true,
        },
{
    broadcast use {keeps_method_params, keep_state::keeps_add_function, keep_state::keeps_add_param, keep_state::keeps_param_start};

    reveal(declare::add_method);
}

/// `declare_method` keeps what was there.
pub broadcast proof fn keeps_declare_method<'a>(base: State<'a>, nest: Nest<'a>, st: State<'a>, c: Seq<char>, l: Option<usize>, f: &'a Function)
    requires
        #[trigger] keep::kept(base, st),
        keep::nest_keeps(nest),
    ensures
        match #[trigger] declare::declare_method(nest, st, c, l, f) {
            Ok((_, after)) => keep::kept(base, after),
            Err(_) => true,
        },
{
    broadcast use {keeps_add_method, keep_lower::keeps_ret_ty, keep_state::keeps_add_member};

    reveal(declare::declare_method);
}

/// `declare_methods` keeps what was there.
pub broadcast proof fn keeps_declare_methods<'a>(base: State<'a>, nest: Nest<'a>, st: State<'a>, c: Seq<char>, l: usize, fs: &'a Vec<Function>, i: usize)
    requires
        #[trigger] keep::kept(base, st),
        keep::nest_keeps(nest),
    ensures
        match #[trigger] declare::declare_methods(nest, st, c, l, fs, i) {
            Ok((_, after)) => keep::kept(base, after),
            Err(_) => true,
        },
    decreases fs.len() - i,
{
    broadcast use keeps_declare_method;

    reveal(declare::declare_methods);
    if i >= fs.len() {
    } else {
        match declare::declare_method(nest, st, c, Some(l), &fs@[i as int]) {
            Ok((_, st)) => {
                keeps_declare_methods(base, nest, st, c, l, fs, (i + 1) as usize);
                match declare::declare_methods(nest, st, c, l, fs, (i + 1) as usize) {
                    Ok((_, st)) => {
                    },
                    Err(_) => {},
                }
            },
            Err(_) => {},
        }
    }
}

/// `declare_operator` keeps what was there.
pub broadcast proof fn keeps_declare_operator<'a>(base: State<'a>, nest: Nest<'a>, st: State<'a>, c: Seq<char>, l: Option<usize>, o: &'a OperatorDecl)
    requires
        #[trigger] keep::kept(base, st),
        keep::nest_keeps(nest),
    ensures
        match #[trigger] declare::declare_operator(nest, st, c, l, o) {
            Ok((_, after)) => keep::kept(base, after),
            Err(_) => true,
        },
{
    broadcast use {keeps_add_method, keep_state::keeps_add_member};

    reveal(declare::declare_operator);
}

/// `declare_operators` keeps what was there.
pub broadcast proof fn keeps_declare_operators<'a>(base: State<'a>, nest: Nest<'a>, st: State<'a>, c: Seq<char>, l: usize, os: &'a Vec<OperatorDecl>, i: usize)
    requires
        #[trigger] keep::kept(base, st),
        keep::nest_keeps(nest),
    ensures
        match #[trigger] declare::declare_operators(nest, st, c, l, os, i) {
            Ok((_, after)) => keep::kept(base, after),
            Err(_) => true,
        },
    decreases os.len() - i,
{
    broadcast use keeps_declare_operator;

    reveal(declare::declare_operators);
    if i >= os.len() {
    } else {
        match declare::declare_operator(nest, st, c, Some(l), &os@[i as int]) {
            Ok((_, st)) => {
                keeps_declare_operators(base, nest, st, c, l, os, (i + 1) as usize);
                match declare::declare_operators(nest, st, c, l, os, (i + 1) as usize) {
                    Ok((_, st)) => {
                    },
                    Err(_) => {},
                }
            },
            Err(_) => {},
        }
    }
}

/// `declare_ctors` keeps what was there.
pub broadcast proof fn keeps_declare_ctors<'a>(base: State<'a>, nest: Nest<'a>, st: State<'a>, c: Seq<char>, l: usize, cs: &'a Vec<ConstructorDecl>, i: usize)
    requires
        #[trigger] keep::kept(base, st),
        keep::nest_keeps(nest),
    ensures
        match #[trigger] declare::declare_ctors(nest, st, c, l, cs, i) {
            Ok((_, after)) => keep::kept(base, after),
            Err(_) => true,
        },
    decreases cs.len() - i,
{
    broadcast use {keeps_add_method, keep_state::keeps_add_member};

    reveal(declare::declare_ctors);
    if i >= cs.len() {
    } else {
        let d = &cs@[i as int];
        let name = state::numbered(c, "__ctor"@, cs.len() > 1, i);
        match declare::add_method(nest, st, name, None, &d.params) {
            Ok((k, st)) => {
                let st = state::add_member(st, d.name@, Member { layout: l, kind: MemberKind::Constructor, func: k, params: d.params.len() });
                keeps_declare_ctors(base, nest, st, c, l, cs, (i + 1) as usize);
                match declare::declare_ctors(nest, st, c, l, cs, (i + 1) as usize) {
                    Ok((_, st)) => {
                    },
                    Err(_) => {},
                }
            },
            Err(_) => {},
        }
    }
}

/// `add_plain_method` keeps what was there.
pub broadcast proof fn keeps_add_plain_method<'a>(base: State<'a>, st: State<'a>, name: Seq<char>, r: Option<usize>)
    requires
        #[trigger] keep::kept(base, st),
    ensures
        keep::kept(base, (#[trigger] declare::add_plain_method(st, name, r)).1),
{
    broadcast use {keep_state::keeps_add_function, keep_state::keeps_add_param, keep_state::keeps_param_start};

    reveal(declare::add_plain_method);
}

/// `declare_dtors` keeps what was there.
pub broadcast proof fn keeps_declare_dtors<'a>(base: State<'a>, st: State<'a>, c: Seq<char>, l: usize, ds: &'a Vec<DestructorDecl>, i: usize)
    requires
        #[trigger] keep::kept(base, st),
    ensures
        keep::kept(base, #[trigger] declare::declare_dtors(st, c, l, ds, i)),
    decreases ds.len() - i,
{
    broadcast use {keeps_add_plain_method, keep_state::keeps_add_member};

    reveal(declare::declare_dtors);
    if i >= ds.len() {
    } else {
        let d = &ds@[i as int];
        let name = state::numbered(c, "__dtor"@, ds.len() > 1, i);
        let (k, st) = declare::add_plain_method(st, name, None);
        let st = state::add_member(st, d.name@, Member { layout: l, kind: MemberKind::Destructor, func: k, params: 0 });
        keeps_declare_dtors(base, st, c, l, ds, (i + 1) as usize);
        let st = declare::declare_dtors(st, c, l, ds, (i + 1) as usize);
    }
}

/// `property_ty` keeps what was there.
pub broadcast proof fn keeps_property_ty<'a>(base: State<'a>, nest: Nest<'a>, st: State<'a>, p: &'a PropertyDecl)
    requires
        #[trigger] keep::kept(base, st),
        keep::nest_keeps(nest),
    ensures
        match #[trigger] declare::property_ty(nest, st, p) {
            Ok((_, after)) => keep::kept(base, after),
            Err(_) => true,
        },
{

    reveal(declare::property_ty);
}

/// `note_member` keeps what was there.
pub broadcast proof fn keeps_note_member<'a>(base: State<'a>, st: State<'a>, n: Seq<char>, l: Option<usize>, kind: MemberKind, f: usize, params: usize)
    requires
        #[trigger] keep::kept(base, st),
    ensures
        keep::kept(base, #[trigger] declare::note_member(st, n, l, kind, f, params)),
{
    broadcast use keep_state::keeps_add_member;

    reveal(declare::note_member);
}

/// `declare_getter` keeps what was there.
pub broadcast proof fn keeps_declare_getter<'a>(base: State<'a>, st: State<'a>, c: Seq<char>, l: Option<usize>, p: &'a PropertyDecl, t: usize)
    requires
        #[trigger] keep::kept(base, st),
    ensures
        keep::kept(base, #[trigger] declare::declare_getter(st, c, l, p, t)),
{
    broadcast use {keeps_add_plain_method, keeps_note_member};

    reveal(declare::declare_getter);
}

/// `declare_setter` keeps what was there.
pub broadcast proof fn keeps_declare_setter<'a>(base: State<'a>, nest: Nest<'a>, st: State<'a>, c: Seq<char>, l: Option<usize>, p: &'a PropertyDecl, q: &'a Param)
    requires
        #[trigger] keep::kept(base, st),
        keep::nest_keeps(nest),
    ensures
        match #[trigger] declare::declare_setter(nest, st, c, l, p, q) {
            Ok((_, after)) => keep::kept(base, after),
            Err(_) => true,
        },
{
    broadcast use {keeps_note_member, keep_state::keeps_add_function, keep_state::keeps_add_param, keep_state::keeps_param_start};

    reveal(declare::declare_setter);
}

/// `declare_property` keeps what was there.
pub broadcast proof fn keeps_declare_property<'a>(base: State<'a>, nest: Nest<'a>, st: State<'a>, c: Seq<char>, l: Option<usize>, p: &'a PropertyDecl)
    requires
        #[trigger] keep::kept(base, st),
        keep::nest_keeps(nest),
    ensures
        match #[trigger] declare::declare_property(nest, st, c, l, p) {
            Ok((_, after)) => keep::kept(base, after),
            Err(_) => true,
        },
{
    broadcast use {keeps_declare_getter, keeps_declare_setter, keeps_property_ty};

    reveal(declare::declare_property);
}

/// `declare_properties` keeps what was there.
pub broadcast proof fn keeps_declare_properties<'a>(base: State<'a>, nest: Nest<'a>, st: State<'a>, c: Seq<char>, l: usize, ps: &'a Vec<PropertyDecl>, i: usize)
    requires
        #[trigger] keep::kept(base, st),
        keep::nest_keeps(nest),
    ensures
        match #[trigger] declare::declare_properties(nest, st, c, l, ps, i) {
            Ok((_, after)) => keep::kept(base, after),
            Err(_) => true,
        },
    decreases ps.len() - i,
{
    broadcast use keeps_declare_property;

    reveal(declare::declare_properties);
    if i >= ps.len() {
    } else {
        match declare::declare_property(nest, st, c, Some(l), &ps@[i as int]) {
            Ok((_, st)) => {
                keeps_declare_properties(base, nest, st, c, l, ps, (i + 1) as usize);
                match declare::declare_properties(nest, st, c, l, ps, (i + 1) as usize) {
                    Ok((_, st)) => {
                    },
                    Err(_) => {},
                }
            },
            Err(_) => {},
        }
    }
}

/// `take_fields` keeps what was there.
pub broadcast proof fn keeps_take_fields<'a>(base: State<'a>, st: State<'a>, c: &'a ClassDecl, l: usize)
    requires
        #[trigger] keep::kept(base, st),
    ensures
        keep::kept(base, #[trigger] declare::take_fields(st, c, l)),
{
    broadcast use keeps_inherit_fields;

    reveal(declare::take_fields);
}

/// `take_members` keeps what was there.
pub broadcast proof fn keeps_take_members<'a>(base: State<'a>, st: State<'a>, c: &'a ClassDecl, l: usize, methods: bool)
    requires
        #[trigger] keep::kept(base, st),
    ensures
        keep::kept(base, #[trigger] declare::take_members(st, c, l, methods)),
{
    broadcast use keeps_inherit_members;

    reveal(declare::take_members);
}

/// `declare_class` keeps what was there.
pub broadcast proof fn keeps_declare_class<'a>(base: State<'a>, nest: Nest<'a>, st: State<'a>, c: &'a ClassDecl)
    requires
        #[trigger] keep::kept(base, st),
        keep::nest_keeps(nest),
    ensures
        match #[trigger] declare::declare_class(nest, st, c) {
            Ok((_, after)) => keep::kept(base, after),
            Err(_) => true,
        },
{
    broadcast use {keeps_add_fields, keeps_declare_ctors, keeps_declare_dtors, keeps_declare_methods, keeps_declare_operators, keeps_declare_properties, keeps_take_fields, keeps_take_members, keep_state::keeps_add_layout};

    reveal(declare::declare_class);
}

/// `add_tags` keeps what was there.
pub broadcast proof fn keeps_add_tags<'a>(base: State<'a>, st: State<'a>, l: usize, vs: &'a Vec<VariantDecl>, i: usize)
    requires
        #[trigger] keep::kept(base, st),
    ensures
        keep::kept(base, #[trigger] declare::add_tags(st, l, vs, i)),
    decreases vs.len() - i,
{
    broadcast use keep_state::keeps_add_tag;

    reveal(declare::add_tags);
    if i >= vs.len() {
    } else {
        let v = &vs@[i as int];
        let t = declare::tag_of(v, i);
        let st = state::add_tag(st, v.name@, TagInfo { layout: l, tag: t });
        keeps_add_tags(base, st, l, vs, (i + 1) as usize);
        let st = declare::add_tags(st, l, vs, (i + 1) as usize);
    }
}

/// `new_enum` keeps what was there.
pub broadcast proof fn keeps_new_enum<'a>(base: State<'a>, st: State<'a>, n: Seq<char>, vs: &'a Vec<VariantDecl>)
    requires
        #[trigger] keep::kept(base, st),
    ensures
        keep::kept(base, #[trigger] declare::new_enum(st, n, vs)),
{
    broadcast use {keeps_add_tags, keep_state::keeps_add_field, keep_state::keeps_add_layout};

    reveal(declare::new_enum);
}

/// `declare_enum` keeps what was there.
pub broadcast proof fn keeps_declare_enum<'a>(base: State<'a>, st: State<'a>, e: &'a EnumDecl)
    requires
        #[trigger] keep::kept(base, st),
    ensures
        match #[trigger] declare::declare_enum(st, e) {
            Ok((_, after)) => keep::kept(base, after),
            Err(_) => true,
        },
{
    broadcast use keeps_new_enum;

    reveal(declare::declare_enum);
}

/// `declare_alias` keeps what was there.
pub broadcast proof fn keeps_declare_alias<'a>(base: State<'a>, nest: Nest<'a>, st: State<'a>, d: &'a AliasDecl)
    requires
        #[trigger] keep::kept(base, st),
        keep::nest_keeps(nest),
    ensures
        match #[trigger] declare::declare_alias(nest, st, d) {
            Ok((_, after)) => keep::kept(base, after),
            Err(_) => true,
        },
{

    reveal(declare::declare_alias);
}

/// `declare_distinct` keeps what was there.
pub broadcast proof fn keeps_declare_distinct<'a>(base: State<'a>, nest: Nest<'a>, st: State<'a>, d: &'a AliasDecl)
    requires
        #[trigger] keep::kept(base, st),
        keep::nest_keeps(nest),
    ensures
        match #[trigger] declare::declare_distinct(nest, st, d) {
            Ok((_, after)) => keep::kept(base, after),
            Err(_) => true,
        },
{
    broadcast use {keep_state::keeps_add_field, keep_state::keeps_add_layout};

    reveal(declare::declare_distinct);
}

/// `extend_fields` keeps what was there.
pub broadcast proof fn keeps_extend_fields<'a>(base: State<'a>, nest: Nest<'a>, st: State<'a>, l: usize, ms: &'a Vec<ExtensionMember>, i: usize)
    requires
        #[trigger] keep::kept(base, st),
        keep::nest_keeps(nest),
    ensures
        match #[trigger] declare::extend_fields(nest, st, l, ms, i) {
            Ok((_, after)) => keep::kept(base, after),
            Err(_) => true,
        },
    decreases ms.len() - i,
{
    broadcast use keeps_add_one_field;

    reveal(declare::extend_fields);
    if i >= ms.len() {
    } else {
        match ms@[i as int] {
            ExtensionMember::Field(f) => {
                match declare::add_one_field(nest, st, l, &f) {
                    Ok((_, st)) => {
                        keeps_extend_fields(base, nest, st, l, ms, (i + 1) as usize);
                        match declare::extend_fields(nest, st, l, ms, (i + 1) as usize) {
                            Ok((_, st)) => {
                            },
                            Err(_) => {},
                        }
                    },
                    Err(_) => {},
                }
            },
            _ => {
                keeps_extend_fields(base, nest, st, l, ms, (i + 1) as usize);
                match declare::extend_fields(nest, st, l, ms, (i + 1) as usize) {
                    Ok((_, st)) => {
                    },
                    Err(_) => {},
                }
            },
        }
    }
}

/// `extend_member` keeps what was there.
pub broadcast proof fn keeps_extend_member<'a>(base: State<'a>, nest: Nest<'a>, st: State<'a>, n: Seq<char>, l: Option<usize>, m: &'a ExtensionMember)
    requires
        #[trigger] keep::kept(base, st),
        keep::nest_keeps(nest),
    ensures
        match #[trigger] declare::extend_member(nest, st, n, l, m) {
            Ok((_, after)) => keep::kept(base, after),
            Err(_) => true,
        },
{
    broadcast use {keeps_declare_method, keeps_declare_operator, keeps_declare_property};

    reveal(declare::extend_member);
}

/// `extend_members` keeps what was there.
pub broadcast proof fn keeps_extend_members<'a>(base: State<'a>, nest: Nest<'a>, st: State<'a>, n: Seq<char>, l: Option<usize>, ms: &'a Vec<ExtensionMember>, i: usize)
    requires
        #[trigger] keep::kept(base, st),
        keep::nest_keeps(nest),
    ensures
        match #[trigger] declare::extend_members(nest, st, n, l, ms, i) {
            Ok((_, after)) => keep::kept(base, after),
            Err(_) => true,
        },
    decreases ms.len() - i,
{
    broadcast use keeps_extend_member;

    reveal(declare::extend_members);
    if i >= ms.len() {
    } else {
        match declare::extend_member(nest, st, n, l, &ms@[i as int]) {
            Ok((_, st)) => {
                keeps_extend_members(base, nest, st, n, l, ms, (i + 1) as usize);
                match declare::extend_members(nest, st, n, l, ms, (i + 1) as usize) {
                    Ok((_, st)) => {
                    },
                    Err(_) => {},
                }
            },
            Err(_) => {},
        }
    }
}

/// `extend` keeps what was there.
pub broadcast proof fn keeps_extend<'a>(base: State<'a>, nest: Nest<'a>, st: State<'a>, n: Seq<char>, ms: &'a Vec<ExtensionMember>)
    requires
        #[trigger] keep::kept(base, st),
        keep::nest_keeps(nest),
    ensures
        match #[trigger] declare::extend(nest, st, n, ms) {
            Ok((_, after)) => keep::kept(base, after),
            Err(_) => true,
        },
{
    broadcast use {keeps_extend_fields, keeps_extend_members};

    reveal(declare::extend);
}

/// `declare_extension` keeps what was there.
pub broadcast proof fn keeps_declare_extension<'a>(base: State<'a>, nest: Nest<'a>, st: State<'a>, x: &'a ExtensionDecl)
    requires
        #[trigger] keep::kept(base, st),
        keep::nest_keeps(nest),
    ensures
        match #[trigger] declare::declare_extension(nest, st, x) {
            Ok((_, after)) => keep::kept(base, after),
            Err(_) => true,
        },
{
    broadcast use keeps_extend;

    reveal(declare::declare_extension);
}

/// `foreign_named` keeps what was there.
pub broadcast proof fn keeps_foreign_named<'a>(base: State<'a>, st: State<'a>, n: Seq<char>)
    requires
        #[trigger] keep::kept(base, st),
    ensures
        match #[trigger] declare::foreign_named(st, n) {
            Ok((_, after)) => keep::kept(base, after),
            Err(_) => true,
        },
{
    broadcast use keep_lower::keeps_named_ty;

    reveal(declare::foreign_named);
}

/// `foreign_ret` keeps what was there.
pub broadcast proof fn keeps_foreign_ret<'a>(base: State<'a>, nest: Nest<'a>, st: State<'a>, t: &'a Type)
    requires
        #[trigger] keep::kept(base, st),
        keep::nest_keeps(nest),
    ensures
        match #[trigger] declare::foreign_ret(nest, st, t) {
            Ok((_, after)) => keep::kept(base, after),
            Err(_) => true,
        },
{
    broadcast use keeps_foreign_named;

    reveal(declare::foreign_ret);
}

/// `foreign_params` keeps what was there.
pub broadcast proof fn keeps_foreign_params<'a>(base: State<'a>, nest: Nest<'a>, st: State<'a>, ps: &'a Vec<Param>, i: usize)
    requires
        #[trigger] keep::kept(base, st),
        keep::nest_keeps(nest),
    ensures
        match #[trigger] declare::foreign_params(nest, st, ps, i) {
            Ok((_, after)) => keep::kept(base, after),
            Err(_) => true,
        },
    decreases ps.len() - i,
{
    broadcast use {keep_lower::keeps_array_of, keep_state::keeps_add_param};

    reveal(declare::foreign_params);
    if i >= ps.len() {
    } else {
        let q = &ps@[i as int];
        if declare::is_open_end(q) {
            keeps_foreign_params(base, nest, st, ps, (i + 1) as usize);
            match declare::foreign_params(nest, st, ps, (i + 1) as usize) {
                Ok((n, st)) => {
                },
                Err(_) => {},
            }
        } else {
            match (nest.held_ty)(st, &q.ty) {
                Ok((h, st)) => {
                    if q.is_variadic {
                        let e = declare::or_int(h);
                        let (a, st) = lower::array_of(st, e, 16);
                        let st = state::add_param(st, q.name@, ParamInfo { ty: Some(a), elem: Some(e), is_variadic: true });
                        keeps_foreign_params(base, nest, st, ps, (i + 1) as usize);
                        match declare::foreign_params(nest, st, ps, (i + 1) as usize) {
                            Ok((n, st)) => {
                            },
                            Err(_) => {},
                        }
                    } else {
                        match h {
                            Some(t) => {
                                let st = state::add_param(st, q.name@, ParamInfo { ty: Some(t), elem: None, is_variadic: false });
                                keeps_foreign_params(base, nest, st, ps, (i + 1) as usize);
                                match declare::foreign_params(nest, st, ps, (i + 1) as usize) {
                                    Ok((n, st)) => {
                                    },
                                    Err(_) => {},
                                }
                            },
                            _ => {
                                keeps_foreign_params(base, nest, st, ps, (i + 1) as usize);
                                match declare::foreign_params(nest, st, ps, (i + 1) as usize) {
                                    Ok((n, st)) => {
                                    },
                                    Err(_) => {},
                                }
                            },
                        }
                    }
                },
                Err(_) => {},
            }
        }
    }
}

/// `foreign_printf` keeps what was there.
pub broadcast proof fn keeps_foreign_printf<'a>(base: State<'a>, st: State<'a>, n: Seq<char>)
    requires
        #[trigger] keep::kept(base, st),
    ensures
        keep::kept(base, #[trigger] declare::foreign_printf(st, n)),
{
    broadcast use {keep_state::keeps_add_function, keep_state::keeps_add_param, keep_state::keeps_param_start};

    reveal(declare::foreign_printf);
}

/// `foreign_function` keeps what was there.
pub broadcast proof fn keeps_foreign_function<'a>(base: State<'a>, nest: Nest<'a>, st: State<'a>, t: &'a Type, n: Seq<char>, ps: &'a Vec<Param>)
    requires
        #[trigger] keep::kept(base, st),
        keep::nest_keeps(nest),
    ensures
        match #[trigger] declare::foreign_function(nest, st, t, n, ps) {
            Ok((_, after)) => keep::kept(base, after),
            Err(_) => true,
        },
{
    broadcast use {keeps_foreign_params, keeps_foreign_printf, keeps_foreign_ret, keep_state::keeps_add_function, keep_state::keeps_param_start};

    reveal(declare::foreign_function);
}

/// `plain_fields` keeps what was there.
pub broadcast proof fn keeps_plain_fields<'a>(base: State<'a>, nest: Nest<'a>, st: State<'a>, l: usize, fs: &'a Vec<StructField>, i: usize)
    requires
        #[trigger] keep::kept(base, st),
        keep::nest_keeps(nest),
    ensures
        match #[trigger] declare::plain_fields(nest, st, l, fs, i) {
            Ok((_, after)) => keep::kept(base, after),
            Err(_) => true,
        },
    decreases fs.len() - i,
{
    broadcast use keep_state::keeps_add_field;

    reveal(declare::plain_fields);
    if i >= fs.len() {
    } else {
        let f = &fs@[i as int];
        match (nest.ty)(st, &f.ty) {
            Ok((t, st)) => {
                let k = state::field_total(st, l);
                let st = state::add_field(st, f.name@, FieldInfo { layout: l, index: k, ty: t }, None);
                keeps_plain_fields(base, nest, st, l, fs, (i + 1) as usize);
                match declare::plain_fields(nest, st, l, fs, (i + 1) as usize) {
                    Ok((_, st)) => {
                    },
                    Err(_) => {},
                }
            },
            Err(_) => {},
        }
    }
}

/// `foreign_member` keeps what was there.
pub broadcast proof fn keeps_foreign_member<'a>(base: State<'a>, nest: Nest<'a>, st: State<'a>, m: &'a ExternMember)
    requires
        #[trigger] keep::kept(base, st),
        keep::nest_keeps(nest),
    ensures
        match #[trigger] declare::foreign_member(nest, st, m) {
            Ok((_, after)) => keep::kept(base, after),
            Err(_) => true,
        },
{
    broadcast use {keeps_foreign_function, keeps_new_enum, keeps_plain_fields, keep_state::keeps_add_global, keep_state::keeps_add_layout};

    reveal(declare::foreign_member);
}

/// `foreign_members` keeps what was there.
pub broadcast proof fn keeps_foreign_members<'a>(base: State<'a>, nest: Nest<'a>, st: State<'a>, ms: &'a Vec<ExternMember>, i: usize)
    requires
        #[trigger] keep::kept(base, st),
        keep::nest_keeps(nest),
    ensures
        match #[trigger] declare::foreign_members(nest, st, ms, i) {
            Ok((_, after)) => keep::kept(base, after),
            Err(_) => true,
        },
    decreases ms.len() - i,
{
    broadcast use keeps_foreign_member;

    reveal(declare::foreign_members);
    if i >= ms.len() {
    } else {
        match declare::foreign_member(nest, st, &ms@[i as int]) {
            Ok((_, st)) => {
                keeps_foreign_members(base, nest, st, ms, (i + 1) as usize);
                match declare::foreign_members(nest, st, ms, (i + 1) as usize) {
                    Ok((_, st)) => {
                    },
                    Err(_) => {},
                }
            },
            Err(_) => {},
        }
    }
}

/// `function_param` keeps what was there.
pub broadcast proof fn keeps_function_param<'a>(base: State<'a>, nest: Nest<'a>, st: State<'a>, ps: &'a Vec<Param>, i: usize)
    requires
        #[trigger] keep::kept(base, st),
        keep::nest_keeps(nest),
    ensures
        match #[trigger] declare::function_param(nest, st, ps, i) {
            Ok((_, after)) => keep::kept(base, after),
            Err(_) => true,
        },
{
    broadcast use {keeps_function_gathers, keeps_variadic_elem, keep_state::keeps_add_param};

    reveal(declare::function_param);
}

/// `function_gathers` keeps what was there.
pub broadcast proof fn keeps_function_gathers<'a>(base: State<'a>, st: State<'a>, e: usize)
    requires
        #[trigger] keep::kept(base, st),
    ensures
        keep::kept(base, (#[trigger] declare::function_gathers(st, e)).1),
{
    broadcast use keep_lower::keeps_array_of;

    reveal(declare::function_gathers);
}

/// `function_params` keeps what was there.
pub broadcast proof fn keeps_function_params<'a>(base: State<'a>, nest: Nest<'a>, st: State<'a>, ps: &'a Vec<Param>, i: usize)
    requires
        #[trigger] keep::kept(base, st),
        keep::nest_keeps(nest),
    ensures
        match #[trigger] declare::function_params(nest, st, ps, i) {
            Ok((_, after)) => keep::kept(base, after),
            Err(_) => true,
        },
    decreases ps.len() - i,
{
    broadcast use keeps_function_param;

    reveal(declare::function_params);
    if i >= ps.len() {
    } else {
        match declare::function_param(nest, st, ps, i) {
            Ok((_, st)) => {
                keeps_function_params(base, nest, st, ps, (i + 1) as usize);
                match declare::function_params(nest, st, ps, (i + 1) as usize) {
                    Ok((_, st)) => {
                    },
                    Err(_) => {},
                }
            },
            Err(_) => {},
        }
    }
}

/// `function_ret` keeps what was there.
pub broadcast proof fn keeps_function_ret<'a>(base: State<'a>, nest: Nest<'a>, st: State<'a>, f: &'a Function)
    requires
        #[trigger] keep::kept(base, st),
        keep::nest_keeps(nest),
    ensures
        match #[trigger] declare::function_ret(nest, st, f) {
            Ok((_, after)) => keep::kept(base, after),
            Err(_) => true,
        },
{
    broadcast use keep_lower::keeps_ret_ty;

    reveal(declare::function_ret);
}

/// `declare_function` keeps what was there.
pub broadcast proof fn keeps_declare_function<'a>(base: State<'a>, nest: Nest<'a>, st: State<'a>, f: &'a Function)
    requires
        #[trigger] keep::kept(base, st),
        keep::nest_keeps(nest),
    ensures
        match #[trigger] declare::declare_function(nest, st, f) {
            Ok((_, after)) => keep::kept(base, after),
            Err(_) => true,
        },
{
    broadcast use {keeps_function_params, keeps_function_ret, keep_state::keeps_add_function, keep_state::keeps_param_start};

    reveal(declare::declare_function);
}

} // verus!
