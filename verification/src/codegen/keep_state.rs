//! What the operations on a lowering keep.
use vstd::prelude::*;
use crate::ast::{
    DeferInner, Expr,
};
use crate::codegen::ir::{
    FieldInfo, FuncInfo, GlobalInfo, Label, Member, Op, Operand,
    ParamInfo, TagInfo, TyDef,
};
use crate::codegen::keep;
use crate::codegen::state;
use crate::codegen::state::State;

verus! {

/// `intern` keeps what was there.
pub broadcast proof fn keeps_intern<'a>(base: State<'a>, st: State<'a>, d: TyDef)
    requires
        #[trigger] keep::kept(base, st),
    ensures
        keep::kept(base, (#[trigger] state::intern(st, d)).1),
{
    reveal(keep::kept);
    reveal(keep::stays);
    reveal(state::intern);
    broadcast use keep::starts_push;
}

/// `note_vec` keeps what was there.
pub broadcast proof fn keeps_note_vec<'a>(base: State<'a>, st: State<'a>, name: Seq<char>)
    requires
        #[trigger] keep::kept(base, st),
    ensures
        keep::kept(base, #[trigger] state::note_vec(st, name)),
{
    reveal(keep::kept);
    reveal(keep::stays);
    reveal(state::note_vec);
    broadcast use keep::starts_push;
}

/// `note_map` keeps what was there.
pub broadcast proof fn keeps_note_map<'a>(base: State<'a>, st: State<'a>, name: Seq<char>)
    requires
        #[trigger] keep::kept(base, st),
    ensures
        keep::kept(base, #[trigger] state::note_map(st, name)),
{
    reveal(keep::kept);
    reveal(keep::stays);
    reveal(state::note_map);
    broadcast use keep::starts_push;
}

/// `note_str` keeps what was there.
pub broadcast proof fn keeps_note_str<'a>(base: State<'a>, st: State<'a>, name: Seq<char>)
    requires
        #[trigger] keep::kept(base, st),
    ensures
        keep::kept(base, #[trigger] state::note_str(st, name)),
{
    reveal(keep::kept);
    reveal(keep::stays);
    reveal(state::note_str);
    broadcast use keep::starts_push;
}

/// `bind` keeps what was there.
pub broadcast proof fn keeps_bind<'a>(base: State<'a>, st: State<'a>, name: Seq<char>, v: Operand)
    requires
        #[trigger] keep::kept(base, st),
    ensures
        keep::kept(base, #[trigger] state::bind(st, name, v)),
{
    reveal(keep::kept);
    reveal(keep::stays);
    reveal(state::bind);
    broadcast use keep::starts_push;
}

/// `add_defer` keeps what was there.
pub broadcast proof fn keeps_add_defer<'a>(base: State<'a>, st: State<'a>, d: &'a DeferInner)
    requires
        #[trigger] keep::kept(base, st),
    ensures
        keep::kept(base, #[trigger] state::add_defer(st, d)),
{
    reveal(keep::kept);
    reveal(keep::stays);
    reveal(state::add_defer);
    broadcast use keep::starts_push;
}

/// `add_dtor` keeps what was there.
pub broadcast proof fn keeps_add_dtor<'a>(base: State<'a>, st: State<'a>, v: Operand)
    requires
        #[trigger] keep::kept(base, st),
    ensures
        keep::kept(base, #[trigger] state::add_dtor(st, v)),
{
    reveal(keep::kept);
    reveal(keep::stays);
    reveal(state::add_dtor);
    broadcast use keep::starts_push;
}

/// `emit` keeps what was there.
pub broadcast proof fn keeps_emit<'a>(base: State<'a>, st: State<'a>, op: Op, ty: usize)
    requires
        #[trigger] keep::kept(base, st),
    ensures
        keep::kept(base, (#[trigger] state::emit(st, op, ty)).1),
{
    reveal(keep::kept);
    reveal(keep::stays);
    reveal(state::emit);
    broadcast use keep::starts_push;
}

/// `perform` keeps what was there.
pub broadcast proof fn keeps_perform<'a>(base: State<'a>, st: State<'a>, op: Op)
    requires
        #[trigger] keep::kept(base, st),
    ensures
        keep::kept(base, #[trigger] state::perform(st, op)),
{
    reveal(keep::kept);
    reveal(keep::stays);
    reveal(state::perform);
    broadcast use keep::starts_push;
}

/// `finish` keeps what was there.
pub broadcast proof fn keeps_finish<'a>(base: State<'a>, st: State<'a>, op: Op)
    requires
        #[trigger] keep::kept(base, st),
    ensures
        keep::kept(base, #[trigger] state::finish(st, op)),
{
    reveal(keep::kept);
    reveal(keep::stays);
    reveal(state::finish);
    broadcast use keep::starts_push;
}

/// `block` keeps what was there.
pub broadcast proof fn keeps_block<'a>(base: State<'a>, st: State<'a>, label: Label)
    requires
        #[trigger] keep::kept(base, st),
    ensures
        keep::kept(base, (#[trigger] state::block(st, label)).1),
{
    reveal(keep::kept);
    reveal(keep::stays);
    reveal(state::block);
    broadcast use keep::starts_push;
}

/// `at` keeps what was there.
pub broadcast proof fn keeps_at<'a>(base: State<'a>, st: State<'a>, b: usize)
    requires
        #[trigger] keep::kept(base, st),
    ensures
        keep::kept(base, #[trigger] state::at(st, b)),
{
    reveal(keep::kept);
    reveal(keep::stays);
    reveal(state::at);
    broadcast use keep::starts_push;
}

/// `next_closure` keeps what was there.
pub broadcast proof fn keeps_next_closure<'a>(base: State<'a>, st: State<'a>)
    requires
        #[trigger] keep::kept(base, st),
    ensures
        keep::kept(base, (#[trigger] state::next_closure(st)).1),
{
    reveal(keep::kept);
    reveal(keep::stays);
    reveal(state::next_closure);
    broadcast use keep::starts_push;
}

/// `text` keeps what was there.
pub broadcast proof fn keeps_text<'a>(base: State<'a>, st: State<'a>, s: Seq<char>)
    requires
        #[trigger] keep::kept(base, st),
    ensures
        keep::kept(base, (#[trigger] state::text(st, s)).1),
{
    reveal(keep::kept);
    reveal(keep::stays);
    reveal(state::text);
    broadcast use keep::starts_push;
}

/// `add_layout` keeps what was there.
pub broadcast proof fn keeps_add_layout<'a>(base: State<'a>, st: State<'a>, name: Seq<char>, is_enum: bool)
    requires
        #[trigger] keep::kept(base, st),
    ensures
        keep::kept(base, (#[trigger] state::add_layout(st, name, is_enum)).1),
{
    reveal(keep::kept);
    reveal(keep::stays);
    reveal(state::add_layout);
    broadcast use keep::starts_push;
}

/// `add_field` keeps what was there.
pub broadcast proof fn keeps_add_field<'a>(base: State<'a>, st: State<'a>, name: Seq<char>, info: FieldInfo, default: Option<&'a Expr>)
    requires
        #[trigger] keep::kept(base, st),
    ensures
        keep::kept(base, #[trigger] state::add_field(st, name, info, default)),
{
    reveal(keep::kept);
    reveal(keep::stays);
    reveal(state::add_field);
    broadcast use keep::starts_push;
}

/// `add_tag` keeps what was there.
pub broadcast proof fn keeps_add_tag<'a>(base: State<'a>, st: State<'a>, name: Seq<char>, info: TagInfo)
    requires
        #[trigger] keep::kept(base, st),
    ensures
        keep::kept(base, #[trigger] state::add_tag(st, name, info)),
{
    reveal(keep::kept);
    reveal(keep::stays);
    reveal(state::add_tag);
    broadcast use keep::starts_push;
}

/// `add_member` keeps what was there.
pub broadcast proof fn keeps_add_member<'a>(base: State<'a>, st: State<'a>, name: Seq<char>, info: Member)
    requires
        #[trigger] keep::kept(base, st),
    ensures
        keep::kept(base, #[trigger] state::add_member(st, name, info)),
{
    reveal(keep::kept);
    reveal(keep::stays);
    reveal(state::add_member);
    broadcast use keep::starts_push;
}

/// `param_start` keeps what was there.
pub broadcast proof fn keeps_param_start<'a>(base: State<'a>, st: State<'a>)
    requires
        #[trigger] keep::kept(base, st),
    ensures
        keep::kept(base, (#[trigger] state::param_start(st)).1),
{
    reveal(keep::kept);
    reveal(keep::stays);
    reveal(state::param_start);
    broadcast use keep::starts_push;
}

/// `add_param` keeps what was there.
pub broadcast proof fn keeps_add_param<'a>(base: State<'a>, st: State<'a>, name: Seq<char>, info: ParamInfo)
    requires
        #[trigger] keep::kept(base, st),
    ensures
        keep::kept(base, #[trigger] state::add_param(st, name, info)),
{
    reveal(keep::kept);
    reveal(keep::stays);
    reveal(state::add_param);
    broadcast use keep::starts_push;
}

/// `add_function` keeps what was there.
pub broadcast proof fn keeps_add_function<'a>(base: State<'a>, st: State<'a>, name: Seq<char>, info: FuncInfo)
    requires
        #[trigger] keep::kept(base, st),
    ensures
        keep::kept(base, (#[trigger] state::add_function(st, name, info)).1),
{
    reveal(keep::kept);
    reveal(keep::stays);
    reveal(state::add_function);
    broadcast use keep::starts_push;
}

/// `add_global` keeps what was there.
pub broadcast proof fn keeps_add_global<'a>(base: State<'a>, st: State<'a>, name: Seq<char>, info: GlobalInfo)
    requires
        #[trigger] keep::kept(base, st),
    ensures
        keep::kept(base, #[trigger] state::add_global(st, name, info)),
{
    reveal(keep::kept);
    reveal(keep::stays);
    reveal(state::add_global);
    broadcast use keep::starts_push;
}

/// `add_const` keeps what was there.
pub broadcast proof fn keeps_add_const<'a>(base: State<'a>, st: State<'a>, v: Operand)
    requires
        #[trigger] keep::kept(base, st),
    ensures
        keep::kept(base, #[trigger] state::add_const(st, v)),
{
    reveal(keep::kept);
    reveal(keep::stays);
    reveal(state::add_const);
    broadcast use keep::starts_push;
}

/// `copy_field` keeps what was there.
pub broadcast proof fn keeps_copy_field<'a>(base: State<'a>, st: State<'a>, k: usize, l: usize)
    requires
        #[trigger] keep::kept(base, st),
    ensures
        keep::kept(base, #[trigger] state::copy_field(st, k, l)),
{
    reveal(keep::kept);
    reveal(keep::stays);
    reveal(state::copy_field);
    broadcast use keep::starts_push;
}

/// `copy_member` keeps what was there.
pub broadcast proof fn keeps_copy_member<'a>(base: State<'a>, st: State<'a>, k: usize, l: usize)
    requires
        #[trigger] keep::kept(base, st),
    ensures
        keep::kept(base, #[trigger] state::copy_member(st, k, l)),
{
    reveal(keep::kept);
    reveal(keep::stays);
    reveal(state::copy_member);
    broadcast use keep::starts_push;
}

} // verus!
