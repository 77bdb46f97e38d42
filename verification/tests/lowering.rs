use hella::ast::Program;
use hella::codegen::ir::{
    Arith, Cast, GlobalForm, Label, MemberKind, Op, Operand, Pred, Runtime, Val, I1, I32, I64, PTR,
};
use hella::codegen::state::Codegen;
use hella::codegen::{MachineLevel, OptLevel};
use hella::lexer::lex;
use hella::parse::program::parse;
use hella::source::Source;

fn tree(src: &str) -> Program {
    let lexed = lex(src);
    assert!(lexed.errors.is_empty(), "lex errors: {}", lexed.errors.len());
    match parse(lexed.tokens, &Source::new(src)) {
        Ok(p) => p,
        Err(e) => panic!("{} at {}..{}", e.message, e.span.start, e.span.end),
    }
}

fn compile_src(src: &str) {
    let prog = tree(src);
    let mut cg = Codegen::new("test");
    if let Err(e) = cg.compile_program(&prog) {
        panic!("codegen failed: {}", e.render());
    }
}

fn message(src: &str) -> String {
    let prog = tree(src);
    let mut cg = Codegen::new("test");
    match cg.compile_program(&prog) {
        Ok(()) => panic!("lowered"),
        Err(e) => e.message,
    }
}

fn ops(src: &str) -> Vec<Op> {
    let prog = tree(src);
    let mut cg = Codegen::new("test");
    if let Err(e) = cg.compile_program(&prog) {
        panic!("codegen failed: {}", e.render());
    }
    cg.steps.iter().map(|s| s.op).collect()
}

fn labels(src: &str) -> Vec<Label> {
    let prog = tree(src);
    let mut cg = Codegen::new("test");
    if let Err(e) = cg.compile_program(&prog) {
        panic!("codegen failed: {}", e.render());
    }
    cg.blocks.iter().map(|b| b.label).collect()
}

fn num(v: i64) -> Operand {
    Operand { val: Val::Int(v), ty: I64 }
}

fn reg(k: usize, ty: usize) -> Operand {
    Operand { val: Val::Reg(k), ty }
}

#[test]
fn void_extension_method_verifies() {
    compile_src("class U has\nend\nextend U do\nvoid ex() do\nreturn\nend\nend\n");
}

#[test]
fn void_extension_method_fallthrough_verifies() {
    compile_src("class U has\nend\nextend U do\nvoid ex() do\nint x = 1\nend\nend\n");
}

#[test]
fn int_extension_method_verifies() {
    compile_src("class U has\nend\nextend U do\nint ex() do\nreturn 1\nend\nend\n");
}

#[test]
fn main_returns_an_exit_code() {
    let expected = vec![
        Op::Convert(Cast::Trunc, num(1), I32),
        Op::Return(reg(0, I32)),
    ];
    assert_eq!(ops("int main() do\nreturn 1\nend\n"), expected);
}

#[test]
fn end_of_function_returns_zero() {
    assert_eq!(ops("int f() do\nend\n"), vec![Op::Return(Operand { val: Val::Zero, ty: I64 })]);
    assert_eq!(ops("void f() do\nend\n"), vec![Op::ReturnVoid]);
    assert_eq!(ops("int main() do\nend\n"), vec![Op::Return(Operand { val: Val::Zero, ty: I32 })]);
}

#[test]
fn operators_follow_precedence() {
    let expected = vec![
        Op::Slot(I64),
        Op::Store(Val::Reg(0), Operand { val: Val::Arg(0), ty: I64 }),
        Op::Load(Val::Reg(0), I64),
        Op::Arith(Arith::Mul, reg(2, I64), num(3)),
        Op::Arith(Arith::Add, num(2), reg(3, I64)),
        Op::Return(reg(4, I64)),
    ];
    assert_eq!(ops("int f(int x) do\nreturn 2 + x * 3\nend\n"), expected);
}

#[test]
fn narrow_operand_is_widened() {
    let src = "bool f(int x) do\nreturn x is 1\nend\n";
    assert_eq!(ops(src)[3], Op::Compare(Pred::Same, reg(2, I64), num(1)));
    let src = "int f(bool b, int x) do\nreturn b + x\nend\n";
    assert!(ops(src).contains(&Op::Convert(Cast::Sext, reg(4, I1), I64)));
}

#[test]
fn branches_meet_again() {
    let src = "int f(int x) do\nif x > 1 do\nx = 2\nend\nelse do\nx = 3\nend\nreturn x\nend\n";
    assert_eq!(labels(src), vec![Label::Entry, Label::IfThen, Label::IfElse, Label::IfMerge]);
}

#[test]
fn block_without_an_end_is_refused() {
    let src = "int f(int x) do\nif x > 1 do\nreturn 2\nend\nelse do\nreturn 3\nend\nend\n";
    assert_eq!(message(src), "function f failed verification");
}

#[test]
fn code_after_return_stands_in_a_block_of_its_own() {
    let src = "class U has\nend\nextend U do\nint ex() do\nreturn 1\nint x = 2\nend\nend\n";
    assert_eq!(labels(src.replace('U', "Unit").as_str()), vec![Label::Entry, Label::Dead]);
    assert_eq!(message("int f() do\nreturn 1\nint x = 2\nend\n"), "function f failed verification");
}

#[test]
fn deferred_code_runs_last_first() {
    let src = "void g(int x) do\nend\nvoid f() do\ndefer g(1)\ndefer g(2)\ng(3)\nend\n";
    let pushed: Vec<i64> = ops(src)
        .iter()
        .filter_map(|o| match o {
            Op::Push(Operand { val: Val::Int(v), .. }) => Some(*v),
            _ => None,
        })
        .collect();
    assert_eq!(pushed, vec![3, 2, 1]);
}

#[test]
fn deferred_code_runs_before_a_return() {
    let src = "void g(int x) do\nend\nint f() do\ndefer g(1)\nreturn 5\nend\n";
    let all = ops(src);
    let call = all.iter().position(|o| matches!(o, Op::Call(_, 1))).unwrap();
    let ret = all.iter().position(|o| *o == Op::Return(num(5))).unwrap();
    assert!(call < ret);
}

#[test]
fn jumps_need_a_loop() {
    assert_eq!(message("void f() do\nbreak\nend\n"), "break outside loop");
    assert_eq!(message("void f() do\ncontinue\nend\n"), "continue outside loop");
    assert_eq!(message("void f() do\nloop do\nbreak away\nend\nend\n"), "break label `away` not found");
    assert_eq!(message("void f() do\nloop do\ncontinue away\nend\nend\n"), "continue label `away` not found");
}

#[test]
fn labelled_break_leaves_the_outer_loop() {
    let src = "void f() do\nouter: loop do\nloop do\nbreak outer\nend\nend\nend\n";
    let prog = tree(src);
    let mut cg = Codegen::new("test");
    cg.compile_program(&prog).unwrap();
    let exits: Vec<usize> = cg
        .blocks
        .iter()
        .enumerate()
        .filter(|(_, b)| b.label == Label::LoopExit)
        .map(|(k, _)| k)
        .collect();
    let inner_body = cg.blocks.iter().rposition(|b| b.label == Label::LoopBody).unwrap();
    let last = cg.steps.iter().filter(|s| s.block == inner_body).last().unwrap();
    assert_eq!(last.op, Op::Jump(exits[0]));
}

#[test]
fn unknown_names_are_reported() {
    assert_eq!(message("int f() do\nreturn y\nend\n"), "undefined var y");
    assert_eq!(message("int f() do\nreturn g(1)\nend\n"), "undefined function g");
    assert_eq!(message("int f() do\nreturn this.x\nend\n"), "`this`/`super` outside method");
    assert_eq!(message("int f(Nope n) do\nreturn 1\nend\n"), "unknown struct/enum type Nope");
}

#[test]
fn declared_twice_is_refused() {
    assert_eq!(message("struct A has\nint x\nend\nstruct A has\nint y\nend\n"), "duplicate struct A");
    assert_eq!(message("class A has\nend\nclass A has\nend\n"), "duplicate class/struct `A`");
    assert_eq!(message("enum A has\nx\nend\nenum A has\ny\nend\n"), "duplicate enum `A`");
}

#[test]
fn error_tells_its_place() {
    let prog = tree("int f() do\nreturn y\nend\n");
    let mut cg = Codegen::new("test");
    let e = cg.compile_program(&prog).unwrap_err();
    assert_eq!(e.render(), "undefined var y at 18..19");
}

#[test]
fn class_takes_over_fields_and_methods() {
    let src = "open class Base has\nint x\nint get() do\nreturn this.x\nend\nend\nclass Sub extends Base has\nint y\nend\nint f(Sub b) do\nreturn b.get() + b.y\nend\n";
    let prog = tree(src);
    let mut cg = Codegen::new("test");
    if let Err(e) = cg.compile_program(&prog) {
        panic!("{}", e.render());
    }
    let b = cg.layout_names.iter().position(|n| n == "Sub").unwrap();
    let fields: Vec<(&str, u32)> = cg
        .fields
        .iter()
        .zip(cg.field_names.iter())
        .filter(|(f, _)| f.layout == b)
        .map(|(f, n)| (n.as_str(), f.index))
        .collect();
    assert_eq!(fields, vec![("x", 0), ("y", 1)]);
    assert!(cg.members.iter().any(|m| m.layout == b && m.kind == MemberKind::Method));
    assert_eq!(cg.func_names, vec!["Base__get", "f"]);
}

#[test]
fn constructor_sets_fields_of_its_parameters() {
    let src = "class Point has\nint x\nPoint(int x) initialize\nend\nint f() do\nPoint p = Point(4)\nreturn p.x\nend\n";
    let prog = tree(src);
    let mut cg = Codegen::new("test");
    if let Err(e) = cg.compile_program(&prog) {
        panic!("{}", e.render());
    }
    assert_eq!(cg.func_names, vec!["Point__ctor", "f"]);
    let all: Vec<Op> = cg.steps.iter().map(|s| s.op).collect();
    assert!(all.iter().any(|o| matches!(o, Op::Field(_, _, 0))));
    assert!(all.contains(&Op::Push(num(4))));
}

#[test]
fn destructor_runs_at_the_end_of_the_scope() {
    let src = "class Point has\nint x\n~Point() do\nend\nend\nvoid f() do\nPoint p\nend\n";
    let prog = tree(src);
    let mut cg = Codegen::new("test");
    if let Err(e) = cg.compile_program(&prog) {
        panic!("{}", e.render());
    }
    assert_eq!(cg.func_names, vec!["Point__dtor", "f"]);
    assert!(cg.steps.iter().any(|s| s.op == Op::Call(0, 1)));
}

#[test]
fn match_tests_tags_and_binds_payloads() {
    let src = "enum Opt has\nnone\nsome(int v)\nend\nint f(Opt e) do\nreturn match e do\n.some(v) -> v\n_ -> 0\nend\nend\n";
    let all = ops(src);
    assert!(all.iter().any(|o| matches!(
        o,
        Op::Compare(Pred::Same, _, Operand { val: Val::Int(1), ty: I32 })
    )));
    assert!(all.iter().any(|o| matches!(o, Op::Extract(_, 1))));
}

#[test]
fn vector_keeps_its_length() {
    let src = "int f() do\nint vec v = [1, 2]\nv.push(3)\nreturn v.len()\nend\n";
    let all = ops(src);
    assert!(all.contains(&Op::CallRuntime(Runtime::Abort, 0)));
    assert!(all.iter().any(|o| matches!(o, Op::Store(_, Operand { val: Val::Int(2), .. }))));
    assert_eq!(message("int f() do\nint vec v = [1]\nreturn v.nope()\nend\n"), "unknown method `nope` for `v`");
    assert_eq!(message("int f() do\nint vec v = [1]\nv.push(1, 2)\nreturn 1\nend\n"), "`push` expects 1 arg, found 2");
}

#[test]
fn strings_are_measured_by_the_runtime() {
    let all = ops("int f(string s) do\nreturn s.len()\nend\n");
    assert!(all.contains(&Op::CallRuntime(Runtime::Strlen, 1)));
}

#[test]
fn globals_keep_their_literals() {
    let src = "int a = 5\nconst string S = \"hi\"\nint arr[3] l = [1, 2]\n";
    let prog = tree(src);
    let mut cg = Codegen::new("test");
    if let Err(e) = cg.compile_program(&prog) {
        panic!("{}", e.render());
    }
    assert_eq!(cg.global_names, vec!["a", "S", "l"]);
    assert_eq!(cg.globals[0].form, GlobalForm::Single);
    assert_eq!(cg.consts[cg.globals[0].first], num(5));
    assert!(cg.globals[1].is_constant);
    assert_eq!(cg.consts[cg.globals[1].first], Operand { val: Val::Text(0), ty: PTR });
    assert_eq!(cg.texts, vec!["hi"]);
    assert_eq!(cg.globals[2].form, GlobalForm::Elements);
    assert_eq!(cg.globals[2].count, 2);
}

#[test]
fn arguments_can_be_named() {
    let src = "int f(int a, int b) do\nreturn a\nend\nint g() do\nreturn f(b: 1, a: 2)\nend\n";
    let pushed: Vec<Operand> = ops(src)
        .iter()
        .filter_map(|o| match o {
            Op::Push(v) => Some(*v),
            _ => None,
        })
        .collect();
    assert_eq!(pushed, vec![num(2), num(1)]);
}

#[test]
fn main_with_arguments_takes_no_parameters() {
    let prog = tree("int main(string[] args) do\nreturn 0\nend\n");
    let mut cg = Codegen::new("test");
    cg.compile_program(&prog).unwrap();
    assert_eq!(cg.funcs[0].count, 0);
    assert_eq!(cg.funcs[0].ret, Some(I32));
}

#[test]
fn every_block_has_its_last_step() {
    let src = "int f(int x) do\nwhile x < 10 do\nx += 1\nif x is 5 do\nbreak\nend\nend\nreturn x\nend\n";
    let prog = tree(src);
    let mut cg = Codegen::new("test");
    cg.compile_program(&prog).unwrap();
    assert!(cg.ended.iter().all(|e| *e));
    assert_eq!(cg.ended.len(), cg.blocks.len());
}

#[test]
fn levels_of_optimisation() {
    assert_eq!(OptLevel::Debug.machine_level(), MachineLevel::Default);
    assert_eq!(OptLevel::Release.machine_level(), MachineLevel::Aggressive);
    assert_eq!(OptLevel::Debug.passes(), None);
    assert_eq!(OptLevel::Release.passes(), Some("default<O3>"));
}

#[test]
fn variables_end_with_their_block() {
    let e = message("int main() do\n    if true do\n        int x = 1\n    end\n    return x\nend\n");
    assert_eq!(e, message("int main() do\n    return x\nend\n"));
    let prog = tree("int main() do\n    int a = 1\n    while a < 3 do\n        int b = a\n        a = b + 1\n    end\n    return a\nend\n");
    let mut cg = Codegen::new("test");
    assert!(cg.compile_program(&prog).is_ok());
    assert!(cg.vars.is_empty() && cg.var_names.is_empty() && cg.marks.is_empty());
    assert!(cg.loops.is_empty() && cg.defers.is_empty() && cg.dtors.is_empty());
    assert!(cg.func.is_none() && !cg.is_main && cg.class.is_none());
}

#[test]
fn second_program_only_adds() {
    let first = tree("int one() do\n    return 1\nend\n");
    let second = tree("int main() do\n    return one()\nend\n");
    let mut cg = Codegen::new("test");
    assert!(cg.compile_program(&first).is_ok());
    let (steps, blocks, names) = (cg.steps.clone(), cg.blocks.clone(), cg.func_names.clone());
    assert!(cg.compile_program(&second).is_ok());
    assert!(cg.steps.len() > steps.len());
    assert_eq!(&cg.steps[..steps.len()], &steps[..]);
    assert_eq!(&cg.blocks[..blocks.len()], &blocks[..]);
    assert_eq!(&cg.func_names[..names.len()], &names[..]);
}

#[test]
fn empty_vector_aborts_before_it_is_read() {
    for m in ["first", "last", "pop"] {
        let src = format!("int f() do\nint vec v = [1, 2]\nreturn v.{m}()\nend\n");
        let ops = ops(&src);
        let abort = ops.iter().position(|o| *o == Op::CallRuntime(Runtime::Abort, 0));
        let elem = ops.iter().rposition(|o| matches!(o, Op::Elem(..)));
        assert!(abort.is_some() && elem.is_some() && abort < elem, "{m}: {ops:?}");
    }
}

#[test]
fn duplicate_class_declares_nothing() {
    let first = tree("class P has\n    int x\nend\n");
    let second = tree("class P has\n    int y\n    void m() do\n    end\nend\n");
    let mut cg = Codegen::new("test");
    assert!(cg.compile_program(&first).is_ok());
    let (layouts, fields, funcs) = (cg.layout_names.clone(), cg.field_names.clone(), cg.func_names.clone());
    let e = cg.compile_program(&second).unwrap_err();
    assert_eq!(e.message, "duplicate class/struct `P`");
    assert_eq!(cg.layout_names, layouts);
    assert_eq!(cg.field_names, fields);
    assert_eq!(cg.func_names, funcs);
}

#[test]
fn members_without_an_end_are_named() {
    let open = "if true do\n            return 1\n        end\n        else do\n            return 2\n        end\n";
    let e = message(&format!("class P has\n    int m() do\n        {open}    end\nend\n"));
    assert_eq!(e, "method P::m failed verification");
    let e = message(&format!("class P has\n    int q get do\n        {open}    end\nend\n"));
    assert_eq!(e, "getter P__get_q failed verify");
}

fn lowered(prog: &Program) -> Codegen<'_> {
    let mut cg = Codegen::new("test");
    if let Err(e) = cg.compile_program(prog) {
        panic!("codegen failed: {}", e.render());
    }
    cg
}

fn report(src: &str) -> String {
    let prog = tree(src);
    let mut cg = Codegen::new("test");
    cg.compile_program(&prog).unwrap_err().render()
}

#[test]
fn foreign_generic_types_need_no_declaration() {
    let prog = tree("extern \"c\" from \"x.h\" do\nList<int> make(void v, T<bool> a, List<int> b)\nend\n");
    let cg = lowered(&prog);
    let k = cg.func_names.iter().position(|n| n == "make").unwrap();
    let f = cg.funcs[k];
    assert_eq!(f.ret, Some(PTR));
    assert_eq!(f.count, 2);
    assert_eq!(cg.params[f.first].ty, Some(I1));
    assert_eq!(cg.params[f.first + 1].ty, Some(PTR));
}

#[test]
fn unknown_result_type_is_reported_where_it_stands() {
    assert_eq!(report("int f() do\nreturn 1\nend\nFoo g() do\nend\n"), "unknown struct Foo at 24..27");
}

#[test]
fn result_of_another_type_is_refused() {
    assert_eq!(
        message("class P has\n    int x\n    bool q get do\n        int y = 1\n    end\nend\n"),
        "getter P__get_q failed verify"
    );
}

#[test]
fn field_of_what_has_none_is_reported() {
    assert_eq!(report("int f() do\nint a = 1\nreturn a.b\nend\n"), "variable is not struct at 0..0");
    assert_eq!(report("enum C has\nA\nend\nint f() do\nC c = C.B\nreturn 0\nend\n"), "undefined var C at 34..35");
}

#[test]
fn runtime_function_is_found_once_it_is_called() {
    assert_eq!(message("int f(string s) do\nreturn strlen(s)\nend\n"), "undefined function strlen");
    let all = ops("int f(string s) do\nint n = s.len()\nreturn strlen(s)\nend\n");
    assert_eq!(all.iter().filter(|o| **o == Op::CallRuntime(Runtime::Strlen, 1)).count(), 2);
}

#[test]
fn match_tries_its_arms_in_order() {
    let src = "int f(int x) do\nreturn match x do\n1 -> 10\n2 -> 20\n_ -> 30\nend\nend\n";
    let prog = tree(src);
    let cg = lowered(&prog);
    let at = |l: Label| cg.blocks.iter().position(|b| b.label == l).unwrap();
    let (merge, next) = (at(Label::MatchMerge), at(Label::MatchNext(0)));
    let tests: Vec<(usize, usize, usize)> = cg
        .steps
        .iter()
        .filter_map(|s| match s.op {
            Op::Branch(_, a, b) => Some((s.block, a, b)),
            _ => None,
        })
        .collect();
    assert_eq!(
        tests,
        vec![
            (0, at(Label::MatchArm(0)), next),
            (next, at(Label::MatchArm(1)), at(Label::MatchNext(1))),
            (at(Label::MatchNext(1)), at(Label::MatchArm(2)), merge),
        ]
    );
    for k in 0..3 {
        let arm = at(Label::MatchArm(k));
        assert!(cg.steps.iter().any(|s| s.block == arm && s.op == Op::Jump(merge)), "{k}");
    }
}

#[test]
fn own_members_win_over_inherited_ones() {
    let src = "open class A has\nint m() do\nreturn 1\nend\nint n() do\nreturn 2\nend\nint p get do\nreturn 3\nend\nset(int v) do\nend\nend\nclass B extends A has\nint m() do\nreturn 4\nend\nint p get do\nreturn 5\nend\nend\n";
    let prog = tree(src);
    let cg = lowered(&prog);
    let b = cg.layout_names.iter().position(|n| n == "B").unwrap();
    let mut own: Vec<(&str, MemberKind, &str)> = cg
        .members
        .iter()
        .zip(cg.member_names.iter())
        .filter(|(m, _)| m.layout == b)
        .map(|(m, n)| (n.as_str(), m.kind, cg.func_names[m.func].as_str()))
        .collect();
    own.sort_by_key(|t| t.0);
    assert_eq!(
        own,
        vec![
            ("m", MemberKind::Method, "B__m"),
            ("n", MemberKind::Method, "A__n"),
            ("p", MemberKind::Getter, "B__get_p"),
        ]
    );
}
