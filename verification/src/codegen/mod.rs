//! Lowering of programs to the intermediate representation.
pub mod calls;
pub mod control_laws;
pub mod collection_laws;
pub mod collections;
pub mod data_laws;
pub mod declare;
pub mod effect_laws;
pub mod exprs;
pub mod functions;
pub mod globals;
pub mod infer_types;
pub mod ir;
pub mod keep;
pub mod keep_calls;
pub mod keep_collections;
pub mod keep_declare;
pub mod keep_exprs;
pub mod keep_functions;
pub mod keep_globals;
pub mod keep_lower;
pub mod keep_patterns;
pub mod keep_places;
pub mod keep_state;
pub mod keep_stmts;
pub mod laws;
pub mod lower;
pub mod meaning;
pub mod nest;
pub mod operator_laws;
pub mod pattern_laws;
pub mod patterns;
pub mod places;
pub mod search_laws;
pub mod state;
pub mod stmts;
pub mod type_laws;
pub mod value_laws;

use vstd::prelude::*;
use crate::ast::Program;
use state::{Codegen, CodegenError, Failure, State};

verus! {

/// How deeply constructs may be nested: no program that fits in memory goes deeper.
pub const MAX_DEPTH: usize = usize::MAX;

/// What lowering a program makes of a module.
pub open spec fn compiled<'a>(st: State<'a>, prog: &'a Program) -> Result<State<'a>, Failure<'a>> {
    match functions::lower_program(nest::nest(MAX_DEPTH as nat), st, prog) {
        Ok((_, after)) => Ok(after),
        Err(e) => Err(e),
    }
}

impl<'a> Codegen<'a> {
    /// Lowers a program into the module: its types, globals and members, its functions, and the
    /// bodies.
    pub fn compile_program(&mut self, prog: &'a Program) -> (r: Result<(), CodegenError>)
        ensures
            match r {
                Ok(()) => compiled(old(self)@, prog) == Ok::<State<'a>, Failure<'a>>(final(self)@),
                Err(e) => compiled(old(self)@, prog) == Err::<State<'a>, Failure<'a>>(
                    Failure { trouble: e@, after: final(self)@ },
                ),
            },
    {
        self.lower_program(MAX_DEPTH, prog)
    }
}

/// How much a build is optimised.
#[derive(Debug, Clone, Copy, PartialEq, Eq, Structural)]
pub enum OptLevel {
    Debug,
    Release,
}

/// How hard the machine code generator works.
#[derive(Debug, Clone, Copy, PartialEq, Eq, Structural)]
pub enum MachineLevel {
    Default,
    Aggressive,
}

impl OptLevel {
    /// Debug builds take the default effort, release builds the greatest.
    pub fn machine_level(self) -> (r: MachineLevel)
        ensures
            r == match self {
                OptLevel::Debug => MachineLevel::Default,
                OptLevel::Release => MachineLevel::Aggressive,
            },
    {
        match self {
            OptLevel::Debug => MachineLevel::Default,
            OptLevel::Release => MachineLevel::Aggressive,
        }
    }

    /// The passes that run over a module before machine code is made.
    pub fn passes(self) -> (r: Option<&'static str>)
        ensures
            self == OptLevel::Debug ==> r is None,
            self == OptLevel::Release ==> r is Some && r->0@ == "default<O3>"@,
    {
        match self {
            OptLevel::Debug => None,
            OptLevel::Release => Some("default<O3>"),
        }
    }
}

} // verus!
