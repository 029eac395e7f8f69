//! The machine that runs a program.

use vstd::prelude::*;
use vstd::string::*;
use crate::runtime::base::iterator::amvm_iterator_type;
use crate::runtime::base::iterator::iterator_definition;
use crate::runtime::commands::eval;
use crate::runtime::commands::eval_body;
use crate::runtime::commands::ran_as;
use crate::runtime::commands::semantics::Ran;
use crate::runtime::commands::semantics::done;
use crate::runtime::commands::semantics::sem_body;
use crate::runtime::commands::semantics::sem_command;
use crate::runtime::machine::Machine;
use crate::runtime::machine::MachineModel;
use crate::runtime::result::AmvmResult;
use crate::runtime::wellformed::run_keeps_tables;
use crate::runtime::wellformed::statement_keeps_tables;
use crate::tokens::command::Command;
use crate::tokens::command::CommandModel;
use crate::tokens::command::commands_model;
use crate::tokens::header::AmvmHeader;
use crate::tokens::header::AmvmTypeCasting;
use crate::tokens::program::Program;
use crate::tokens::scope::AmvmScope;
use crate::tokens::scope::MetaModel;
use crate::tokens::scope::ScopeModel;
use crate::tokens::value::Value;

pub mod base;
pub mod commands;
pub mod error;
pub mod expr;
pub mod laws;
pub mod machine;
pub mod result;
pub mod scoping;
pub mod wellformed;
pub mod table;
pub mod text;
pub mod variable;

verus! {

/// A program ready to run: the machine's state, the top scope, the
/// statements, and the fuel that a run may use. One unit of fuel pays for one
/// call or one round of a loop, and what runs inside gets what is left.
#[derive(Debug, PartialEq)]
pub struct Runtime {
    pub machine: Machine,
    pub scope: AmvmScope,
    pub body: Vec<Command>,
    pub fuel: u64,
}

/// The state in which a machine with the casting policy `casting` starts.
pub open spec fn initial_machine(casting: AmvmTypeCasting) -> MachineModel {
    MachineModel::empty(casting, Seq::empty()).open_context(None)
}

/// The scope in which the program of the file `file_name` starts.
pub open spec fn initial_scope(file_name: Seq<char>) -> ScopeModel {
    ScopeModel {
        file_name: (Some(file_name), None),
        meta: None,
        backtrace: Seq::<MetaModel>::empty(),
        context: 0,
    }
}

/// What a run does: the type `Iterator` is entered in the top context, then
/// the statements run in turn in the top scope.
pub open spec fn sem_run(st: MachineModel, sc: ScopeModel, body: Seq<CommandModel>, fuel: nat) -> Ran {
    sem_body(st.declare_type(sc.context, "Iterator"@, iterator_definition()), sc, body, fuel)
}

/// What the statement at `index` of `body` does when it runs alone; nothing
/// where there is no such statement.
pub open spec fn sem_statement(
    st: MachineModel,
    sc: ScopeModel,
    body: Seq<CommandModel>,
    index: int,
    fuel: nat,
) -> Ran {
    if 0 <= index < body.len() {
        sem_command(st, sc, body[index], fuel)
    } else {
        done(st, sc)
    }
}

impl Runtime {
    /// A machine for the statements `ast` of the file `filename`, with no
    /// input to read and with all the fuel there is.
    pub fn new(filename: String, header: AmvmHeader, ast: Vec<Command>) -> (r: Self)
        ensures
            r.machine@ == initial_machine(header.sum_kind),
            r.machine@.well_formed(),
            r.scope@ == initial_scope(filename@),
            r.body == ast,
            r.fuel == u64::MAX,
    {
        let mut machine = Machine::new(header.sum_kind, Vec::new());
        assert(machine@.input =~= Seq::<Seq<char>>::empty());
        let ctx = machine.open_context(None);
        Runtime { machine, scope: AmvmScope::new(filename, ctx), body: ast, fuel: u64::MAX }
    }

    /// Enters the types that every machine knows in the top context. `run`
    /// does so itself; whoever runs the statements one by one does it once,
    /// before the first.
    pub fn registry_base_types(&mut self)
        ensures
            final(self).machine@ == old(self).machine@.declare_type(
                old(self).scope.context,
                "Iterator"@,
                iterator_definition(),
            ),
            final(self).scope == old(self).scope,
            final(self).body == old(self).body,
            final(self).fuel == old(self).fuel,
            old(self).machine@.well_formed() ==> final(self).machine@.well_formed(),
    {
        self.machine.declare_type(self.scope.context, String::from_str("Iterator"), amvm_iterator_type());
    }

    /// Runs the statement at `index` of the program alone, in the top scope;
    /// does nothing where the program has no such statement. A run is this
    /// for each statement in turn, up to the first that ends early: so a
    /// caller may write out what the program wrote, and hand it further lines
    /// to read, between two statements.
    pub fn run_statement(&mut self, index: usize) -> (r: AmvmResult)
        ensures
            ran_as(
                final(self).machine,
                final(self).scope,
                r,
                sem_statement(
                    old(self).machine@,
                    old(self).scope@,
                    commands_model(old(self).body@),
                    index as int,
                    old(self).fuel as nat,
                ),
            ),
            final(self).body == old(self).body,
            final(self).fuel == old(self).fuel,
            old(self).machine@.well_formed() ==> final(self).machine@.well_formed(),
    {
        if index < self.body.len() {
            proof {
                if self.machine@.well_formed() {
                    statement_keeps_tables(
                        self.machine@,
                        self.scope@,
                        self.body@[index as int]@,
                        self.fuel as nat,
                    );
                }
            }
            eval(&mut self.machine, &mut self.scope, &self.body[index], self.fuel)
        } else {
            Ok(Value::Null)
        }
    }

    /// Runs the program. What it wrote is in the machine's `output`.
    pub fn run(&mut self) -> (r: AmvmResult)
        ensures
            ran_as(
                final(self).machine,
                final(self).scope,
                r,
                sem_run(
                    old(self).machine@,
                    old(self).scope@,
                    commands_model(old(self).body@),
                    old(self).fuel as nat,
                ),
            ),
            final(self).body == old(self).body,
            final(self).fuel == old(self).fuel,
            old(self).machine@.well_formed() ==> final(self).machine@.well_formed(),
    {
        proof {
            if self.machine@.well_formed() {
                run_keeps_tables(
                    self.machine@,
                    self.scope@,
                    commands_model(self.body@),
                    self.fuel as nat,
                );
            }
        }
        self.registry_base_types();
        eval_body(&mut self.machine, &mut self.scope, &self.body, self.fuel)
    }
}

impl Program {
    /// The machine that runs the program.
    pub fn runtime(self, filename: String) -> (r: Runtime)
        ensures
            r.machine@ == initial_machine(self.header.sum_kind),
            r.machine@.well_formed(),
            r.scope@ == initial_scope(filename@),
            r.body == self.body,
            r.fuel == u64::MAX,
    {
        Runtime::new(filename, self.header, self.body)
    }
}

} // verus!
