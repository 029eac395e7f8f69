use vstd::prelude::*;
use crate::runtime::base::iterator::iterator_definition;
use crate::runtime::commands::semantics::sem_body;
use crate::runtime::commands::semantics::sem_command;
use crate::runtime::expr::semantics::result_value;
use crate::runtime::expr::semantics::sem_expr;
use crate::runtime::expr::semantics::sem_inits;
use crate::runtime::initial_machine;
use crate::runtime::machine::MachineModel;
use crate::runtime::machine::lemma_declare_type_well_formed;
use crate::runtime::machine::lemma_empty_well_formed;
use crate::runtime::machine::lemma_open_well_formed;
use crate::runtime::result::ResultModel;
use crate::runtime::scoping::lemma_body_keeps;
use crate::runtime::scoping::lemma_dispatch_keeps;
use crate::runtime::scoping::lemma_expr_keeps;
use crate::runtime::sem_run;
use crate::runtime::table::bind;
use crate::runtime::table::distinct_names;
use crate::runtime::table::lemma_bind_distinct;
use crate::tokens::command::CommandModel;
use crate::tokens::expr::ExprModel;
use crate::tokens::header::AmvmTypeCasting;
use crate::tokens::scope::ScopeModel;
use crate::tokens::value::ObjectModel;
use crate::tokens::value::ValueModel;

verus! {

/// A machine starts well formed: in the state in which a run begins no table
/// holds a name twice.
pub proof fn initial_machine_is_well_formed(casting: AmvmTypeCasting)
    ensures
        initial_machine(casting).well_formed(),
{
    lemma_empty_well_formed(casting, Seq::empty());
    lemma_open_well_formed(MachineModel::empty(casting, Seq::empty()), None);
}

/// An expression keeps the machine well formed, whatever it evaluates to.
pub proof fn expression_keeps_tables(st: MachineModel, sc: ScopeModel, e: ExprModel)
    requires
        st.well_formed(),
    ensures
        sem_expr(st, sc, e).st.well_formed(),
{
    lemma_expr_keeps(st, sc, e);
}

/// Statements keep the machine well formed, whatever they declare and however
/// they end: with the last of them, with `break` or `return`, with an error,
/// or because the fuel ran out.
pub proof fn statements_keep_tables(st: MachineModel, sc: ScopeModel, cs: Seq<CommandModel>, fuel: nat)
    requires
        st.well_formed(),
    ensures
        sem_body(st, sc, cs, fuel).st.well_formed(),
{
    lemma_body_keeps(st, sc, cs, fuel);
}

/// One statement keeps the machine well formed.
pub proof fn statement_keeps_tables(st: MachineModel, sc: ScopeModel, c: CommandModel, fuel: nat)
    requires
        st.well_formed(),
    ensures
        sem_command(st, sc, c, fuel).st.well_formed(),
{
    lemma_dispatch_keeps(st, sc, c, fuel);
}

/// A run is its statements in turn: what a run does is what its first
/// statement does and, unless that ends early, what a run of the others does
/// behind it.
pub proof fn run_is_statements_in_turn(st: MachineModel, sc: ScopeModel, cs: Seq<CommandModel>, fuel: nat)
    requires
        cs.len() > 0,
    ensures
        sem_body(st, sc, cs, fuel) == (match sem_command(st, sc, cs[0], fuel).out {
            Err(_) => sem_command(st, sc, cs[0], fuel),
            Ok(_) => sem_body(
                sem_command(st, sc, cs[0], fuel).st,
                sem_command(st, sc, cs[0], fuel).sc,
                cs.drop_first(),
                fuel,
            ),
        }),
{
}

/// A run keeps the machine well formed.
pub proof fn run_keeps_tables(st: MachineModel, sc: ScopeModel, body: Seq<CommandModel>, fuel: nat)
    requires
        st.well_formed(),
    ensures
        sem_run(st, sc, body, fuel).st.well_formed(),
{
    lemma_declare_type_well_formed(st, sc.context, "Iterator"@, iterator_definition());
    lemma_body_keeps(
        st.declare_type(sc.context, "Iterator"@, iterator_definition()),
        sc,
        body,
        fuel,
    );
}

/// The fields that field initialisers give hold no name twice, where those
/// that they came behind held none twice.
pub proof fn lemma_inits_distinct(
    st: MachineModel,
    sc: ScopeModel,
    inits: Seq<(Seq<char>, ExprModel)>,
    acc: Seq<(Seq<char>, usize)>,
)
    requires
        distinct_names(acc),
    ensures
        sem_inits(st, sc, inits, acc).out matches Ok(fields) ==> distinct_names(fields),
    decreases inits, 0nat,
{
    if inits.len() > 0 {
        let first = sem_expr(st, sc, inits[0].1);
        match first.out {
            Err(_) => {},
            Ok(r) => {
                let cell = first.st.cells.len() as usize;
                lemma_bind_distinct(acc, inits[0].0, cell);
                lemma_inits_distinct(
                    first.st.allocate(result_value(first.st, r)),
                    sc,
                    inits.drop_first(),
                    bind(acc, inits[0].0, cell),
                );
            },
        }
    }
}

/// The object that a struct construction gives holds no field name twice,
/// also where the construction names a field twice: the later initialiser
/// then takes the place of the earlier one.
pub proof fn constructed_object_has_distinct_fields(st: MachineModel, sc: ScopeModel, e: ExprModel)
    requires
        e is Struct,
    ensures
        sem_expr(st, sc, e).out matches Ok(
            ResultModel::Value(ValueModel::Object(ObjectModel::Instance(_, fields))),
        ) ==> distinct_names(fields),
{
    match e {
        ExprModel::Struct(_, inits) => {
            lemma_inits_distinct(st, sc, inits, Seq::empty());
        },
        _ => {},
    }
}

} // verus!
