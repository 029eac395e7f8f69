use vstd::prelude::*;
use vstd::string::*;
use crate::runtime::result::AmvmExprResult;
use crate::runtime::result::ResultModel;
use crate::runtime::table::bind;
use crate::runtime::table::distinct_names;
use crate::runtime::table::entry_keys;
use crate::runtime::table::find_entry;
use crate::runtime::table::lemma_bind_distinct;
use crate::runtime::table::lookup;
use crate::runtime::table::model_keys;
use crate::tokens::header::AmvmTypeCasting;
use crate::tokens::scope::AmvmScope;
use crate::tokens::scope::ScopeModel;
use crate::tokens::types::AmvmTypeDefinition;
use crate::tokens::types::DefinitionModel;
use crate::tokens::value::AmvmVariable;
use crate::tokens::value::Value;
use crate::tokens::value::ValueModel;
use crate::tokens::value::VariableModel;
use crate::tokens::value::value_model;

verus! {

/// How many previous results a context holds at most.
pub const PREV_MAX: usize = 255;

/// The bindings of one scope: its variables, the types declared in it, the
/// results of the calls made in it that no expression has used yet, and the
/// context of the scope around it. `variables` and `structs` are maps from
/// names to what they name, kept as lists: in a well-formed context neither
/// holds a name twice.
#[derive(Debug, PartialEq)]
pub struct Context {
    pub variables: Vec<(String, AmvmVariable)>,
    pub prev: Vec<AmvmExprResult>,
    pub structs: Vec<(String, AmvmTypeDefinition)>,
    pub parent: Option<usize>,
}

/// A context as the contracts speak of it.
pub ghost struct ContextModel {
    pub variables: Seq<(Seq<char>, VariableModel)>,
    pub prev: Seq<ResultModel>,
    pub structs: Seq<(Seq<char>, DefinitionModel)>,
    pub parent: Option<usize>,
}

/// The state of a running program: the contexts of all scopes made so far,
/// the storage cells that bindings and fields share, the scopes that builtins
/// handed out as handles, what was written, and what is left to read. A
/// machine is well formed where each of its contexts is; a new machine is,
/// and whatever runs on it keeps it so.
#[derive(Debug, PartialEq)]
pub struct Machine {
    pub contexts: Vec<Context>,
    pub cells: Vec<Value>,
    pub handles: Vec<AmvmScope>,
    pub output: String,
    pub input: Vec<String>,
    pub consumed: usize,
    pub casting: AmvmTypeCasting,
}

/// The state of a running program as the contracts speak of it.
pub ghost struct MachineModel {
    pub contexts: Seq<ContextModel>,
    pub cells: Seq<ValueModel>,
    pub handles: Seq<ScopeModel>,
    pub output: Seq<char>,
    pub input: Seq<Seq<char>>,
    pub casting: AmvmTypeCasting,
}

/// The models of the variables of a context.
pub open spec fn bindings_model(vs: Seq<(String, AmvmVariable)>) -> Seq<(Seq<char>, VariableModel)> {
    Seq::new(vs.len(), |i: int| (vs[i].0@, vs[i].1@))
}

/// The models of the types declared in a context.
pub open spec fn registry_model(ds: Seq<(String, AmvmTypeDefinition)>) -> Seq<
    (Seq<char>, DefinitionModel),
> {
    Seq::new(ds.len(), |i: int| (ds[i].0@, ds[i].1@))
}

/// The models of a list of results.
pub open spec fn results_model(rs: Seq<AmvmExprResult>) -> Seq<ResultModel> {
    Seq::new(rs.len(), |i: int| rs[i]@)
}

/// The models of a list of values.
pub open spec fn values_model(vs: Seq<Value>) -> Seq<ValueModel> {
    Seq::new(vs.len(), |i: int| value_model(vs[i]))
}

/// The models of a list of scopes.
pub open spec fn scopes_model(ss: Seq<AmvmScope>) -> Seq<ScopeModel> {
    Seq::new(ss.len(), |i: int| ss[i]@)
}

/// The models of a list of contexts.
pub open spec fn contexts_model(cs: Seq<Context>) -> Seq<ContextModel> {
    Seq::new(cs.len(), |i: int| cs[i]@)
}

/// The lines of input that are left to read.
pub open spec fn pending_model(lines: Seq<String>, consumed: int) -> Seq<Seq<char>> {
    Seq::new(
        if 0 <= consumed <= lines.len() {
            (lines.len() - consumed) as nat
        } else {
            0
        },
        |i: int| lines[consumed + i]@,
    )
}

impl View for Context {
    type V = ContextModel;

    open spec fn view(&self) -> ContextModel {
        ContextModel {
            variables: bindings_model(self.variables@),
            prev: results_model(self.prev@),
            structs: registry_model(self.structs@),
            parent: self.parent,
        }
    }
}

impl View for Machine {
    type V = MachineModel;

    open spec fn view(&self) -> MachineModel {
        MachineModel {
            contexts: contexts_model(self.contexts@),
            cells: values_model(self.cells@),
            handles: scopes_model(self.handles@),
            output: self.output@,
            input: pending_model(self.input@, self.consumed as int),
            casting: self.casting,
        }
    }
}

impl ContextModel {
    /// A context without bindings inside `parent`.
    pub open spec fn empty(parent: Option<usize>) -> ContextModel {
        ContextModel {
            variables: Seq::empty(),
            prev: Seq::empty(),
            structs: Seq::empty(),
            parent,
        }
    }

    /// The invariant of a context: neither among its variables nor among its
    /// types does a name stand twice.
    pub open spec fn well_formed(self) -> bool {
        distinct_names(self.variables) && distinct_names(self.structs)
    }
}

impl MachineModel {
    /// The invariant of a machine: each of its contexts is well formed.
    #[verifier::opaque]
    pub open spec fn well_formed(self) -> bool {
        forall|i: int| 0 <= i < self.contexts.len() ==> (#[trigger] self.contexts[i]).well_formed()
    }

    /// A machine with nothing in it.
    pub open spec fn empty(casting: AmvmTypeCasting, input: Seq<Seq<char>>) -> MachineModel {
        MachineModel {
            contexts: Seq::empty(),
            cells: Seq::empty(),
            handles: Seq::empty(),
            output: Seq::empty(),
            input,
            casting,
        }
    }

    /// What the storage cell `cell` holds; null where there is no such cell.
    pub open spec fn cell(self, cell: usize) -> ValueModel {
        if cell < self.cells.len() {
            self.cells[cell as int]
        } else {
            ValueModel::Null
        }
    }

    /// The machine with `value` in a new storage cell.
    pub open spec fn allocate(self, value: ValueModel) -> MachineModel {
        MachineModel { cells: self.cells.push(value), ..self }
    }

    /// The machine with `value` in the storage cell `cell`; unchanged where
    /// there is no such cell.
    pub open spec fn store(self, cell: usize, value: ValueModel) -> MachineModel {
        if cell < self.cells.len() {
            MachineModel { cells: self.cells.update(cell as int, value), ..self }
        } else {
            self
        }
    }

    /// The value of a binding: a constant's own, or what its cell holds.
    pub open spec fn read(self, var: VariableModel) -> ValueModel {
        match var {
            VariableModel::Const(v) => *v,
            VariableModel::Mut(c) => self.cell(c),
            VariableModel::Let(c) => self.cell(c),
            VariableModel::Var(c) => self.cell(c),
        }
    }

    /// Whether the machine can hold one more context.
    pub open spec fn has_room(self) -> bool {
        self.contexts.len() < usize::MAX
    }

    /// The machine with a new, empty context inside `parent`. The new context
    /// has the index `self.contexts.len()`.
    pub open spec fn open_context(self, parent: Option<usize>) -> MachineModel {
        MachineModel { contexts: self.contexts.push(ContextModel::empty(parent)), ..self }
    }

    /// The binding that `name` has in the context `ctx`: that of the context
    /// itself, or else that of the nearest context around it that has one.
    pub open spec fn resolve(self, ctx: int, name: Seq<char>) -> Option<VariableModel>
        decreases ctx,
    {
        if 0 <= ctx < self.contexts.len() {
            match lookup(self.contexts[ctx].variables, name) {
                Some(v) => Some(v),
                None => match self.contexts[ctx].parent {
                    Some(p) => if p < ctx {
                        self.resolve(p as int, name)
                    } else {
                        None
                    },
                    None => None,
                },
            }
        } else {
            None
        }
    }

    /// The binding that the context `ctx` itself has for `name`.
    pub open spec fn local(self, ctx: usize, name: Seq<char>) -> Option<VariableModel> {
        if ctx < self.contexts.len() {
            lookup(self.contexts[ctx as int].variables, name)
        } else {
            None
        }
    }

    /// The definition that the type `name` has in the context `ctx`: that of
    /// the context itself, or else that of the nearest context around it that
    /// has one.
    pub open spec fn resolve_type(self, ctx: int, name: Seq<char>) -> Option<DefinitionModel>
        decreases ctx,
    {
        if 0 <= ctx < self.contexts.len() {
            match lookup(self.contexts[ctx].structs, name) {
                Some(d) => Some(d),
                None => match self.contexts[ctx].parent {
                    Some(p) => if p < ctx {
                        self.resolve_type(p as int, name)
                    } else {
                        None
                    },
                    None => None,
                },
            }
        } else {
            None
        }
    }

    /// The machine with `name` bound to `var` in the context `ctx`; unchanged
    /// where there is no such context.
    pub open spec fn declare(self, ctx: usize, name: Seq<char>, var: VariableModel) -> MachineModel {
        if ctx < self.contexts.len() {
            let c = self.contexts[ctx as int];
            MachineModel {
                contexts: self.contexts.update(
                    ctx as int,
                    ContextModel { variables: bind(c.variables, name, var), ..c },
                ),
                ..self
            }
        } else {
            self
        }
    }

    /// The machine with the type `name` declared in the context `ctx`.
    pub open spec fn declare_type(self, ctx: usize, name: Seq<char>, def: DefinitionModel) -> MachineModel {
        if ctx < self.contexts.len() {
            let c = self.contexts[ctx as int];
            MachineModel {
                contexts: self.contexts.update(
                    ctx as int,
                    ContextModel { structs: bind(c.structs, name, def), ..c },
                ),
                ..self
            }
        } else {
            self
        }
    }

    /// Whether the context `ctx` can take one more previous result.
    pub open spec fn can_push(self, ctx: usize) -> bool {
        ctx < self.contexts.len() && self.contexts[ctx as int].prev.len() < PREV_MAX
    }

    /// The machine with `res` on top of the previous results of the context
    /// `ctx`.
    pub open spec fn push_prev(self, ctx: usize, res: ResultModel) -> MachineModel {
        if self.can_push(ctx) {
            let c = self.contexts[ctx as int];
            MachineModel {
                contexts: self.contexts.update(
                    ctx as int,
                    ContextModel { prev: c.prev.push(res), ..c },
                ),
                ..self
            }
        } else {
            self
        }
    }

    /// The topmost previous result of the context `ctx`.
    pub open spec fn top_prev(self, ctx: usize) -> Option<ResultModel> {
        if ctx < self.contexts.len() && self.contexts[ctx as int].prev.len() > 0 {
            Some(self.contexts[ctx as int].prev.last())
        } else {
            None
        }
    }

    /// The machine without the topmost previous result of the context `ctx`.
    pub open spec fn pop_prev(self, ctx: usize) -> MachineModel {
        if ctx < self.contexts.len() && self.contexts[ctx as int].prev.len() > 0 {
            let c = self.contexts[ctx as int];
            MachineModel {
                contexts: self.contexts.update(
                    ctx as int,
                    ContextModel { prev: c.prev.drop_last(), ..c },
                ),
                ..self
            }
        } else {
            self
        }
    }

    /// The machine with `text` written.
    pub open spec fn emit(self, text: Seq<char>) -> MachineModel {
        MachineModel { output: self.output + text, ..self }
    }

    /// The next line of input; the empty line where none is left.
    pub open spec fn next_line(self) -> Seq<char> {
        if self.input.len() > 0 {
            self.input[0]
        } else {
            Seq::empty()
        }
    }

    /// The machine with the next line of input read.
    pub open spec fn advance_input(self) -> MachineModel {
        if self.input.len() > 0 {
            MachineModel { input: self.input.drop_first(), ..self }
        } else {
            self
        }
    }

    /// The machine with one more scope handed out. Its handle is
    /// `self.handles.len()`.
    pub open spec fn hand_out(self, scope: ScopeModel) -> MachineModel {
        MachineModel { handles: self.handles.push(scope), ..self }
    }

    /// The machine with the scope behind `handle` replaced.
    pub open spec fn put_back(self, handle: usize, scope: ScopeModel) -> MachineModel {
        if handle < self.handles.len() {
            MachineModel { handles: self.handles.update(handle as int, scope), ..self }
        } else {
            self
        }
    }
}

impl ContextModel {
    /// Whether the context can take one more previous result.
    pub open spec fn has_room(self) -> bool {
        self.prev.len() < PREV_MAX
    }
}

/// Whether two machines hold the same tables: as many contexts, and in each
/// the same variables and the same types.
pub open spec fn same_tables(a: MachineModel, b: MachineModel) -> bool {
    a.contexts.len() == b.contexts.len() && forall|i: int|
        0 <= i < a.contexts.len() ==> (#[trigger] b.contexts[i]).variables == a.contexts[i].variables
            && b.contexts[i].structs == a.contexts[i].structs
}

/// A machine with nothing in it is well formed.
pub proof fn lemma_empty_well_formed(casting: AmvmTypeCasting, input: Seq<Seq<char>>)
    ensures
        MachineModel::empty(casting, input).well_formed(),
{
    reveal(MachineModel::well_formed);
}

/// A machine with the tables of a well-formed machine is well formed.
pub proof fn lemma_same_tables(a: MachineModel, b: MachineModel)
    requires
        same_tables(a, b),
    ensures
        a.well_formed() ==> b.well_formed(),
{
    reveal(MachineModel::well_formed);
    if a.well_formed() {
        assert forall|i: int| 0 <= i < b.contexts.len() implies (
        #[trigger] b.contexts[i]).well_formed() by {
            assert(a.contexts[i].well_formed());
        }
    }
}

/// A new context keeps a machine well formed.
pub proof fn lemma_open_well_formed(st: MachineModel, parent: Option<usize>)
    ensures
        st.well_formed() ==> st.open_context(parent).well_formed(),
{
    reveal(MachineModel::well_formed);
    let after = st.open_context(parent);
    if st.well_formed() {
        assert forall|i: int| 0 <= i < after.contexts.len() implies (
        #[trigger] after.contexts[i]).well_formed() by {
            if i < st.contexts.len() {
                assert(st.contexts[i].well_formed());
            }
        }
    }
}

/// A declaration keeps a machine well formed.
pub proof fn lemma_declare_well_formed(st: MachineModel, ctx: usize, name: Seq<char>, var: VariableModel)
    ensures
        st.well_formed() ==> st.declare(ctx, name, var).well_formed(),
{
    reveal(MachineModel::well_formed);
    let after = st.declare(ctx, name, var);
    if st.well_formed() {
        assert forall|i: int| 0 <= i < after.contexts.len() implies (
        #[trigger] after.contexts[i]).well_formed() by {
            assert(st.contexts[i].well_formed());
            if i == ctx {
                lemma_bind_distinct(st.contexts[i].variables, name, var);
            }
        }
    }
}

/// The declaration of a type keeps a machine well formed.
pub proof fn lemma_declare_type_well_formed(
    st: MachineModel,
    ctx: usize,
    name: Seq<char>,
    def: DefinitionModel,
)
    ensures
        st.well_formed() ==> st.declare_type(ctx, name, def).well_formed(),
{
    reveal(MachineModel::well_formed);
    let after = st.declare_type(ctx, name, def);
    if st.well_formed() {
        assert forall|i: int| 0 <= i < after.contexts.len() implies (
        #[trigger] after.contexts[i]).well_formed() by {
            assert(st.contexts[i].well_formed());
            if i == ctx {
                lemma_bind_distinct(st.contexts[i].structs, name, def);
            }
        }
    }
}

impl Context {
    /// A context without bindings, inside no other.
    pub fn new() -> (r: Self)
        ensures
            r@ == ContextModel::empty(None),
            r@.well_formed(),
    {
        let c = Context { variables: Vec::new(), prev: Vec::new(), structs: Vec::new(), parent: None };
        assert(c@.variables =~= Seq::<(Seq<char>, VariableModel)>::empty());
        assert(c@.prev =~= Seq::<ResultModel>::empty());
        assert(c@.structs =~= Seq::<(Seq<char>, DefinitionModel)>::empty());
        c
    }

    /// A context without bindings, inside the context `parent`.
    pub fn create_sub(parent: usize) -> (r: Self)
        ensures
            r@ == ContextModel::empty(Some(parent)),
            r@.well_formed(),
    {
        let c = Context {
            variables: Vec::new(),
            prev: Vec::new(),
            structs: Vec::new(),
            parent: Some(parent),
        };
        assert(c@.variables =~= Seq::<(Seq<char>, VariableModel)>::empty());
        assert(c@.prev =~= Seq::<ResultModel>::empty());
        assert(c@.structs =~= Seq::<(Seq<char>, DefinitionModel)>::empty());
        c
    }

    /// Takes the topmost previous result.
    pub fn pop_prev(&mut self) -> (r: Option<AmvmExprResult>)
        ensures
            match r {
                Some(res) => old(self)@.prev.len() > 0 && res@ == old(self)@.prev.last()
                    && final(self)@ == (ContextModel {
                    prev: old(self)@.prev.drop_last(),
                    ..old(self)@
                }),
                None => old(self)@.prev.len() == 0 && final(self)@ == old(self)@,
            },
    {
        let ghost before = self.prev@;
        let r = self.prev.pop();
        proof {
            if before.len() > 0 {
                assert(results_model(self.prev@) =~= results_model(before).drop_last());
            }
        }
        r
    }

    /// Puts a result on top of the previous results. Hands back whether there
    /// was room.
    pub fn push_prev(&mut self, v: AmvmExprResult) -> (ok: bool)
        ensures
            ok == old(self)@.has_room(),
            ok ==> final(self)@ == (ContextModel { prev: old(self)@.prev.push(v@), ..old(self)@ }),
            !ok ==> final(self)@ == old(self)@,
    {
        if self.prev.len() < PREV_MAX {
            let ghost before = self.prev@;
            let ghost m = v@;
            self.prev.push(v);
            assert(results_model(self.prev@) =~= results_model(before).push(m));
            true
        } else {
            false
        }
    }

    /// Puts a value on top of the previous results. Hands back whether there
    /// was room.
    pub fn push_prev_value(&mut self, v: Value) -> (ok: bool)
        ensures
            ok == old(self)@.has_room(),
            ok ==> final(self)@ == (ContextModel {
                prev: old(self)@.prev.push(ResultModel::Value(v@)),
                ..old(self)@
            }),
            !ok ==> final(self)@ == old(self)@,
    {
        self.push_prev(AmvmExprResult::Value(v))
    }
}

impl Machine {
    /// The binding that `name` has in the context `ctx`, as `resolve` finds
    /// it.
    pub fn get_variable(&self, ctx: usize, name: &String) -> (r: Option<AmvmVariable>)
        ensures
            match r {
                Some(v) => self@.resolve(ctx as int, name@) == Some(v@),
                None => self@.resolve(ctx as int, name@) == None::<VariableModel>,
            },
    {
        self.resolve(ctx, name.as_str())
    }

    /// A machine with nothing in it but the lines that it may read.
    pub fn new(casting: AmvmTypeCasting, input: Vec<String>) -> (r: Self)
        ensures
            r@ == MachineModel::empty(casting, pending_model(input@, 0)),
            r@.well_formed(),
    {
        proof {
            lemma_empty_well_formed(casting, pending_model(input@, 0));
        }
        let r = Machine {
            contexts: Vec::new(),
            cells: Vec::new(),
            handles: Vec::new(),
            output: String::new(),
            input,
            consumed: 0,
            casting,
        };
        assert(r@.contexts =~= Seq::<ContextModel>::empty());
        assert(r@.cells =~= Seq::<ValueModel>::empty());
        assert(r@.handles =~= Seq::<ScopeModel>::empty());
        r
    }

    /// Puts `value` into a new storage cell and hands back the cell.
    pub fn allocate(&mut self, value: Value) -> (cell: usize)
        ensures
            final(self)@ == old(self)@.allocate(value@),
            cell == old(self)@.cells.len(),
            old(self)@.well_formed() ==> final(self)@.well_formed(),
    {
        proof {
            lemma_same_tables(self@, self@.allocate(value@));
        }
        let cell = self.cells.len();
        self.cells.push(value);
        assert(final(self)@.cells =~= old(self)@.cells.push(value@));
        cell
    }

    /// What the storage cell `cell` holds; null where there is no such cell.
    pub fn read_cell(&self, cell: usize) -> (r: Value)
        ensures
            r@ == self@.cell(cell),
    {
        if cell < self.cells.len() {
            self.cells[cell].clone()
        } else {
            Value::Null
        }
    }

    /// Puts `value` into the storage cell `cell`; does nothing where there is
    /// no such cell.
    pub fn write_cell(&mut self, cell: usize, value: Value)
        ensures
            final(self)@ == old(self)@.store(cell, value@),
            old(self)@.well_formed() ==> final(self)@.well_formed(),
    {
        proof {
            lemma_same_tables(self@, self@.store(cell, value@));
        }
        if cell < self.cells.len() {
            self.cells[cell] = value;
            assert(final(self)@.cells =~= old(self)@.cells.update(cell as int, value@));
        }
    }

    /// The value of a binding.
    pub fn read(&self, var: &AmvmVariable) -> (r: Value)
        ensures
            r@ == self@.read(var@),
    {
        match var {
            AmvmVariable::Const(v) => (**v).clone(),
            AmvmVariable::Mut(c) => self.read_cell(*c),
            AmvmVariable::Let(c) => self.read_cell(*c),
            AmvmVariable::Var(c) => self.read_cell(*c),
        }
    }

    /// Whether the machine can hold one more context.
    pub fn has_room(&self) -> (r: bool)
        ensures
            r == self@.has_room(),
    {
        self.contexts.len() < usize::MAX
    }

    /// Makes a new, empty context inside `parent` and hands back its index.
    pub fn open_context(&mut self, parent: Option<usize>) -> (ctx: usize)
        ensures
            final(self)@ == old(self)@.open_context(parent),
            ctx == old(self)@.contexts.len(),
            old(self)@.well_formed() ==> final(self)@.well_formed(),
    {
        proof {
            lemma_open_well_formed(self@, parent);
        }
        let ctx = self.contexts.len();
        let c = match parent {
            Some(p) => Context::create_sub(p),
            None => Context::new(),
        };
        self.contexts.push(c);
        assert(final(self)@.contexts =~= old(self)@.contexts.push(ContextModel::empty(parent)));
        ctx
    }

    /// The binding that the context `ctx` itself has for `name`.
    pub fn local(&self, ctx: usize, name: &str) -> (r: Option<AmvmVariable>)
        ensures
            match r {
                Some(v) => self@.local(ctx, name@) == Some(v@),
                None => self@.local(ctx, name@) == None::<VariableModel>,
            },
    {
        if ctx < self.contexts.len() {
            let c = &self.contexts[ctx];
            assert(model_keys(c@.variables) =~= entry_keys(c.variables@));
            assert(self@.contexts[ctx as int] == c@);
            match find_entry(&c.variables, name) {
                Some(i) => {
                    let var = c.variables[i].1.clone();
                    assert(c@.variables[i as int].1 == var@);
                    Some(var)
                },
                None => None,
            }
        } else {
            None
        }
    }

    /// The binding that `name` has in the context `ctx`.
    #[verifier::loop_isolation(false)]
    pub fn resolve(&self, ctx: usize, name: &str) -> (r: Option<AmvmVariable>)
        ensures
            match r {
                Some(v) => self@.resolve(ctx as int, name@) == Some(v@),
                None => self@.resolve(ctx as int, name@) == None::<VariableModel>,
            },
    {
        let mut cur: usize = ctx;
        let mut go = true;
        let mut found: Option<AmvmVariable> = None;
        while go
            invariant
                go ==> self@.resolve(ctx as int, name@) == self@.resolve(cur as int, name@),
                go ==> found is None,
                !go ==> match found {
                    Some(v) => self@.resolve(ctx as int, name@) == Some(v@),
                    None => self@.resolve(ctx as int, name@) == None::<VariableModel>,
                },
            decreases cur + (if go { 1int } else { 0int }),
        {
            if cur >= self.contexts.len() {
                go = false;
            } else {
                let c = &self.contexts[cur];
                assert(model_keys(c@.variables) =~= entry_keys(c.variables@));
                assert(self@.contexts[cur as int] == c@);
                match find_entry(&c.variables, name) {
                    Some(i) => {
                        let var = c.variables[i].1.clone();
                        assert(c@.variables[i as int].1 == var@);
                        assert(lookup(c@.variables, name@) == Some(var@));
                        assert(self@.resolve(cur as int, name@) == Some(var@));
                        found = Some(var);
                        go = false;
                    },
                    None => {
                        match c.parent {
                            Some(p) => {
                                if p < cur {
                                    cur = p;
                                } else {
                                    go = false;
                                }
                            },
                            None => {
                                go = false;
                            },
                        }
                    },
                }
            }
        }
        found
    }

    /// The definition that the type `name` has in the context `ctx`.
    #[verifier::loop_isolation(false)]
    pub fn resolve_type(&self, ctx: usize, name: &str) -> (r: Option<AmvmTypeDefinition>)
        ensures
            match r {
                Some(d) => self@.resolve_type(ctx as int, name@) == Some(d@),
                None => self@.resolve_type(ctx as int, name@) == None::<DefinitionModel>,
            },
    {
        let mut cur: usize = ctx;
        let mut go = true;
        let mut found: Option<AmvmTypeDefinition> = None;
        while go
            invariant
                go ==> self@.resolve_type(ctx as int, name@) == self@.resolve_type(cur as int, name@),
                go ==> found is None,
                !go ==> match found {
                    Some(d) => self@.resolve_type(ctx as int, name@) == Some(d@),
                    None => self@.resolve_type(ctx as int, name@) == None::<DefinitionModel>,
                },
            decreases cur + (if go { 1int } else { 0int }),
        {
            if cur >= self.contexts.len() {
                go = false;
            } else {
                let c = &self.contexts[cur];
                assert(model_keys(c@.structs) =~= entry_keys(c.structs@));
                assert(self@.contexts[cur as int] == c@);
                match find_entry(&c.structs, name) {
                    Some(i) => {
                        let def = c.structs[i].1.clone();
                        assert(c@.structs[i as int].1 == def@);
                        assert(lookup(c@.structs, name@) == Some(def@));
                        assert(self@.resolve_type(cur as int, name@) == Some(def@));
                        found = Some(def);
                        go = false;
                    },
                    None => {
                        match c.parent {
                            Some(p) => {
                                if p < cur {
                                    cur = p;
                                } else {
                                    go = false;
                                }
                            },
                            None => {
                                go = false;
                            },
                        }
                    },
                }
            }
        }
        found
    }

    /// Binds `name` to `var` in the context `ctx`, in place of a binding that
    /// the context itself has for the name; does nothing where there is no
    /// such context.
    pub fn declare(&mut self, ctx: usize, name: String, var: AmvmVariable)
        ensures
            final(self)@ == old(self)@.declare(ctx, name@, var@),
            old(self)@.well_formed() ==> final(self)@.well_formed(),
    {
        proof {
            lemma_declare_well_formed(self@, ctx, name@, var@);
        }
        if ctx < self.contexts.len() {
            let ghost before = self.contexts@[ctx as int];
            let ghost vars = before.variables@;
            assert(model_keys(before@.variables) =~= entry_keys(vars));
            let found = find_entry(&self.contexts[ctx].variables, name.as_str());
            let ghost entry = (name@, var@);
            match found {
                Some(i) => {
                    self.contexts[ctx].variables[i] = (name, var);
                    assert(bindings_model(self.contexts@[ctx as int].variables@) =~= bindings_model(
                        vars,
                    ).update(i as int, entry));
                },
                None => {
                    self.contexts[ctx].variables.push((name, var));
                    assert(bindings_model(self.contexts@[ctx as int].variables@) =~= bindings_model(
                        vars,
                    ).push(entry));
                },
            }
            assert(final(self)@.contexts =~= old(self)@.declare(ctx, entry.0, entry.1).contexts);
        }
    }

    /// Declares the type `name` in the context `ctx`; does nothing where there
    /// is no such context.
    pub fn declare_type(&mut self, ctx: usize, name: String, def: AmvmTypeDefinition)
        ensures
            final(self)@ == old(self)@.declare_type(ctx, name@, def@),
            old(self)@.well_formed() ==> final(self)@.well_formed(),
    {
        proof {
            lemma_declare_type_well_formed(self@, ctx, name@, def@);
        }
        if ctx < self.contexts.len() {
            let ghost before = self.contexts@[ctx as int];
            let ghost defs = before.structs@;
            assert(model_keys(before@.structs) =~= entry_keys(defs));
            let found = find_entry(&self.contexts[ctx].structs, name.as_str());
            let ghost entry = (name@, def@);
            match found {
                Some(i) => {
                    self.contexts[ctx].structs[i] = (name, def);
                    assert(registry_model(self.contexts@[ctx as int].structs@) =~= registry_model(
                        defs,
                    ).update(i as int, entry));
                },
                None => {
                    self.contexts[ctx].structs.push((name, def));
                    assert(registry_model(self.contexts@[ctx as int].structs@) =~= registry_model(
                        defs,
                    ).push(entry));
                },
            }
            assert(final(self)@.contexts =~= old(self)@.declare_type(ctx, entry.0, entry.1).contexts);
        }
    }

    /// Puts `res` on top of the previous results of the context `ctx`. Hands
    /// back whether there was room.
    pub fn push_prev(&mut self, ctx: usize, res: AmvmExprResult) -> (ok: bool)
        ensures
            ok == old(self)@.can_push(ctx),
            final(self)@ == old(self)@.push_prev(ctx, res@),
            old(self)@.well_formed() ==> final(self)@.well_formed(),
    {
        proof {
            lemma_same_tables(self@, self@.push_prev(ctx, res@));
        }
        if ctx < self.contexts.len() {
            let ghost m = res@;
            let ok = self.contexts[ctx].push_prev(res);
            assert(final(self)@.contexts =~= old(self)@.push_prev(ctx, m).contexts);
            ok
        } else {
            false
        }
    }

    /// Takes the topmost previous result of the context `ctx`.
    pub fn pop_prev(&mut self, ctx: usize) -> (r: Option<AmvmExprResult>)
        ensures
            match r {
                Some(res) => old(self)@.top_prev(ctx) == Some(res@),
                None => old(self)@.top_prev(ctx) == None::<ResultModel>,
            },
            final(self)@ == old(self)@.pop_prev(ctx),
            old(self)@.well_formed() ==> final(self)@.well_formed(),
    {
        proof {
            lemma_same_tables(self@, self@.pop_prev(ctx));
        }
        if ctx < self.contexts.len() {
            let r = self.contexts[ctx].pop_prev();
            assert(final(self)@.contexts =~= old(self)@.pop_prev(ctx).contexts);
            r
        } else {
            None
        }
    }

    /// Writes `text`.
    pub fn emit(&mut self, text: &str)
        ensures
            final(self)@ == old(self)@.emit(text@),
            old(self)@.well_formed() ==> final(self)@.well_formed(),
    {
        proof {
            lemma_same_tables(self@, self@.emit(text@));
        }
        self.output.append(text);
    }

    /// Reads the next line of input; the empty line where none is left.
    pub fn read_line(&mut self) -> (r: String)
        ensures
            r@ == old(self)@.next_line(),
            final(self)@ == old(self)@.advance_input(),
            old(self)@.well_formed() ==> final(self)@.well_formed(),
    {
        proof {
            lemma_same_tables(self@, self@.advance_input());
        }
        if self.consumed < self.input.len() {
            let line = self.input[self.consumed].clone();
            self.consumed = self.consumed + 1;
            assert(final(self)@.input =~= old(self)@.input.drop_first());
            line
        } else {
            assert(old(self)@.input.len() == 0);
            String::new()
        }
    }

    /// Hands out a scope and gives back its handle.
    pub fn hand_out(&mut self, scope: AmvmScope) -> (handle: usize)
        ensures
            final(self)@ == old(self)@.hand_out(scope@),
            handle == old(self)@.handles.len(),
            old(self)@.well_formed() ==> final(self)@.well_formed(),
    {
        proof {
            lemma_same_tables(self@, self@.hand_out(scope@));
        }
        let handle = self.handles.len();
        let ghost m = scope@;
        self.handles.push(scope);
        assert(final(self)@.handles =~= old(self)@.handles.push(m));
        handle
    }

    /// A copy of the scope behind `handle`.
    pub fn borrow_scope(&self, handle: usize) -> (r: Option<AmvmScope>)
        ensures
            match r {
                Some(s) => handle < self@.handles.len() && s@ == self@.handles[handle as int],
                None => handle >= self@.handles.len(),
            },
    {
        if handle < self.handles.len() {
            Some(self.handles[handle].clone())
        } else {
            None
        }
    }

    /// Replaces the scope behind `handle`.
    pub fn put_back(&mut self, handle: usize, scope: AmvmScope)
        ensures
            final(self)@ == old(self)@.put_back(handle, scope@),
            old(self)@.well_formed() ==> final(self)@.well_formed(),
    {
        proof {
            lemma_same_tables(self@, self@.put_back(handle, scope@));
        }
        if handle < self.handles.len() {
            let ghost m = scope@;
            self.handles[handle] = scope;
            assert(final(self)@.handles =~= old(self)@.handles.update(handle as int, m));
        }
    }
}

} // verus!
