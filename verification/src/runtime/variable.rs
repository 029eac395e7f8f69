use vstd::prelude::*;
use crate::runtime::error::AmvmFault;
use crate::runtime::machine::Machine;
use crate::runtime::machine::MachineModel;
use crate::runtime::result::AmvmResult;
use crate::runtime::result::Outcome;
use crate::runtime::result::outcome_model;
use crate::runtime::result::raise;
use crate::tokens::kind::VariableKind;
use crate::tokens::scope::AmvmScope;
use crate::tokens::scope::ScopeModel;
use crate::tokens::value::AmvmVariable;
use crate::tokens::value::Value;
use crate::tokens::value::ValueModel;
use crate::tokens::value::VariableModel;

verus! {

/// A binding as a plain record: its kind and its value.
#[derive(Debug, PartialEq)]
pub struct Variable {
    pub kind: VariableKind,
    pub value: Value,
}

impl VariableModel {
    /// The kind of the binding.
    pub open spec fn kind(self) -> VariableKind {
        match self {
            VariableModel::Const(_) => VariableKind::Const,
            VariableModel::Mut(_) => VariableKind::Mut,
            VariableModel::Let(_) => VariableKind::Let,
            VariableModel::Var(_) => VariableKind::Var,
        }
    }

    /// The storage cell of the binding; a constant has none.
    pub open spec fn cell(self) -> Option<usize> {
        match self {
            VariableModel::Const(_) => None,
            VariableModel::Mut(c) => Some(c),
            VariableModel::Let(c) => Some(c),
            VariableModel::Var(c) => Some(c),
        }
    }

    /// Whether the binding may be assigned to: kinds `Mut` and `Var` may.
    pub open spec fn mutable(self) -> bool {
        self is Mut || self is Var
    }

    /// The binding of kind `kind` on the storage cell `cell`; there is none of
    /// kind `Const`.
    pub open spec fn on_cell(kind: VariableKind, cell: usize) -> Option<VariableModel> {
        match kind {
            VariableKind::Const => None,
            VariableKind::Mut => Some(VariableModel::Mut(cell)),
            VariableKind::Let => Some(VariableModel::Let(cell)),
            VariableKind::Var => Some(VariableModel::Var(cell)),
        }
    }
}

impl MachineModel {
    /// The machine after a binding of kind `kind` was made for `value`: a
    /// constant takes no storage, any other kind a new cell.
    pub open spec fn with_variable(self, kind: VariableKind, value: ValueModel) -> MachineModel {
        match kind {
            VariableKind::Const => self,
            _ => self.allocate(value),
        }
    }

    /// The binding of kind `kind` that is made for `value`.
    pub open spec fn new_variable(self, kind: VariableKind, value: ValueModel) -> VariableModel {
        match kind {
            VariableKind::Const => VariableModel::Const(Box::new(value)),
            VariableKind::Mut => VariableModel::Mut(self.cells.len() as usize),
            VariableKind::Let => VariableModel::Let(self.cells.len() as usize),
            VariableKind::Var => VariableModel::Var(self.cells.len() as usize),
        }
    }

    /// The machine after `value` was written through the binding `var`;
    /// unchanged where the binding has no storage cell.
    pub open spec fn write(self, var: VariableModel, value: ValueModel) -> MachineModel {
        match var.cell() {
            Some(c) => self.store(c, value),
            None => self,
        }
    }

    /// The machine after an assignment of `value` to the binding `var`:
    /// unchanged where the binding is not mutable.
    pub open spec fn assigned(self, var: VariableModel, value: ValueModel) -> MachineModel {
        if var.mutable() {
            self.write(var, value)
        } else {
            self
        }
    }
}

/// The outcome of an assignment to the binding `var` in the scope `sc`.
pub open spec fn assign_outcome(sc: ScopeModel, var: VariableModel) -> Outcome<ValueModel> {
    if var.mutable() {
        Ok(ValueModel::Null)
    } else {
        raise(sc, AmvmFault::ImmutableAssignment)
    }
}

impl AmvmVariable {
    /// The kind of the binding.
    pub fn get_kind(&self) -> (r: VariableKind)
        ensures
            r == self@.kind(),
    {
        match self {
            AmvmVariable::Const(_) => VariableKind::Const,
            AmvmVariable::Let(_) => VariableKind::Let,
            AmvmVariable::Mut(_) => VariableKind::Mut,
            AmvmVariable::Var(_) => VariableKind::Var,
        }
    }

    /// Whether the binding may be assigned to.
    pub fn is_mutable(&self) -> (r: bool)
        ensures
            r == self@.mutable(),
    {
        match self {
            AmvmVariable::Const(_) => false,
            AmvmVariable::Let(_) => false,
            AmvmVariable::Mut(_) => true,
            AmvmVariable::Var(_) => true,
        }
    }

    /// The kind and the storage cell of the binding; nothing for a constant.
    pub fn get_rw(&self) -> (r: Option<(VariableKind, usize)>)
        ensures
            match self@.cell() {
                Some(c) => r == Some((self@.kind(), c)),
                None => r is None,
            },
    {
        match self {
            AmvmVariable::Const(_) => None,
            AmvmVariable::Mut(c) => Some((VariableKind::Mut, *c)),
            AmvmVariable::Let(c) => Some((VariableKind::Let, *c)),
            AmvmVariable::Var(c) => Some((VariableKind::Var, *c)),
        }
    }

    /// The binding of kind `kind` on the storage cell `cell`; nothing for
    /// kind `Const`.
    pub fn from_rw(kind: VariableKind, cell: usize) -> (r: Option<Self>)
        ensures
            match r {
                Some(v) => VariableModel::on_cell(kind, cell) == Some(v@),
                None => VariableModel::on_cell(kind, cell) == None::<VariableModel>,
            },
    {
        match kind {
            VariableKind::Const => None,
            VariableKind::Mut => Some(AmvmVariable::Mut(cell)),
            VariableKind::Let => Some(AmvmVariable::Let(cell)),
            VariableKind::Var => Some(AmvmVariable::Var(cell)),
        }
    }
}

impl Machine {
    /// Makes a binding of kind `kind` for `value`.
    pub fn new_variable(&mut self, kind: VariableKind, value: Value) -> (r: AmvmVariable)
        ensures
            r@ == old(self)@.new_variable(kind, value@),
            final(self)@ == old(self)@.with_variable(kind, value@),
    {
        match kind {
            VariableKind::Const => AmvmVariable::Const(Box::new(value)),
            VariableKind::Mut => AmvmVariable::Mut(self.allocate(value)),
            VariableKind::Let => AmvmVariable::Let(self.allocate(value)),
            VariableKind::Var => AmvmVariable::Var(self.allocate(value)),
        }
    }

    /// Writes `value` through the binding `var`, whatever its kind. Hands
    /// back whether the binding has storage to write to.
    pub fn write(&mut self, var: &AmvmVariable, value: Value) -> (r: bool)
        ensures
            r == var@.cell() is Some,
            final(self)@ == old(self)@.write(var@, value@),
    {
        match var.get_rw() {
            Some((_, cell)) => {
                self.write_cell(cell, value);
                true
            },
            None => false,
        }
    }

    /// Assigns `value` to the binding `var`. A constant or single-assignment
    /// binding refuses.
    pub fn assign(&mut self, scope: &AmvmScope, var: &AmvmVariable, value: Value) -> (r: AmvmResult)
        ensures
            outcome_model(r) == assign_outcome(scope@, var@),
            final(self)@ == old(self)@.assigned(var@, value@),
    {
        if var.is_mutable() {
            self.write(var, value);
            Ok(Value::Null)
        } else {
            Err(scope.fail(AmvmFault::ImmutableAssignment))
        }
    }
}

} // verus!
