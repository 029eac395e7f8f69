use vstd::prelude::*;
use crate::runtime::error::AmvmError;
use crate::runtime::error::AmvmFault;
use crate::runtime::error::ErrorModel;
use crate::tokens::scope::AmvmScope;
use crate::tokens::scope::ScopeModel;
use crate::tokens::value::AmvmVariable;
use crate::tokens::value::Value;
use crate::tokens::value::ValueModel;
use crate::tokens::value::VariableModel;

verus! {

/// What ends the run of a statement early.
#[derive(Debug, PartialEq)]
pub enum AmvmPropagate {
    /// A `return`, with its value, on its way to the call that it ends.
    Return(Value),
    /// A `break` on its way to the loop that it ends.
    Break,
    /// An error on its way to the top.
    Error(AmvmError),
}

/// The outcome of running a statement.
pub type AmvmResult = Result<Value, AmvmPropagate>;

/// What ends the run of a statement early, as the contracts speak of it.
pub ghost enum PropagateModel {
    Return(ValueModel),
    Break,
    Error(ErrorModel),
}

/// An outcome as the contracts speak of it.
pub type Outcome<T> = Result<T, PropagateModel>;

impl View for AmvmPropagate {
    type V = PropagateModel;

    open spec fn view(&self) -> PropagateModel {
        match self {
            AmvmPropagate::Return(v) => PropagateModel::Return(v@),
            AmvmPropagate::Break => PropagateModel::Break,
            AmvmPropagate::Error(e) => PropagateModel::Error(e@),
        }
    }
}

/// The model of the outcome of a statement.
pub open spec fn outcome_model(r: AmvmResult) -> Outcome<ValueModel> {
    match r {
        Ok(v) => Ok(v@),
        Err(p) => Err(p@),
    }
}

/// The error that a fault raised in the scope `sc` is.
pub open spec fn raise<T>(sc: ScopeModel, fault: AmvmFault) -> Outcome<T> {
    Err(PropagateModel::Error(ErrorModel { fault, trace: sc.full_backtrace() }))
}

impl AmvmPropagate {
    /// Whether this is a `break`.
    pub fn is_break(&self) -> (r: bool)
        ensures
            r == (self is Break),
    {
        match self {
            AmvmPropagate::Break => true,
            _ => false,
        }
    }

    /// Whether this is a `return`.
    pub fn is_return(&self) -> (r: bool)
        ensures
            r == (self is Return),
    {
        match self {
            AmvmPropagate::Return(_) => true,
            _ => false,
        }
    }

    /// Whether this is an error.
    pub fn is_err(&self) -> (r: bool)
        ensures
            r == (self is Error),
    {
        match self {
            AmvmPropagate::Error(_) => true,
            _ => false,
        }
    }

    /// The error, where this is one.
    pub fn as_err(&self) -> (r: Option<&AmvmError>)
        ensures
            match *self {
                AmvmPropagate::Error(e) => r == Some(&e),
                _ => r is None,
            },
    {
        match self {
            AmvmPropagate::Error(e) => Some(e),
            _ => None,
        }
    }
}

impl AmvmScope {
    /// The error that a fault raised in this scope is.
    pub fn error(&self, fault: AmvmFault) -> (r: AmvmError)
        ensures
            r@ == (ErrorModel { fault, trace: self@.full_backtrace() }),
    {
        AmvmError::Other(self.full_backtrace(), fault)
    }

    /// The early end that a fault raised in this scope is.
    pub fn fail(&self, fault: AmvmFault) -> (r: AmvmPropagate)
        ensures
            Err::<ValueModel, PropagateModel>(r@) == raise::<ValueModel>(self@, fault),
    {
        AmvmPropagate::Error(self.error(fault))
    }
}

/// What an expression evaluates to: a value, or a binding whose storage can
/// be assigned to.
#[derive(Debug, PartialEq)]
pub enum AmvmExprResult {
    Value(Value),
    Variable(AmvmVariable),
}

/// The result of an expression as the contracts speak of it.
pub ghost enum ResultModel {
    Value(ValueModel),
    Variable(VariableModel),
}

impl View for AmvmExprResult {
    type V = ResultModel;

    open spec fn view(&self) -> ResultModel {
        match self {
            AmvmExprResult::Value(v) => ResultModel::Value(v@),
            AmvmExprResult::Variable(var) => ResultModel::Variable(var@),
        }
    }
}

impl Clone for AmvmExprResult {
    fn clone(&self) -> (r: Self)
        ensures
            r@ == self@,
    {
        match self {
            AmvmExprResult::Value(v) => AmvmExprResult::Value(v.clone()),
            AmvmExprResult::Variable(var) => AmvmExprResult::Variable(var.clone()),
        }
    }
}

impl AmvmExprResult {
    /// The binding, where the result is one.
    pub fn as_var(&self) -> (r: Option<AmvmVariable>)
        ensures
            match *self {
                AmvmExprResult::Variable(var) => r matches Some(v) && v@ == var@,
                AmvmExprResult::Value(_) => r is None,
            },
    {
        match self {
            AmvmExprResult::Value(_) => None,
            AmvmExprResult::Variable(v) => Some(v.clone()),
        }
    }
}

} // verus!
