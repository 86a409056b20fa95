use vstd::prelude::*;

verus! {

/// An expression; only numeric literals are defined so far.
#[derive(Debug, Clone, Copy, PartialEq, Eq)]
pub enum Expression {
    Num(usize),
}

/// A statement of the language.
#[derive(Debug, Clone, PartialEq, Eq)]
pub enum Statement {
    Global { names: Vec<String> },
    Nonlocal { names: Vec<String> },
    Pass,
    Break,
    Continue,
    Return { value: Option<Expression> },
}

/// The root of the tree: a module holds its statements in source order.
#[derive(Debug, Clone, PartialEq, Eq)]
pub enum Ast {
    Module { body: Vec<Statement> },
}

/// The mathematical value of a `Statement`: name lists become sequences.
pub enum StatementModel {
    Global(Seq<String>),
    Nonlocal(Seq<String>),
    Pass,
    Break,
    Continue,
    Return(Option<Expression>),
}

impl View for Statement {
    type V = StatementModel;

    open spec fn view(&self) -> StatementModel {
        match self {
            Statement::Global { names } => StatementModel::Global(names@),
            Statement::Nonlocal { names } => StatementModel::Nonlocal(names@),
            Statement::Pass => StatementModel::Pass,
            Statement::Break => StatementModel::Break,
            Statement::Continue => StatementModel::Continue,
            Statement::Return { value } => StatementModel::Return(*value),
        }
    }
}

/// The models of a sequence of statements, in order.
pub open spec fn models(v: Seq<Statement>) -> Seq<StatementModel> {
    v.map_values(|s: Statement| s@)
}

impl View for Ast {
    type V = Seq<StatementModel>;

    open spec fn view(&self) -> Seq<StatementModel> {
        match self {
            Ast::Module { body } => models(body@),
        }
    }
}

/// Models distribute over concatenation.
pub proof fn lemma_models_concat(a: Seq<Statement>, b: Seq<Statement>)
    ensures
        models(a + b) == models(a) + models(b),
{
    assert(models(a + b) =~= models(a) + models(b));
}

} // verus!
