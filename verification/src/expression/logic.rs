//! Boolean logic over syntax trees, for any meaning of the leaves and of the
//! three operators.
use crate::expression::parser::{Ast, Operator, Tree};
use vstd::prelude::*;

verus! {

/// The view of a result.
pub open spec fn outcome<T: View, E: View>(r: Result<T, E>) -> Result<T::V, E::V> {
    match r {
        Ok(v) => Ok(v@),
        Err(e) => Err(e@),
    }
}

/// A meaning for the leaves and the operators of a syntax tree.
///
/// The four operations work on a context that they may change, such as a
/// cache; what they return does not depend on it.
pub trait Dsl {
    /// What the operations keep between calls.
    type Context;

    /// What a tree is evaluated on.
    type Input;

    /// What evaluation gives.
    type Output: View;

    /// How evaluation fails.
    type Failure: View;

    /// What the operations need of the context, and keep.
    spec fn inv(&self, context: &Self::Context) -> bool;

    /// What the leaves need of the input.
    spec fn accepts(&self, input: &Self::Input) -> bool;

    /// What a leaf means.
    spec fn id_spec(&self, modifier: char, payload: Seq<char>, input: &Self::Input) -> Result<
        <Self::Output as View>::V,
        <Self::Failure as View>::V,
    >;

    /// What `!` means.
    spec fn not_spec(&self, v: <Self::Output as View>::V) -> Result<
        <Self::Output as View>::V,
        <Self::Failure as View>::V,
    >;

    /// What `&` means.
    spec fn and_spec(
        &self,
        a: <Self::Output as View>::V,
        b: <Self::Output as View>::V,
    ) -> Result<<Self::Output as View>::V, <Self::Failure as View>::V>;

    /// What `|` means.
    spec fn or_spec(
        &self,
        a: <Self::Output as View>::V,
        b: <Self::Output as View>::V,
    ) -> Result<<Self::Output as View>::V, <Self::Failure as View>::V>;

    /// Evaluates a leaf.
    fn id(
        &self,
        context: &mut Self::Context,
        modifier: char,
        payload: &str,
        input: &Self::Input,
    ) -> (r: Result<Self::Output, Self::Failure>)
        requires
            self.inv(old(context)),
            self.accepts(input),
        ensures
            self.inv(final(context)),
            outcome(r) == self.id_spec(modifier, payload@, input),
    ;

    /// Evaluates `!`.
    fn not(&self, context: &mut Self::Context, v: Self::Output) -> (r: Result<
        Self::Output,
        Self::Failure,
    >)
        requires
            self.inv(old(context)),
        ensures
            self.inv(final(context)),
            outcome(r) == self.not_spec(v@),
    ;

    /// Evaluates `&`.
    fn and(&self, context: &mut Self::Context, a: Self::Output, b: Self::Output) -> (r: Result<
        Self::Output,
        Self::Failure,
    >)
        requires
            self.inv(old(context)),
        ensures
            self.inv(final(context)),
            outcome(r) == self.and_spec(a@, b@),
    ;

    /// Evaluates `|`.
    fn or(&self, context: &mut Self::Context, a: Self::Output, b: Self::Output) -> (r: Result<
        Self::Output,
        Self::Failure,
    >)
        requires
            self.inv(old(context)),
        ensures
            self.inv(final(context)),
            outcome(r) == self.or_spec(a@, b@),
    ;
}

/// The value of a tree under a meaning: the leaves by `id_spec`, the
/// operators by their meanings on the values of all their operands, the left
/// one first. The first failure is the result.
pub open spec fn eval<D: Dsl>(dsl: &D, tree: Tree, input: &D::Input) -> Result<
    <D::Output as View>::V,
    <D::Failure as View>::V,
>
    decreases tree,
{
    match tree {
        Tree::Expr(c, payload) => dsl.id_spec(c, payload, input),
        Tree::Not(a) => match eval(dsl, *a, input) {
            Ok(v) => dsl.not_spec(v),
            Err(e) => Err(e),
        },
        Tree::And(a, b) => match eval(dsl, *a, input) {
            Ok(x) => match eval(dsl, *b, input) {
                Ok(y) => dsl.and_spec(x, y),
                Err(e) => Err(e),
            },
            Err(e) => Err(e),
        },
        Tree::Or(a, b) => match eval(dsl, *a, input) {
            Ok(x) => match eval(dsl, *b, input) {
                Ok(y) => dsl.or_spec(x, y),
                Err(e) => Err(e),
            },
            Err(e) => Err(e),
        },
    }
}

/// Evaluates syntax trees under a meaning.
pub struct Logic<D: Dsl> {
    dsl: D,
}

impl<D: Dsl> Logic<D> {
    /// The meaning that trees are evaluated under.
    pub closed spec fn dsl(&self) -> &D {
        &self.dsl
    }

    /// An evaluator under the meaning `dsl`.
    pub fn new(dsl: D) -> (l: Self)
        ensures
            *l.dsl() == dsl,
    {
        Logic { dsl }
    }

    /// Evaluates a tree, every operand of every operator, from the left.
    pub fn evaluate(&self, ast: &Ast, context: &mut D::Context, input: &D::Input) -> (r: Result<
        D::Output,
        D::Failure,
    >)
        requires
            self.dsl().inv(old(context)),
            self.dsl().accepts(input),
        ensures
            self.dsl().inv(final(context)),
            outcome(r) == eval(self.dsl(), ast@, input),
        decreases ast,
    {
        match ast {
            Ast::Expr(c, s) => self.dsl.id(context, *c, s.as_str(), input),
            Ast::Operation(Operator::Not(a)) => {
                let v = match self.evaluate(a, context, input) {
                    Ok(v) => v,
                    Err(e) => {
                        return Err(e);
                    },
                };
                self.dsl.not(context, v)
            },
            Ast::Operation(Operator::And(a, b)) => {
                let x = match self.evaluate(a, context, input) {
                    Ok(v) => v,
                    Err(e) => {
                        return Err(e);
                    },
                };
                let y = match self.evaluate(b, context, input) {
                    Ok(v) => v,
                    Err(e) => {
                        return Err(e);
                    },
                };
                self.dsl.and(context, x, y)
            },
            Ast::Operation(Operator::Or(a, b)) => {
                let x = match self.evaluate(a, context, input) {
                    Ok(v) => v,
                    Err(e) => {
                        return Err(e);
                    },
                };
                let y = match self.evaluate(b, context, input) {
                    Ok(v) => v,
                    Err(e) => {
                        return Err(e);
                    },
                };
                self.dsl.or(context, x, y)
            },
        }
    }
}

} // verus!
