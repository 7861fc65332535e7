use vstd::prelude::*;
use crate::term::{Term, TermModel};
use crate::symbol::Symbol;

verus! {

/// A placeholder leaf that carries no value. Differentiating it
/// yields zero; evaluating it is an error.
#[derive(Clone, Copy, Debug)]
pub struct AnonymousSymbol;

/// A named symbol over a placeholder leaf: useful when only the
/// derivative structure matters and the symbol is never evaluated.
pub fn symbol(s: &'static str) -> (r: crate::Node)
    ensures
        r@ == TermModel::Symbol(s@, Box::new(TermModel::Anonymous)),
{
    crate::Node(Term::Symbol(Box::new(Symbol::new(Term::Anonymous(AnonymousSymbol), s))))
}

} // verus!
