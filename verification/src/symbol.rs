use vstd::prelude::*;
use crate::term::{Term, TermModel};

verus! {

/// A named leaf: binds a sub-expression to a name, the unit with
/// respect to which differentiation is requested. Two symbols with
/// the same name are indistinguishable to the differentiator.
#[derive(Debug)]
pub struct Symbol {
    pub symbol: &'static str,
    pub node: Term,
}

impl Symbol {
    /// Binds `node` to the name `symbol`.
    pub fn new(node: Term, symbol: &'static str) -> (r: Symbol)
        ensures
            r.symbol@ == symbol@,
            r.node@ == node@,
    {
        Symbol { symbol, node }
    }
}

impl Clone for Symbol {
    fn clone(&self) -> (r: Self)
        ensures
            r.symbol@ == self.symbol@,
            r.node@ == self.node@,
        decreases self,
    {
        Symbol { symbol: self.symbol, node: self.node.clone() }
    }
}

/// A named symbol with no bound value: it can be differentiated, and
/// its derivative is driven by its name alone, but evaluating it is
/// an error.
pub fn symbol(s: &'static str) -> (r: crate::Node)
    ensures
        r@ == TermModel::Symbol(s@, Box::new(TermModel::Anonymous)),
{
    crate::Node(
        Term::Symbol(
            Box::new(Symbol::new(Term::Anonymous(crate::anon::AnonymousSymbol), s)),
        ),
    )
}

} // verus!
