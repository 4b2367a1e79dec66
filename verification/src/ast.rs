use vstd::prelude::*;

verus! {

broadcast use vstd::std_specs::vec::axiom_vec_index_decreases;

/// Mathematical model of a semantic syntax tree node.
#[verifier::ext_equal]
pub enum AstV {
    /// Transparent grouping; evaluates exactly as its inner tree.
    Scope(Box<AstV>),
    /// Evaluate the first tree; on success feed its result into the second.
    Sequence(Box<AstV>, Box<AstV>),
    /// Evaluate the first tree; on soft failure evaluate the second against
    /// the original stream (the store is not rolled back).
    Alternative(Box<AstV>, Box<AstV>),
    /// Evaluate the callee as a named operation with the given operand list.
    Call(Seq<AstV>, Box<AstV>),
    /// A named built-in operation, looked up against a fixed table.
    Name(Seq<char>),
    /// A literal text constant.
    Text(Seq<char>),
    /// A variable reference; reaching it during evaluation is a fatal fault.
    VarRef(Seq<char>),
}

/// A semantic syntax tree node, as produced by the tree adapter.
#[derive(Debug)]
pub enum Ast {
    Scope(Box<Ast>),
    Sequence(Box<Ast>, Box<Ast>),
    Alternative(Box<Ast>, Box<Ast>),
    Call(Vec<Ast>, Box<Ast>),
    Name(String),
    Text(String),
    VarRef(String),
}

/// The model of a semantic tree node.
pub open spec fn ast_view(a: Ast) -> AstV
    decreases a,
{
    match a {
        Ast::Scope(a) => AstV::Scope(Box::new(ast_view(*a))),
        Ast::Sequence(a, b) => AstV::Sequence(Box::new(ast_view(*a)), Box::new(ast_view(*b))),
        Ast::Alternative(a, b) => AstV::Alternative(
            Box::new(ast_view(*a)),
            Box::new(ast_view(*b)),
        ),
        Ast::Call(ops, c) => AstV::Call(
            Seq::new(
                ops@.len(),
                |i: int|
                    if 0 <= i < ops@.len() {
                        ast_view(ops@[i])
                    } else {
                        AstV::Name(Seq::empty())
                    },
            ),
            Box::new(ast_view(*c)),
        ),
        Ast::Name(s) => AstV::Name(s@),
        Ast::Text(s) => AstV::Text(s@),
        Ast::VarRef(s) => AstV::VarRef(s@),
    }
}

/// The models of the trees in an operand list.
pub open spec fn args_view(v: Vec<Ast>) -> Seq<AstV> {
    Seq::new(v@.len(), |i: int| ast_view(v@[i]))
}

impl View for Ast {
    type V = AstV;

    open spec fn view(&self) -> AstV {
        ast_view(*self)
    }
}

/// Mathematical model of a generic operator-tree node, the shape handed over
/// by the external grammar engine.
#[verifier::ext_equal]
pub enum OpTreeV {
    Placeholder,
    Parens(Box<OpTreeV>),
    Leaf(Seq<char>),
    Binary(Seq<char>, Box<OpTreeV>, Box<OpTreeV>),
}

/// A generic operator-tree node: a placeholder, a parenthesized sub-tree, a
/// leaf label, or a binary operator with two children.
#[derive(Debug)]
pub enum OpTree {
    Placeholder,
    Parens(Box<OpTree>),
    Leaf(String),
    Binary(String, Box<OpTree>, Box<OpTree>),
}

/// The model of a generic operator-tree node.
pub open spec fn op_tree_view(t: OpTree) -> OpTreeV
    decreases t,
{
    match t {
        OpTree::Placeholder => OpTreeV::Placeholder,
        OpTree::Parens(t) => OpTreeV::Parens(Box::new(op_tree_view(*t))),
        OpTree::Leaf(s) => OpTreeV::Leaf(s@),
        OpTree::Binary(s, a, b) => OpTreeV::Binary(
            s@,
            Box::new(op_tree_view(*a)),
            Box::new(op_tree_view(*b)),
        ),
    }
}

impl View for OpTree {
    type V = OpTreeV;

    open spec fn view(&self) -> OpTreeV {
        op_tree_view(*self)
    }
}

/// Structural equality of two operand lists, by their models.
fn ast_vec_eq(a: &Vec<Ast>, b: &Vec<Ast>) -> (r: bool)
    ensures
        r == (a@.len() == b@.len() && (forall|j: int|
            0 <= j < a@.len() ==> ast_view(a@[j]) == ast_view(b@[j]))),
    decreases a,
{
    if a.len() != b.len() {
        return false;
    }
    let mut i: usize = 0;
    let mut same: bool = true;
    while i < a.len()
        invariant
            i <= a.len(),
            a@.len() == b@.len(),
            same == (forall|j: int| 0 <= j < i ==> ast_view(a@[j]) == ast_view(b@[j])),
        decreases a@.len() - i,
    {
        proof {
            assert(decreases_to!(a => a@[i as int]));
        }
        if !(a[i] == b[i]) {
            same = false;
        }
        i += 1;
    }
    same
}

impl PartialEq for Ast {
    fn eq(&self, other: &Ast) -> (r: bool)
        decreases self,
    {
        match self {
            Ast::Scope(a) => match other {
                Ast::Scope(b) => **a == **b,
                _ => false,
            },
            Ast::Sequence(a1, a2) => match other {
                Ast::Sequence(b1, b2) => **a1 == **b1 && **a2 == **b2,
                _ => false,
            },
            Ast::Alternative(a1, a2) => match other {
                Ast::Alternative(b1, b2) => **a1 == **b1 && **a2 == **b2,
                _ => false,
            },
            Ast::Call(ops1, c1) => match other {
                Ast::Call(ops2, c2) => {
                    let r = **c1 == **c2 && ast_vec_eq(ops1, ops2);
                    proof {
                        if r {
                            assert forall|k: int| 0 <= k < ops1@.len() implies self@->Call_0[k]
                                == other@->Call_0[k] by {
                                assert(ast_view(ops1@[k]) == ast_view(ops2@[k]));
                            }
                            assert(self@->Call_0 =~= other@->Call_0);
                            assert(self@ =~= other@);
                        } else if ast_view(**c1) == ast_view(**c2) {
                            if ops1@.len() == ops2@.len() {
                                let j = choose|j: int|
                                    0 <= j < ops1@.len() && ast_view(ops1@[j]) != ast_view(
                                        ops2@[j],
                                    );
                                assert(self@->Call_0[j] == ast_view(ops1@[j]));
                                assert(other@->Call_0[j] == ast_view(ops2@[j]));
                            } else {
                                assert(self@->Call_0.len() != other@->Call_0.len());
                            }
                        }
                    }
                    r
                },
                _ => false,
            },
            Ast::Name(a) => match other {
                Ast::Name(b) => *a == *b,
                _ => false,
            },
            Ast::Text(a) => match other {
                Ast::Text(b) => *a == *b,
                _ => false,
            },
            Ast::VarRef(a) => match other {
                Ast::VarRef(b) => *a == *b,
                _ => false,
            },
        }
    }
}

impl vstd::std_specs::cmp::PartialEqSpecImpl for Ast {
    open spec fn obeys_eq_spec() -> bool {
        true
    }

    open spec fn eq_spec(&self, other: &Ast) -> bool {
        self@ == other@
    }
}

} // verus!
