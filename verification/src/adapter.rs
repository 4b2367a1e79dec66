use vstd::prelude::*;

use kohaku::Tokenizer;

use crate::ast::{ast_view, op_tree_view, Ast, AstV, OpTree, OpTreeV};
use crate::numeric::str_eq;

verus! {

/// A double quote removed from both ends of a label, repeatedly, as the
/// quoted-string leaf rule strips it.
pub open spec fn trim_quotes(s: Seq<char>) -> Seq<char>
    decreases s.len(),
{
    if s.len() > 0 && s[0] == '"' {
        trim_quotes(s.skip(1))
    } else if s.len() > 0 && s.last() == '"' {
        trim_quotes(s.drop_last())
    } else {
        s
    }
}

/// The semantic tree a generic operator tree stands for, or `None` where the
/// tree breaks a structural rule.
///
/// A placeholder is legal only as the left operand of the
/// variable-declaration marker; a leaf starting with a double quote is a text
/// literal; the statement separator and both pipes become `Sequence` (the
/// reverse pipe with its operands swapped); the bar becomes `Alternative`;
/// the method dot becomes a one-operand `Call`; every other operator label
/// becomes a two-operand `Call` of the built-in of that name.
pub open spec fn spec_convert(t: OpTreeV) -> Option<AstV>
    decreases t,
{
    match t {
        OpTreeV::Placeholder => None,
        OpTreeV::Parens(inner) => match spec_convert(*inner) {
            Some(a) => Some(AstV::Scope(Box::new(a))),
            None => None,
        },
        OpTreeV::Leaf(label) => if label.len() > 0 && label[0] == '"' {
            Some(AstV::Text(trim_quotes(label)))
        } else {
            Some(AstV::Name(label))
        },
        OpTreeV::Binary(label, n1, n2) => if label == "\\"@ {
            match (*n1, *n2) {
                (OpTreeV::Placeholder, OpTreeV::Leaf(name)) => Some(AstV::VarRef(name)),
                _ => None,
            }
        } else {
            match (spec_convert(*n1), spec_convert(*n2)) {
                (Some(a1), Some(a2)) => if label == ";"@ || label == "->"@ {
                    Some(AstV::Sequence(Box::new(a1), Box::new(a2)))
                } else if label == "<-"@ {
                    Some(AstV::Sequence(Box::new(a2), Box::new(a1)))
                } else if label == "|"@ {
                    Some(AstV::Alternative(Box::new(a1), Box::new(a2)))
                } else if label == "."@ {
                    Some(AstV::Call(seq![a1], Box::new(a2)))
                } else {
                    Some(AstV::Call(seq![a1, a2], Box::new(AstV::Name(label))))
                },
                _ => None,
            }
        },
    }
}

/// Relies on `str::starts_with`: whether the text begins with a double
/// quote.
#[verifier::external_body]
fn starts_with_quote(s: &str) -> (r: bool)
    ensures
        r == (s@.len() > 0 && s@[0] == '"'),
{
    s.starts_with('"')
}

/// Relies on `str::trim_matches`: removes every leading and trailing double
/// quote of the text.
#[verifier::external_body]
fn trim_quote_marks(s: &str) -> (r: String)
    ensures
        r@ == trim_quotes(s@),
{
    s.trim_matches('"').to_string()
}

/// The tree adapter: maps one generic operator-tree node to the semantic
/// node it stands for, or fails structurally, with no partial result.
pub fn convert(t: &OpTree) -> (r: Result<Ast, ()>)
    ensures
        match spec_convert(t@) {
            Some(a) => r matches Ok(ast) && ast@ == a,
            None => r is Err,
        },
    decreases t,
{
    match t {
        OpTree::Placeholder => {
            return Err(());
        },
        OpTree::Parens(inner) => {
            let a = convert(inner)?;
            return Ok(Ast::Scope(Box::new(a)));
        },
        OpTree::Leaf(label) => {
            if starts_with_quote(label.as_str()) {
                return Ok(Ast::Text(trim_quote_marks(label.as_str())));
            } else {
                return Ok(Ast::Name(label.clone()));
            }
        },
        OpTree::Binary(label, n1, n2) => {
            if str_eq(label.as_str(), "\\") {
                match (&**n1, &**n2) {
                    (OpTree::Placeholder, OpTree::Leaf(name)) => {
                        proof {
                            assert(op_tree_view(**n1) == OpTreeV::Placeholder);
                            assert(op_tree_view(**n2) == OpTreeV::Leaf(name@));
                        }
                        return Ok(Ast::VarRef(name.clone()));
                    },
                    _ => {
                        proof {
                            if **n1 is Placeholder {
                                assert(!(**n2 is Leaf));
                                assert(!(op_tree_view(**n2) is Leaf));
                            } else {
                                assert(!(op_tree_view(**n1) is Placeholder));
                            }
                        }
                        return Err(());
                    },
                }
            } else {
                let a1 = convert(n1)?;
                let a2 = convert(n2)?;
                if str_eq(label.as_str(), ";") || str_eq(label.as_str(), "->") {
                    return Ok(Ast::Sequence(Box::new(a1), Box::new(a2)));
                } else if str_eq(label.as_str(), "<-") {
                    return Ok(Ast::Sequence(Box::new(a2), Box::new(a1)));
                } else if str_eq(label.as_str(), "|") {
                    return Ok(Ast::Alternative(Box::new(a1), Box::new(a2)));
                } else if str_eq(label.as_str(), ".") {
                    let r = Ast::Call(vec![a1], Box::new(a2));
                    proof {
                        assert(ast_view(r)->Call_0 =~= spec_convert(t@)->Some_0->Call_0);
                    }
                    return Ok(r);
                } else {
                    let lc = label.clone();
                    proof {
                        assert(lc@ == label@);
                    }
                    let r = Ast::Call(vec![a1, a2], Box::new(Ast::Name(lc)));
                    proof {
                        reveal_with_fuel(ast_view, 3);
                        assert(ast_view(r)->Call_0 =~= spec_convert(t@)->Some_0->Call_0);
                        assert(ast_view(r)->Call_1 == spec_convert(t@)->Some_0->Call_1);
                        assert(ast_view(r) == spec_convert(t@)->Some_0);
                    }
                    return Ok(r);
                }
            }
        },
    }
}

/// An opaque declaration of the external parser's tree node type.
#[verifier::external_type_specification]
#[verifier::external_body]
pub struct ExNode(suzuran::Node);

/// The generic operator tree the external grammar engine produces for a
/// source text, or `None` where the text does not parse.
pub uninterp spec fn parse_tree_of(s: Seq<char>) -> Option<OpTreeV>;

/// Relies on `suzuran::Node`: rebuilds the parser's tree, arm by arm, as the
/// library's own operator-tree type. Used only inside `parse_source`.
#[verifier::external_body]
fn node_to_tree(n: suzuran::Node) -> OpTree {
    match n {
        suzuran::Node::Placeholder() => OpTree::Placeholder,
        suzuran::Node::Parentheses(b) => OpTree::Parens(Box::new(node_to_tree(*b))),
        suzuran::Node::Primitive(s) => OpTree::Leaf(s),
        suzuran::Node::Operator(l, a, b) => OpTree::Binary(
            l,
            Box::new(node_to_tree(*a)),
            Box::new(node_to_tree(*b)),
        ),
    }
}

/// Relies on `kohaku`'s tokenizer and `suzuran::Parser::parse`: tokenizes
/// the source with the language's operator spellings, parses the tokens by
/// the external precedence rules, and hands the resulting operator tree
/// over; the result is a function of the source text alone.
#[verifier::external_body]
fn parse_source(input: &str) -> (r: Option<OpTree>)
    ensures
        match (r, parse_tree_of(input@)) {
            (Some(t), Some(v)) => t@ == v,
            (None, None) => true,
            _ => false,
        },
{
    let mut parser = suzuran::Parser::new([
        ";", "|", "->", "<-", "=<", "==", "!=", "<", "+", "-", "*", "%", "\\", ".",
    ]);
    let tokens = input.tokenize([
        ";", "|", "->", "<-", "=<", "==", "!=", "<", "+", "-", "*", "%", "\\", ".", "(", ")",
    ]);
    parser.parse(tokens.map_while(|x| x.ok())).map(|n| node_to_tree(n))
}

/// Parses a source text to its semantic tree: the external grammar engine
/// produces the generic operator tree, and the tree adapter maps it; any
/// failure of either stage is reported, with no partial result.
pub fn parse_ast(input: &str) -> (r: Result<Ast, ()>)
    ensures
        match parse_tree_of(input@) {
            Some(t) => match spec_convert(t) {
                Some(a) => r matches Ok(ast) && ast@ == a,
                None => r is Err,
            },
            None => r is Err,
        },
{
    match parse_source(input) {
        Some(t) => convert(&t),
        None => Err(()),
    }
}

} // verus!
