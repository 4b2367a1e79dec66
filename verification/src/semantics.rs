use vstd::prelude::*;

use crate::ast::AstV;
use crate::numeric::{int_digits, spec_parse_int};
use crate::value::{DataV, Flow};

verus! {

/// The lines the console delivers to the program, in order: `Some` is one
/// successfully read line, `None` is a failed read.
pub type Console = Seq<Option<Seq<char>>>;

/// The model of the global store: text keys to runtime values.
pub type StoreV = Map<Seq<char>, DataV>;

/// What one evaluation step sequence produced: the semantic outcome, the
/// store as it stands afterwards, and the console lines not yet consumed.
#[verifier::ext_equal]
pub struct EvalOut {
    pub flow: Flow,
    pub store: StoreV,
    pub ins: Console,
}

/// An outcome that carries a value.
pub open spec fn out_value(v: DataV, store: StoreV, ins: Console) -> Option<EvalOut> {
    Some(EvalOut { flow: Flow::Value(v), store, ins })
}

/// A soft control-failure outcome.
pub open spec fn out_soft(store: StoreV, ins: Console) -> Option<EvalOut> {
    Some(EvalOut { flow: Flow::Soft, store, ins })
}

/// A fatal fault outcome.
pub open spec fn out_fault(store: StoreV, ins: Console) -> Option<EvalOut> {
    Some(EvalOut { flow: Flow::Fault, store, ins })
}

/// Truncated (round-toward-zero) division remainder, as `%` behaves on
/// Rust's signed integers.
pub open spec fn trunc_rem(x: int, d: int) -> int {
    if x == 0 {
        0
    } else if x > 0 && d > 0 {
        x % d
    } else if x < 0 && d < 0 {
        ((x * -1) % (d * -1)) * -1
    } else if x < 0 {
        ((x * -1) % d) * -1
    } else {
        x % (d * -1)
    }
}

/// The outcome of an arithmetic built-in on two integer operands: the exact
/// result when it fits in 64 bits, a fatal fault on overflow or on a
/// remainder by zero.
pub open spec fn arith_flow(label: Seq<char>, a: int, b: int) -> Flow {
    if label == "+"@ {
        if i64::MIN <= a + b <= i64::MAX {
            Flow::Value(DataV::Int(a + b))
        } else {
            Flow::Fault
        }
    } else if label == "-"@ {
        if i64::MIN <= a - b <= i64::MAX {
            Flow::Value(DataV::Int(a - b))
        } else {
            Flow::Fault
        }
    } else if label == "*"@ {
        if i64::MIN <= a * b <= i64::MAX {
            Flow::Value(DataV::Int(a * b))
        } else {
            Flow::Fault
        }
    } else if label == "%"@ {
        if b == 0 || (a == i64::MIN && b == -1) {
            Flow::Fault
        } else {
            Flow::Value(DataV::Int(trunc_rem(a, b)))
        }
    } else if label == "=="@ {
        if a == b {
            Flow::Value(DataV::Empty)
        } else {
            Flow::Soft
        }
    } else if label == "!="@ {
        if a != b {
            Flow::Value(DataV::Empty)
        } else {
            Flow::Soft
        }
    } else if label == "=<"@ {
        if a <= b {
            Flow::Value(DataV::Empty)
        } else {
            Flow::Soft
        }
    } else {
        if a < b {
            Flow::Value(DataV::Empty)
        } else {
            Flow::Soft
        }
    }
}

/// Whether a label names one of the binary integer built-ins.
pub open spec fn is_arith_label(label: Seq<char>) -> bool {
    label == "+"@ || label == "-"@ || label == "*"@ || label == "%"@ || label == "=="@ || label
        == "!="@ || label == "=<"@ || label == "<"@
}

/// Evaluation of one semantic tree node, indexed by fuel: `None` means the
/// fuel ran out before evaluation completed; `Some` gives the semantic
/// outcome together with the final store and remaining console lines.
///
/// `args` is the active operand list, set by the nearest enclosing `Call`.
/// Text written to the console by `output` is a side effect outside this
/// model; only its stream effect is stated.
pub open spec fn eval(
    fuel: nat,
    ins: Console,
    args: Seq<AstV>,
    ast: AstV,
    stream: DataV,
    store: StoreV,
) -> Option<EvalOut>
    decreases fuel, 2int,
{
    if fuel == 0 {
        None
    } else {
        let f = (fuel - 1) as nat;
        match ast {
            AstV::Scope(inner) => eval(f, ins, args, *inner, stream, store),
            AstV::Sequence(a, b) => match eval(f, ins, args, *a, stream, store) {
                None => None,
                Some(o1) => match o1.flow {
                    Flow::Value(v) => eval(f, o1.ins, args, *b, v, o1.store),
                    _ => Some(o1),
                },
            },
            AstV::Alternative(a, b) => match eval(f, ins, args, *a, stream, store) {
                None => None,
                Some(o1) => match o1.flow {
                    Flow::Soft => eval(f, o1.ins, args, *b, stream, o1.store),
                    _ => Some(o1),
                },
            },
            AstV::Call(ops, callee) => eval(f, ins, ops, *callee, stream, store),
            AstV::Name(label) => eval_name(f, ins, args, label, stream, store),
            AstV::Text(contents) => if stream == DataV::Empty && args.len() == 0 {
                out_value(DataV::Text(contents), store, ins)
            } else {
                out_fault(store, ins)
            },
            AstV::VarRef(_) => out_fault(store, ins),
        }
    }
}

/// Evaluation of a named built-in operation against the fixed table, with
/// `fuel` already accounting for the dispatch step.
pub open spec fn eval_name(
    fuel: nat,
    ins: Console,
    args: Seq<AstV>,
    label: Seq<char>,
    stream: DataV,
    store: StoreV,
) -> Option<EvalOut>
    decreases fuel, 3int,
{
    if label == "int"@ {
        match stream {
            DataV::Int(i) => out_value(DataV::Int(i), store, ins),
            DataV::Text(s) => match spec_parse_int(s) {
                Some(v) => out_value(DataV::Int(v), store, ins),
                None => out_soft(store, ins),
            },
            DataV::Empty => out_fault(store, ins),
        }
    } else if label == "str"@ {
        match stream {
            DataV::Int(i) => out_value(DataV::Text(int_digits(i)), store, ins),
            DataV::Text(s) => out_value(DataV::Text(s), store, ins),
            DataV::Empty => out_fault(store, ins),
        }
    } else if label == "output"@ {
        match stream {
            DataV::Empty => out_fault(store, ins),
            _ => out_value(DataV::Empty, store, ins),
        }
    } else if label == "input"@ {
        if stream != DataV::Empty {
            out_fault(store, ins)
        } else if ins.len() == 0 {
            out_fault(store, ins)
        } else {
            match ins[0] {
                Some(line) => out_value(DataV::Text(line), store, ins.skip(1)),
                None => out_fault(store, ins.skip(1)),
            }
        }
    } else if label == "store"@ {
        if args.len() < 1 {
            out_fault(store, ins)
        } else {
            match eval(fuel, ins, Seq::empty(), args[0], DataV::Empty, store) {
                None => None,
                Some(o) => match o.flow {
                    Flow::Value(DataV::Text(k)) => out_value(
                        DataV::Empty,
                        o.store.insert(k, stream),
                        o.ins,
                    ),
                    Flow::Fault => Some(o),
                    _ => out_fault(o.store, o.ins),
                },
            }
        }
    } else if label == "load"@ {
        if stream != DataV::Empty {
            out_fault(store, ins)
        } else if args.len() < 1 {
            out_fault(store, ins)
        } else {
            match eval(fuel, ins, Seq::empty(), args[0], DataV::Empty, store) {
                None => None,
                Some(o) => match o.flow {
                    Flow::Value(DataV::Text(k)) => if o.store.contains_key(k) {
                        out_value(o.store[k], o.store, o.ins)
                    } else {
                        out_soft(o.store, o.ins)
                    },
                    Flow::Fault => Some(o),
                    _ => out_fault(o.store, o.ins),
                },
            }
        }
    } else if is_arith_label(label) {
        if args.len() < 1 {
            out_fault(store, ins)
        } else {
            match eval(fuel, ins, Seq::empty(), args[0], DataV::Empty, store) {
                None => None,
                Some(o1) => match o1.flow {
                    Flow::Fault => Some(o1),
                    Flow::Soft => out_soft(o1.store, o1.ins),
                    Flow::Value(v1) => if args.len() < 2 {
                        out_fault(o1.store, o1.ins)
                    } else {
                        match eval(fuel, o1.ins, Seq::empty(), args[1], DataV::Empty, o1.store) {
                            None => None,
                            Some(o2) => match o2.flow {
                                Flow::Fault => Some(o2),
                                Flow::Soft => out_soft(o2.store, o2.ins),
                                Flow::Value(v2) => match (v1, v2) {
                                    (DataV::Int(a), DataV::Int(b)) => Some(
                                        EvalOut {
                                            flow: arith_flow(label, a, b),
                                            store: o2.store,
                                            ins: o2.ins,
                                        },
                                    ),
                                    _ => out_fault(o2.store, o2.ins),
                                },
                            },
                        }
                    },
                },
            }
        }
    } else if label == "loop"@ {
        if args.len() < 1 {
            out_fault(store, ins)
        } else {
            loop_run(fuel, ins, args[0], stream, store)
        }
    } else if label == "pass"@ {
        out_value(stream, store, ins)
    } else {
        out_fault(store, ins)
    }
}

/// An empty prefix of console lines consumes nothing.
pub broadcast proof fn lemma_console_empty_concat(rest: Console)
    ensures
        #[trigger] (Seq::<Option<Seq<char>>>::empty() + rest) == rest,
{
    assert(Seq::<Option<Seq<char>>>::empty() + rest =~= rest);
}

/// Concatenation of console lines is associative.
pub broadcast proof fn lemma_console_concat_assoc(a: Console, b: Console, c: Console)
    ensures
        #[trigger] ((a + b) + c) == a + (b + c),
{
    assert((a + b) + c =~= a + (b + c));
}

/// The repetition built-in: re-evaluate the body, feeding each iteration's
/// value to the next, until an iteration soft-fails; the whole construct then
/// reports soft failure itself. A fatal fault in the body aborts it.
pub open spec fn loop_run(
    fuel: nat,
    ins: Console,
    body: AstV,
    stream: DataV,
    store: StoreV,
) -> Option<EvalOut>
    decreases fuel, 1int,
{
    if fuel == 0 {
        None
    } else {
        let f = (fuel - 1) as nat;
        match eval(f, ins, Seq::empty(), body, stream, store) {
            None => None,
            Some(o) => match o.flow {
                Flow::Value(v) => loop_run(f, o.ins, body, v, o.store),
                Flow::Soft => out_soft(o.store, o.ins),
                Flow::Fault => Some(o),
            },
        }
    }
}

} // verus!
