use vstd::prelude::*;

use crate::ast::AstV;
use crate::semantics::{
    arith_flow, eval, eval_name, is_arith_label, loop_run, out_soft, out_value, trunc_rem,
    Console, EvalOut, StoreV,
};
use crate::value::{DataV, Flow};

verus! {

/// The spellings of the built-in names, as character sequences, so that
/// distinct labels can be told apart.
proof fn reveal_builtin_labels()
    ensures
        "int"@ == seq!['i', 'n', 't'],
        "str"@ == seq!['s', 't', 'r'],
        "output"@ == seq!['o', 'u', 't', 'p', 'u', 't'],
        "input"@ == seq!['i', 'n', 'p', 'u', 't'],
        "store"@ == seq!['s', 't', 'o', 'r', 'e'],
        "load"@ == seq!['l', 'o', 'a', 'd'],
        "loop"@ == seq!['l', 'o', 'o', 'p'],
        "pass"@ == seq!['p', 'a', 's', 's'],
        "+"@ == seq!['+'],
        "-"@ == seq!['-'],
        "*"@ == seq!['*'],
        "%"@ == seq!['%'],
        "=="@ == seq!['=', '='],
        "!="@ == seq!['!', '='],
        "=<"@ == seq!['=', '<'],
        "<"@ == seq!['<'],
        "+"@ != "-"@ && "+"@ != "*"@ && "+"@ != "%"@ && "+"@ != "<"@,
        "-"@ != "*"@ && "-"@ != "%"@ && "-"@ != "<"@,
        "*"@ != "%"@ && "*"@ != "<"@,
        "%"@ != "<"@,
        "=="@ != "!="@ && "=="@ != "=<"@ && "!="@ != "=<"@,
        "int"@ != "str"@,
        "load"@ != "loop"@ && "load"@ != "pass"@ && "loop"@ != "pass"@,
        "input"@ != "store"@,
{
    reveal_strlit("int");
    reveal_strlit("str");
    reveal_strlit("output");
    reveal_strlit("input");
    reveal_strlit("store");
    reveal_strlit("load");
    reveal_strlit("loop");
    reveal_strlit("pass");
    reveal_strlit("+");
    reveal_strlit("-");
    reveal_strlit("*");
    reveal_strlit("%");
    reveal_strlit("==");
    reveal_strlit("!=");
    reveal_strlit("=<");
    reveal_strlit("<");
    assert("int"@ =~= seq!['i', 'n', 't']);
    assert("str"@ =~= seq!['s', 't', 'r']);
    assert("output"@ =~= seq!['o', 'u', 't', 'p', 'u', 't']);
    assert("input"@ =~= seq!['i', 'n', 'p', 'u', 't']);
    assert("store"@ =~= seq!['s', 't', 'o', 'r', 'e']);
    assert("load"@ =~= seq!['l', 'o', 'a', 'd']);
    assert("loop"@ =~= seq!['l', 'o', 'o', 'p']);
    assert("pass"@ =~= seq!['p', 'a', 's', 's']);
    assert("+"@ =~= seq!['+']);
    assert("-"@ =~= seq!['-']);
    assert("*"@ =~= seq!['*']);
    assert("%"@ =~= seq!['%']);
    assert("=="@ =~= seq!['=', '=']);
    assert("!="@ =~= seq!['!', '=']);
    assert("=<"@ =~= seq!['=', '<']);
    assert("<"@ =~= seq!['<']);
    assert("+"@[0] == '+' && "-"@[0] == '-' && "*"@[0] == '*' && "%"@[0] == '%' && "<"@[0] == '<');
    assert("=="@[0] == '=' && "!="@[0] == '!' && "=<"@[1] == '<' && "=="@[1] == '=');
    assert("int"@[0] == 'i' && "str"@[0] == 's');
    assert("load"@[2] == 'a' && "loop"@[2] == 'o' && "pass"@[0] == 'p' && "load"@[0] == 'l');
    assert("input"@[0] == 'i' && "store"@[0] == 's');
}

/// Evaluating a binary integer built-in whose two operands evaluate to the
/// integers `a` and `b` performs exactly the named operation on `a` and `b`,
/// leaving the store and console as the operand evaluations left them.
pub proof fn lemma_binop_builtin(
    f: nat,
    ins: Console,
    ins1: Console,
    ins2: Console,
    ta: AstV,
    tb: AstV,
    op: Seq<char>,
    stream: DataV,
    s0: StoreV,
    s1: StoreV,
    s2: StoreV,
    a: int,
    b: int,
)
    requires
        eval(f, ins, Seq::empty(), ta, DataV::Empty, s0) == out_value(DataV::Int(a), s1, ins1),
        eval(f, ins1, Seq::empty(), tb, DataV::Empty, s1) == out_value(DataV::Int(b), s2, ins2),
        is_arith_label(op),
    ensures
        eval(f + 1, ins, seq![ta, tb], AstV::Name(op), stream, s0) == Some(
            EvalOut { flow: arith_flow(op, a, b), store: s2, ins: ins2 },
        ),
{
    reveal_builtin_labels();
    assert(seq![ta, tb][0] == ta);
    assert(seq![ta, tb][1] == tb);
    assert(eval_name(f, ins, seq![ta, tb], op, stream, s0) == Some(
        EvalOut { flow: arith_flow(op, a, b), store: s2, ins: ins2 },
    ));
}

/// For all integers a, b whose sum, difference, product or remainder is
/// representable, the `+`, `-`, `*` and `%` built-ins on operands evaluating
/// to a and b succeed with exactly that integer.
pub proof fn lemma_arithmetic_exact(
    f: nat,
    ins: Console,
    ins1: Console,
    ins2: Console,
    ta: AstV,
    tb: AstV,
    op: Seq<char>,
    stream: DataV,
    s0: StoreV,
    s1: StoreV,
    s2: StoreV,
    a: int,
    b: int,
)
    requires
        eval(f, ins, Seq::empty(), ta, DataV::Empty, s0) == out_value(DataV::Int(a), s1, ins1),
        eval(f, ins1, Seq::empty(), tb, DataV::Empty, s1) == out_value(DataV::Int(b), s2, ins2),
    ensures
        op == "+"@ && i64::MIN <= a + b <= i64::MAX ==> eval(
            f + 1,
            ins,
            seq![ta, tb],
            AstV::Name(op),
            stream,
            s0,
        ) == out_value(DataV::Int(a + b), s2, ins2),
        op == "-"@ && i64::MIN <= a - b <= i64::MAX ==> eval(
            f + 1,
            ins,
            seq![ta, tb],
            AstV::Name(op),
            stream,
            s0,
        ) == out_value(DataV::Int(a - b), s2, ins2),
        op == "*"@ && i64::MIN <= a * b <= i64::MAX ==> eval(
            f + 1,
            ins,
            seq![ta, tb],
            AstV::Name(op),
            stream,
            s0,
        ) == out_value(DataV::Int(a * b), s2, ins2),
        op == "%"@ && b != 0 && !(a == i64::MIN && b == -1) ==> eval(
            f + 1,
            ins,
            seq![ta, tb],
            AstV::Name(op),
            stream,
            s0,
        ) == out_value(DataV::Int(trunc_rem(a, b)), s2, ins2),
{
    reveal_builtin_labels();
    if op == "+"@ || op == "-"@ || op == "*"@ || op == "%"@ {
        lemma_binop_builtin(f, ins, ins1, ins2, ta, tb, op, stream, s0, s1, s2, a, b);
    }
}

/// For all integers a, b, the comparison built-ins on operands evaluating to
/// a and b succeed with Empty exactly when the corresponding mathematical
/// relation holds, and soft-fail otherwise.
pub proof fn lemma_comparison_exact(
    f: nat,
    ins: Console,
    ins1: Console,
    ins2: Console,
    ta: AstV,
    tb: AstV,
    op: Seq<char>,
    stream: DataV,
    s0: StoreV,
    s1: StoreV,
    s2: StoreV,
    a: int,
    b: int,
)
    requires
        eval(f, ins, Seq::empty(), ta, DataV::Empty, s0) == out_value(DataV::Int(a), s1, ins1),
        eval(f, ins1, Seq::empty(), tb, DataV::Empty, s1) == out_value(DataV::Int(b), s2, ins2),
    ensures
        op == "=="@ ==> eval(f + 1, ins, seq![ta, tb], AstV::Name(op), stream, s0) == (if a == b {
            out_value(DataV::Empty, s2, ins2)
        } else {
            out_soft(s2, ins2)
        }),
        op == "!="@ ==> eval(f + 1, ins, seq![ta, tb], AstV::Name(op), stream, s0) == (if a != b {
            out_value(DataV::Empty, s2, ins2)
        } else {
            out_soft(s2, ins2)
        }),
        op == "=<"@ ==> eval(f + 1, ins, seq![ta, tb], AstV::Name(op), stream, s0) == (if a <= b {
            out_value(DataV::Empty, s2, ins2)
        } else {
            out_soft(s2, ins2)
        }),
        op == "<"@ ==> eval(f + 1, ins, seq![ta, tb], AstV::Name(op), stream, s0) == (if a < b {
            out_value(DataV::Empty, s2, ins2)
        } else {
            out_soft(s2, ins2)
        }),
{
    reveal_builtin_labels();
    if op == "=="@ || op == "!="@ || op == "=<"@ || op == "<"@ {
        lemma_binop_builtin(f, ins, ins1, ins2, ta, tb, op, stream, s0, s1, s2, a, b);
    }
}

/// `store` under a text key writes the stream into the store and succeeds
/// with Empty; `load` under the same key then round-trips exactly the stored
/// value; `load` on an absent key soft-fails rather than faulting.
pub proof fn lemma_store_load_round_trip(
    f: nat,
    ins: Console,
    k: Seq<char>,
    v: DataV,
    s0: StoreV,
)
    requires
        f >= 1,
    ensures
        eval(f + 1, ins, seq![AstV::Text(k)], AstV::Name("store"@), v, s0) == out_value(
            DataV::Empty,
            s0.insert(k, v),
            ins,
        ),
        eval(f + 1, ins, seq![AstV::Text(k)], AstV::Name("load"@), DataV::Empty, s0.insert(k, v))
            == out_value(v, s0.insert(k, v), ins),
        !s0.contains_key(k) ==> eval(
            f + 1,
            ins,
            seq![AstV::Text(k)],
            AstV::Name("load"@),
            DataV::Empty,
            s0,
        ) == out_soft(s0, ins),
{
    reveal_builtin_labels();
    assert(seq![AstV::Text(k)][0] == AstV::Text(k));
    assert(eval(f, ins, Seq::empty(), AstV::Text(k), DataV::Empty, s0) == out_value(
        DataV::Text(k),
        s0,
        ins,
    ));
    assert(eval(f, ins, Seq::empty(), AstV::Text(k), DataV::Empty, s0.insert(k, v)) == out_value(
        DataV::Text(k),
        s0.insert(k, v),
        ins,
    ));
    assert(eval_name(f, ins, seq![AstV::Text(k)], "store"@, v, s0) == out_value(
        DataV::Empty,
        s0.insert(k, v),
        ins,
    ));
    assert(s0.insert(k, v)[k] == v);
    assert(eval_name(f, ins, seq![AstV::Text(k)], "load"@, DataV::Empty, s0.insert(k, v))
        == out_value(v, s0.insert(k, v), ins));
    if !s0.contains_key(k) {
        assert(eval_name(f, ins, seq![AstV::Text(k)], "load"@, DataV::Empty, s0) == out_soft(
            s0,
            ins,
        ));
    }
}

/// If the first branch of an `Alternative` soft-fails after mutating the
/// store, the second branch runs against the original stream value but sees
/// the mutated store: stream state is reset, store mutations persist.
pub proof fn lemma_alternative_keeps_store(
    f: nat,
    ins: Console,
    ins1: Console,
    args: Seq<AstV>,
    a: AstV,
    b: AstV,
    stream: DataV,
    s0: StoreV,
    s1: StoreV,
)
    requires
        eval(f, ins, args, a, stream, s0) == out_soft(s1, ins1),
    ensures
        eval(f + 1, ins, args, AstV::Alternative(Box::new(a), Box::new(b)), stream, s0) == eval(
            f,
            ins1,
            args,
            b,
            stream,
            s1,
        ),
{
}

/// The repetition built-in can never succeed on its own: whenever it
/// completes, its outcome is a soft failure or a fatal fault, never a value.
pub proof fn lemma_loop_never_yields_value(
    fuel: nat,
    ins: Console,
    body: AstV,
    stream: DataV,
    s0: StoreV,
)
    ensures
        loop_run(fuel, ins, body, stream, s0) matches Some(o) ==> !(o.flow is Value),
    decreases fuel,
{
    if fuel > 0 {
        let f = (fuel - 1) as nat;
        match eval(f, ins, Seq::empty(), body, stream, s0) {
            Some(o) => match o.flow {
                Flow::Value(v) => {
                    lemma_loop_never_yields_value(f, o.ins, body, v, o.store);
                },
                _ => {},
            },
            None => {},
        }
    }
}

/// A `loop` call always terminates the surrounding expression in soft
/// failure or a fault of its body, never in a value.
pub proof fn lemma_loop_call_never_yields_value(
    f: nat,
    ins: Console,
    body: AstV,
    stream: DataV,
    s0: StoreV,
)
    ensures
        eval(f + 1, ins, seq![body], AstV::Name("loop"@), stream, s0) matches Some(o) ==> !(o.flow
            is Value),
{
    reveal_builtin_labels();
    assert(seq![body][0] == body);
    lemma_loop_never_yields_value(f, ins, body, stream, s0);
    assert(eval_name(f, ins, seq![body], "loop"@, stream, s0) == loop_run(
        f,
        ins,
        body,
        stream,
        s0,
    ));
}

/// `Alternative(loop(body), pass)` over a soft-failing loop succeeds and
/// yields the stream value as it stood before the loop began, with the store
/// as the loop's iterations left it.
pub proof fn lemma_loop_alternative_pass(
    f: nat,
    ins: Console,
    ins1: Console,
    args: Seq<AstV>,
    body: AstV,
    stream: DataV,
    s0: StoreV,
    s1: StoreV,
)
    requires
        eval(
            f,
            ins,
            args,
            AstV::Call(seq![body], Box::new(AstV::Name("loop"@))),
            stream,
            s0,
        ) == out_soft(s1, ins1),
    ensures
        eval(
            f + 1,
            ins,
            args,
            AstV::Alternative(
                Box::new(AstV::Call(seq![body], Box::new(AstV::Name("loop"@)))),
                Box::new(AstV::Name("pass"@)),
            ),
            stream,
            s0,
        ) == out_value(stream, s1, ins1),
{
    reveal_builtin_labels();
    assert(f >= 1) by {
        if f == 0 {
            assert(eval(
                f,
                ins,
                args,
                AstV::Call(seq![body], Box::new(AstV::Name("loop"@))),
                stream,
                s0,
            ) is None);
        }
    }
    assert(eval_name((f - 1) as nat, ins1, args, "pass"@, stream, s1) == out_value(
        stream,
        s1,
        ins1,
    ));
    assert(eval(f, ins1, args, AstV::Name("pass"@), stream, s1) == out_value(stream, s1, ins1));
}

} // verus!
