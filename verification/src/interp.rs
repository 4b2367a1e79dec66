use vstd::prelude::*;
use vstd::hash_map::StringHashMap;

use std::io::Write;

use crate::ast::{args_view, ast_view, Ast, AstV};
use crate::numeric::{int_to_text, parse_int_text, str_eq};
use crate::semantics::{eval, eval_name, loop_run, trunc_rem, Console, EvalOut, StoreV};
use crate::semantics::{out_fault, out_soft, out_value};
use crate::semantics::{lemma_console_concat_assoc, lemma_console_empty_concat};
use crate::value::{Data, DataV, Outcome};

verus! {

broadcast use lemma_console_empty_concat, lemma_console_concat_assoc;

/// The model of an exec store: the map of its keys to the models of its
/// values.
pub open spec fn store_view(m: Map<Seq<char>, Data>) -> StoreV {
    Map::new(|k: Seq<char>| m.contains_key(k), |k: Seq<char>| m[k]@)
}

/// The evaluation result a finished run stands for: `None` when the fuel ran
/// out, otherwise the semantic outcome with the given store model and
/// remaining console lines.
pub open spec fn out_of(r: Outcome, store: StoreV, rest: Console) -> Option<EvalOut> {
    match r {
        Outcome::Value(v) => out_value(v@, store, rest),
        Outcome::Soft => out_soft(store, rest),
        Outcome::Fault => out_fault(store, rest),
        Outcome::OutOfFuel => None,
    }
}

/// The contract a run of the evaluator meets: for every sequence of console
/// lines that may still arrive after the `consumed` ones, evaluation under
/// the model consumes exactly `consumed` and yields the returned outcome and
/// final store.
pub open spec fn rec_post(
    fuel: nat,
    consumed: Console,
    args: Seq<AstV>,
    ast: AstV,
    stream: DataV,
    store0: StoreV,
    store1: StoreV,
    r: Outcome,
) -> bool {
    forall|rest: Console|
        #![trigger eval(fuel, consumed + rest, args, ast, stream, store0)]
        eval(fuel, consumed + rest, args, ast, stream, store0) == out_of(r, store1, rest)
}

/// The same contract, for the dispatch of one named built-in.
pub open spec fn name_post(
    fuel: nat,
    consumed: Console,
    args: Seq<AstV>,
    label: Seq<char>,
    stream: DataV,
    store0: StoreV,
    store1: StoreV,
    r: Outcome,
) -> bool {
    forall|rest: Console|
        #![trigger eval_name(fuel, consumed + rest, args, label, stream, store0)]
        eval_name(fuel, consumed + rest, args, label, stream, store0) == out_of(r, store1, rest)
}

/// The same contract, for the repetition built-in.
pub open spec fn loop_post(
    fuel: nat,
    consumed: Console,
    body: AstV,
    stream: DataV,
    store0: StoreV,
    store1: StoreV,
    r: Outcome,
) -> bool {
    forall|rest: Console|
        #![trigger loop_run(fuel, consumed + rest, body, stream, store0)]
        loop_run(fuel, consumed + rest, body, stream, store0) == out_of(r, store1, rest)
}

/// Relies on `std::io::Stdin::read_line`: reads one line from the console,
/// blocking until it is available; returns it with its line terminator, or
/// `None` where reading fails. Nothing can be promised of the text itself.
#[verifier::external_body]
fn read_raw_line() -> Option<String> {
    let mut line = String::new();
    match std::io::stdin().read_line(&mut line) {
        Ok(_) => Some(line),
        Err(_) => None,
    }
}

/// Relies on `str::trim_end`: removes trailing whitespace, in particular the
/// line terminator of a console line. The model of the console delivers
/// lines already trimmed, so no more is stated here.
#[verifier::external_body]
fn trim_line(s: &str) -> String {
    s.trim_end().to_string()
}

/// Relies on the `writeln` macro over `std::io::Stdout`: writes the text and
/// a line terminator to the console.
#[verifier::external_body]
fn emit_line(s: &str) {
    let _ = writeln!(std::io::stdout(), "{}", s);
}

/// The tree-walking evaluator, holding the global store for one run.
pub struct Interpreter {
    pub storage: StringHashMap<Data>,
}

impl View for Interpreter {
    type V = StoreV;

    open spec fn view(&self) -> StoreV {
        store_view(self.storage@)
    }
}

impl Interpreter {
    /// Creates an evaluator whose store is empty.
    pub fn new() -> (r: Interpreter)
        ensures
            r@ == Map::<Seq<char>, DataV>::empty(),
    {
        let r = Interpreter { storage: StringHashMap::new() };
        proof {
            assert(r@ =~= Map::<Seq<char>, DataV>::empty());
        }
        r
    }

    /// Writes a value into the global store under the given key,
    /// overwriting any previous value.
    pub fn store_insert(&mut self, key: String, value: Data)
        ensures
            final(self)@ == old(self)@.insert(key@, value@),
    {
        let ghost kk = key@;
        let ghost vv = value@;
        self.storage.insert(key, value);
        proof {
            assert(self@ =~= old(self)@.insert(kk, vv));
        }
    }

    /// Looks a key up in the global store.
    pub fn store_get(&self, key: &str) -> (r: Option<&Data>)
        ensures
            match r {
                Some(v) => self@.contains_key(key@) && v@ == self@[key@],
                None => !self@.contains_key(key@),
            },
    {
        self.storage.get(key)
    }

    /// The number of keys held in the global store.
    pub fn store_len(&self) -> (n: usize)
        ensures
            n == self@.len(),
    {
        proof {
            assert(self@.dom() =~= self.storage@.dom());
        }
        self.storage.len()
    }

    /// Evaluates one semantic tree against the current stream value, with a
    /// step budget. The result is exactly what the semantic model `eval`
    /// yields for the console lines the run consumed.
    pub fn interpret(&mut self, fuel: u64, args: &Vec<Ast>, ast: &Ast, stream: Data) -> (r:
        Outcome)
        ensures
            exists|ins: Console|
                eval(fuel as nat, ins, args_view(*args), ast_view(*ast), stream@, old(self)@)
                    == out_of(r, final(self)@, Seq::empty()),
    {
        let (r, consumed) = self.interpret_rec(fuel, args, ast, stream);
        proof {
            assert(consumed@ + Seq::<Option<Seq<char>>>::empty() =~= consumed@);
            assert(eval(
                fuel as nat,
                consumed@ + Seq::empty(),
                args_view(*args),
                ast_view(*ast),
                stream@,
                old(self)@,
            ) == out_of(r, self@, Seq::empty()));
        }
        r
    }

    /// One recursive step of evaluation; returns the outcome and the console
    /// lines consumed, so that runs compose.
    fn interpret_rec(&mut self, fuel: u64, args: &Vec<Ast>, ast: &Ast, stream: Data) -> (res: (
        Outcome,
        Ghost<Console>,
    ))
        ensures
            rec_post(
                fuel as nat,
                res.1@,
                args_view(*args),
                ast_view(*ast),
                stream@,
                old(self)@,
                final(self)@,
                res.0,
            ),
        decreases fuel, 2int,
    {
        if fuel == 0 {
            return (Outcome::OutOfFuel, Ghost(Seq::empty()));
        }
        let f = fuel - 1;
        match ast {
            Ast::Scope(inner) => {
                let (r, c) = self.interpret_rec(f, args, inner, stream);
                proof {
                    assert forall|rest: Console|
                        eval(
                            fuel as nat,
                            c@ + rest,
                            args_view(*args),
                            ast_view(*ast),
                            stream@,
                            old(self)@,
                        ) == out_of(r, self@, rest) by {
                        assert(eval(
                            f as nat,
                            c@ + rest,
                            args_view(*args),
                            ast_view(**inner),
                            stream@,
                            old(self)@,
                        ) == out_of(r, self@, rest));
                    }
                }
                (r, c)
            },
            Ast::Sequence(a, b) => {
                let (r1, c1) = self.interpret_rec(f, args, a, stream);
                let ghost st_mid = self@;
                match &r1 {
                    Outcome::Value(v) => {
                        let vd = v.clone();
                        let (r2, c2) = self.interpret_rec(f, args, b, vd);
                        proof {
                            assert forall|rest: Console|
                                eval(
                                    fuel as nat,
                                    (c1@ + c2@) + rest,
                                    args_view(*args),
                                    ast_view(*ast),
                                    stream@,
                                    old(self)@,
                                ) == out_of(r2, self@, rest) by {
                                assert((c1@ + c2@) + rest =~= c1@ + (c2@ + rest));
                                assert(eval(
                                    f as nat,
                                    c1@ + (c2@ + rest),
                                    args_view(*args),
                                    ast_view(**a),
                                    stream@,
                                    old(self)@,
                                ) == out_of(r1, st_mid, c2@ + rest));
                                assert(eval(
                                    f as nat,
                                    c2@ + rest,
                                    args_view(*args),
                                    ast_view(**b),
                                    v@,
                                    st_mid,
                                ) == out_of(r2, self@, rest));
                            }
                        }
                        (r2, Ghost(c1@ + c2@))
                    },
                    _ => {
                        proof {
                            assert forall|rest: Console|
                                eval(
                                    fuel as nat,
                                    c1@ + rest,
                                    args_view(*args),
                                    ast_view(*ast),
                                    stream@,
                                    old(self)@,
                                ) == out_of(r1, self@, rest) by {
                                assert(eval(
                                    f as nat,
                                    c1@ + rest,
                                    args_view(*args),
                                    ast_view(**a),
                                    stream@,
                                    old(self)@,
                                ) == out_of(r1, self@, rest));
                            }
                        }
                        (r1, c1)
                    },
                }
            },
            Ast::Alternative(a, b) => {
                let saved = stream.clone();
                let (r1, c1) = self.interpret_rec(f, args, a, stream);
                let ghost st_mid = self@;
                match &r1 {
                    Outcome::Soft => {
                        let (r2, c2) = self.interpret_rec(f, args, b, saved);
                        proof {
                            assert forall|rest: Console|
                                eval(
                                    fuel as nat,
                                    (c1@ + c2@) + rest,
                                    args_view(*args),
                                    ast_view(*ast),
                                    stream@,
                                    old(self)@,
                                ) == out_of(r2, self@, rest) by {
                                assert((c1@ + c2@) + rest =~= c1@ + (c2@ + rest));
                                assert(eval(
                                    f as nat,
                                    c1@ + (c2@ + rest),
                                    args_view(*args),
                                    ast_view(**a),
                                    stream@,
                                    old(self)@,
                                ) == out_of(r1, st_mid, c2@ + rest));
                                assert(eval(
                                    f as nat,
                                    c2@ + rest,
                                    args_view(*args),
                                    ast_view(**b),
                                    stream@,
                                    st_mid,
                                ) == out_of(r2, self@, rest));
                            }
                        }
                        (r2, Ghost(c1@ + c2@))
                    },
                    _ => {
                        proof {
                            assert forall|rest: Console|
                                eval(
                                    fuel as nat,
                                    c1@ + rest,
                                    args_view(*args),
                                    ast_view(*ast),
                                    stream@,
                                    old(self)@,
                                ) == out_of(r1, self@, rest) by {
                                assert(eval(
                                    f as nat,
                                    c1@ + rest,
                                    args_view(*args),
                                    ast_view(**a),
                                    stream@,
                                    old(self)@,
                                ) == out_of(r1, self@, rest));
                            }
                        }
                        (r1, c1)
                    },
                }
            },
            Ast::Call(ops, callee) => {
                let (r, c) = self.interpret_rec(f, ops, callee, stream);
                proof {
                    assert forall|rest: Console|
                        eval(
                            fuel as nat,
                            c@ + rest,
                            args_view(*args),
                            ast_view(*ast),
                            stream@,
                            old(self)@,
                        ) == out_of(r, self@, rest) by {
                        assert(ast_view(*ast)->Call_0 =~= args_view(*ops));
                        assert(eval(
                            f as nat,
                            c@ + rest,
                            args_view(*ops),
                            ast_view(**callee),
                            stream@,
                            old(self)@,
                        ) == out_of(r, self@, rest));
                    }
                }
                (r, c)
            },
            Ast::Name(label) => {
                let (r, c) = self.interpret_primitive(f, args, label.as_str(), stream);
                proof {
                    assert forall|rest: Console|
                        eval(
                            fuel as nat,
                            c@ + rest,
                            args_view(*args),
                            ast_view(*ast),
                            stream@,
                            old(self)@,
                        ) == out_of(r, self@, rest) by {
                        assert(eval_name(
                            f as nat,
                            c@ + rest,
                            args_view(*args),
                            label@,
                            stream@,
                            old(self)@,
                        ) == out_of(r, self@, rest));
                    }
                }
                (r, c)
            },
            Ast::Text(contents) => {
                let r = self.interpret_literal(args, contents.as_str(), stream);
                proof {
                    assert forall|rest: Console|
                        eval(
                            fuel as nat,
                            Seq::<Option<Seq<char>>>::empty() + rest,
                            args_view(*args),
                            ast_view(*ast),
                            stream@,
                            old(self)@,
                        ) == out_of(r, self@, rest) by {
                        assert(Seq::<Option<Seq<char>>>::empty() + rest =~= rest);
                    }
                }
                (r, Ghost(Seq::empty()))
            },
            Ast::VarRef(_) => {
                proof {
                    assert forall|rest: Console|
                        eval(
                            fuel as nat,
                            Seq::<Option<Seq<char>>>::empty() + rest,
                            args_view(*args),
                            ast_view(*ast),
                            stream@,
                            old(self)@,
                        ) == out_of(Outcome::Fault, self@, rest) by {
                        assert(Seq::<Option<Seq<char>>>::empty() + rest =~= rest);
                    }
                }
                (Outcome::Fault, Ghost(Seq::empty()))
            },
        }
    }

    /// Evaluates a literal text constant: it succeeds with that text exactly
    /// when the current stream is empty and no operand list is active, and is
    /// a fatal fault otherwise.
    pub fn interpret_literal(&mut self, args: &Vec<Ast>, contents: &str, stream: Data) -> (r:
        Outcome)
        ensures
            final(self)@ == old(self)@,
            stream@ == DataV::Empty && args@.len() == 0 ==> (r matches Outcome::Value(d)
                && d@ == DataV::Text(contents@)),
            !(stream@ == DataV::Empty && args@.len() == 0) ==> r matches Outcome::Fault,
    {
        match stream {
            Data::Empty => {
                if args.len() == 0 {
                    Outcome::Value(Data::Text(contents.to_owned()))
                } else {
                    Outcome::Fault
                }
            },
            _ => Outcome::Fault,
        }
    }

    /// Dispatches a named built-in operation against the fixed table, with
    /// the active operand list.
    fn interpret_primitive(&mut self, fuel: u64, args: &Vec<Ast>, label: &str, stream: Data) -> (res: (
        Outcome,
        Ghost<Console>,
    ))
        ensures
            name_post(
                fuel as nat,
                res.1@,
                args_view(*args),
                label@,
                stream@,
                old(self)@,
                final(self)@,
                res.0,
            ),
        decreases fuel, 3int,
    {
        let ghost sv = stream@;
        let ghost none: Console = Seq::empty();
        let no_args: Vec<Ast> = Vec::new();
        proof {
            assert(args_view(no_args) =~= Seq::<AstV>::empty());
        }
        if str_eq(label, "int") {
            let r = match stream {
                Data::Int(i) => Outcome::Value(Data::Int(i)),
                Data::Text(s) => match parse_int_text(s.as_str()) {
                    Some(v) => Outcome::Value(Data::Int(v)),
                    None => Outcome::Soft,
                },
                Data::Empty => Outcome::Fault,
            };
            proof {
                assert forall|rest: Console|
                    eval_name(fuel as nat, none + rest, args_view(*args), label@, sv, old(self)@)
                        == out_of(r, self@, rest) by {}
            }
            (r, Ghost(none))
        } else if str_eq(label, "str") {
            let r = match stream {
                Data::Int(i) => Outcome::Value(Data::Text(int_to_text(i))),
                Data::Text(s) => Outcome::Value(Data::Text(s)),
                Data::Empty => Outcome::Fault,
            };
            proof {
                assert forall|rest: Console|
                    eval_name(fuel as nat, none + rest, args_view(*args), label@, sv, old(self)@)
                        == out_of(r, self@, rest) by {}
            }
            (r, Ghost(none))
        } else if str_eq(label, "output") {
            let r = match stream {
                Data::Int(i) => {
                    let t = int_to_text(i);
                    emit_line(t.as_str());
                    Outcome::Value(Data::Empty)
                },
                Data::Text(s) => {
                    emit_line(s.as_str());
                    Outcome::Value(Data::Empty)
                },
                Data::Empty => Outcome::Fault,
            };
            proof {
                assert forall|rest: Console|
                    eval_name(fuel as nat, none + rest, args_view(*args), label@, sv, old(self)@)
                        == out_of(r, self@, rest) by {}
            }
            (r, Ghost(none))
        } else if str_eq(label, "input") {
            match stream {
                Data::Empty => match read_raw_line() {
                    Some(raw) => {
                        let line = trim_line(raw.as_str());
                        let ghost c = seq![Some(line@)];
                        let r = Outcome::Value(Data::Text(line));
                        proof {
                            assert forall|rest: Console|
                                eval_name(
                                    fuel as nat,
                                    c + rest,
                                    args_view(*args),
                                    label@,
                                    sv,
                                    old(self)@,
                                ) == out_of(r, self@, rest) by {
                                assert((c + rest).skip(1) =~= rest);
                            }
                        }
                        (r, Ghost(c))
                    },
                    None => {
                        let ghost c: Console = seq![None];
                        proof {
                            assert forall|rest: Console|
                                eval_name(
                                    fuel as nat,
                                    c + rest,
                                    args_view(*args),
                                    label@,
                                    sv,
                                    old(self)@,
                                ) == out_of(Outcome::Fault, self@, rest) by {
                                assert((c + rest).skip(1) =~= rest);
                            }
                        }
                        (Outcome::Fault, Ghost(c))
                    },
                },
                _ => {
                    proof {
                        assert forall|rest: Console|
                            eval_name(
                                fuel as nat,
                                none + rest,
                                args_view(*args),
                                label@,
                                sv,
                                old(self)@,
                            ) == out_of(Outcome::Fault, self@, rest) by {}
                    }
                    (Outcome::Fault, Ghost(none))
                },
            }
        } else if str_eq(label, "store") {
            if args.len() < 1 {
                proof {
                    assert forall|rest: Console|
                        eval_name(fuel as nat, none + rest, args_view(*args), label@, sv, old(self)@)
                            == out_of(Outcome::Fault, self@, rest) by {}
                }
                return (Outcome::Fault, Ghost(none));
            }
            let (r0, c0) = self.interpret_rec(fuel, &no_args, &args[0], Data::Empty);
            let ghost st1 = self@;
            proof {
                assert(args_view(*args)[0] == ast_view(args@[0]));
                assert(rec_post(
                    fuel as nat,
                    c0@,
                    Seq::empty(),
                    args_view(*args)[0],
                    DataV::Empty,
                    old(self)@,
                    st1,
                    r0,
                ));
            }
            let r = match r0 {
                Outcome::Value(d) => match d {
                    Data::Text(k) => {
                        let ghost kk = k@;
                        self.storage.insert(k, stream);
                        proof {
                            assert(store_view(self.storage@) =~= st1.insert(kk, sv));
                        }
                        Outcome::Value(Data::Empty)
                    },
                    _ => Outcome::Fault,
                },
                Outcome::Soft => Outcome::Fault,
                Outcome::Fault => Outcome::Fault,
                Outcome::OutOfFuel => Outcome::OutOfFuel,
            };
            proof {
                assert forall|rest: Console|
                    eval_name(fuel as nat, c0@ + rest, args_view(*args), label@, sv, old(self)@)
                        == out_of(r, self@, rest) by {
                    assert(eval(
                        fuel as nat,
                        c0@ + rest,
                        Seq::empty(),
                        args_view(*args)[0],
                        DataV::Empty,
                        old(self)@,
                    ) == out_of(r0, st1, rest));
                }
            }
            (r, c0)
        } else if str_eq(label, "load") {
            match stream {
                Data::Empty => {},
                _ => {
                    proof {
                        assert forall|rest: Console|
                            eval_name(fuel as nat, none + rest, args_view(*args), label@, sv, old(self)@)
                                == out_of(Outcome::Fault, self@, rest) by {}
                    }
                    return (Outcome::Fault, Ghost(none));
                },
            }
            if args.len() < 1 {
                proof {
                    assert forall|rest: Console|
                        eval_name(fuel as nat, none + rest, args_view(*args), label@, sv, old(self)@)
                            == out_of(Outcome::Fault, self@, rest) by {}
                }
                return (Outcome::Fault, Ghost(none));
            }
            let (r0, c0) = self.interpret_rec(fuel, &no_args, &args[0], Data::Empty);
            let ghost st1 = self@;
            proof {
                assert(args_view(*args)[0] == ast_view(args@[0]));
                assert(rec_post(
                    fuel as nat,
                    c0@,
                    Seq::empty(),
                    args_view(*args)[0],
                    DataV::Empty,
                    old(self)@,
                    st1,
                    r0,
                ));
            }
            let r = match r0 {
                Outcome::Value(d) => match d {
                    Data::Text(k) => match self.storage.get(k.as_str()) {
                        Some(v) => Outcome::Value(v.clone()),
                        None => Outcome::Soft,
                    },
                    _ => Outcome::Fault,
                },
                Outcome::Soft => Outcome::Fault,
                Outcome::Fault => Outcome::Fault,
                Outcome::OutOfFuel => Outcome::OutOfFuel,
            };
            proof {
                assert forall|rest: Console|
                    eval_name(fuel as nat, c0@ + rest, args_view(*args), label@, sv, old(self)@)
                        == out_of(r, self@, rest) by {
                    assert(eval(
                        fuel as nat,
                        c0@ + rest,
                        Seq::empty(),
                        args_view(*args)[0],
                        DataV::Empty,
                        old(self)@,
                    ) == out_of(r0, st1, rest));
                }
            }
            (r, c0)
        } else {
            let is_plus = str_eq(label, "+");
            let is_minus = str_eq(label, "-");
            let is_times = str_eq(label, "*");
            let is_rem = str_eq(label, "%");
            let is_cmp_eq = str_eq(label, "==");
            let is_cmp_ne = str_eq(label, "!=");
            let is_cmp_le = str_eq(label, "=<");
            let is_cmp_lt = str_eq(label, "<");
            if is_plus || is_minus || is_times || is_rem || is_cmp_eq || is_cmp_ne || is_cmp_le
                || is_cmp_lt {
                if args.len() < 1 {
                    proof {
                        assert forall|rest: Console|
                            eval_name(fuel as nat, none + rest, args_view(*args), label@, sv, old(self)@)
                                == out_of(Outcome::Fault, self@, rest) by {}
                    }
                    return (Outcome::Fault, Ghost(none));
                }
                let (r1, c1) = self.interpret_rec(fuel, &no_args, &args[0], Data::Empty);
                let ghost st1 = self@;
                proof {
                    assert(args_view(*args)[0] == ast_view(args@[0]));
                    assert(rec_post(
                        fuel as nat,
                        c1@,
                        Seq::empty(),
                        args_view(*args)[0],
                        DataV::Empty,
                        old(self)@,
                        st1,
                        r1,
                    ));
                }
                match r1 {
                    Outcome::Value(v1) => {
                        if args.len() < 2 {
                            proof {
                                assert forall|rest: Console|
                                    eval_name(
                                        fuel as nat,
                                        c1@ + rest,
                                        args_view(*args),
                                        label@,
                                        sv,
                                        old(self)@,
                                    ) == out_of(Outcome::Fault, self@, rest) by {
                                    assert(eval(
                                        fuel as nat,
                                        c1@ + rest,
                                        Seq::empty(),
                                        args_view(*args)[0],
                                        DataV::Empty,
                                        old(self)@,
                                    ) == out_of(r1, st1, rest));
                                }
                            }
                            return (Outcome::Fault, c1);
                        }
                        let (r2, c2) = self.interpret_rec(fuel, &no_args, &args[1], Data::Empty);
                        let ghost st2 = self@;
                        proof {
                            assert(args_view(*args)[1] == ast_view(args@[1]));
                            assert(rec_post(
                                fuel as nat,
                                c2@,
                                Seq::empty(),
                                args_view(*args)[1],
                                DataV::Empty,
                                st1,
                                st2,
                                r2,
                            ));
                        }
                        let r = match r2 {
                            Outcome::Value(v2) => match (v1, v2) {
                                (Data::Int(a), Data::Int(b)) => {
                                    proof {
                                        lemma_trunc_rem_in_range(a as int, b as int);
                                    }
                                    if is_plus {
                                        match a.checked_add(b) {
                                            Some(c) => Outcome::Value(Data::Int(c)),
                                            None => Outcome::Fault,
                                        }
                                    } else if is_minus {
                                        match a.checked_sub(b) {
                                            Some(c) => Outcome::Value(Data::Int(c)),
                                            None => Outcome::Fault,
                                        }
                                    } else if is_times {
                                        match a.checked_mul(b) {
                                            Some(c) => Outcome::Value(Data::Int(c)),
                                            None => Outcome::Fault,
                                        }
                                    } else if is_rem {
                                        match a.checked_rem(b) {
                                            Some(c) => Outcome::Value(Data::Int(c)),
                                            None => Outcome::Fault,
                                        }
                                    } else if is_cmp_eq {
                                        if a == b {
                                            Outcome::Value(Data::Empty)
                                        } else {
                                            Outcome::Soft
                                        }
                                    } else if is_cmp_ne {
                                        if a != b {
                                            Outcome::Value(Data::Empty)
                                        } else {
                                            Outcome::Soft
                                        }
                                    } else if is_cmp_le {
                                        if a <= b {
                                            Outcome::Value(Data::Empty)
                                        } else {
                                            Outcome::Soft
                                        }
                                    } else {
                                        if a < b {
                                            Outcome::Value(Data::Empty)
                                        } else {
                                            Outcome::Soft
                                        }
                                    }
                                },
                                _ => Outcome::Fault,
                            },
                            Outcome::Soft => Outcome::Soft,
                            Outcome::Fault => Outcome::Fault,
                            Outcome::OutOfFuel => Outcome::OutOfFuel,
                        };
                        proof {
                            assert forall|rest: Console|
                                eval_name(
                                    fuel as nat,
                                    (c1@ + c2@) + rest,
                                    args_view(*args),
                                    label@,
                                    sv,
                                    old(self)@,
                                ) == out_of(r, self@, rest) by {
                                assert((c1@ + c2@) + rest == c1@ + (c2@ + rest));
                                assert(eval(
                                    fuel as nat,
                                    c1@ + (c2@ + rest),
                                    Seq::empty(),
                                    args_view(*args)[0],
                                    DataV::Empty,
                                    old(self)@,
                                ) == out_of(r1, st1, c2@ + rest));
                                assert(eval(
                                    fuel as nat,
                                    c2@ + rest,
                                    Seq::empty(),
                                    args_view(*args)[1],
                                    DataV::Empty,
                                    st1,
                                ) == out_of(r2, st2, rest));
                            }
                        }
                        (r, Ghost(c1@ + c2@))
                    },
                    Outcome::Soft => {
                        proof {
                            assert forall|rest: Console|
                                eval_name(fuel as nat, c1@ + rest, args_view(*args), label@, sv, old(self)@)
                                    == out_of(Outcome::Soft, self@, rest) by {
                                assert(eval(
                                    fuel as nat,
                                    c1@ + rest,
                                    Seq::empty(),
                                    args_view(*args)[0],
                                    DataV::Empty,
                                    old(self)@,
                                ) == out_of(r1, st1, rest));
                            }
                        }
                        (Outcome::Soft, c1)
                    },
                    Outcome::Fault => {
                        proof {
                            assert forall|rest: Console|
                                eval_name(fuel as nat, c1@ + rest, args_view(*args), label@, sv, old(self)@)
                                    == out_of(Outcome::Fault, self@, rest) by {
                                assert(eval(
                                    fuel as nat,
                                    c1@ + rest,
                                    Seq::empty(),
                                    args_view(*args)[0],
                                    DataV::Empty,
                                    old(self)@,
                                ) == out_of(r1, st1, rest));
                            }
                        }
                        (Outcome::Fault, c1)
                    },
                    Outcome::OutOfFuel => {
                        proof {
                            assert forall|rest: Console|
                                eval_name(fuel as nat, c1@ + rest, args_view(*args), label@, sv, old(self)@)
                                    == out_of(Outcome::OutOfFuel, self@, rest) by {
                                assert(eval(
                                    fuel as nat,
                                    c1@ + rest,
                                    Seq::empty(),
                                    args_view(*args)[0],
                                    DataV::Empty,
                                    old(self)@,
                                ) == out_of(r1, st1, rest));
                            }
                        }
                        (Outcome::OutOfFuel, c1)
                    },
                }
            } else if str_eq(label, "loop") {
                if args.len() < 1 {
                    proof {
                        assert forall|rest: Console|
                            eval_name(fuel as nat, none + rest, args_view(*args), label@, sv, old(self)@)
                                == out_of(Outcome::Fault, self@, rest) by {}
                    }
                    return (Outcome::Fault, Ghost(none));
                }
                let (r, c) = self.run_loop(fuel, &args[0], stream);
                proof {
                    assert forall|rest: Console|
                        eval_name(fuel as nat, c@ + rest, args_view(*args), label@, sv, old(self)@)
                            == out_of(r, self@, rest) by {
                        assert(args_view(*args)[0] == ast_view(args@[0]));
                        assert(loop_run(
                            fuel as nat,
                            c@ + rest,
                            args_view(*args)[0],
                            sv,
                            old(self)@,
                        ) == out_of(r, self@, rest));
                    }
                }
                (r, c)
            } else if str_eq(label, "pass") {
                let r = Outcome::Value(stream);
                proof {
                    assert forall|rest: Console|
                        eval_name(fuel as nat, none + rest, args_view(*args), label@, sv, old(self)@)
                            == out_of(r, self@, rest) by {}
                }
                (r, Ghost(none))
            } else {
                proof {
                    assert forall|rest: Console|
                        eval_name(fuel as nat, none + rest, args_view(*args), label@, sv, old(self)@)
                            == out_of(Outcome::Fault, self@, rest) by {}
                }
                (Outcome::Fault, Ghost(none))
            }
        }
    }

    /// The repetition built-in: re-evaluates the body until an iteration
    /// soft-fails, feeding each produced value to the next iteration.
    fn run_loop(&mut self, fuel: u64, body: &Ast, stream: Data) -> (res: (Outcome, Ghost<Console>))
        ensures
            loop_post(
                fuel as nat,
                res.1@,
                ast_view(*body),
                stream@,
                old(self)@,
                final(self)@,
                res.0,
            ),
        decreases fuel, 1int,
    {
        let ghost sv = stream@;
        if fuel == 0 {
            return (Outcome::OutOfFuel, Ghost(Seq::empty()));
        }
        let f = fuel - 1;
        let no_args: Vec<Ast> = Vec::new();
        proof {
            assert(args_view(no_args) =~= Seq::<AstV>::empty());
        }
        let (r1, c1) = self.interpret_rec(f, &no_args, body, stream);
        let ghost st1 = self@;
        proof {
            assert(rec_post(
                f as nat,
                c1@,
                Seq::empty(),
                ast_view(*body),
                sv,
                old(self)@,
                st1,
                r1,
            ));
        }
        match &r1 {
            Outcome::Value(v) => {
                let vd = v.clone();
                let (r2, c2) = self.run_loop(f, body, vd);
                proof {
                    assert forall|rest: Console|
                        loop_run(fuel as nat, (c1@ + c2@) + rest, ast_view(*body), sv, old(self)@)
                            == out_of(r2, self@, rest) by {
                        assert((c1@ + c2@) + rest == c1@ + (c2@ + rest));
                        assert(eval(
                            f as nat,
                            c1@ + (c2@ + rest),
                            Seq::empty(),
                            ast_view(*body),
                            sv,
                            old(self)@,
                        ) == out_of(r1, st1, c2@ + rest));
                        assert(loop_run(f as nat, c2@ + rest, ast_view(*body), v@, st1)
                            == out_of(r2, self@, rest));
                    }
                }
                (r2, Ghost(c1@ + c2@))
            },
            Outcome::Soft => {
                proof {
                    assert forall|rest: Console|
                        loop_run(fuel as nat, c1@ + rest, ast_view(*body), sv, old(self)@)
                            == out_of(Outcome::Soft, self@, rest) by {
                        assert(eval(
                            f as nat,
                            c1@ + rest,
                            Seq::empty(),
                            ast_view(*body),
                            sv,
                            old(self)@,
                        ) == out_of(r1, st1, rest));
                    }
                }
                (Outcome::Soft, c1)
            },
            Outcome::Fault => {
                proof {
                    assert forall|rest: Console|
                        loop_run(fuel as nat, c1@ + rest, ast_view(*body), sv, old(self)@)
                            == out_of(Outcome::Fault, self@, rest) by {
                        assert(eval(
                            f as nat,
                            c1@ + rest,
                            Seq::empty(),
                            ast_view(*body),
                            sv,
                            old(self)@,
                        ) == out_of(r1, st1, rest));
                    }
                }
                (Outcome::Fault, c1)
            },
            Outcome::OutOfFuel => {
                proof {
                    assert forall|rest: Console|
                        loop_run(fuel as nat, c1@ + rest, ast_view(*body), sv, old(self)@)
                            == out_of(Outcome::OutOfFuel, self@, rest) by {
                        assert(eval(
                            f as nat,
                            c1@ + rest,
                            Seq::empty(),
                            ast_view(*body),
                            sv,
                            old(self)@,
                        ) == out_of(r1, st1, rest));
                    }
                }
                (Outcome::OutOfFuel, c1)
            },
        }
    }
}

/// The truncated remainder of two 64-bit values fits in 64 bits.
proof fn lemma_trunc_rem_in_range(a: int, b: int)
    requires
        i64::MIN <= a <= i64::MAX,
        i64::MIN <= b <= i64::MAX,
    ensures
        !(b == 0 || (a == i64::MIN && b == -1)) ==> i64::MIN <= trunc_rem(a, b) <= i64::MAX,
{
    if b == 0 || (a == i64::MIN && b == -1) {
    } else if a == 0 {
    } else if a > 0 && b > 0 {
        assert(0 <= a % b < b);
    } else if a < 0 && b < 0 {
        assert(0 <= (a * -1) % (b * -1) < (b * -1));
    } else if a < 0 {
        assert(0 <= (a * -1) % b < b);
    } else {
        assert(0 <= a % (b * -1) < (b * -1));
    }
}

} // verus!
