use hilang::adapter::parse_ast;
use hilang::interp::Interpreter;
use hilang::value::{Data, Outcome};

const FUEL: u64 = 1_000_000;

fn run_in(program: &str, stream: Data, interpreter: &mut Interpreter) -> Outcome {
    let ast = parse_ast(program).unwrap();
    interpreter.interpret(FUEL, &Vec::new(), &ast, stream)
}

fn run(program: &str, stream: Data) -> Outcome {
    run_in(program, stream, &mut Interpreter::new())
}

#[test]
fn test_interpreter_1() {
    let program = r#"("3" -> int) + "a".load -> "b".store -> "b".load"#;
    let mut interpreter = Interpreter::new();
    interpreter.store_insert("a".to_string(), Data::Int(5));
    let r = run_in(program, Data::Empty, &mut interpreter);
    assert_eq!(r, Outcome::Value(Data::Int(8)));
    assert_eq!(interpreter.store_len(), 2);
    assert_eq!(interpreter.store_get("a"), Some(&Data::Int(5)));
    assert_eq!(interpreter.store_get("b"), Some(&Data::Int(8)));
}

#[test]
fn test_interpreter_2() {
    let program = r#""x".store;
"1" -> int -> "i".store;
"0" -> int -> "r".store;
(
    "i".load =< "x".load;
    "2" -> int -> "j".store;
    (
        "j".load < "i".load -> ("i".load % "j".load) != ("0" -> int);
        "j".load + ("1" -> int) -> "j".store
    ).loop | pass;
    "j".load == "i".load -> "r".load + "i".load -> "r".store
        | pass;
    "i".load + ("1" -> int) -> "i".store
).loop | pass;
"r".load"#;
    assert_eq!(run(program, Data::Int(30)), Outcome::Value(Data::Int(129)));
}

#[test]
fn arithmetic_builtins_compute_exact_values() {
    assert_eq!(
        run(r#"("2" -> int) + ("3" -> int)"#, Data::Empty),
        Outcome::Value(Data::Int(5))
    );
    assert_eq!(
        run(r#"("2" -> int) - ("5" -> int)"#, Data::Empty),
        Outcome::Value(Data::Int(-3))
    );
    assert_eq!(
        run(r#"("6" -> int) * ("7" -> int)"#, Data::Empty),
        Outcome::Value(Data::Int(42))
    );
    assert_eq!(
        run(r#"("7" -> int) % ("3" -> int)"#, Data::Empty),
        Outcome::Value(Data::Int(1))
    );
}

#[test]
fn remainder_truncates_toward_zero() {
    assert_eq!(
        run(r#"("-7" -> int) % ("3" -> int)"#, Data::Empty),
        Outcome::Value(Data::Int(-1))
    );
}

#[test]
fn remainder_by_zero_is_a_fault() {
    assert_eq!(run(r#"("1" -> int) % ("0" -> int)"#, Data::Empty), Outcome::Fault);
}

#[test]
fn addition_overflow_is_a_fault() {
    assert_eq!(
        run(
            r#"("9223372036854775807" -> int) + ("1" -> int)"#,
            Data::Empty
        ),
        Outcome::Fault
    );
}

#[test]
fn comparisons_succeed_with_empty_exactly_when_true() {
    assert_eq!(
        run(r#"("2" -> int) == ("2" -> int)"#, Data::Empty),
        Outcome::Value(Data::Empty)
    );
    assert_eq!(run(r#"("2" -> int) == ("3" -> int)"#, Data::Empty), Outcome::Soft);
    assert_eq!(
        run(r#"("2" -> int) != ("3" -> int)"#, Data::Empty),
        Outcome::Value(Data::Empty)
    );
    assert_eq!(run(r#"("2" -> int) != ("2" -> int)"#, Data::Empty), Outcome::Soft);
    assert_eq!(
        run(r#"("2" -> int) =< ("2" -> int)"#, Data::Empty),
        Outcome::Value(Data::Empty)
    );
    assert_eq!(run(r#"("3" -> int) =< ("2" -> int)"#, Data::Empty), Outcome::Soft);
    assert_eq!(
        run(r#"("2" -> int) < ("3" -> int)"#, Data::Empty),
        Outcome::Value(Data::Empty)
    );
    assert_eq!(run(r#"("2" -> int) < ("2" -> int)"#, Data::Empty), Outcome::Soft);
}

#[test]
fn comparison_on_text_operand_is_a_fault() {
    assert_eq!(run(r#""a" == ("2" -> int)"#, Data::Empty), Outcome::Fault);
}

#[test]
fn store_then_load_round_trips() {
    let mut interpreter = Interpreter::new();
    let r = run_in(r#"("9" -> int) -> "k".store -> "k".load"#, Data::Empty, &mut interpreter);
    assert_eq!(r, Outcome::Value(Data::Int(9)));
    assert_eq!(interpreter.store_get("k"), Some(&Data::Int(9)));
}

#[test]
fn store_overwrites_existing_key() {
    let r = run(
        r#"("1" -> int) -> "k".store -> ("2" -> int) -> "k".store -> "k".load"#,
        Data::Empty,
    );
    assert_eq!(r, Outcome::Value(Data::Int(2)));
}

#[test]
fn load_on_absent_key_soft_fails() {
    assert_eq!(run(r#""missing".load"#, Data::Empty), Outcome::Soft);
}

#[test]
fn store_key_must_be_text() {
    assert_eq!(run(r#"("1" -> int).store"#, Data::Empty), Outcome::Fault);
}

#[test]
fn alternative_keeps_store_mutations_of_failed_branch() {
    let mut interpreter = Interpreter::new();
    let r = run_in(r#"("1" -> int) -> "k".store -> "q".load | pass"#, Data::Empty, &mut interpreter);
    assert_eq!(r, Outcome::Value(Data::Empty));
    assert_eq!(interpreter.store_get("k"), Some(&Data::Int(1)));
}

#[test]
fn alternative_does_not_catch_faults() {
    assert_eq!(run(r#"\x | pass"#, Data::Int(1)), Outcome::Fault);
}

#[test]
fn loop_always_soft_fails_and_pass_restores_stream() {
    assert_eq!(
        run(r#"(("1" -> int) == ("2" -> int)).loop"#, Data::Int(7)),
        Outcome::Soft
    );
    assert_eq!(
        run(r#"(("1" -> int) == ("2" -> int)).loop | pass"#, Data::Int(7)),
        Outcome::Value(Data::Int(7))
    );
}

#[test]
fn nonterminating_loop_exhausts_fuel() {
    let ast = parse_ast("(pass).loop").unwrap();
    let mut interpreter = Interpreter::new();
    let r = interpreter.interpret(1000, &Vec::new(), &ast, Data::Empty);
    assert_eq!(r, Outcome::OutOfFuel);
}

#[test]
fn zero_fuel_reports_out_of_fuel() {
    let ast = parse_ast("pass").unwrap();
    let mut interpreter = Interpreter::new();
    let r = interpreter.interpret(0, &Vec::new(), &ast, Data::Empty);
    assert_eq!(r, Outcome::OutOfFuel);
}

#[test]
fn int_passes_integers_and_parses_text() {
    assert_eq!(run(r#""41" -> int"#, Data::Empty), Outcome::Value(Data::Int(41)));
    assert_eq!(run("int", Data::Int(3)), Outcome::Value(Data::Int(3)));
    assert_eq!(run(r#""4x1" -> int"#, Data::Empty), Outcome::Soft);
    assert_eq!(run("int", Data::Empty), Outcome::Fault);
}

#[test]
fn str_renders_integers_to_decimal_text() {
    assert_eq!(
        run("str", Data::Int(12)),
        Outcome::Value(Data::Text("12".to_string()))
    );
    assert_eq!(
        run("str", Data::Int(-305)),
        Outcome::Value(Data::Text("-305".to_string()))
    );
    assert_eq!(
        run("str", Data::Text("ab".to_string())),
        Outcome::Value(Data::Text("ab".to_string()))
    );
    assert_eq!(run("str", Data::Empty), Outcome::Fault);
}

#[test]
fn text_literal_requires_empty_stream_and_no_operands() {
    assert_eq!(
        run(r#""a""#, Data::Empty),
        Outcome::Value(Data::Text("a".to_string()))
    );
    assert_eq!(run(r#""a" -> "b""#, Data::Empty), Outcome::Fault);
}

#[test]
fn interpret_literal_checks_stream_and_operands() {
    let mut interpreter = Interpreter::new();
    assert_eq!(
        interpreter.interpret_literal(&Vec::new(), "hi", Data::Empty),
        Outcome::Value(Data::Text("hi".to_string()))
    );
    assert_eq!(
        interpreter.interpret_literal(&Vec::new(), "hi", Data::Int(1)),
        Outcome::Fault
    );
}

#[test]
fn output_consumes_the_stream_and_returns_empty() {
    assert_eq!(
        run(r#"("5" -> int) -> output"#, Data::Empty),
        Outcome::Value(Data::Empty)
    );
    assert_eq!(run("output", Data::Empty), Outcome::Fault);
}

#[test]
fn unknown_name_is_a_fault() {
    assert_eq!(run("frobnicate", Data::Empty), Outcome::Fault);
}

#[test]
fn variable_reference_is_a_fault() {
    assert_eq!(run(r#"\abc"#, Data::Empty), Outcome::Fault);
}

#[test]
fn pass_is_the_identity() {
    assert_eq!(run("pass", Data::Int(9)), Outcome::Value(Data::Int(9)));
    assert_eq!(run("pass", Data::Empty), Outcome::Value(Data::Empty));
}

#[test]
fn sequence_short_circuits_on_soft_failure() {
    assert_eq!(run(r#""missing".load -> \x"#, Data::Empty), Outcome::Soft);
}
