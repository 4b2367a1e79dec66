use hilang::adapter::parse_ast;
use hilang::ast::Ast;

fn name(s: &str) -> Box<Ast> {
    Box::new(Ast::Name(s.to_string()))
}

#[test]
fn test_parse_1() {
    assert_eq!(parse_ast("{aaa ->bbb }"), Err(()));
}

#[test]
fn test_parse_2() {
    assert_eq!(
        parse_ast("(aaa ->bbb )"),
        Ok(Ast::Scope(Box::new(Ast::Sequence(name("aaa"), name("bbb")))))
    );
}

#[test]
fn test_parse_3() {
    assert_eq!(
        parse_ast("{inst1 -> inst2 -> {inst4 <- inst3} -> inst5}"),
        Err(())
    );
}

#[test]
fn test_parse_4() {
    assert_eq!(
        parse_ast("inst1 -> inst2 -> (inst4 <- inst3) -> inst5"),
        Ok(Ast::Sequence(
            Box::new(Ast::Sequence(
                Box::new(Ast::Sequence(name("inst1"), name("inst2"))),
                Box::new(Ast::Scope(Box::new(Ast::Sequence(
                    name("inst3"),
                    name("inst4")
                ))))
            )),
            name("inst5")
        ))
    );
}

#[test]
fn test_parse_5() {
    assert_eq!(
        parse_ast("{a=(P -> Q), b={c=(R -> {S <- T}), d={U <- V}}}"),
        Err(())
    );
}

#[test]
fn test_parse_6() {
    assert_eq!(
        parse_ast("(a -> b | c -> d)"),
        Ok(Ast::Scope(Box::new(Ast::Alternative(
            Box::new(Ast::Sequence(name("a"), name("b"))),
            Box::new(Ast::Sequence(name("c"), name("d")))
        ))))
    );
}

#[test]
fn test_parse_7() {
    assert_eq!(
        parse_ast("((P -> Q)<-(R -> S)).a"),
        Ok(Ast::Call(
            vec![Ast::Scope(Box::new(Ast::Sequence(
                Box::new(Ast::Scope(Box::new(Ast::Sequence(name("R"), name("S"))))),
                Box::new(Ast::Scope(Box::new(Ast::Sequence(name("P"), name("Q")))))
            )))],
            name("a")
        ))
    );
}

#[test]
fn test_parse_8() {
    assert_eq!(
        parse_ast(r#"("3".int -> push -> "2".int -> push -> add -> pop -> "i".write)"#),
        Ok(Ast::Scope(Box::new(Ast::Sequence(
            Box::new(Ast::Sequence(
                Box::new(Ast::Sequence(
                    Box::new(Ast::Sequence(
                        Box::new(Ast::Sequence(
                            Box::new(Ast::Sequence(
                                Box::new(Ast::Call(
                                    vec![Ast::Text("3".to_string())],
                                    name("int")
                                )),
                                name("push")
                            )),
                            Box::new(Ast::Call(vec![Ast::Text("2".to_string())], name("int")))
                        )),
                        name("push")
                    )),
                    name("add")
                )),
                name("pop")
            )),
            Box::new(Ast::Call(vec![Ast::Text("i".to_string())], name("write")))
        ))))
    );
}

#[test]
fn test_parse_9() {
    assert_eq!(parse_ast("#"), Err(()));
}

#[test]
fn test_parse_10() {
    assert_eq!(parse_ast(r"\abc"), Ok(Ast::VarRef("abc".to_string())));
}
