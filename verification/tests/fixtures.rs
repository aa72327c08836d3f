use berd_lexer::lexer::{lex, Input};

fn fixture(name: &str) -> String {
    let text = match name {
        "1.berd" => "fun greet(name) => { return name } !\n",
        "1.ans" => {
            "FunctionDeclaration\nIdentifier(greet)\nLparen\nIdentifier(name)\nRparen\nArrow\n\
             Lbrace\nReturn\nIdentifier(name)\nRbrace\nEol\n"
        }
        "2.berd" => {
            "f main(Int x, String s) => {\n    \"hello world\", 42 ; true maybe Bool\n} ?\n"
        }
        "2.ans" => {
            "FunctionDeclaration\nIdentifier(main)\nLparen\nPrimitive(Int)\nIdentifier(x)\nComma\n\
             Primitive(String)\nIdentifier(s)\nRparen\nArrow\nLbrace\n\
             StringLiteral(\"hello world\")\nComma\nIntLiteral(42)\nNot\nBoolLiteral(true)\n\
             BoolLiteral(maybe)\nPrimitive(Bool)\nRbrace\nEolDebug\n"
        }
        "3.berd" => "x = 1\n",
        "3.ans" => "<error(UnterminatedLine)>\n",
        _ => unreachable!(),
    };
    text.to_string()
}

fn test(input: String, expected: String) {
    let result = lex(Input::of(input));

    if expected.starts_with("<error(") {
        let error = &expected["<error(".len()..expected.len() - ")>\n".len()];

        assert!(result.is_err());
        let err = result.err().unwrap();
        assert_eq!(&err.name(), error);

        return;
    }

    let tokens = result.unwrap();

    for (idx, token) in tokens.iter().enumerate() {
        let line = expected.lines().nth(idx);
        assert!(line.is_some());

        let line = line.unwrap();
        let actual = token.render();

        assert_eq!(line, actual);
    }
}

#[test]
fn test_1() {
    test(fixture("1.berd"), fixture("1.ans"))
}

#[test]
fn test_2() {
    test(fixture("2.berd"), fixture("2.ans"))
}

#[test]
fn test_3() {
    test(fixture("3.berd"), fixture("3.ans"))
}
