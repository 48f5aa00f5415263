use cyphr::bolt::Value;
use cyphr::macros::cypher_query;
use cyphr::macros::cypher::Piece;
use cyphr::macros::cypher_query::Token;
use cyphr::query::CyphrQuery;

fn code(s: &str) -> Vec<Piece> {
    vec![Piece::Code(s.to_string())]
}

fn ident(s: &str) -> Token {
    Token::Ident(s.to_string())
}

fn punct(c: char) -> Token {
    Token::Punct(c)
}

#[test]
fn test_cypher_query_with_params() {
    let name = "Alice";
    let age: i64 = 30;
    // MATCH (u:User {name: $name, age: $age}) RETURN u
    let tokens = vec![
        ident("MATCH"),
        Token::Group(vec![
            ident("u"),
            punct(':'),
            ident("User"),
            Token::Group(vec![
                ident("name"),
                punct(':'),
                punct('$'),
                ident("name"),
                punct(','),
                ident("age"),
                punct(':'),
                punct('$'),
                ident("age"),
            ]),
        ]),
        ident("RETURN"),
        ident("u"),
    ];
    let plan = cypher_query(&code("MATCH (u : User { name : $ name , age : $ age }) RETURN u"), &tokens);
    assert_eq!(plan.text, "MATCH (u:User {name:$name, age:$age}) RETURN u");
    assert_eq!(plan.params, vec!["name".to_string(), "age".to_string()]);
    let _q = CyphrQuery::new(&plan.text).param("name", name).param("age", age);
    let (text, params) = _q.into_parts();
    assert_eq!(text, plan.text);
    assert_eq!(params.len(), 2);
    assert!(matches!(params.get("name"), Some(Value::String(s)) if s == "Alice"));
    assert!(matches!(params.get("age"), Some(Value::Integer(30))));
}

#[test]
fn test_cypher_query_no_params() {
    // MATCH (u:User) RETURN u
    let tokens = vec![
        ident("MATCH"),
        Token::Group(vec![ident("u"), punct(':'), ident("User")]),
        ident("RETURN"),
        ident("u"),
    ];
    let plan = cypher_query(&code("MATCH (u : User) RETURN u"), &tokens);
    assert_eq!(plan.text, "MATCH (u:User) RETURN u");
    assert!(plan.params.is_empty());
    let _q = CyphrQuery::new(&plan.text);
    assert_eq!(_q.text(), "MATCH (u:User) RETURN u");
}

#[test]
fn test_cypher_query_dedup_params() {
    let name = "Alice";
    // $name appears twice but should only generate one .param() call
    // MATCH (u:User {name: $name}) WHERE u.name = $name RETURN u
    let tokens = vec![
        ident("MATCH"),
        Token::Group(vec![
            ident("u"),
            punct(':'),
            ident("User"),
            Token::Group(vec![ident("name"), punct(':'), punct('$'), ident("name")]),
        ]),
        ident("WHERE"),
        ident("u"),
        punct('.'),
        ident("name"),
        punct('='),
        punct('$'),
        ident("name"),
        ident("RETURN"),
        ident("u"),
    ];
    let plan = cypher_query(
        &code("MATCH (u : User { name : $ name }) WHERE u . name = $ name RETURN u"),
        &tokens,
    );
    assert_eq!(plan.params, vec!["name".to_string()]);
    assert_eq!(plan.text, "MATCH (u:User {name:$name}) WHERE u . name = $name RETURN u");
    let _q = CyphrQuery::new(&plan.text).param("name", name);
    let (_, params) = _q.into_parts();
    assert_eq!(params.len(), 1);
}

#[test]
fn dollar_without_identifier_names_nothing() {
    let tokens = vec![punct('$'), Token::Literal("1".to_string()), punct('$')];
    let plan = cypher_query(
        &vec![
            Piece::Code("$ ".to_string()),
            Piece::Literal("1".to_string()),
            Piece::Code(" $".to_string()),
        ],
        &tokens,
    );
    assert!(plan.params.is_empty());
    assert_eq!(plan.text, "$1 $");
}

#[test]
fn params_keep_order_of_first_use_across_groups() {
    let tokens = vec![
        Token::Group(vec![punct('$'), ident("b")]),
        punct('$'),
        ident("a"),
        Token::Group(vec![Token::Group(vec![punct('$'), ident("b"), punct('$'), ident("c")])]),
    ];
    let plan = cypher_query(&code("($ b) $ a (($ b $ c))"), &tokens);
    assert_eq!(plan.params, vec!["b".to_string(), "a".to_string(), "c".to_string()]);
    assert_eq!(plan.text, "($b) $a (($b $c))");
}

#[test]
fn rebinding_a_parameter_replaces_its_value() {
    let q = CyphrQuery::new("RETURN $x").param("x", 1i64).param("y", true).param("x", 2i64);
    let (_, params) = q.into_parts();
    assert_eq!(params.len(), 2);
    let keys: Vec<&str> = params.entries().iter().map(|(k, _)| k.as_str()).collect();
    assert_eq!(keys, vec!["x", "y"]);
    assert!(matches!(params.get("x"), Some(Value::Integer(2))));
    assert!(matches!(params.get("y"), Some(Value::Boolean(true))));
}

#[test]
fn query_text_without_params_matches_cypher_text() {
    let text = "MATCH ( a : A ) -[ r : R ]-> ( b ) RETURN a , b";
    let plan = cypher_query(&code(text), &vec![]);
    assert_eq!(plan.text, cyphr::macros::cypher(&code(text)));
    assert_eq!(plan.text, "MATCH (a:A) -[r:R]-> (b) RETURN a, b");
}

#[test]
fn string_literals_are_kept_as_written() {
    // RETURN "a : b" , $ x
    let pieces = vec![
        Piece::Code("RETURN ".to_string()),
        Piece::Literal("\"a : b\"".to_string()),
        Piece::Code(" , $ x".to_string()),
    ];
    let tokens = vec![
        ident("RETURN"),
        Token::Literal("\"a : b\"".to_string()),
        punct(','),
        punct('$'),
        ident("x"),
    ];
    let plan = cypher_query(&pieces, &tokens);
    assert_eq!(plan.text, "RETURN \"a : b\", $x");
    assert_eq!(plan.params, vec!["x".to_string()]);
    let text = cyphr::macros::cypher(&vec![
        Piece::Code("RETURN ".to_string()),
        Piece::Literal("\"a : b\"".to_string()),
    ]);
    assert_eq!(text, "RETURN \"a : b\"");
}
