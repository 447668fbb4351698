use latticefs::error::LatticeError;
use latticefs::model::state::State;
use latticefs::query::ast::{
    CompareOp, Expr, MimePattern, ObjectRef, OrderBy, Predicate, Query, SortDirection, SortField, TimeField, TimeOp,
    TimeValue, TrustLevel,
};
use latticefs::query::explain::{Explanation, Reason};
use latticefs::query::lexer::{Lexer, Token};
use latticefs::query::parser::{parse, Parser};
use latticefs::model::object::ObjectID;

// ---- AST ----

#[test]
fn test_mime_pattern_exact_match() {
    let pattern = MimePattern::new("application", Some("pdf"));
    assert!(pattern.matches("application/pdf"));
    assert!(!pattern.matches("application/json"));
    assert!(!pattern.matches("image/pdf"));
}

#[test]
fn test_mime_pattern_wildcard() {
    let pattern = MimePattern::new("image", None);
    assert!(pattern.matches("image/png"));
    assert!(pattern.matches("image/jpeg"));
    assert!(pattern.matches("image/gif"));
    assert!(!pattern.matches("application/pdf"));
}

#[test]
fn test_mime_pattern_star_minor() {
    let pattern = MimePattern::new("text", Some("*"));
    assert!(pattern.matches("text/plain"));
    assert!(pattern.matches("text/html"));
    assert!(!pattern.matches("image/png"));
}

#[test]
fn test_trust_level_ordering() {
    assert!(TrustLevel::Approved > TrustLevel::Trusted);
    assert!(TrustLevel::Trusted > TrustLevel::Quarantined);
    assert!(TrustLevel::Quarantined > TrustLevel::Untrusted);
}

#[test]
fn test_trust_level_values() {
    assert_eq!(TrustLevel::Untrusted.value(), 0);
    assert_eq!(TrustLevel::Quarantined.value(), 25);
    assert_eq!(TrustLevel::Trusted.value(), 75);
    assert_eq!(TrustLevel::Approved.value(), 100);
    assert_eq!(TrustLevel::Numeric(50).value(), 50);
}

#[test]
fn test_query_builder() {
    let query = Query::new(Expr::predicate(Predicate::tag(vec!["project".to_string(), "phoenix".to_string()])))
        .with_order(OrderBy::new(SortField::Updated, SortDirection::Desc))
        .with_limit(10);

    assert!(query.order.is_some());
    assert_eq!(query.limit, Some(10));
}

#[test]
fn test_expr_combinators() {
    let tag = Expr::predicate(Predicate::tag(vec!["project".to_string()]));
    let state = Expr::predicate(Predicate::state(State::Approved));

    let combined = Expr::and(tag, Expr::not(state));

    match combined {
        Expr::And(left, right) => {
            assert!(matches!(*left, Expr::Predicate(Predicate::Tag { .. })));
            assert!(matches!(*right, Expr::Not(_)));
        }
        _ => panic!("Expected And expression"),
    }
}

#[test]
fn mime_pattern_any_major() {
    let pattern = MimePattern::new("*", None);
    assert!(pattern.matches("image/png"));
    assert!(pattern.matches("application/pdf"));
}

// ---- Lexer ----

#[test]
fn test_simple_tokens() {
    let mut lexer = Lexer::new("tag:project:phoenix");
    assert_eq!(lexer.next_token().unwrap(), Token::Tag);
    assert_eq!(lexer.next_token().unwrap(), Token::Colon);
    assert_eq!(lexer.next_token().unwrap(), Token::Identifier("project".to_string()));
    assert_eq!(lexer.next_token().unwrap(), Token::Colon);
    assert_eq!(lexer.next_token().unwrap(), Token::Identifier("phoenix".to_string()));
    assert_eq!(lexer.next_token().unwrap(), Token::Eof);
}

#[test]
fn test_boolean_keywords() {
    let mut lexer = Lexer::new("AND OR NOT");
    assert_eq!(lexer.next_token().unwrap(), Token::And);
    assert_eq!(lexer.next_token().unwrap(), Token::Or);
    assert_eq!(lexer.next_token().unwrap(), Token::Not);
}

#[test]
fn test_case_insensitive_keywords() {
    let mut lexer = Lexer::new("and AND And");
    assert_eq!(lexer.next_token().unwrap(), Token::And);
    assert_eq!(lexer.next_token().unwrap(), Token::And);
    assert_eq!(lexer.next_token().unwrap(), Token::And);
}

#[test]
fn test_comparison_operators() {
    let mut lexer = Lexer::new("= != > < >= <=");
    assert_eq!(lexer.next_token().unwrap(), Token::Eq);
    assert_eq!(lexer.next_token().unwrap(), Token::Ne);
    assert_eq!(lexer.next_token().unwrap(), Token::Gt);
    assert_eq!(lexer.next_token().unwrap(), Token::Lt);
    assert_eq!(lexer.next_token().unwrap(), Token::Ge);
    assert_eq!(lexer.next_token().unwrap(), Token::Le);
}

#[test]
fn test_duration() {
    let mut lexer = Lexer::new("7d 24h 30m 60s 2w 1y");
    assert_eq!(lexer.next_token().unwrap(), Token::Duration(7 * 86400));
    assert_eq!(lexer.next_token().unwrap(), Token::Duration(24 * 3600));
    assert_eq!(lexer.next_token().unwrap(), Token::Duration(30 * 60));
    assert_eq!(lexer.next_token().unwrap(), Token::Duration(60));
    assert_eq!(lexer.next_token().unwrap(), Token::Duration(2 * 604800));
    assert_eq!(lexer.next_token().unwrap(), Token::Duration(31536000));
}

#[test]
fn test_number() {
    let mut lexer = Lexer::new("123 456");
    assert_eq!(lexer.next_token().unwrap(), Token::Number(123));
    assert_eq!(lexer.next_token().unwrap(), Token::Number(456));
}

#[test]
fn test_timestamp() {
    let mut lexer = Lexer::new("2025-01-15 2025-01-15T10:30:00Z");
    assert_eq!(lexer.next_token().unwrap(), Token::Timestamp("2025-01-15".to_string()));
    assert_eq!(lexer.next_token().unwrap(), Token::Timestamp("2025-01-15T10:30:00Z".to_string()));
}

#[test]
fn test_string() {
    let mut lexer = Lexer::new("\"hello world\"");
    assert_eq!(lexer.next_token().unwrap(), Token::String("hello world".to_string()));
}

#[test]
fn test_string_escapes() {
    let mut lexer = Lexer::new("\"hello\\nworld\\t!\"");
    assert_eq!(lexer.next_token().unwrap(), Token::String("hello\nworld\t!".to_string()));
}

#[test]
fn test_mime_type() {
    let mut lexer = Lexer::new("type:application/pdf");
    assert_eq!(lexer.next_token().unwrap(), Token::Type);
    assert_eq!(lexer.next_token().unwrap(), Token::Colon);
    assert_eq!(lexer.next_token().unwrap(), Token::Identifier("application".to_string()));
    assert_eq!(lexer.next_token().unwrap(), Token::Slash);
    assert_eq!(lexer.next_token().unwrap(), Token::Identifier("pdf".to_string()));
}

#[test]
fn test_wildcard_mime() {
    let mut lexer = Lexer::new("type:image/*");
    assert_eq!(lexer.next_token().unwrap(), Token::Type);
    assert_eq!(lexer.next_token().unwrap(), Token::Colon);
    assert_eq!(lexer.next_token().unwrap(), Token::Identifier("image".to_string()));
    assert_eq!(lexer.next_token().unwrap(), Token::Slash);
    assert_eq!(lexer.next_token().unwrap(), Token::Star);
}

#[test]
fn test_comment() {
    let mut lexer = Lexer::new("tag:foo # this is a comment\ntag:bar");
    assert_eq!(lexer.next_token().unwrap(), Token::Tag);
    assert_eq!(lexer.next_token().unwrap(), Token::Colon);
    assert_eq!(lexer.next_token().unwrap(), Token::Identifier("foo".to_string()));
    assert_eq!(lexer.next_token().unwrap(), Token::Tag);
}

#[test]
fn test_complex_query() {
    let mut lexer = Lexer::new(
        "tag:project:phoenix AND type:application/pdf AND updated within 7d SORT updated DESC LIMIT 10",
    );
    let tokens = lexer.tokenize().unwrap();
    assert_eq!(tokens.len(), 20);
    assert_eq!(tokens[0], Token::Tag);
    assert_eq!(tokens[5], Token::And);
    assert_eq!(tokens[11], Token::And);
}

#[test]
fn lexer_test_parentheses() {
    let mut lexer = Lexer::new("(tag:a OR tag:b) AND tag:c");
    assert_eq!(lexer.next_token().unwrap(), Token::LParen);
    assert_eq!(lexer.next_token().unwrap(), Token::Tag);
    let tokens = lexer.tokenize().unwrap();
    assert!(tokens.contains(&Token::RParen));
}

#[test]
fn lexer_test_trust_predicate() {
    let mut lexer = Lexer::new("trust >= trusted");
    assert_eq!(lexer.next_token().unwrap(), Token::Trust);
    assert_eq!(lexer.next_token().unwrap(), Token::Ge);
    assert_eq!(lexer.next_token().unwrap(), Token::Trusted);
}

#[test]
fn lexer_test_state_predicate() {
    let mut lexer = Lexer::new("state:approved");
    assert_eq!(lexer.next_token().unwrap(), Token::State);
    assert_eq!(lexer.next_token().unwrap(), Token::Colon);
    assert_eq!(lexer.next_token().unwrap(), Token::Approved);
}

#[test]
fn test_unterminated_string() {
    let mut lexer = Lexer::new("\"unterminated");
    let result = lexer.next_token();
    assert!(result.is_err());
}

#[test]
fn lexer_error_positions() {
    let mut lexer = Lexer::new("tag $");
    assert_eq!(lexer.next_token().unwrap(), Token::Tag);
    match lexer.next_token() {
        Err(LatticeError::ParseError { position, .. }) => assert_eq!(position, 4),
        other => panic!("expected a parse error, got {:?}", other),
    }
    let mut lexer = Lexer::new("!x");
    match lexer.next_token() {
        Err(LatticeError::ParseError { position, .. }) => assert_eq!(position, 1),
        other => panic!("expected a parse error, got {:?}", other),
    }
}

#[test]
fn lexer_peek_keeps_position() {
    let mut lexer = Lexer::new("tag:a");
    assert_eq!(lexer.peek_token().unwrap(), Token::Tag);
    assert_eq!(lexer.position(), 0);
    assert_eq!(lexer.next_token().unwrap(), Token::Tag);
    assert_eq!(lexer.position(), 3);
}

// ---- Parser ----

#[test]
fn test_simple_tag() {
    let query = parse("tag:project:phoenix").unwrap();
    match query.expr {
        Expr::Predicate(Predicate::Tag { path }) => assert_eq!(path, vec!["project", "phoenix"]),
        _ => panic!("Expected tag predicate"),
    }
}

#[test]
fn test_tag_with_slash_value() {
    let query = parse("tag:auto:mimetype:image/jpeg").unwrap();
    match query.expr {
        Expr::Predicate(Predicate::Tag { path }) => assert_eq!(path, vec!["auto", "mimetype", "image/jpeg"]),
        _ => panic!("Expected tag predicate"),
    }
}

#[test]
fn test_tag_with_wildcard_value() {
    let query = parse("tag:auto:mimetype:image/*").unwrap();
    match query.expr {
        Expr::Predicate(Predicate::Tag { path }) => assert_eq!(path, vec!["auto", "mimetype", "image/*"]),
        _ => panic!("Expected tag predicate"),
    }
}

#[test]
fn test_tag_with_wildcard_major_minor() {
    let query = parse("tag:auto:mimetype:*/*").unwrap();
    match query.expr {
        Expr::Predicate(Predicate::Tag { path }) => assert_eq!(path, vec!["auto", "mimetype", "*/*"]),
        _ => panic!("Expected tag predicate"),
    }
}

#[test]
fn test_type_predicate() {
    let query = parse("type:application/pdf").unwrap();
    match query.expr {
        Expr::Predicate(Predicate::Type { mime }) => {
            assert_eq!(mime.major, "application");
            assert_eq!(mime.minor, Some("pdf".to_string()));
        }
        _ => panic!("Expected type predicate"),
    }
}

#[test]
fn test_type_wildcard() {
    let query = parse("type:image/*").unwrap();
    match query.expr {
        Expr::Predicate(Predicate::Type { mime }) => {
            assert_eq!(mime.major, "image");
            assert_eq!(mime.minor, None);
        }
        _ => panic!("Expected type predicate"),
    }
}

#[test]
fn parser_test_state_predicate() {
    let query = parse("state:approved").unwrap();
    match query.expr {
        Expr::Predicate(Predicate::State { state }) => assert_eq!(state, State::Approved),
        _ => panic!("Expected state predicate"),
    }
}

#[test]
fn parser_test_trust_predicate() {
    let query = parse("trust >= trusted").unwrap();
    match query.expr {
        Expr::Predicate(Predicate::Trust { op, level }) => {
            assert_eq!(op, CompareOp::Ge);
            assert_eq!(level, TrustLevel::Trusted);
        }
        _ => panic!("Expected trust predicate"),
    }
}

#[test]
fn test_time_predicate() {
    let query = parse("updated within 7d").unwrap();
    match query.expr {
        Expr::Predicate(Predicate::Time { field, op, value }) => {
            assert_eq!(field, TimeField::Updated);
            assert_eq!(op, TimeOp::Within);
            assert_eq!(value, TimeValue::Duration(7 * 86400));
        }
        _ => panic!("Expected time predicate"),
    }
}

#[test]
fn test_and_expression() {
    let query = parse("tag:project AND type:application/pdf").unwrap();
    match query.expr {
        Expr::And(left, right) => {
            assert!(matches!(*left, Expr::Predicate(Predicate::Tag { .. })));
            assert!(matches!(*right, Expr::Predicate(Predicate::Type { .. })));
        }
        _ => panic!("Expected AND expression"),
    }
}

#[test]
fn test_or_expression() {
    let query = parse("tag:a OR tag:b").unwrap();
    match query.expr {
        Expr::Or(_, _) => {}
        _ => panic!("Expected OR expression"),
    }
}

#[test]
fn test_not_expression() {
    let query = parse("NOT state:archived").unwrap();
    match query.expr {
        Expr::Not(inner) => assert!(matches!(*inner, Expr::Predicate(Predicate::State { .. }))),
        _ => panic!("Expected NOT expression"),
    }
}

#[test]
fn parser_test_parentheses() {
    let query = parse("(tag:a OR tag:b) AND tag:c").unwrap();
    match query.expr {
        Expr::And(left, _) => assert!(matches!(*left, Expr::Or(_, _))),
        _ => panic!("Expected AND with OR on left"),
    }
}

#[test]
fn test_sort() {
    let query = parse("tag:project SORT updated DESC").unwrap();
    assert!(query.order.is_some());
    let order = query.order.unwrap();
    assert_eq!(order.field, SortField::Updated);
    assert_eq!(order.direction, SortDirection::Desc);
}

#[test]
fn parser_test_limit() {
    let query = parse("tag:project LIMIT 10").unwrap();
    assert_eq!(query.limit, Some(10));
}

#[test]
fn test_full_query() {
    let query = parse("tag:project:phoenix AND type:application/pdf SORT updated DESC LIMIT 10").unwrap();
    assert!(matches!(query.expr, Expr::And(_, _)));
    assert!(query.order.is_some());
    assert_eq!(query.limit, Some(10));
}

#[test]
fn test_complex_boolean() {
    let query = parse("(tag:urgent OR tag:priority:high) AND state:review AND NOT state:archived").unwrap();
    match query.expr {
        Expr::And(_, _) => {}
        _ => panic!("Expected AND expression at top level"),
    }
}

#[test]
fn test_references_predicate() {
    let query = parse("references(tag:project:phoenix)").unwrap();
    match query.expr {
        Expr::Predicate(Predicate::References { target }) => assert!(matches!(target, ObjectRef::Tag(_))),
        _ => panic!("Expected references predicate"),
    }
}

#[test]
fn test_closure_predicate() {
    let query = parse("closure(tag:project)").unwrap();
    match query.expr {
        Expr::Predicate(Predicate::Closure { root }) => assert!(matches!(root, ObjectRef::Tag(_))),
        _ => panic!("Expected closure predicate"),
    }
}

#[test]
fn test_ref_alias() {
    let query = parse("ref:\"project-readme\"").unwrap();
    match query.expr {
        Expr::Predicate(Predicate::Ref { reference }) => assert!(matches!(reference, ObjectRef::Alias(_))),
        _ => panic!("Expected ref predicate"),
    }
}

#[test]
fn test_parse_error() {
    let result = parse("tag:");
    assert!(result.is_err());
}

#[test]
fn test_trust_numeric() {
    let query = parse("trust >= 50").unwrap();
    match query.expr {
        Expr::Predicate(Predicate::Trust { op, level }) => {
            assert_eq!(op, CompareOp::Ge);
            assert_eq!(level, TrustLevel::Numeric(50));
        }
        _ => panic!("Expected trust predicate"),
    }
}

#[test]
fn test_operator_precedence() {
    let query = parse("tag:a OR tag:b AND tag:c").unwrap();
    match query.expr {
        Expr::Or(left, right) => {
            assert!(matches!(*left, Expr::Predicate(Predicate::Tag { .. })));
            assert!(matches!(*right, Expr::And(_, _)));
        }
        _ => panic!("Expected OR with AND on right due to precedence"),
    }
}

#[test]
fn test_time_between() {
    let query = parse("updated between 2025-01-01 2025-02-01").unwrap();
    match query.expr {
        Expr::Predicate(Predicate::Time { op, value, .. }) => {
            assert_eq!(op, TimeOp::Between);
            match value {
                TimeValue::Range { start, end } => assert!(start < end),
                _ => panic!("Expected range value"),
            }
        }
        _ => panic!("Expected time predicate"),
    }
}

#[test]
fn test_type_any() {
    let query = parse("type:*").unwrap();
    match query.expr {
        Expr::Predicate(Predicate::Type { mime }) => {
            assert_eq!(mime.major, "*");
            assert_eq!(mime.minor, None);
        }
        _ => panic!("Expected type predicate"),
    }
}

#[test]
fn test_type_shorthand_pdf() {
    let query = parse("type:pdf").unwrap();
    match query.expr {
        Expr::Predicate(Predicate::Type { mime }) => {
            assert_eq!(mime.major, "application");
            assert_eq!(mime.minor, Some("pdf".to_string()));
        }
        _ => panic!("Expected type predicate"),
    }
}

#[test]
fn test_trust_medium() {
    let query = parse("trust >= medium").unwrap();
    match query.expr {
        Expr::Predicate(Predicate::Trust { op, level }) => {
            assert_eq!(op, CompareOp::Ge);
            assert_eq!(level, TrustLevel::Numeric(50));
        }
        _ => panic!("Expected trust predicate"),
    }
}

#[test]
fn parser_timestamps_in_microseconds() {
    let query = parse("created before 2025-01-01").unwrap();
    match query.expr {
        Expr::Predicate(Predicate::Time { field, op, value }) => {
            assert_eq!(field, TimeField::Created);
            assert_eq!(op, TimeOp::Before);
            assert_eq!(value, TimeValue::Timestamp(1_735_689_600_000_000));
        }
        _ => panic!("Expected time predicate"),
    }
    let query = parse("updated after 2025-01-15T10:30:00Z").unwrap();
    match query.expr {
        Expr::Predicate(Predicate::Time { value, .. }) => {
            assert_eq!(value, TimeValue::Timestamp(1_736_937_000_000_000));
        }
        _ => panic!("Expected time predicate"),
    }
    let query = parse("updated after 100").unwrap();
    match query.expr {
        Expr::Predicate(Predicate::Time { value, .. }) => assert_eq!(value, TimeValue::Timestamp(100_000_000)),
        _ => panic!("Expected time predicate"),
    }
    let query = parse("updated before 2025-02").unwrap();
    match query.expr {
        Expr::Predicate(Predicate::Time { value, .. }) => {
            assert_eq!(value, TimeValue::Timestamp(1_738_368_000_000_000));
        }
        _ => panic!("Expected time predicate"),
    }
}

#[test]
fn parser_rejects_bad_dates_and_reports_positions() {
    match parse("updated before 2025-13-01") {
        Err(LatticeError::ParseError { position, .. }) => assert_eq!(position, 25),
        other => panic!("expected a parse error, got {:?}", other),
    }
    match parse("tag:") {
        Err(LatticeError::ParseError { position, .. }) => assert_eq!(position, 4),
        other => panic!("expected a parse error, got {:?}", other),
    }
    match parse("state:bogus") {
        Err(LatticeError::ParseError { .. }) => {}
        other => panic!("expected a parse error, got {:?}", other),
    }
}

#[test]
fn parser_object_references() {
    let query = parse("ref:a190f0e2-7b3a-7c1d-8e2f-0123456789ab").unwrap();
    match query.expr {
        Expr::Predicate(Predicate::Ref { reference }) => {
            assert_eq!(reference, ObjectRef::Id(ObjectID(0xa190f0e2_7b3a_7c1d_8e2f_0123456789ab)));
        }
        _ => panic!("Expected ref predicate"),
    }
    let query = parse("references(ref:abc123)").unwrap();
    match query.expr {
        Expr::Predicate(Predicate::References { target }) => assert_eq!(target, ObjectRef::Hash("abc123".to_string())),
        _ => panic!("Expected references predicate"),
    }
}

#[test]
fn parser_struct_parses_from_first_token() {
    let mut parser = Parser::new("tag:a SORT size ASC LIMIT 3").unwrap();
    let query = parser.parse().unwrap();
    let order = query.order.unwrap();
    assert_eq!(order.field, SortField::Size);
    assert_eq!(order.direction, SortDirection::Asc);
    assert_eq!(query.limit, Some(3));
    assert!(Parser::new("\"open").is_err());
}

// ---- Explanations ----

#[test]
fn explanation_text() {
    let reason = Reason::And {
        matched: false,
        left: Box::new(Reason::Predicate { matched: true, description: "tag:a".to_string(), actual_value: None }),
        right: Box::new(Reason::Predicate {
            matched: false,
            description: "trust >= 90".to_string(),
            actual_value: Some("75".to_string()),
        }),
    };
    let e = Explanation { object_id: ObjectID(1), matched: false, reason };
    assert_eq!(
        e.to_string(),
        "Object 00000000-0000-0000-0000-000000000001: DID NOT MATCH\n✗ AND\n  ✓ tag:a\n  ✗ trust >= 90 (actual: 75)\n"
    );
}
