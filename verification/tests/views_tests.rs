use latticefs::query::parser::parse;
use latticefs::views::builtin::{BuiltinView, Locale};
use latticefs::views::dynamic::ViewConfig;
use latticefs::views::{join_queries, EffectiveQueryOptions, ViewJoinOperator, DEFAULT_MAX_PARENT_DEPTH};

#[test]
fn test_builtin_view_queries() {
    for view in BuiltinView::all() {
        let result = parse(view.query());
        assert!(result.is_ok(), "Failed to parse query for {:?}: {:?}", view, result.err());
    }
}

#[test]
fn test_builtin_view_by_name() {
    assert_eq!(BuiltinView::by_name("recent"), Some(BuiltinView::Recent));
    assert_eq!(BuiltinView::by_name("RECENT"), Some(BuiltinView::Recent));
    assert_eq!(BuiltinView::by_name("projects"), Some(BuiltinView::Projects));
    assert_eq!(BuiltinView::by_name("nonexistent"), None);

    assert_eq!(BuiltinView::by_name("neueste"), Some(BuiltinView::Recent));
    assert_eq!(BuiltinView::by_name("projekte"), Some(BuiltinView::Projects));
    assert_eq!(BuiltinView::by_name("entwürfe"), Some(BuiltinView::Drafts));
}

#[test]
fn test_localization() {
    assert_eq!(BuiltinView::Recent.name_localized(Locale::English), "Recent");
    assert_eq!(BuiltinView::Projects.name_localized(Locale::English), "Projects");
    assert!(BuiltinView::Recent.description_localized(Locale::English).contains("7 days"));

    assert_eq!(BuiltinView::Recent.name_localized(Locale::German), "Neueste");
    assert_eq!(BuiltinView::Projects.name_localized(Locale::German), "Projekte");
    assert!(BuiltinView::Recent.description_localized(Locale::German).contains("7 Tagen"));

    let _system_locale = Locale::from_system();
}

#[test]
fn builtin_views_by_localized_names() {
    for view in BuiltinView::all() {
        assert_eq!(BuiltinView::by_name(view.name()), Some(view));
        assert_eq!(BuiltinView::by_name(view.name_localized(Locale::German)), Some(view));
    }
    assert_eq!(BuiltinView::by_name("Zur Prüfung"), Some(BuiltinView::Review));
    assert_eq!(Locale::for_tag(Some("en-US")), Locale::English);
    assert_eq!(Locale::for_tag(Some("de-DE")), Locale::German);
    assert_eq!(Locale::for_tag(None), Locale::German);
}

#[test]
fn test_view_config() {
    let config = ViewConfig::default().with_max_results(10).with_cache_ttl(120).include_archived().with_min_trust(50);

    assert_eq!(config.max_results, Some(10));
    assert_eq!(config.cache_ttl_secs, 120);
    assert!(config.include_archived);
    assert_eq!(config.min_trust_level, Some(50));
}

#[test]
fn view_config_defaults() {
    let config = ViewConfig::unlimited();
    assert_eq!(config.max_results, None);
    assert_eq!(config.cache_ttl_secs, 60);
    assert!(!config.include_archived);
    assert_eq!(config.min_trust_level, None);
}

#[test]
fn effective_query_joining() {
    let options = EffectiveQueryOptions::default();
    assert_eq!(options.max_parent_depth, DEFAULT_MAX_PARENT_DEPTH);
    assert_eq!(options.join_operator, ViewJoinOperator::And);
    let qs = vec!["tag:project".to_string(), "state:draft".to_string()];
    assert_eq!(join_queries(&qs, ViewJoinOperator::And), "(tag:project) AND (state:draft)");
    assert_eq!(join_queries(&qs, ViewJoinOperator::Or), "(tag:project) OR (state:draft)");
    assert_eq!(join_queries(&vec!["trust >= 0".to_string()], ViewJoinOperator::And), "(trust >= 0)");
    assert_eq!(join_queries(&Vec::new(), ViewJoinOperator::And), "");
    assert!(parse(&join_queries(&qs, ViewJoinOperator::Or)).is_ok());
}
