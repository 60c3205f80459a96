use cortexmind::search::query_optimizer::{QueryOptimizer, QueryType};

#[test]
fn test_keyword_index() {
    // The keyword index itself sits on a database; nothing to check on
    // values here.
}

#[test]
fn test_keyword_extraction() {
    let optimizer = QueryOptimizer::new();
    let query = "如何使用 k8s 创建 database服务";
    let keywords = optimizer.extract_keywords(query);

    assert!(keywords.contains(&"如何".to_string()));
    assert!(keywords.contains(&"k8s".to_string()));
    assert!(keywords.contains(&"创建".to_string()));
    assert!(keywords.contains(&"数据库".to_string()));
    assert!(keywords.contains(&"服务".to_string()));
}

#[test]
fn test_tag_extraction() {
    let optimizer = QueryOptimizer::new();
    let query = "搜索 #frontend #api 相关的问题";
    let tags = optimizer.extract_tags(query);

    assert!(tags.contains(&"frontend".to_string()));
    assert!(tags.contains(&"api".to_string()));
}

#[test]
fn test_query_intent() {
    let optimizer = QueryOptimizer::new();
    let intent = optimizer.analyze_query("搜索最近一周 #frontend 的代码");

    assert_eq!(intent.tags, vec!["frontend".to_string()]);
    assert_eq!(intent.keywords.len(), 3);
    assert_eq!(intent.query_type, QueryType::Tag);
}

#[test]
fn query_without_anything_recognised_is_keyword_query() {
    let optimizer = QueryOptimizer::new();
    let intent = optimizer.analyze_query("");
    assert!(intent.keywords.is_empty());
    assert!(intent.tags.is_empty());
    assert!(intent.time_range.is_none());
    assert!(intent.file_path.is_none());
    assert!(intent.entity.is_none());
    assert!(intent.action.is_none());
}

#[test]
fn abbreviations_are_expanded() {
    let optimizer = QueryOptimizer::new();
    let mut q = "db".to_string();
    optimizer.expand_abbreviations(&mut q);
    assert_eq!(q, "database");
    let mut q = "k8s".to_string();
    optimizer.expand_abbreviations(&mut q);
    assert_eq!(q, "kubernetes");
    let mut q = "deploy k8s with a db be".to_string();
    optimizer.expand_abbreviations(&mut q);
    assert_eq!(q, "deploy kubernetes with a database backend");
    let mut q = "debug belt".to_string();
    optimizer.expand_abbreviations(&mut q);
    assert_eq!(q, "debug belt");
    let mut q1 = String::from("k8s");
    let mut q2 = String::from("db");
    optimizer.optimize_query(&mut q1);
    optimizer.optimize_query(&mut q2);
    assert_eq!((q1.as_str(), q2.as_str()), ("kubernetes", "database"));
}

#[test]
fn normalizing_collapses_spaces_and_trims() {
    let optimizer = QueryOptimizer::new();
    let mut q = "  a   b  ".to_string();
    optimizer.normalize_query(&mut q);
    assert_eq!(q, "a b");
}

#[test]
fn keywords_are_remembered_once_in_lower_case() {
    let mut optimizer = QueryOptimizer::new();
    optimizer.add_keyword("Rust".to_string());
    optimizer.add_keyword("rust".to_string());
    optimizer.add_keyword("ruby".to_string());
    let s = optimizer.get_search_suggestions("RU", 10);
    assert_eq!(s, vec!["ruby".to_string(), "rust".to_string()]);
    let s = optimizer.get_search_suggestions("rus", 10);
    assert_eq!(s, vec!["rust".to_string()]);
}

#[test]
fn learning_keeps_query_keywords() {
    let mut optimizer = QueryOptimizer::new();
    optimizer.learn_from_search("k8s deploy", 3);
    let s = optimizer.get_search_suggestions("k", 10);
    assert_eq!(s, vec!["k8s".to_string()]);
}

#[test]
fn extractors_without_recogniser_give_nothing() {
    let optimizer = QueryOptimizer::new();
    assert!(optimizer.extract_time_range("last week").is_none());
    assert!(optimizer.extract_file_path("src/main.rs").is_none());
    assert!(optimizer.extract_entity("Alice").is_none());
    assert!(optimizer.extract_action("create").is_none());
}

#[test]
fn an_added_keyword_is_suggested_for_itself() {
    let mut o = QueryOptimizer::new();
    o.add_keyword("Kubernetes".to_string());
    o.add_keyword("kube".to_string());
    let s = o.get_search_suggestions("Kubernetes", usize::MAX);
    assert!(s.contains(&"kubernetes".to_string()));
    let before = o.get_search_suggestions("k", usize::MAX);
    o.add_keyword("KUBE".to_string());
    assert_eq!(o.get_search_suggestions("k", usize::MAX), before);
}
