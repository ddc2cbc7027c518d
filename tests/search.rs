use yatap::search::{
    positive_matches, search, search_fuzzy, search_substring, SearchStrategy, FUZZY_LIMIT,
};

fn strings(v: &[&str]) -> Vec<String> {
    v.iter().map(|s| s.to_string()).collect()
}

#[test]
fn scenario_a_empty_query_keeps_index_order() {
    let candidates = strings(&["/tmp/a/proj1", "/tmp/a/proj2"]);
    for strategy in [SearchStrategy::Substring, SearchStrategy::Fuzzy] {
        let r = search(strategy, &String::new(), &candidates);
        assert_eq!(r, strings(&["/tmp/a/proj1", "/tmp/a/proj2"]));
    }
}

#[test]
fn scenario_b_substring_query() {
    let candidates = strings(&["/tmp/a/proj1", "/tmp/a/proj2"]);
    let r = search(SearchStrategy::Substring, &"roj1".to_string(), &candidates);
    assert_eq!(r, strings(&["/tmp/a/proj1"]));
}

#[test]
fn substring_results_contain_query_in_given_order() {
    let candidates = strings(&["/x/alpha", "/y/beta", "/x/alphabet", "/z/gamma", "/x/alpha"]);
    let q = "alpha".to_string();
    let r = search_substring(&q, &candidates);
    assert_eq!(r, strings(&["/x/alpha", "/x/alphabet", "/x/alpha"]));
    for e in &r {
        assert!(e.contains(&q));
    }
}

#[test]
fn substring_is_case_sensitive() {
    let candidates = strings(&["/x/Alpha", "/x/alpha"]);
    let r = search(SearchStrategy::Substring, &"Alpha".to_string(), &candidates);
    assert_eq!(r, strings(&["/x/Alpha"]));
}

#[test]
fn substring_without_match_is_empty() {
    let candidates = strings(&["/x/alpha"]);
    let r = search(SearchStrategy::Substring, &"zzz".to_string(), &candidates);
    assert!(r.is_empty());
    let r = search(SearchStrategy::Substring, &"q".to_string(), &Vec::new());
    assert!(r.is_empty());
}

#[test]
fn fuzzy_ranks_best_match_first_and_drops_zero_scores() {
    let candidates = strings(&["/tmp/b/zzz", "/tmp/a/proj2", "/tmp/a/proj1"]);
    let r = search(SearchStrategy::Fuzzy, &"proj1".to_string(), &candidates);
    assert_eq!(r, strings(&["/tmp/a/proj1", "/tmp/a/proj2"]));
}

#[test]
fn fuzzy_returns_at_most_ten() {
    let candidates: Vec<String> = (0..15).map(|i| format!("/p/project{}", i)).collect();
    let r = search_fuzzy(&"project".to_string(), &candidates);
    assert_eq!(r.len(), FUZZY_LIMIT);
    assert_eq!(FUZZY_LIMIT, 10);
    for e in &r {
        assert!(candidates.contains(e));
    }
}

#[test]
fn fuzzy_scores_non_increasing() {
    let candidates = strings(&["/a/kolbasobulko", "/a/bulk", "/a/bulko", "/a/domo", "/a/ulko"]);
    let q = "bulko";
    let r = search_fuzzy(&q.to_string(), &candidates);
    let scores: Vec<f32> = r.iter().map(|c| rust_fuzzy_search::fuzzy_compare(q, c)).collect();
    for w in scores.windows(2) {
        assert!(w[0] >= w[1]);
    }
    for s in &scores {
        assert!(*s > 0.0);
    }
    assert!(!r.contains(&"/a/domo".to_string()));
}

#[test]
fn fuzzy_ties_keep_index_order() {
    let candidates = strings(&["/b/proj", "/a/proj"]);
    let r = search_fuzzy(&"proj".to_string(), &candidates);
    assert_eq!(r, strings(&["/b/proj", "/a/proj"]));
}

#[test]
fn positive_matches_drops_zero_scores_and_keeps_order() {
    let ranked = vec![
        ("c".to_string(), 9u32),
        ("a".to_string(), 5u32),
        ("z".to_string(), 0u32),
        ("b".to_string(), 0u32),
    ];
    assert_eq!(positive_matches(ranked), strings(&["c", "a"]));
    assert!(positive_matches(Vec::new()).is_empty());
}
