use sparql_bench::query_gen::{
    FileSourceQueryGenerator, QueryGenerator, RandomLimitSelectStartQueryGenerator,
};

#[test]
fn synthetic_limit_stays_in_range() {
    let mut g = RandomLimitSelectStartQueryGenerator;
    for _ in 0..200 {
        let (qid, q) = g.next_query();
        assert!(qid.is_none());
        let prefix = "SELECT * WHERE { ?s ?p ?o } LIMIT ";
        assert!(q.starts_with(prefix), "unexpected query: {q}");
        let limit: u64 = q[prefix.len()..].parse().expect("limit must be a number");
        assert!((200..500).contains(&limit), "limit {limit} out of range");
    }
}

#[test]
fn file_generator_rejects_empty_catalog() {
    assert!(FileSourceQueryGenerator::new("").is_none());
    assert!(FileSourceQueryGenerator::new("\n\n\n").is_none());
}

#[test]
fn file_generator_drops_empty_lines() {
    let mut g = FileSourceQueryGenerator::new("q1\n\nq2\n").expect("two queries");
    let mut seen: Vec<String> = Vec::new();
    for _ in 0..2 {
        let (_, q) = g.next_query();
        seen.push(q);
    }
    seen.sort();
    assert_eq!(seen, vec!["q1".to_string(), "q2".to_string()]);
}

#[test]
fn file_generator_cycles_whole_catalog() {
    let mut g = FileSourceQueryGenerator::new("a\nb\nc\n").expect("three queries");
    let mut seen: Vec<String> = Vec::new();
    for _ in 0..3 {
        let (_, q) = g.next_query();
        seen.push(q);
    }
    seen.sort();
    assert_eq!(seen, vec!["a".to_string(), "b".to_string(), "c".to_string()]);
}

#[test]
fn stable_index_matches_first_occurrence() {
    let catalog = ["q1", "q2", "q1"];
    let mut g = FileSourceQueryGenerator::new("q1\nq2\nq1\n").expect("three entries");
    for _ in 0..30 {
        let (qid, q) = g.next_query();
        let qid = qid.expect("file-backed queries carry a stable index");
        let first = catalog.iter().position(|c| *c == q).expect("query from catalog");
        assert_eq!(qid, first, "index of {q} must be its first occurrence");
    }
}

#[test]
fn stable_index_is_stable_across_shuffles() {
    let mut g = FileSourceQueryGenerator::new("alpha\nbeta\ngamma\n").expect("three queries");
    let mut seen: Vec<(usize, String)> = Vec::new();
    // Nine calls make three full passes, so at least three reshuffles.
    for _ in 0..9 {
        let (qid, q) = g.next_query();
        seen.push((qid.unwrap(), q));
    }
    for (qid, q) in &seen {
        for (qid2, q2) in &seen {
            if q == q2 {
                assert_eq!(qid, qid2, "same text must keep the same index");
            }
        }
    }
}

#[test]
fn file_generator_strips_carriage_returns() {
    let mut g = FileSourceQueryGenerator::new("q1\r\nq2\r\n").expect("two queries");
    let mut seen: Vec<String> = Vec::new();
    for _ in 0..2 {
        let (_, q) = g.next_query();
        assert!(!q.ends_with('\r'));
        seen.push(q);
    }
    seen.sort();
    assert_eq!(seen, vec!["q1".to_string(), "q2".to_string()]);
}
