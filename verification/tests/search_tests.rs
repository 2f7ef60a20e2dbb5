use rfc_reader::search;
use rfc_reader::search::SearchStrategy;

fn pairs(found: &[(usize, Vec<std::ops::Range<usize>>)]) -> Vec<(usize, Vec<(usize, usize)>)> {
    found
        .iter()
        .map(|item| (item.0, item.1.iter().map(|span| (span.start, span.end)).collect()))
        .collect()
}

#[test]
fn queries_become_patterns() {
    assert_eq!(search::query_pattern_text("a.b", true, false), "a\\.b");
    assert_eq!(search::query_pattern_text("a.b", false, false), "(?i)a\\.b");
    assert_eq!(search::query_pattern_text("a.b", true, true), "a.b");
    assert_eq!(search::query_pattern_text("a.b", false, true), "(?i)a.b");
    assert_eq!(
        search::query_pattern_text("\\.+*?()|[]{}^$#&-~x", true, false),
        "\\\\\\.\\+\\*\\?\\(\\)\\|\\[\\]\\{\\}\\^\\$\\#\\&\\-\\~x"
    );
}

#[test]
fn invalid_patterns_do_not_compile() {
    assert!(search::get_compiled_regex("a(", true, true).is_none());
    assert!(search::get_compiled_regex("a(", true, false).is_some());
    assert!(search::get_compiled_regex("", false, true).is_some());
}

#[test]
fn literal_queries_compile() {
    for part in ["a", "k", "θ", "ß", "☑", "𝄞", ".", "\\", "ǆ", "\n"] {
        let query = part.repeat(1000);
        for is_case_sensitive in [false, true] {
            assert!(search::get_compiled_regex(&query, is_case_sensitive, false).is_some());
        }
    }
    let longest: String = (0x3b1u32..0x3b1 + 1000).filter_map(char::from_u32).collect();
    assert!(search::get_compiled_regex(&longest, false, false).is_some());
}

#[test]
fn matches_are_collected_by_line() {
    let regex = search::get_compiled_regex("ab", true, false).unwrap();
    let found = search::collect_search_matches(&regex, "xabab\nnone\nAB ab\n");
    assert_eq!(pairs(&found), vec![(0, vec![(1, 3), (3, 5)]), (2, vec![(3, 5)])]);
}

#[test]
fn every_occurrence_meets_a_match() {
    for (query, line) in [("aa", "aaaaa"), ("aba", "xABAbababa"), ("é", "ééxé"), ("x", "xxx")] {
        let regex = search::get_compiled_regex(query, true, false).unwrap();
        let found = search::collect_search_matches_serial(&regex, &[line], 0);
        for (at, _) in line.char_indices() {
            if line[at..].starts_with(query) {
                let end = at + query.len();
                assert!(found[0].1.iter().any(|span| span.start < end && at < span.end));
            }
        }
    }
    let regex = search::get_compiled_regex("aa", true, false).unwrap();
    let found = search::collect_search_matches_serial(&regex, &["aaaaa"], 0);
    assert_eq!(pairs(&found), vec![(0, vec![(0, 2), (2, 4)])]);
}

#[test]
fn case_can_be_ignored() {
    let regex = search::get_compiled_regex("ab", false, false).unwrap();
    let found = search::collect_search_matches(&regex, "xaB\nAB ab\n");
    assert_eq!(pairs(&found), vec![(0, vec![(1, 3)]), (1, vec![(0, 2), (3, 5)])]);
}

#[test]
fn literal_queries_have_no_meta_characters() {
    let regex = search::get_compiled_regex("a.c", true, false).unwrap();
    let found = search::collect_search_matches(&regex, "abc a.c\n");
    assert_eq!(pairs(&found), vec![(0, vec![(4, 7)])]);
    let pattern = search::get_compiled_regex("a.c", true, true).unwrap();
    let more = search::collect_search_matches(&pattern, "abc a.c\n");
    assert_eq!(pairs(&more), vec![(0, vec![(0, 3), (4, 7)])]);
}

#[test]
fn spans_lie_on_character_boundaries() {
    let regex = search::get_compiled_regex("", true, true).unwrap();
    let found = search::collect_search_matches(&regex, "é☑");
    assert_eq!(pairs(&found), vec![(0, vec![(0, 0), (2, 2), (5, 5)])]);
    let star = search::get_compiled_regex("a*", true, true).unwrap();
    let more = search::collect_search_matches(&star, "aab");
    assert_eq!(pairs(&more), vec![(0, vec![(0, 2), (3, 3)])]);
}

#[test]
fn offsets_shift_line_numbers() {
    let regex = search::get_compiled_regex("a", true, false).unwrap();
    let found = search::collect_search_matches_serial(&regex, &["a", "b", "a"], 10);
    assert_eq!(pairs(&found), vec![(10, vec![(0, 1)]), (12, vec![(0, 1)])]);
    let far = search::collect_search_matches_serial(&regex, &["a", "a"], usize::MAX);
    assert_eq!(far.iter().map(|item| item.0).collect::<Vec<usize>>(), vec![usize::MAX, usize::MAX]);
}

#[test]
fn spans_are_sorted_by_start() {
    let mut results = Vec::new();
    search::push_line_matches(&mut results, 7, vec![5..6, 0..2, 3..4]);
    search::push_line_matches(&mut results, 8, Vec::new());
    assert_eq!(pairs(&results), vec![(7, vec![(0, 2), (3, 4), (5, 6)])]);
}

#[test]
fn small_documents_are_searched_serially() {
    assert_eq!(search::determine_search_strategy(1499, Some(8)), SearchStrategy::Serial);
    assert_eq!(search::determine_search_strategy(1500, None), SearchStrategy::Serial);
    assert_eq!(search::determine_search_strategy(1500, Some(1)), SearchStrategy::Serial);
    assert_eq!(search::determine_search_strategy(1500, Some(0)), SearchStrategy::Serial);
}

#[test]
fn workers_are_limited_by_lines() {
    assert_eq!(
        search::determine_search_strategy(1500, Some(4)),
        SearchStrategy::Parallel { worker_count: 4 }
    );
    assert_eq!(
        search::determine_search_strategy(1500, Some(64)),
        SearchStrategy::Parallel { worker_count: 6 }
    );
    assert_eq!(
        search::determine_search_strategy(1749, Some(64)),
        SearchStrategy::Parallel { worker_count: 6 }
    );
    assert_eq!(
        search::determine_search_strategy(1750, Some(64)),
        SearchStrategy::Parallel { worker_count: 7 }
    );
}

#[test]
fn chunks_cover_the_document() {
    assert_eq!(search::search_chunks(10, 3), vec![(0, 4), (4, 8), (8, 10)]);
    assert_eq!(search::search_chunks(9, 3), vec![(0, 3), (3, 6), (6, 9)]);
    assert_eq!(search::search_chunks(2, 5), vec![(0, 1), (1, 2)]);
    assert_eq!(search::search_chunks(5, 4), vec![(0, 2), (2, 4), (4, 5)]);
}

#[test]
fn chunked_search_is_serial_search() {
    let mut content = String::new();
    for n in 0..100 {
        content.push_str(&format!("line {n} {}\n", if n % 7 == 0 { "hit hit" } else { "" }));
    }
    let regex = search::get_compiled_regex("hit", true, false).unwrap();
    let lines: Vec<&str> = content.lines().collect();
    for workers in 1..9 {
        let parts = search::search_chunks(lines.len(), workers)
            .into_iter()
            .map(|(from, to)| {
                Some(search::collect_search_matches_serial(&regex, &lines[from..to], from))
            })
            .collect();
        let merged = search::merge_chunk_matches(parts).unwrap();
        assert_eq!(merged, search::collect_search_matches(&regex, &content));
    }
}

#[test]
fn one_failed_worker_spoils_the_merge() {
    let part = vec![(0usize, vec![0..1usize])];
    assert!(search::merge_chunk_matches(vec![Some(part.clone()), None]).is_none());
    assert_eq!(
        search::merge_chunk_matches(vec![Some(part.clone()), Some(vec![(3, vec![1..2])])]),
        Some(vec![(0, vec![0..1]), (3, vec![1..2])])
    );
    assert_eq!(search::merge_chunk_matches(Vec::new()), Some(Vec::new()));
}
