use rfc_reader::ui::toc_panel;
use rfc_reader::ui::toc_panel::ListState;
use rfc_reader::ui::toc_panel::TocEntry;
use rfc_reader::ui::toc_panel::TocPanel;
use rfc_reader::ui::toc_parsing;
use rfc_reader::ui::toc_parsing::HeadingKind;
use rfc_reader::ui::toc_parsing::TocPatterns;

const WITH_TOC: &str = "RFC 9999

Table of Contents

   1. Introduction ........ 2
   2. Terminology ......... 3
   Appendix A. Packets .... 9

1. Introduction

   Text here.

2. Terminology

   More text.

Appendix A. Packets

   End.
";

fn listed(entries: &[TocEntry]) -> Vec<(String, usize)> {
    entries.iter().map(|entry| (entry.title.clone(), entry.line_number)).collect()
}

fn expected(rows: &[(&str, usize)]) -> Vec<(String, usize)> {
    rows.iter().map(|row| (String::from(row.0), row.1)).collect()
}

#[test]
fn existing_toc_is_read() {
    let entries = toc_parsing::parse_toc(WITH_TOC);
    assert_eq!(
        listed(&entries),
        expected(&[("1. Introduction", 8), ("2. Terminology", 12), ("Appendix A. Packets", 16)])
    );
}

#[test]
fn heading_forms_are_recognised() {
    let patterns = TocPatterns::compile();
    for header in [
        "Table of Contents",
        "   Contents  ",
        "TABLE OF CONTENTS",
        "3. Table of Contents",
        "3 Table of Contents",
    ] {
        let lines = vec!["x", header, "y"];
        assert_eq!(toc_parsing::find_toc_start(&patterns, &lines), Some(2), "{header}");
    }
    for other in ["Table of contents", "The Contents", "CONTENTS", ""] {
        let lines = vec!["x", other, "y"];
        assert_eq!(toc_parsing::find_toc_start(&patterns, &lines), None, "{other}");
    }
}

#[test]
fn first_heading_counts() {
    let patterns = TocPatterns::compile();
    let lines = vec!["Contents", "Contents"];
    assert_eq!(toc_parsing::find_toc_start(&patterns, &lines), Some(1));
}

#[test]
fn rows_are_cut_into_label_and_title() {
    let patterns = TocPatterns::compile();
    let row = |line: &str| {
        toc_parsing::read_row(&patterns, line).map(|row| (row.label, row.title))
    };
    let pair = |label: &str, title: &str| Some((String::from(label), String::from(title)));
    assert_eq!(row("1. Introduction..................5"), pair("1.", "Introduction"));
    assert_eq!(row("   2.1  Terminology"), pair("2.1", "Terminology"));
    assert_eq!(row("Appendix A. Packet Format"), pair("Appendix A.", "Packet Format"));
    assert_eq!(row("  Appendix B  Notes .... 12"), pair("Appendix B", "Notes"));
    assert_eq!(row("Acknowledgements .... 12"), None);
    assert_eq!(row(""), None);
}

#[test]
fn groups_make_a_row() {
    let group = |s: &str| Some(String::from(s));
    let row = toc_parsing::row_from_groups(&vec![group("all"), group(" 1. "), group(" T ")]);
    assert_eq!(row.map(|row| (row.label, row.title)), Some((String::from("1."), String::from("T"))));
    assert!(toc_parsing::row_from_groups(&vec![group("all"), group("1")]).is_none());
}

#[test]
fn section_patterns_are_escaped() {
    assert_eq!(
        toc_parsing::section_pattern_text("1.2", "What? (Why)"),
        "^\\s*1\\.2\\s+What\\? \\(Why\\)"
    );
    assert_eq!(toc_parsing::entry_title_text("1.2", "What?"), "1.2 What?");
}

#[test]
fn titles_with_meta_characters_are_found() {
    let content = "Contents\n  1. A+B (C)\n\n1. A+B (C)\n";
    assert_eq!(listed(&toc_parsing::parse_toc(content)), expected(&[("1. A+B (C)", 3)]));
}

#[test]
fn entries_point_behind_their_rows() {
    let patterns = TocPatterns::compile();
    let lines = vec!["1. One", "  1. One .... 3", "text", "  1.   One more"];
    let entry = toc_parsing::try_extract_entry(&patterns, "  1. One .... 3", &lines, 1);
    assert_eq!(entry.map(|entry| (entry.title, entry.line_number)), Some((String::from("1. One"), 3)));
    let missing = toc_parsing::try_extract_entry(&patterns, "  1.   One more", &lines, 3);
    assert!(missing.is_none());
}

#[test]
fn rows_without_a_section_are_left_out() {
    let content = "Contents\n 1. One\n 2. Two\n\n2. Two\n";
    assert_eq!(listed(&toc_parsing::parse_toc(content)), expected(&[("2. Two", 4)]));
}

#[test]
fn toc_ends_after_five_blank_lines() {
    let with_gap = |blanks: usize| {
        let mut content = String::from("Contents\n 1. One\n");
        for _ in 0..blanks {
            content.push_str("   \n");
        }
        content.push_str(" 2. Two\n1. One\n2. Two\n");
        toc_parsing::parse_toc(&content).len()
    };
    assert_eq!(with_gap(4), 2);
    assert_eq!(with_gap(5), 1);
}

#[test]
fn toc_times_out_without_entries() {
    let with_filler = |count: usize| {
        let mut content = String::from("Contents\n");
        for _ in 0..count {
            content.push_str("filler\n");
        }
        content.push_str("   7. Late\n7. Late\n");
        listed(&toc_parsing::parse_toc(&content))
    };
    // The row is the thirtieth line behind the heading, or one too late.
    assert_eq!(with_filler(29), expected(&[("7. Late", 31)]));
    assert_eq!(with_filler(30), expected(&[("7. Late", 32)]));
    assert!(toc_parsing::parse_toc_existing("Contents\nfiller\n").is_none());
}

#[test]
fn late_rows_are_left_to_the_heuristic() {
    let mut content = String::from("Contents\n");
    for _ in 0..30 {
        content.push_str("filler\n");
    }
    content.push_str("   7. Late\n   7. Late\n");
    assert!(toc_parsing::parse_toc_existing(&content).is_none());
    assert!(toc_parsing::parse_toc(&content).is_empty());
}

#[test]
fn stop_decision_counts() {
    let mut empty: u8 = 3;
    let mut without: u8 = 0;
    assert!(!toc_parsing::stop_decision(false, false, true, true, &mut empty, &mut without));
    assert_eq!((empty, without), (4, 0));
    assert!(toc_parsing::stop_decision(false, false, true, true, &mut empty, &mut without));
    assert_eq!(empty, 5);
    assert!(!toc_parsing::stop_decision(false, true, false, true, &mut empty, &mut without));
    assert_eq!(empty, 0);
    assert!(toc_parsing::stop_decision(true, false, false, true, &mut empty, &mut without));
    assert!(!toc_parsing::stop_decision(true, true, false, true, &mut empty, &mut without));
    let mut full: u8 = 255;
    let mut thirty: u8 = 29;
    assert!(!toc_parsing::stop_decision(true, false, true, false, &mut full, &mut thirty));
    assert_eq!((full, thirty), (255, 30));
    assert!(toc_parsing::stop_decision(true, false, true, false, &mut full, &mut thirty));
    assert_eq!(thirty, 31);
}

#[test]
fn stop_looks_at_the_line() {
    let patterns = TocPatterns::compile();
    let mut empty: u8 = 4;
    let mut without: u8 = 9;
    assert!(toc_parsing::should_stop_parsing(&patterns, "", true, &mut empty, &mut without));
    let mut run: u8 = 4;
    let paged = "1. One .... 4";
    assert!(!toc_parsing::should_stop_parsing(&patterns, paged, true, &mut run, &mut without));
    assert_eq!((run, without), (0, 0));
    assert!(!toc_parsing::should_stop_parsing(&patterns, "  1. One", true, &mut run, &mut without));
    assert!(!toc_parsing::should_stop_parsing(&patterns, "1. One", false, &mut run, &mut without));
    assert_eq!((run, without), (0, 1));
}

#[test]
fn body_heading_ends_the_toc() {
    let patterns = TocPatterns::compile();
    let mut empty: u8 = 0;
    let mut without: u8 = 0;
    let heading = "1. Introduction";
    assert!(toc_parsing::should_stop_parsing(&patterns, heading, true, &mut empty, &mut without));
    assert_eq!((empty, without), (0, 0));
    // The indented line of the body would pass for a row.
    let content = "Contents\n  1. One\n\n1. One\n  2. Two\n\n2. Two\n";
    assert_eq!(listed(&toc_parsing::parse_toc(content)), expected(&[("1. One", 3)]));
}

#[test]
fn unindented_rows_with_page_numbers_are_rows() {
    let content = "Contents\n1. One......2\n2. Two .. 3\n\n1. One\n\n2. Two\n";
    assert_eq!(
        listed(&toc_parsing::parse_toc(content)),
        expected(&[("1. One", 4), ("2. Two", 6)])
    );
    let other_digits = "Contents\n1. One .. ٤\n2. Two .. ٥\n\n1. One\n\n2. Two\n";
    assert_eq!(
        listed(&toc_parsing::parse_toc(other_digits)),
        expected(&[("1. One", 4), ("2. Two", 6)])
    );
}

#[test]
fn page_numbers_stand_behind_dots() {
    let patterns = TocPatterns::compile();
    for line in [
        "1. Introduction..................5",
        "A .. 12",
        "..\u{a0}7",
        "x...  007",
        "..\n5",
        "1. A .. ٥",
        "1. A ..１２",
    ] {
        assert!(toc_parsing::ends_in_page_number(&patterns, line), "{line}");
    }
    for line in ["", "5", ". 5", "1. Introduction", "A .. 12 ", "A .. 1 2", "A .. x5", "A ..", "..a 5", "..5\n", "..Ⅴ"] {
        assert!(!toc_parsing::ends_in_page_number(&patterns, line), "{line}");
    }
}

#[test]
fn heuristic_picks_headings() {
    let content = "ABSTRACT\n\nSome text\n1. Intro  \nCAPS AFTER\n2 No Dot here. x\nABC\n";
    assert_eq!(
        listed(&toc_parsing::parse_toc(content)),
        expected(&[("ABSTRACT", 0), ("1. Intro", 3)])
    );
}

#[test]
fn headings_are_classified() {
    let kind = |line: &str| toc_parsing::classify_heading(line, &line.to_uppercase());
    assert_eq!(kind("1. Intro"), HeadingKind::Section);
    assert_eq!(kind("1.2.3 Deep"), HeadingKind::Section);
    assert_eq!(kind("1 Intro."), HeadingKind::Other);
    assert_eq!(kind("12 INTRO"), HeadingKind::Capitals);
    assert_eq!(kind("STATUS"), HeadingKind::Capitals);
    assert_eq!(kind("ABC"), HeadingKind::Other);
    assert_eq!(kind("ÄÖ"), HeadingKind::Capitals);
    assert_eq!(kind("ßßß"), HeadingKind::Other);
    assert_eq!(kind("Status"), HeadingKind::Other);
    assert_eq!(kind(""), HeadingKind::Other);
}

#[test]
fn documents_without_headings_have_no_toc() {
    assert!(toc_parsing::parse_toc("").is_empty());
    assert!(toc_parsing::parse_toc("just text\nand more\n").is_empty());
    let panel = TocPanel::new("just text\n");
    assert_eq!(panel.state(), ListState { selected: None, offset: 0 });
    assert_eq!(panel.selected_line(), None);
}

#[test]
fn selection_moves_between_entries() {
    let mut panel = TocPanel::new(WITH_TOC);
    assert_eq!(panel.entries().len(), 3);
    assert_eq!(panel.selected_line(), Some(8));
    panel.previous();
    assert_eq!(panel.selected_line(), Some(8));
    panel.next();
    panel.next();
    assert_eq!(panel.selected_line(), Some(16));
    panel.next();
    assert_eq!(panel.state().selected, Some(3));
    assert_eq!(panel.selected_line(), None);
    panel.set_state(ListState { selected: Some(2), offset: 1 });
    assert_eq!(panel.selected_line(), Some(16));
    panel.next();
    panel.previous();
    assert_eq!(panel.state(), ListState { selected: Some(2), offset: 1 });
}

#[test]
fn nothing_is_selected_by_default() {
    let mut panel = TocPanel::default();
    panel.next();
    panel.previous();
    assert_eq!(panel.state().selected, None);
    let entry = TocEntry::default();
    assert_eq!((entry.title.as_str(), entry.line_number), ("", 0));
    let copy = TocEntry { title: String::from("t"), line_number: 4 }.clone();
    assert_eq!((copy.title.as_str(), copy.line_number), ("t", 4));
}

#[test]
fn title_lines_are_looked_up() {
    let panel = TocPanel::new(WITH_TOC);
    let titles: Vec<usize> = (0..20).filter(|line| panel.is_title_line(*line)).collect();
    assert_eq!(titles, vec![8, 12, 16]);
}

#[test]
fn entries_are_sorted_by_appearance() {
    // The rows come in another order than their sections.
    let content = "Contents\n 2. Two\n 1. One\n 3. Three\n\n1. One\n2. Two\n3. Three\n";
    assert_eq!(
        listed(&toc_parsing::parse_toc(content)),
        expected(&[("2. Two", 6), ("1. One", 5), ("3. Three", 7)])
    );
    let panel = TocPanel::new(content);
    assert_eq!(
        listed(panel.entries()),
        expected(&[("1. One", 5), ("2. Two", 6), ("3. Three", 7)])
    );
    for line in 0..9 {
        assert_eq!(panel.is_title_line(line), [5, 6, 7].contains(&line));
    }
}

#[test]
fn sorting_keeps_the_order_within_a_line() {
    let entry = |title: &str, line_number: usize| TocEntry { title: String::from(title), line_number };
    let sorted = toc_panel::sort_by_line(vec![entry("b", 4), entry("a", 2), entry("c", 4), entry("d", 1)]);
    assert_eq!(listed(&sorted), expected(&[("d", 1), ("a", 2), ("b", 4), ("c", 4)]));
    assert!(toc_panel::sort_by_line(Vec::new()).is_empty());
}

#[test]
fn toc_behind_the_end_is_empty() {
    let patterns = TocPatterns::compile();
    let lines = vec!["  1. One", "1. One"];
    assert!(toc_parsing::extract_toc_entries(&patterns, &lines, 2).is_empty());
    assert!(toc_parsing::extract_toc_entries(&patterns, &lines, 9).is_empty());
    assert_eq!(toc_parsing::extract_toc_entries(&patterns, &lines, 0).len(), 1);
    assert!(toc_parsing::try_extract_entry(&patterns, "  1. One", &lines, usize::MAX).is_none());
    // The row is the one that is given, whatever stands at the index.
    let entry = toc_parsing::try_extract_entry(&patterns, "1. On", &lines, 0);
    assert_eq!(entry.map(|entry| entry.line_number), Some(1));
}

#[test]
fn titles_are_wrapped_to_the_panel() {
    let panel = TocPanel::new("1. Some long title\n2. B\n");
    let wrapped = panel.wrapped_titles(14);
    assert_eq!(wrapped, vec![vec!["1. Some", "long title"], vec!["2. B"]]);
    let wide = panel.wrapped_titles(80);
    assert_eq!(wide, vec![vec!["1. Some long title"], vec!["2. B"]]);
    // No columns are left: every piece is as short as it gets.
    assert_eq!(panel.wrapped_titles(3)[1], panel.wrapped_titles(4)[1]);
}
