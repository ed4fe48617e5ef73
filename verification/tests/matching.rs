use aso_match::engine::{build_profiles, compute_distance, query_matches, MatchError};
use aso_match::metric::{score, Dist};
use aso_match::profile::{atgc_count, char_windows, match_filter, AsoProfile};
use aso_match::report::sort_matches;

fn row(name: &str, seq: &str) -> Vec<String> {
    vec![name.to_string(), seq.to_string()]
}

#[test]
fn every_metric_is_zero_on_identical_strings() {
    for m in [Dist::Hamming, Dist::Levenshtein, Dist::Sift3] {
        assert_eq!(0, score(m, "AATGC", "AATGC"));
        assert_eq!(0, score(m, "", ""));
        assert_eq!(0, score(m, "kitten", "kitten"));
    }
}

#[test]
fn hamming_counts_differing_positions() {
    assert_eq!(3, score(Dist::Hamming, "karolin", "kathrin"));
    assert_eq!(2, score(Dist::Hamming, "AATA", "AAAT"));
    assert_eq!(4, score(Dist::Hamming, "AAATT", "TTAAA"));
}

#[test]
fn levenshtein_counts_edits() {
    assert_eq!(3, score(Dist::Levenshtein, "kitten", "sitting"));
    assert_eq!(1, score(Dist::Levenshtein, "hannah", "hanna"));
    assert_eq!(4, score(Dist::Levenshtein, "", "ATGC"));
}

#[test]
fn sift3_score_is_the_bit_pattern_of_the_distance() {
    assert_eq!(0.5f32.to_bits() as u64, score(Dist::Sift3, "hannah", "hanna"));
    assert_eq!(2.5f32.to_bits() as u64, score(Dist::Sift3, "kitten", "sitting"));
    assert_eq!(1.0f32.to_bits() as u64, score(Dist::Sift3, "", "A"));
}

#[test]
fn sift3_scores_order_as_the_distances_do() {
    let small = score(Dist::Sift3, "hannah", "hanna");
    let mid = score(Dist::Sift3, "book", "back");
    let large = score(Dist::Sift3, "kitten", "sitting");
    assert!(small < mid);
    assert!(mid < large);
}

#[test]
fn composition_ignores_characters_outside_atgc() {
    assert_eq!([2, 1, 0, 0], atgc_count("AATX"));
    assert_eq!([0, 0, 0, 0], atgc_count("xyz"));
    assert_eq!([1, 1, 1, 1], atgc_count("ATGC"));
    let p = AsoProfile::new("q".to_string(), "AATX".to_string());
    assert_eq!(4, p.aso_len);
    assert_eq!([2, 1, 0, 0], p.atgc);
}

#[test]
fn composition_is_case_sensitive() {
    assert_eq!([1, 0, 0, 0], atgc_count("Aatgc"));
}

#[test]
fn profile_keeps_name_and_sequence() {
    let p = AsoProfile::new("testASO_001".to_string(), "ATTGC".to_string());
    assert_eq!("testASO_001", p.name);
    assert_eq!("ATTGC", p.seq);
    assert_eq!(5, p.aso_len);
    assert_eq!([1, 2, 1, 1], p.atgc);
    assert!(p.aso_names.is_empty());
}

#[test]
fn filter_rejects_unequal_length() {
    let q = AsoProfile::new("q".to_string(), "AAAA".to_string());
    let l = AsoProfile::new("l".to_string(), "AAAAA".to_string());
    assert!(!match_filter(&q, &l));
}

#[test]
fn filter_rejects_identical_sequence_with_different_name() {
    let q = AsoProfile::new("q".to_string(), "AATT".to_string());
    let l = AsoProfile::new("libA".to_string(), "AATT".to_string());
    assert!(!match_filter(&q, &l));
}

#[test]
fn filter_rejects_different_composition() {
    let q = AsoProfile::new("q".to_string(), "AATT".to_string());
    let l = AsoProfile::new("l".to_string(), "AAGG".to_string());
    assert!(!match_filter(&q, &l));
}

#[test]
fn filter_accepts_rearranged_sequence() {
    let q = AsoProfile::new("q".to_string(), "AATA".to_string());
    let l = AsoProfile::new("l".to_string(), "AAAT".to_string());
    assert!(match_filter(&q, &l));
}

#[test]
fn identical_and_unrelated_library_entries_yield_no_match() {
    let library = vec![row("libA", "AAAA"), row("libB", "AATT")];
    let queries = vec![row("q1", "AAAA")];
    let (qs, lib) = compute_distance(&library, &queries, Dist::Hamming).unwrap();
    assert_eq!(1, qs.len());
    assert_eq!(2, lib.len());
    assert!(qs[0].aso_names.is_empty());
}

#[test]
fn single_match_at_hamming_distance_two() {
    let library = vec![row("libA", "AAAT")];
    let queries = vec![row("q1", "AATA")];
    let (qs, lib) = compute_distance(&library, &queries, Dist::Hamming).unwrap();
    assert_eq!("q1", qs[0].name);
    assert_eq!("AATA", qs[0].seq);
    assert_eq!(vec![(0usize, 2u64)], qs[0].aso_names);
    assert_eq!("libA", lib[0].name);
    assert_eq!("AAAT", lib[0].seq);
}

#[test]
fn incomplete_query_row_aborts_the_run() {
    let library = vec![row("libA", "AAAT")];
    let queries = vec![vec!["q1".to_string()]];
    let r = compute_distance(&library, &queries, Dist::Hamming);
    assert!(matches!(r, Err(MatchError::IncompleteInputRow { row: 0 })));
}

#[test]
fn incomplete_library_row_aborts_the_run() {
    let library = vec![row("libA", "AAAT"), vec!["libB".to_string()]];
    let queries = vec![row("q1", "AATA")];
    let r = compute_distance(&library, &queries, Dist::Hamming);
    assert!(matches!(r, Err(MatchError::IncompleteLibraryRow { row: 1 })));
}

#[test]
fn first_incomplete_row_is_the_one_reported() {
    let rows = vec![row("a", "A"), Vec::new(), vec!["x".to_string()]];
    assert!(matches!(build_profiles(&rows), Err(1)));
}

#[test]
fn extra_fields_are_ignored() {
    let rows = vec![vec!["a".to_string(), "ATG".to_string(), "a note".to_string()]];
    let ps = build_profiles(&rows).unwrap();
    assert_eq!("a", ps[0].name);
    assert_eq!("ATG", ps[0].seq);
    assert_eq!(3, ps[0].aso_len);
    assert_eq!([1, 1, 1, 0], ps[0].atgc);
}

#[test]
fn tied_entries_keep_library_order() {
    let library = vec![row("libX", "AAAT"), row("libY", "ATAA")];
    let queries = vec![row("q1", "AATA")];
    let (qs, _) = compute_distance(&library, &queries, Dist::Hamming).unwrap();
    assert_eq!(vec![(0usize, 2u64), (1usize, 2u64)], qs[0].aso_names);
}

#[test]
fn matches_are_sorted_ascending_with_stable_ties() {
    let library = vec![row("far", "TTAAA"), row("near", "AATAT"), row("far2", "TATAA")];
    let queries = vec![row("q1", "AAATT")];
    let (qs, _) = compute_distance(&library, &queries, Dist::Hamming).unwrap();
    assert_eq!(vec![(1usize, 2u64), (0usize, 4u64), (2usize, 4u64)], qs[0].aso_names);
}

#[test]
fn filtered_entry_is_never_reported() {
    let library = vec![row("libA", "AAAA"), row("libB", "AAT"), row("libC", "AAAT")];
    let queries = vec![row("q1", "AATA")];
    let (qs, _) = compute_distance(&library, &queries, Dist::Hamming).unwrap();
    for (idx, _) in &qs[0].aso_names {
        assert_ne!(0, *idx);
        assert_ne!(1, *idx);
    }
    assert_eq!(vec![(2usize, 2u64)], qs[0].aso_names);
}

#[test]
fn sort_matches_is_stable_and_ascending() {
    let mut v = vec![(0usize, 5u64), (1, 3), (2, 5), (3, 1)];
    sort_matches(&mut v);
    assert_eq!(vec![(3usize, 1u64), (1, 3), (0, 5), (2, 5)], v);
}

#[test]
fn query_matches_appends_in_library_order() {
    let q = AsoProfile::new("q".to_string(), "AATA".to_string());
    let lib = build_profiles(&vec![row("l1", "AAAT"), row("l2", "TAAA")]).unwrap();
    let names = query_matches(&q, &lib, Dist::Hamming);
    assert_eq!(vec![(0usize, 2u64), (1usize, 2u64)], names);
}

#[test]
fn empty_sources_are_not_an_error() {
    let (qs, lib) = compute_distance(&Vec::new(), &vec![row("q1", "AAA")], Dist::Levenshtein)
        .unwrap();
    assert_eq!(1, qs.len());
    assert!(qs[0].aso_names.is_empty());
    assert!(lib.is_empty());
    let (qs2, lib2) = compute_distance(&vec![row("l", "AAA")], &Vec::new(), Dist::Levenshtein)
        .unwrap();
    assert!(qs2.is_empty());
    assert_eq!(1, lib2.len());
}

#[test]
fn char_windows_slides_over_characters() {
    let w: Vec<String> = char_windows("ATGC", 2);
    assert_eq!(vec!["AT".to_string(), "TG".to_string(), "GC".to_string()], w);
    let single: Vec<String> = char_windows("ATGC", 1);
    assert_eq!(vec!["A".to_string(), "T".to_string(), "G".to_string(), "C".to_string()], single);
    assert!(char_windows("AT", 3).is_empty());
}

#[test]
fn char_windows_handles_multibyte_characters() {
    let w: Vec<String> = char_windows("sägen", 2);
    assert_eq!(vec!["sä".to_string(), "äg".to_string(), "ge".to_string(), "en".to_string()], w);
}

#[test]
fn rendering_matches_the_fixed_width_format() {
    assert_eq!(
        format!("{:<10}\t{:<20}", "q1", "AATA"),
        aso_match::render::render_query_line("q1", "AATA")
    );
    assert_eq!(
        format!(
            "{:<10}\t{:<20}\t{:<10}\t{:<20}\t{}",
            "Input ASO", "Seq", "Matching ASO", "Seq", "Distance"
        ),
        aso_match::render::render_header_line()
    );
    assert_eq!(
        format!("{:<10}\t{:<20}\t{:<10}\t{:<20}\t{}", "", "", "libA", "AAAT", 2),
        aso_match::render::render_match_line("libA", "AAAT", "2")
    );
}

#[test]
fn decimal_text_of_scores() {
    assert_eq!("0", aso_match::render::format_u64(0));
    assert_eq!("2", aso_match::render::format_u64(2));
    assert_eq!("1234567890", aso_match::render::format_u64(1234567890));
    assert_eq!("18446744073709551615", aso_match::render::format_u64(u64::MAX));
}

#[test]
fn padding_is_left_aligned_and_never_truncates() {
    assert_eq!("ab        ", aso_match::render::pad_right("ab", 10));
    assert_eq!("abcdef", aso_match::render::pad_right("abcdef", 3));
}
