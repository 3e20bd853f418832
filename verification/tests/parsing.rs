use paf::data::{AlignmentType, CigarColumn, DifferenceColumn, PAFLine};
use paf::error::Error;
use paf::input::{parse_alignment_difference, parse_cigar, parse_column, parse_input_str, parse_line, parse_usize_str};

fn minimal_line() -> &'static str {
    "q1\t100\t0\t50\t+\tt1\t200\t10\t60\t40\t50\t60"
}

#[test]
fn operations_grammar_decodes() {
    let text = "10M2D5M";
    let mut position = 0usize;
    let cigar = parse_cigar(text, &mut position).unwrap();
    assert_eq!(
        cigar.0,
        vec![CigarColumn::Match(10), CigarColumn::Deletion(2), CigarColumn::Match(5)]
    );
    assert_eq!(position, text.len());
}

#[test]
fn operations_grammar_rejects_missing_code() {
    let text = "10M2";
    let mut position = 0usize;
    let result = parse_cigar(text, &mut position);
    assert!(matches!(result, Err(Error::MalformedCigar)));
}

#[test]
fn differences_grammar_decodes() {
    let text = ":5-ac+gt*ag";
    let mut position = 0usize;
    let difference = parse_alignment_difference(text, &mut position).unwrap();
    assert_eq!(
        difference.0,
        vec![
            DifferenceColumn::Match { length: 5 },
            DifferenceColumn::Deletion { missing_query_characters: "ac".to_string() },
            DifferenceColumn::Insertion { superfluous_query_characters: "gt".to_string() },
            DifferenceColumn::Mismatch { reference: 'a', query: 'g' },
        ]
    );
}

#[test]
fn differences_grammar_rejects_short_substitution() {
    let text = "*a";
    let mut position = 0usize;
    let result = parse_alignment_difference(text, &mut position);
    assert!(matches!(result, Err(Error::MalformedAlignmentDifference)));
}

#[test]
fn minimal_line_has_no_optional_fields() {
    let mut position = 0usize;
    let record = parse_line(minimal_line(), &mut position).unwrap();
    assert_eq!(record.query_sequence_name, "q1");
    assert_eq!(record.query_sequence_length, 100);
    assert_eq!(record.query_start_coordinate, 0);
    assert_eq!(record.query_end_coordinate, 50);
    assert!(record.strand);
    assert_eq!(record.target_sequence_name, "t1");
    assert_eq!(record.target_sequence_length, 200);
    assert_eq!(record.target_start_coordinate_on_original_strand, 10);
    assert_eq!(record.target_end_coordinate_on_original_strand, 60);
    assert_eq!(record.number_of_matching_bases, 40);
    assert_eq!(record.number_of_bases_and_gaps, 50);
    assert_eq!(record.mapping_quality, 60);
    assert!(record.alignment_type.is_none());
    assert!(record.cigar_string.is_none());
    assert!(record.difference_string.is_none());
    assert!(record.unknown_fields.is_empty());
    // re-serializing gives exactly the original twelve columns back
    assert_eq!(record.to_paf_string(), minimal_line());
}

#[test]
fn round_trip_preserves_fields() {
    let text = format!(
        "{}\ttp:A:P\tcm:i:7\tNM:i:3\tcg:Z:10M2D5M\tcs:Z::5-ac+gt*ag\tdv:f:0.01",
        minimal_line()
    );
    let mut position = 0usize;
    let record = parse_line(text.as_str(), &mut position).unwrap();
    assert_eq!(record.alignment_type, Some(AlignmentType::Primary));
    assert_eq!(record.number_of_minimisers, Some(7));
    assert_eq!(record.total_number_of_mismatches_and_gaps, Some(3));
    assert_eq!(record.approximate_per_base_sequence_divergence, Some("0.01".to_string()));
    let rendered = record.to_paf_string();
    let mut position = 0usize;
    let again = parse_line(rendered.as_str(), &mut position).unwrap();
    assert_eq!(again, record);
}

#[test]
fn two_lines_parse_in_order() {
    let text = format!("{}\n{}\n", minimal_line(), minimal_line());
    let records = parse_input_str(text.as_str()).unwrap();
    assert_eq!(records.len(), 2);
    assert_eq!(records[0], records[1]);
}

#[test]
fn empty_input_yields_no_records() {
    let records = parse_input_str("").unwrap();
    assert!(records.is_empty());
}

#[test]
fn missing_columns_end_of_file() {
    let mut position = 0usize;
    let result = parse_line("q1\t100\t0", &mut position);
    assert!(matches!(result, Err(Error::ColumnParseError) | Err(Error::UnexpectedEndOfFile)));
    let mut position = 0usize;
    let result = parse_line("q1\t100\t0\t50\t+\tt1\t200\t10", &mut position);
    assert!(matches!(result, Err(Error::UnexpectedEndOfFile)));
}

#[test]
fn missing_columns_end_of_line() {
    let mut position = 0usize;
    let result = parse_line("q1\t100\t0\t50\t+\tt1\n", &mut position);
    assert!(matches!(result, Err(Error::UnexpectedEndOfLine)));
}

#[test]
fn bad_strand_is_rejected() {
    let mut position = 0usize;
    let result = parse_line("q1\t100\t0\t50\tx\tt1\t200\t10\t60\t40\t50\t60", &mut position);
    assert!(matches!(result, Err(Error::UnexpectedCharacter)));
}

#[test]
fn unknown_tag_is_kept_verbatim() {
    let text = format!("{}\tzz:i:42\tcm:i:7", minimal_line());
    let mut position = 0usize;
    let record = parse_line(text.as_str(), &mut position).unwrap();
    assert_eq!(record.unknown_fields, vec!["zz:i:42".to_string()]);
    assert_eq!(record.number_of_minimisers, Some(7));
}

#[test]
fn malformed_number_tag_is_column_parse_error() {
    let text = format!("{}\tcm:i:abc", minimal_line());
    let mut position = 0usize;
    let result = parse_line(text.as_str(), &mut position);
    assert!(matches!(result, Err(Error::ColumnParseError)));
}

#[test]
fn parse_usize_rejects_overflow_and_signs() {
    assert_eq!(parse_usize_str("12345"), Some(12345));
    assert_eq!(parse_usize_str(""), None);
    assert_eq!(parse_usize_str("+5"), None);
    assert_eq!(parse_usize_str("184467440737095516160"), None);
}

#[test]
fn parse_column_consumes_tabs() {
    let text = "abc\tdef\nrest";
    let mut position = 0usize;
    let field = parse_column(text, &mut position, false).unwrap();
    assert_eq!(field, "abc");
    assert_eq!(position, 4);
    let result = parse_column(text, &mut position, false);
    assert!(matches!(result, Err(Error::UnexpectedEndOfLine)));
    let field = parse_column(text, &mut position, true).unwrap();
    assert_eq!(field, "def");
    assert_eq!(position, 7);
}

#[test]
fn zero_length_runs_are_rejected() {
    let mut position = 0usize;
    assert!(matches!(parse_cigar("0M", &mut position), Err(Error::MalformedCigar)));
    let mut position = 0usize;
    assert!(matches!(
        parse_alignment_difference(":0", &mut position),
        Err(Error::MalformedAlignmentDifference)
    ));
    let mut position = 0usize;
    assert!(matches!(
        parse_alignment_difference("+", &mut position),
        Err(Error::MalformedAlignmentDifference)
    ));
}

#[test]
fn bad_run_lengths_are_rejected() {
    let mut position = 0usize;
    assert!(matches!(parse_cigar("M", &mut position), Err(Error::MalformedCigar)));
    let mut position = 0usize;
    assert!(matches!(parse_cigar("xM", &mut position), Err(Error::MalformedCigar)));
    let mut position = 0usize;
    assert!(matches!(
        parse_alignment_difference(":x", &mut position),
        Err(Error::MalformedAlignmentDifference)
    ));
}

#[test]
fn parse_column_error_leaves_cursor() {
    let text = "abc";
    let mut position = 0usize;
    let result = parse_column(text, &mut position, false);
    assert!(matches!(result, Err(Error::UnexpectedEndOfFile)));
    assert_eq!(position, 0);
}
