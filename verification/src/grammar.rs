use vstd::prelude::*;

use crate::data::{AlignmentType, CigarColumn, DiffEntry, LineModel};
use crate::error::ErrorModel;

verus! {

// ---------------------------------------------------------------------------
// Character classes
// ---------------------------------------------------------------------------

/// A character ending a column: a tab ends the column, a newline ends the line.
pub open spec fn is_field_delimiter(c: char) -> bool {
    c == '\t' || c == '\n'
}

/// A character coding a CIGAR operation.
pub open spec fn is_cigar_operation(c: char) -> bool {
    c == 'M' || c == 'D' || c == 'I' || c == 'X'
}

/// A character starting an alignment difference entry.
pub open spec fn is_difference_marker(c: char) -> bool {
    c == ':' || c == '-' || c == '+' || c == '*'
}

/// An ASCII decimal digit.
pub open spec fn is_ascii_digit(c: char) -> bool {
    48 <= c as int && c as int <= 57
}

// ---------------------------------------------------------------------------
// Scanning for the next character of a class
// ---------------------------------------------------------------------------

/// How many characters lie strictly before the first field delimiter at or
/// after position `i`, counted from `i`; the delimiter itself is not counted.
/// If no delimiter follows, counts to the end of the sequence.
pub open spec fn delimiter_offset(s: Seq<char>, i: int) -> nat
    decreases s.len() - i,
{
    if i >= s.len() || is_field_delimiter(s[i]) {
        0
    } else {
        1 + delimiter_offset(s, i + 1)
    }
}

/// The position of the first field delimiter at or after `i`, or the length
/// of the sequence if none follows.
pub open spec fn scan_delimiter(s: Seq<char>, i: int) -> int {
    i + delimiter_offset(s, i)
}

/// How many characters lie strictly before the first CIGAR operation code at
/// or after position `i`, counting at most up to `limit`.
pub open spec fn cigar_op_offset(s: Seq<char>, i: int, limit: int) -> nat
    decreases limit - i,
{
    if i >= limit || is_cigar_operation(s[i]) {
        0
    } else {
        1 + cigar_op_offset(s, i + 1, limit)
    }
}

/// The position of the first CIGAR operation code in `[i, limit)`, or
/// `limit` if there is none.
pub open spec fn scan_cigar_op(s: Seq<char>, i: int, limit: int) -> int {
    i + cigar_op_offset(s, i, limit)
}

/// How many characters lie strictly before the first difference marker at or
/// after position `i`, counting at most up to `limit`.
pub open spec fn difference_marker_offset(s: Seq<char>, i: int, limit: int) -> nat
    decreases limit - i,
{
    if i >= limit || is_difference_marker(s[i]) {
        0
    } else {
        1 + difference_marker_offset(s, i + 1, limit)
    }
}

/// The position of the first difference marker in `[i, limit)`, or `limit`
/// if there is none.
pub open spec fn scan_difference_marker(s: Seq<char>, i: int, limit: int) -> int {
    i + difference_marker_offset(s, i, limit)
}

/// A delimiter scan does not run past the end of the sequence.
pub proof fn lemma_scan_delimiter_le(s: Seq<char>, i: int)
    requires
        i <= s.len(),
    ensures
        scan_delimiter(s, i) <= s.len(),
    decreases s.len() - i,
{
    if i < s.len() && !is_field_delimiter(s[i]) {
        lemma_scan_delimiter_le(s, i + 1);
    }
}

/// A difference marker scan does not run past its limit.
pub proof fn lemma_scan_difference_marker_le(s: Seq<char>, i: int, limit: int)
    requires
        i <= limit,
    ensures
        scan_difference_marker(s, i, limit) <= limit,
    decreases limit - i,
{
    if i < limit && !is_difference_marker(s[i]) {
        lemma_scan_difference_marker_le(s, i + 1, limit);
    }
}

/// What `scan_delimiter` returns: the first delimiter position at or after
/// `i`, or the end of the sequence when no delimiter follows.
pub proof fn lemma_scan_delimiter(s: Seq<char>, i: int)
    requires
        0 <= i <= s.len(),
    ensures
        i <= scan_delimiter(s, i) <= s.len(),
        forall|j: int| i <= j < scan_delimiter(s, i) ==> !is_field_delimiter(s[j]),
        scan_delimiter(s, i) < s.len() ==> is_field_delimiter(s[scan_delimiter(s, i)]),
    decreases s.len() - i,
{
    if i < s.len() && !is_field_delimiter(s[i]) {
        lemma_scan_delimiter(s, i + 1);
    }
}

/// What `scan_cigar_op` returns: the first operation code in `[i, limit)`,
/// or `limit` when the range holds none.
pub proof fn lemma_scan_cigar_op(s: Seq<char>, i: int, limit: int)
    requires
        0 <= i <= limit <= s.len(),
    ensures
        i <= scan_cigar_op(s, i, limit) <= limit,
        forall|j: int| i <= j < scan_cigar_op(s, i, limit) ==> !is_cigar_operation(s[j]),
        scan_cigar_op(s, i, limit) < limit ==> is_cigar_operation(s[scan_cigar_op(s, i, limit)]),
    decreases limit - i,
{
    if i < limit && !is_cigar_operation(s[i]) {
        lemma_scan_cigar_op(s, i + 1, limit);
    }
}

/// What `scan_difference_marker` returns: the first marker in `[i, limit)`,
/// or `limit` when the range holds none.
pub proof fn lemma_scan_difference_marker(s: Seq<char>, i: int, limit: int)
    requires
        0 <= i <= limit <= s.len(),
    ensures
        i <= scan_difference_marker(s, i, limit) <= limit,
        forall|j: int| i <= j < scan_difference_marker(s, i, limit) ==> !is_difference_marker(s[j]),
        scan_difference_marker(s, i, limit) < limit ==> is_difference_marker(
            s[scan_difference_marker(s, i, limit)],
        ),
    decreases limit - i,
{
    if i < limit && !is_difference_marker(s[i]) {
        lemma_scan_difference_marker(s, i + 1, limit);
    }
}

// ---------------------------------------------------------------------------
// Unsigned decimal numbers
// ---------------------------------------------------------------------------

/// The numeric value of an ASCII digit.
pub open spec fn digit_value(c: char) -> int {
    c as int - 48
}

/// Whether every character of `s` is an ASCII digit.
pub open spec fn all_digits(s: Seq<char>) -> bool {
    forall|j: int| 0 <= j < s.len() ==> is_ascii_digit(s[j])
}

/// The number written in decimal by `s`, read as a digit string.
pub open spec fn digits_value(s: Seq<char>) -> int
    decreases s.len(),
{
    if s.len() == 0 {
        0
    } else {
        10 * digits_value(s.drop_last()) + digit_value(s.last())
    }
}

/// A digit string denotes a number only if it is non-empty and all digits.
pub open spec fn is_number(s: Seq<char>) -> bool {
    s.len() > 0 && all_digits(s)
}

/// The value of `s` read as a `usize`: the digits' value when `s` is a
/// number that fits, absent otherwise.
pub open spec fn spec_parse_usize(s: Seq<char>) -> Option<usize> {
    if is_number(s) && digits_value(s) <= usize::MAX {
        Some(digits_value(s) as usize)
    } else {
        None
    }
}

/// The value of `s` read as a `u8`: the digits' value when `s` is a number
/// that fits, absent otherwise.
pub open spec fn spec_parse_u8(s: Seq<char>) -> Option<u8> {
    if is_number(s) && digits_value(s) <= u8::MAX {
        Some(digits_value(s) as u8)
    } else {
        None
    }
}

/// The character writing the digit `d`.
pub open spec fn digit_char(d: int) -> char {
    if d == 0 {
        '0'
    } else if d == 1 {
        '1'
    } else if d == 2 {
        '2'
    } else if d == 3 {
        '3'
    } else if d == 4 {
        '4'
    } else if d == 5 {
        '5'
    } else if d == 6 {
        '6'
    } else if d == 7 {
        '7'
    } else if d == 8 {
        '8'
    } else {
        '9'
    }
}

/// The decimal writing of `n`, without sign or leading zeros.
pub open spec fn render_number(n: int) -> Seq<char>
    decreases n,
{
    if n <= 9 {
        seq![digit_char(n)]
    } else {
        render_number(n / 10).push(digit_char(n % 10))
    }
}

/// A nonnegative digit string has a nonnegative value.
pub proof fn lemma_digits_value_nonnegative(s: Seq<char>)
    requires
        all_digits(s),
    ensures
        digits_value(s) >= 0,
    decreases s.len(),
{
    if s.len() > 0 {
        assert(all_digits(s.drop_last()));
        lemma_digits_value_nonnegative(s.drop_last());
    }
}

/// The decimal writing of a nonnegative number is a digit string with no
/// other characters, and reads back as the number itself.
pub proof fn lemma_render_number(n: int)
    requires
        0 <= n,
    ensures
        render_number(n).len() >= 1,
        all_digits(render_number(n)),
        digits_value(render_number(n)) == n,
    decreases n,
{
    if n <= 9 {
        let whole = render_number(n);
        assert(whole =~= seq![digit_char(n)]);
        assert(whole.drop_last() =~= Seq::<char>::empty());
        assert(whole.last() == digit_char(n));
        assert(digit_value(digit_char(n)) == n);
        assert(digits_value(whole) == 10 * digits_value(whole.drop_last()) + digit_value(
            whole.last(),
        ));
    } else {
        lemma_render_number(n / 10);
        let prefix = render_number(n / 10);
        let whole = prefix.push(digit_char(n % 10));
        assert(whole.drop_last() =~= prefix);
        assert(whole.last() == digit_char(n % 10));
        assert(digit_value(digit_char(n % 10)) == n % 10);
        assert(digits_value(whole) == 10 * (n / 10) + n % 10);
    }
}

// ---------------------------------------------------------------------------
// Fields
// ---------------------------------------------------------------------------

/// The text of one column starting at `i` and its end: the characters up to
/// the next tab or newline, and the position just after a consumed tab, or at
/// an unconsumed newline or the end of input.  When the column ends the line
/// and `allow_end` is false, the missing tab is an error.
pub open spec fn spec_take_field(s: Seq<char>, i: int, allow_end: bool) -> Result<
    (Seq<char>, int),
    ErrorModel,
> {
    let e = scan_delimiter(s, i);
    if e >= s.len() {
        if allow_end {
            Ok((s.subrange(i, s.len() as int), s.len() as int))
        } else {
            Err(ErrorModel::UnexpectedEndOfFile)
        }
    } else if s[e] == '\n' {
        if allow_end {
            Ok((s.subrange(i, e), e))
        } else {
            Err(ErrorModel::UnexpectedEndOfLine)
        }
    } else {
        Ok((s.subrange(i, e), e + 1))
    }
}

/// The raw value of an optional column starting at `i`, and the position
/// after it: the text up to the next tab or newline; a tab is consumed, a
/// newline or the end of input is not.
pub open spec fn spec_extract_value(s: Seq<char>, i: int) -> (Seq<char>, int) {
    let e = scan_delimiter(s, i);
    (s.subrange(i, e), if e < s.len() && s[e] == '\t' {
        e + 1
    } else {
        e
    })
}

/// A required column read as a name: any text up to the next tab.
pub open spec fn spec_req_text(s: Seq<char>, i: int) -> Result<(Seq<char>, int), ErrorModel> {
    spec_take_field(s, i, false)
}

/// A required column read as an unsigned number.
pub open spec fn spec_req_number(s: Seq<char>, i: int) -> Result<(usize, int), ErrorModel> {
    match spec_take_field(s, i, false) {
        Err(e) => Err(e),
        Ok((field, next)) => match spec_parse_usize(field) {
            Some(value) => Ok((value, next)),
            None => Err(ErrorModel::ColumnParseError),
        },
    }
}

/// The strand column: exactly `+` (forward) or `-` (reverse).
pub open spec fn spec_req_strand(s: Seq<char>, i: int) -> Result<(bool, int), ErrorModel> {
    match spec_take_field(s, i, false) {
        Err(e) => Err(e),
        Ok((field, next)) => if field.len() == 1 && field[0] == '+' {
            Ok((true, next))
        } else if field.len() == 1 && field[0] == '-' {
            Ok((false, next))
        } else {
            Err(ErrorModel::UnexpectedCharacter)
        },
    }
}

/// The mapping quality column: an unsigned number in byte range, allowed to
/// end the line.
pub open spec fn spec_req_quality(s: Seq<char>, i: int) -> Result<(u8, int), ErrorModel> {
    match spec_take_field(s, i, true) {
        Err(e) => Err(e),
        Ok((field, next)) => match spec_parse_u8(field) {
            Some(value) => Ok((value, next)),
            None => Err(ErrorModel::ColumnParseError),
        },
    }
}

// ---------------------------------------------------------------------------
// Optional column tags
// ---------------------------------------------------------------------------

/// The recognized optional column tags.
#[derive(Clone, Copy, Debug, Eq, PartialEq, Structural)]
pub enum TagKind {
    /// `tp:A:`, the type of the alignment.
    Tp,
    /// `cm:i:`, the number of minimisers.
    Cm,
    /// `s1:i:`, the chaining score.
    S1,
    /// `s2:i:`, the chaining score of the best secondary chain.
    S2,
    /// `NM:i:`, the total number of mismatches and gaps.
    Nm,
    /// `MD:Z:`, kept verbatim.
    Md,
    /// `AS:i:`, the dynamic programming alignment score.
    As,
    /// `SA:Z:`, supplementary alignments.
    Sa,
    /// `ms:i:`, the dynamic programming score of the best segment.
    Ms,
    /// `nn:i:`, the number of ambiguous bases.
    Nn,
    /// `ts:A:`, the transcript strand.
    Ts,
    /// `cg:Z:`, the CIGAR string.
    Cg,
    /// `cs:Z:`, the difference string.
    Cs,
    /// `dv:f:`, the approximate per-base sequence divergence.
    Dv,
    /// `de:f:`, the gap-compressed per-base sequence divergence.
    De,
    /// `rl:i:`, the length of the query regions with repetitive seeds.
    Rl,
}

/// The five header characters of a tag.
pub open spec fn tag_header_chars(tag: TagKind) -> Seq<char> {
    match tag {
        TagKind::Tp => seq!['t', 'p', ':', 'A', ':'],
        TagKind::Cm => seq!['c', 'm', ':', 'i', ':'],
        TagKind::S1 => seq!['s', '1', ':', 'i', ':'],
        TagKind::S2 => seq!['s', '2', ':', 'i', ':'],
        TagKind::Nm => seq!['N', 'M', ':', 'i', ':'],
        TagKind::Md => seq!['M', 'D', ':', 'Z', ':'],
        TagKind::As => seq!['A', 'S', ':', 'i', ':'],
        TagKind::Sa => seq!['S', 'A', ':', 'Z', ':'],
        TagKind::Ms => seq!['m', 's', ':', 'i', ':'],
        TagKind::Nn => seq!['n', 'n', ':', 'i', ':'],
        TagKind::Ts => seq!['t', 's', ':', 'A', ':'],
        TagKind::Cg => seq!['c', 'g', ':', 'Z', ':'],
        TagKind::Cs => seq!['c', 's', ':', 'Z', ':'],
        TagKind::Dv => seq!['d', 'v', ':', 'f', ':'],
        TagKind::De => seq!['d', 'e', ':', 'f', ':'],
        TagKind::Rl => seq!['r', 'l', ':', 'i', ':'],
    }
}

/// The tag whose header starts at position `i`, if the five characters there
/// match a recognized header.
pub open spec fn header_tag(s: Seq<char>, i: int) -> Option<TagKind> {
    if s[i + 2] == ':' && s[i + 4] == ':' {
        let a = s[i];
        let b = s[i + 1];
        let t = s[i + 3];
        if a == 't' && b == 'p' && t == 'A' {
            Some(TagKind::Tp)
        } else if a == 'c' && b == 'm' && t == 'i' {
            Some(TagKind::Cm)
        } else if a == 's' && b == '1' && t == 'i' {
            Some(TagKind::S1)
        } else if a == 's' && b == '2' && t == 'i' {
            Some(TagKind::S2)
        } else if a == 'N' && b == 'M' && t == 'i' {
            Some(TagKind::Nm)
        } else if a == 'M' && b == 'D' && t == 'Z' {
            Some(TagKind::Md)
        } else if a == 'A' && b == 'S' && t == 'i' {
            Some(TagKind::As)
        } else if a == 'S' && b == 'A' && t == 'Z' {
            Some(TagKind::Sa)
        } else if a == 'm' && b == 's' && t == 'i' {
            Some(TagKind::Ms)
        } else if a == 'n' && b == 'n' && t == 'i' {
            Some(TagKind::Nn)
        } else if a == 't' && b == 's' && t == 'A' {
            Some(TagKind::Ts)
        } else if a == 'c' && b == 'g' && t == 'Z' {
            Some(TagKind::Cg)
        } else if a == 'c' && b == 's' && t == 'Z' {
            Some(TagKind::Cs)
        } else if a == 'd' && b == 'v' && t == 'f' {
            Some(TagKind::Dv)
        } else if a == 'd' && b == 'e' && t == 'f' {
            Some(TagKind::De)
        } else if a == 'r' && b == 'l' && t == 'i' {
            Some(TagKind::Rl)
        } else {
            None
        }
    } else {
        None
    }
}

/// Whether a tag's value is a generic unsigned number.
pub open spec fn is_number_tag(tag: TagKind) -> bool {
    match tag {
        TagKind::Cm | TagKind::S1 | TagKind::S2 | TagKind::Nm | TagKind::As | TagKind::Ms
        | TagKind::Nn | TagKind::Rl => true,
        _ => false,
    }
}

/// Whether a tag's value is verbatim text.
pub open spec fn is_text_tag(tag: TagKind) -> bool {
    match tag {
        TagKind::Md | TagKind::Sa | TagKind::Ts | TagKind::Dv | TagKind::De => true,
        _ => false,
    }
}

/// The decoded value of one recognized optional column.
pub enum TagValue {
    /// The value of a number tag.
    UInt(usize),
    /// The value of a text tag.
    Text(Seq<char>),
    /// The value of the `tp:A:` tag.
    AType(AlignmentType),
    /// The value of the `cg:Z:` tag.
    Ops(Seq<CigarColumn>),
    /// The value of the `cs:Z:` tag.
    Diffs(Seq<DiffEntry>),
}

/// The model with the slot of `tag` set to `value`, when the value's kind
/// belongs to the tag; the model unchanged otherwise.
pub open spec fn slot_set(m: LineModel, tag: TagKind, value: TagValue) -> LineModel {
    match (tag, value) {
        (TagKind::Tp, TagValue::AType(v)) => LineModel { alignment_type: Some(v), ..m },
        (TagKind::Cm, TagValue::UInt(v)) => LineModel { number_of_minimisers: Some(v), ..m },
        (TagKind::S1, TagValue::UInt(v)) => LineModel { chaining_score: Some(v), ..m },
        (TagKind::S2, TagValue::UInt(v)) => LineModel {
            best_secondary_chaining_score: Some(v),
            ..m
        },
        (TagKind::Nm, TagValue::UInt(v)) => LineModel {
            total_number_of_mismatches_and_gaps: Some(v),
            ..m
        },
        (TagKind::Md, TagValue::Text(v)) => LineModel { unknown_md: Some(v), ..m },
        (TagKind::As, TagValue::UInt(v)) => LineModel { dp_alignment_score: Some(v), ..m },
        (TagKind::Sa, TagValue::Text(v)) => LineModel { supplementary_alignments: Some(v), ..m },
        (TagKind::Ms, TagValue::UInt(v)) => LineModel { best_segment_dp_score: Some(v), ..m },
        (TagKind::Nn, TagValue::UInt(v)) => LineModel { number_of_ambiguous_bases: Some(v), ..m },
        (TagKind::Ts, TagValue::Text(v)) => LineModel { transcript_strand: Some(v), ..m },
        (TagKind::Cg, TagValue::Ops(v)) => LineModel { cigar_string: Some(v), ..m },
        (TagKind::Cs, TagValue::Diffs(v)) => LineModel { difference_string: Some(v), ..m },
        (TagKind::Dv, TagValue::Text(v)) => LineModel {
            approximate_per_base_sequence_divergence: Some(v),
            ..m
        },
        (TagKind::De, TagValue::Text(v)) => LineModel {
            gap_compressed_per_base_sequence_divergence: Some(v),
            ..m
        },
        (TagKind::Rl, TagValue::UInt(v)) => LineModel {
            length_of_query_regions_with_repetitive_seeds: Some(v),
            ..m
        },
        _ => m,
    }
}

/// The value stored in the slot of `tag`, if any.
pub open spec fn slot_get(m: LineModel, tag: TagKind) -> Option<TagValue> {
    match tag {
        TagKind::Tp => match m.alignment_type {
            Some(v) => Some(TagValue::AType(v)),
            None => None,
        },
        TagKind::Cm => match m.number_of_minimisers {
            Some(v) => Some(TagValue::UInt(v)),
            None => None,
        },
        TagKind::S1 => match m.chaining_score {
            Some(v) => Some(TagValue::UInt(v)),
            None => None,
        },
        TagKind::S2 => match m.best_secondary_chaining_score {
            Some(v) => Some(TagValue::UInt(v)),
            None => None,
        },
        TagKind::Nm => match m.total_number_of_mismatches_and_gaps {
            Some(v) => Some(TagValue::UInt(v)),
            None => None,
        },
        TagKind::Md => match m.unknown_md {
            Some(v) => Some(TagValue::Text(v)),
            None => None,
        },
        TagKind::As => match m.dp_alignment_score {
            Some(v) => Some(TagValue::UInt(v)),
            None => None,
        },
        TagKind::Sa => match m.supplementary_alignments {
            Some(v) => Some(TagValue::Text(v)),
            None => None,
        },
        TagKind::Ms => match m.best_segment_dp_score {
            Some(v) => Some(TagValue::UInt(v)),
            None => None,
        },
        TagKind::Nn => match m.number_of_ambiguous_bases {
            Some(v) => Some(TagValue::UInt(v)),
            None => None,
        },
        TagKind::Ts => match m.transcript_strand {
            Some(v) => Some(TagValue::Text(v)),
            None => None,
        },
        TagKind::Cg => match m.cigar_string {
            Some(v) => Some(TagValue::Ops(v)),
            None => None,
        },
        TagKind::Cs => match m.difference_string {
            Some(v) => Some(TagValue::Diffs(v)),
            None => None,
        },
        TagKind::Dv => match m.approximate_per_base_sequence_divergence {
            Some(v) => Some(TagValue::Text(v)),
            None => None,
        },
        TagKind::De => match m.gap_compressed_per_base_sequence_divergence {
            Some(v) => Some(TagValue::Text(v)),
            None => None,
        },
        TagKind::Rl => match m.length_of_query_regions_with_repetitive_seeds {
            Some(v) => Some(TagValue::UInt(v)),
            None => None,
        },
    }
}

// ---------------------------------------------------------------------------
// The nested grammars
// ---------------------------------------------------------------------------

/// The alignment type written by code character `c`, if `c` is a code.
pub open spec fn alignment_type_of_code(c: char) -> Option<AlignmentType> {
    if c == 'P' {
        Some(AlignmentType::Primary)
    } else if c == 'S' {
        Some(AlignmentType::Secondary)
    } else if c == 'I' {
        Some(AlignmentType::PrimaryInversion)
    } else if c == 'i' {
        Some(AlignmentType::SecondaryInversion)
    } else {
        None
    }
}

/// The code character of an alignment type.
pub open spec fn alignment_type_code(t: AlignmentType) -> char {
    match t {
        AlignmentType::Primary => 'P',
        AlignmentType::Secondary => 'S',
        AlignmentType::PrimaryInversion => 'I',
        AlignmentType::SecondaryInversion => 'i',
    }
}

/// The run length of a CIGAR column.
pub open spec fn cigar_length(column: CigarColumn) -> usize {
    match column {
        CigarColumn::Match(length) => length,
        CigarColumn::Insertion(length) => length,
        CigarColumn::Deletion(length) => length,
        CigarColumn::Mismatch(length) => length,
    }
}

/// The operation code character of a CIGAR column.
pub open spec fn cigar_op_char(column: CigarColumn) -> char {
    match column {
        CigarColumn::Match(_) => 'M',
        CigarColumn::Insertion(_) => 'I',
        CigarColumn::Deletion(_) => 'D',
        CigarColumn::Mismatch(_) => 'X',
    }
}

/// The CIGAR column coded by operation character `op` with run length
/// `length`.
pub open spec fn cigar_column_of(op: char, length: usize) -> CigarColumn {
    if op == 'M' {
        CigarColumn::Match(length)
    } else if op == 'D' {
        CigarColumn::Deletion(length)
    } else if op == 'I' {
        CigarColumn::Insertion(length)
    } else {
        CigarColumn::Mismatch(length)
    }
}




/// The CIGAR columns coded in `s` between `i` and `limit`, appended to
/// `acc`: each entry is a positive run length followed by an operation code.
pub open spec fn spec_parse_cigar_entries(
    s: Seq<char>,
    i: int,
    limit: int,
    acc: Seq<CigarColumn>,
) -> Result<Seq<CigarColumn>, ErrorModel>
    decreases limit - i,
{
    if i >= limit {
        Ok(acc)
    } else {
        let p = scan_cigar_op(s, i, limit);
        if p >= limit {
            Err(ErrorModel::MalformedCigar)
        } else {
            let count = s.subrange(i, p);
            if is_number(count) && 0 < digits_value(count) && digits_value(count) <= usize::MAX {
                spec_parse_cigar_entries(
                    s,
                    p + 1,
                    limit,
                    acc.push(cigar_column_of(s[p], digits_value(count) as usize)),
                )
            } else {
                Err(ErrorModel::MalformedCigar)
            }
        }
    }
}

/// The difference entries coded in `s` between `i` and `limit`, appended to
/// `acc`: each entry is a marker followed by its payload, which runs to the
/// next marker or to `limit`.
pub open spec fn spec_parse_difference_entries(
    s: Seq<char>,
    i: int,
    limit: int,
    acc: Seq<DiffEntry>,
) -> Result<Seq<DiffEntry>, ErrorModel>
    decreases limit - i,
{
    if i >= limit {
        Ok(acc)
    } else {
        let marker = s[i];
        let pend = scan_difference_marker(s, i + 1, limit);
        let payload = s.subrange(i + 1, pend);
        proof {
            lemma_scan_difference_marker_le(s, i + 1, limit);
        }
        if marker == ':' {
            if is_number(payload) && 0 < digits_value(payload) && digits_value(payload)
                <= usize::MAX {
                spec_parse_difference_entries(
                    s,
                    pend,
                    limit,
                    acc.push(DiffEntry::Match { length: digits_value(payload) as usize }),
                )
            } else {
                Err(ErrorModel::MalformedAlignmentDifference)
            }
        } else if marker == '-' {
            if payload.len() > 0 {
                spec_parse_difference_entries(
                    s,
                    pend,
                    limit,
                    acc.push(DiffEntry::Deletion { chars: payload }),
                )
            } else {
                Err(ErrorModel::MalformedAlignmentDifference)
            }
        } else if marker == '+' {
            if payload.len() > 0 {
                spec_parse_difference_entries(
                    s,
                    pend,
                    limit,
                    acc.push(DiffEntry::Insertion { chars: payload }),
                )
            } else {
                Err(ErrorModel::MalformedAlignmentDifference)
            }
        } else if marker == '*' {
            if payload.len() == 2 {
                spec_parse_difference_entries(
                    s,
                    pend,
                    limit,
                    acc.push(DiffEntry::Mismatch { reference: payload[0], query: payload[1] }),
                )
            } else {
                Err(ErrorModel::MalformedAlignmentDifference)
            }
        } else {
            Err(ErrorModel::MalformedAlignmentDifference)
        }
    }
}

// ---------------------------------------------------------------------------
// The optional column dispatcher
// ---------------------------------------------------------------------------

/// The decoded value of the column of `tag` whose value text spans
/// `[value_start, value_end)`.
pub open spec fn spec_decode_value(
    tag: TagKind,
    s: Seq<char>,
    value_start: int,
    value_end: int,
) -> Result<TagValue, ErrorModel> {
    if is_number_tag(tag) {
        let value = s.subrange(value_start, value_end);
        if is_number(value) && digits_value(value) <= usize::MAX {
            Ok(TagValue::UInt(digits_value(value) as usize))
        } else {
            Err(ErrorModel::ColumnParseError)
        }
    } else if is_text_tag(tag) {
        Ok(TagValue::Text(s.subrange(value_start, value_end)))
    } else if tag is Tp {
        if value_end - value_start == 1 && alignment_type_of_code(s[value_start]) is Some {
            Ok(TagValue::AType(alignment_type_of_code(s[value_start]).unwrap()))
        } else {
            Err(ErrorModel::UnexpectedCharacter)
        }
    } else if tag is Cg {
        match spec_parse_cigar_entries(s, value_start, value_end, Seq::empty()) {
            Ok(columns) => Ok(TagValue::Ops(columns)),
            Err(e) => Err(e),
        }
    } else {
        match spec_parse_difference_entries(s, value_start, value_end, Seq::empty()) {
            Ok(entries) => Ok(TagValue::Diffs(entries)),
            Err(e) => Err(e),
        }
    }
}

/// One pass of the optional column dispatcher over the rest of the line,
/// starting from model `acc`: at a newline or the end of input the record is
/// complete; otherwise five header characters select a decoder, a recognized
/// column fills its slot, and an unrecognized column is kept verbatim.
pub open spec fn spec_dispatch(s: Seq<char>, i: int, acc: LineModel) -> Result<
    (LineModel, int),
    ErrorModel,
>
    decreases s.len() - i,
{
    if i >= s.len() {
        Ok((acc, i))
    } else if s[i] == '\n' {
        Ok((acc, i + 1))
    } else if s.len() - i < 6 {
        Err(ErrorModel::UnexpectedCharacter)
    } else {
        let value_start = i + 5;
        let value_end = scan_delimiter(s, value_start);
        let next = if value_end < s.len() && s[value_end] == '\t' {
            value_end + 1
        } else {
            value_end
        };
        proof {
            lemma_scan_delimiter_le(s, value_start);
        }
        match header_tag(s, i) {
            Some(tag) => match spec_decode_value(tag, s, value_start, value_end) {
                Ok(value) => spec_dispatch(s, next, slot_set(acc, tag, value)),
                Err(e) => Err(e),
            },
            None => spec_dispatch(
                s,
                next,
                LineModel {
                    unknown_fields: acc.unknown_fields.push(s.subrange(i, value_end)),
                    ..acc
                },
            ),
        }
    }
}

// ---------------------------------------------------------------------------
// Whole lines
// ---------------------------------------------------------------------------

/// The model of a line whose required columns hold the given values and
/// whose optional columns are all absent.
pub open spec fn initial_line_model(
    query_sequence_name: Seq<char>,
    query_sequence_length: usize,
    query_start_coordinate: usize,
    query_end_coordinate: usize,
    strand: bool,
    target_sequence_name: Seq<char>,
    target_sequence_length: usize,
    target_start_coordinate_on_original_strand: usize,
    target_end_coordinate_on_original_strand: usize,
    number_of_matching_bases: usize,
    number_of_bases_and_gaps: usize,
    mapping_quality: u8,
) -> LineModel {
    LineModel {
        query_sequence_name,
        query_sequence_length,
        query_start_coordinate,
        query_end_coordinate,
        strand,
        target_sequence_name,
        target_sequence_length,
        target_start_coordinate_on_original_strand,
        target_end_coordinate_on_original_strand,
        number_of_matching_bases,
        number_of_bases_and_gaps,
        mapping_quality,
        alignment_type: None,
        number_of_minimisers: None,
        chaining_score: None,
        best_secondary_chaining_score: None,
        total_number_of_mismatches_and_gaps: None,
        unknown_md: None,
        dp_alignment_score: None,
        supplementary_alignments: None,
        best_segment_dp_score: None,
        number_of_ambiguous_bases: None,
        transcript_strand: None,
        cigar_string: None,
        difference_string: None,
        approximate_per_base_sequence_divergence: None,
        gap_compressed_per_base_sequence_divergence: None,
        length_of_query_regions_with_repetitive_seeds: None,
        unknown_fields: Seq::empty(),
    }
}

/// The record coded by the line starting at position `i`, and the position
/// just past it: twelve required columns in fixed order, then the optional
/// columns up to a newline or the end of input.
pub open spec fn spec_parse_line(s: Seq<char>, i: int) -> Result<(LineModel, int), ErrorModel> {
    match spec_req_text(s, i) {
        Err(e) => Err(e),
        Ok((query_sequence_name, i1)) => match spec_req_number(s, i1) {
            Err(e) => Err(e),
            Ok((query_sequence_length, i2)) => match spec_req_number(s, i2) {
                Err(e) => Err(e),
                Ok((query_start_coordinate, i3)) => match spec_req_number(s, i3) {
                    Err(e) => Err(e),
                    Ok((query_end_coordinate, i4)) => match spec_req_strand(s, i4) {
                        Err(e) => Err(e),
                        Ok((strand, i5)) => match spec_req_text(s, i5) {
                            Err(e) => Err(e),
                            Ok((target_sequence_name, i6)) => match spec_req_number(s, i6) {
                                Err(e) => Err(e),
                                Ok((target_sequence_length, i7)) => match spec_req_number(s, i7) {
                                    Err(e) => Err(e),
                                    Ok((target_start, i8)) => match spec_req_number(s, i8) {
                                        Err(e) => Err(e),
                                        Ok((target_end, i9)) => match spec_req_number(s, i9) {
                                            Err(e) => Err(e),
                                            Ok((matching_bases, i10)) => match spec_req_number(
                                                s,
                                                i10,
                                            ) {
                                                Err(e) => Err(e),
                                                Ok((bases_and_gaps, i11)) => match spec_req_quality(
                                                    s,
                                                    i11,
                                                ) {
                                                    Err(e) => Err(e),
                                                    Ok((mapping_quality, i12)) => spec_dispatch(
                                                        s,
                                                        i12,
                                                        initial_line_model(
                                                            query_sequence_name,
                                                            query_sequence_length,
                                                            query_start_coordinate,
                                                            query_end_coordinate,
                                                            strand,
                                                            target_sequence_name,
                                                            target_sequence_length,
                                                            target_start,
                                                            target_end,
                                                            matching_bases,
                                                            bases_and_gaps,
                                                            mapping_quality,
                                                        ),
                                                    ),
                                                },
                                            },
                                        },
                                    },
                                },
                            },
                        },
                    },
                },
            },
        },
    }
}

/// The dispatcher never moves backwards and never runs past the input.
pub proof fn lemma_spec_dispatch_bounds(s: Seq<char>, i: int, acc: LineModel)
    requires
        0 <= i <= s.len(),
    ensures
        (match spec_dispatch(s, i, acc) {
            Ok(r) => i <= r.1 <= s.len(),
            Err(_) => true,
        }),
    decreases s.len() - i,
{
    if i >= s.len() || s[i] == '\n' || s.len() - i < 6 {
    } else {
        let value_start = i + 5;
        let value_end = scan_delimiter(s, value_start);
        lemma_scan_delimiter(s, value_start);
        let next = if value_end < s.len() && s[value_end] == '\t' {
            value_end + 1
        } else {
            value_end
        };
        match header_tag(s, i) {
            Some(tag) => match spec_decode_value(tag, s, value_start, value_end) {
                Ok(value) => lemma_spec_dispatch_bounds(s, next, slot_set(acc, tag, value)),
                Err(_) => {},
            },
            None => lemma_spec_dispatch_bounds(
                s,
                next,
                LineModel {
                    unknown_fields: acc.unknown_fields.push(s.subrange(i, value_end)),
                    ..acc
                },
            ),
        }
    }
}

/// A successful line parse always advances, and never runs past the input.
#[verifier::rlimit(100)]
pub proof fn lemma_spec_parse_line_advances(s: Seq<char>, i: int)
    requires
        0 <= i <= s.len(),
    ensures
        (match spec_parse_line(s, i) {
            Ok(r) => i < r.1 <= s.len(),
            Err(_) => true,
        }),
{
    lemma_scan_delimiter(s, i);
    if spec_req_text(s, i) is Ok {
        let i1 = spec_req_text(s, i)->Ok_0.1;
        assert(i < i1 <= s.len());
        lemma_take_field_bounds(s, i1);
        if spec_req_number(s, i1) is Ok {
            let i2 = spec_req_number(s, i1)->Ok_0.1;
            lemma_take_field_bounds(s, i2);
            if spec_req_number(s, i2) is Ok {
                let i3 = spec_req_number(s, i2)->Ok_0.1;
                lemma_take_field_bounds(s, i3);
                if spec_req_number(s, i3) is Ok {
                    let i4 = spec_req_number(s, i3)->Ok_0.1;
                    lemma_take_field_bounds(s, i4);
                    if spec_req_strand(s, i4) is Ok {
                        let i5 = spec_req_strand(s, i4)->Ok_0.1;
                        lemma_take_field_bounds(s, i5);
                        if spec_req_text(s, i5) is Ok {
                            let i6 = spec_req_text(s, i5)->Ok_0.1;
                            lemma_take_field_bounds(s, i6);
                            if spec_req_number(s, i6) is Ok {
                                let i7 = spec_req_number(s, i6)->Ok_0.1;
                                lemma_take_field_bounds(s, i7);
                                if spec_req_number(s, i7) is Ok {
                                    let i8 = spec_req_number(s, i7)->Ok_0.1;
                                    lemma_take_field_bounds(s, i8);
                                    if spec_req_number(s, i8) is Ok {
                                        let i9 = spec_req_number(s, i8)->Ok_0.1;
                                        lemma_take_field_bounds(s, i9);
                                        if spec_req_number(s, i9) is Ok {
                                            let i10 = spec_req_number(s, i9)->Ok_0.1;
                                            lemma_take_field_bounds(s, i10);
                                            if spec_req_number(s, i10) is Ok {
                                                let i11 = spec_req_number(s, i10)->Ok_0.1;
                                                lemma_take_field_bounds(s, i11);
                                                if spec_req_quality(s, i11) is Ok {
                                                    let i12 = spec_req_quality(s, i11)->Ok_0.1;
                                                    lemma_spec_dispatch_bounds_any(s, i12);
                                                }
                                            }
                                        }
                                    }
                                }
                            }
                        }
                    }
                }
            }
        }
    }
}

/// A field taken at a position within the input ends within the input, past
/// its start.
pub proof fn lemma_take_field_bounds(s: Seq<char>, i: int)
    requires
        0 <= i <= s.len(),
    ensures
        (match spec_take_field(s, i, false) {
            Ok(r) => i < r.1 <= s.len(),
            Err(_) => true,
        }),
        (match spec_take_field(s, i, true) {
            Ok(r) => i <= r.1 <= s.len(),
            Err(_) => true,
        }),
{
    lemma_scan_delimiter(s, i);
}

/// The dispatcher bound, for every model.
pub proof fn lemma_spec_dispatch_bounds_any(s: Seq<char>, i: int)
    requires
        0 <= i <= s.len(),
    ensures
        forall|acc: LineModel|
            (match #[trigger] spec_dispatch(s, i, acc) {
                Ok(r) => i <= r.1 <= s.len(),
                Err(_) => true,
            }),
{
    assert forall|acc: LineModel|
        (match #[trigger] spec_dispatch(s, i, acc) {
            Ok(r) => i <= r.1 <= s.len(),
            Err(_) => true,
        }) by {
        lemma_spec_dispatch_bounds(s, i, acc);
    }
}

/// The position at which the dispatcher continues after the column whose
/// header starts at `i`: past the value and past a trailing tab.
pub open spec fn dispatch_next(s: Seq<char>, i: int) -> int {
    let value_end = scan_delimiter(s, i + 5);
    if value_end < s.len() && s[value_end] == '\t' {
        value_end + 1
    } else {
        value_end
    }
}

/// One dispatcher step over a recognized column whose value decodes.
pub proof fn lemma_dispatch_recognized(
    s: Seq<char>,
    i: int,
    acc: LineModel,
    tag: TagKind,
    value: TagValue,
)
    requires
        0 <= i,
        i + 6 <= s.len(),
        s[i] != '\n',
        header_tag(s, i) == Some(tag),
        spec_decode_value(tag, s, i + 5, scan_delimiter(s, i + 5)) == Ok::<_, ErrorModel>(value),
    ensures
        spec_dispatch(s, i, acc) == spec_dispatch(s, dispatch_next(s, i), slot_set(acc, tag, value)),
{
}

/// One dispatcher step over a recognized column whose value does not decode.
pub proof fn lemma_dispatch_recognized_err(
    s: Seq<char>,
    i: int,
    acc: LineModel,
    tag: TagKind,
    e: ErrorModel,
)
    requires
        0 <= i,
        i + 6 <= s.len(),
        s[i] != '\n',
        header_tag(s, i) == Some(tag),
        spec_decode_value(tag, s, i + 5, scan_delimiter(s, i + 5)) == Err::<TagValue, _>(e),
    ensures
        spec_dispatch(s, i, acc) == Err::<(LineModel, int), _>(e),
{
}

/// One dispatcher step over an unrecognized column, kept verbatim.
pub proof fn lemma_dispatch_unknown(s: Seq<char>, i: int, acc: LineModel)
    requires
        0 <= i,
        i + 6 <= s.len(),
        s[i] != '\n',
        header_tag(s, i) is None,
    ensures
        spec_dispatch(s, i, acc) == spec_dispatch(
            s,
            dispatch_next(s, i),
            LineModel {
                unknown_fields: acc.unknown_fields.push(s.subrange(i, scan_delimiter(s, i + 5))),
                ..acc
            },
        ),
{
}

/// Unfolds a whole successful pass over the twelve required columns: the
/// line parse continues as the dispatcher from the position after the
/// mapping quality, on the model holding the twelve values.
#[verifier::rlimit(100)]
pub proof fn lemma_spec_parse_line_unfold(
    s: Seq<char>,
    i0: int,
    query_sequence_name: Seq<char>,
    i1: int,
    query_sequence_length: usize,
    i2: int,
    query_start_coordinate: usize,
    i3: int,
    query_end_coordinate: usize,
    i4: int,
    strand: bool,
    i5: int,
    target_sequence_name: Seq<char>,
    i6: int,
    target_sequence_length: usize,
    i7: int,
    target_start: usize,
    i8: int,
    target_end: usize,
    i9: int,
    matching_bases: usize,
    i10: int,
    bases_and_gaps: usize,
    i11: int,
    mapping_quality: u8,
    i12: int,
)
    requires
        spec_req_text(s, i0) == Ok::<_, ErrorModel>((query_sequence_name, i1)),
        spec_req_number(s, i1) == Ok::<_, ErrorModel>((query_sequence_length, i2)),
        spec_req_number(s, i2) == Ok::<_, ErrorModel>((query_start_coordinate, i3)),
        spec_req_number(s, i3) == Ok::<_, ErrorModel>((query_end_coordinate, i4)),
        spec_req_strand(s, i4) == Ok::<_, ErrorModel>((strand, i5)),
        spec_req_text(s, i5) == Ok::<_, ErrorModel>((target_sequence_name, i6)),
        spec_req_number(s, i6) == Ok::<_, ErrorModel>((target_sequence_length, i7)),
        spec_req_number(s, i7) == Ok::<_, ErrorModel>((target_start, i8)),
        spec_req_number(s, i8) == Ok::<_, ErrorModel>((target_end, i9)),
        spec_req_number(s, i9) == Ok::<_, ErrorModel>((matching_bases, i10)),
        spec_req_number(s, i10) == Ok::<_, ErrorModel>((bases_and_gaps, i11)),
        spec_req_quality(s, i11) == Ok::<_, ErrorModel>((mapping_quality, i12)),
    ensures
        spec_parse_line(s, i0) == spec_dispatch(
            s,
            i12,
            initial_line_model(
                query_sequence_name,
                query_sequence_length,
                query_start_coordinate,
                query_end_coordinate,
                strand,
                target_sequence_name,
                target_sequence_length,
                target_start,
                target_end,
                matching_bases,
                bases_and_gaps,
                mapping_quality,
            ),
        ),
{
}

// ---------------------------------------------------------------------------
// Serialization
// ---------------------------------------------------------------------------

/// The character rendering a strand.
pub open spec fn render_strand(strand: bool) -> Seq<char> {
    if strand {
        seq!['+']
    } else {
        seq!['-']
    }
}

/// The text rendering a CIGAR string: each column as its run length followed
/// by its operation code.
pub open spec fn render_cigar(columns: Seq<CigarColumn>) -> Seq<char>
    decreases columns.len(),
{
    if columns.len() == 0 {
        Seq::empty()
    } else {
        render_number(cigar_length(columns[0]) as int).push(cigar_op_char(columns[0]))
            + render_cigar(columns.drop_first())
    }
}

/// The text rendering one alignment difference entry: its marker followed by
/// its payload.
pub open spec fn render_difference_entry(entry: DiffEntry) -> Seq<char> {
    match entry {
        DiffEntry::Match { length } => seq![':'] + render_number(length as int),
        DiffEntry::Insertion { chars } => seq!['+'] + chars,
        DiffEntry::Deletion { chars } => seq!['-'] + chars,
        DiffEntry::Mismatch { reference, query } => seq!['*', reference, query],
    }
}

/// The text rendering an alignment difference string.
pub open spec fn render_difference(entries: Seq<DiffEntry>) -> Seq<char>
    decreases entries.len(),
{
    if entries.len() == 0 {
        Seq::empty()
    } else {
        render_difference_entry(entries[0]) + render_difference(entries.drop_first())
    }
}

/// The text rendering the value of one recognized optional column.
pub open spec fn render_value(value: TagValue) -> Seq<char> {
    match value {
        TagValue::UInt(n) => render_number(n as int),
        TagValue::Text(t) => t,
        TagValue::AType(a) => seq![alignment_type_code(a)],
        TagValue::Ops(columns) => render_cigar(columns),
        TagValue::Diffs(entries) => render_difference(entries),
    }
}

/// The fixed order in which present optional columns are written: first the
/// columns whose order in minimap2 output is known, then the rest in manual
/// page order, with the two nested grammars last among those before `dv:f:`.
pub open spec fn emit_order() -> Seq<TagKind> {
    seq![
        TagKind::Nm,
        TagKind::Ms,
        TagKind::As,
        TagKind::Nn,
        TagKind::Tp,
        TagKind::Cm,
        TagKind::S1,
        TagKind::S2,
        TagKind::De,
        TagKind::Rl,
        TagKind::Md,
        TagKind::Sa,
        TagKind::Ts,
        TagKind::Cg,
        TagKind::Cs,
        TagKind::Dv,
    ]
}

/// The text written for the present optional columns from place `k` of the
/// emission order on, each preceded by a tab.
pub open spec fn render_tail_from(m: LineModel, k: int) -> Seq<char>
    decreases 16 - k,
{
    if k < 0 || k >= 16 {
        Seq::empty()
    } else {
        match slot_get(m, emit_order()[k]) {
            Some(value) => seq!['\t'] + tag_header_chars(emit_order()[k]) + render_value(value)
                + render_tail_from(m, k + 1),
            None => render_tail_from(m, k + 1),
        }
    }
}

/// The text written for the present optional columns from place `k` on, as
/// the dispatcher sees it: the first present column starts immediately, the
/// later ones are preceded by tabs.
pub open spec fn render_rest_from(m: LineModel, k: int) -> Seq<char>
    decreases 16 - k,
{
    if k < 0 || k >= 16 {
        Seq::empty()
    } else {
        match slot_get(m, emit_order()[k]) {
            Some(value) => tag_header_chars(emit_order()[k]) + render_value(value)
                + render_tail_from(m, k + 1),
            None => render_rest_from(m, k + 1),
        }
    }
}

/// The text of the twelve required columns, tab-separated, without a
/// trailing delimiter.
pub open spec fn render_required(m: LineModel) -> Seq<char> {
    m.query_sequence_name + seq!['\t'] + render_number(m.query_sequence_length as int)
        + seq!['\t'] + render_number(m.query_start_coordinate as int) + seq!['\t']
        + render_number(m.query_end_coordinate as int) + seq!['\t'] + render_strand(m.strand)
        + seq!['\t'] + m.target_sequence_name + seq!['\t'] + render_number(
        m.target_sequence_length as int,
    ) + seq!['\t'] + render_number(m.target_start_coordinate_on_original_strand as int)
        + seq!['\t'] + render_number(m.target_end_coordinate_on_original_strand as int)
        + seq!['\t'] + render_number(m.number_of_matching_bases as int) + seq!['\t']
        + render_number(m.number_of_bases_and_gaps as int) + seq!['\t'] + render_number(
        m.mapping_quality as int,
    )
}

/// The text of a whole line: the required columns, then the present optional
/// columns in emission order, without a trailing newline.  Unrecognized
/// columns that were kept verbatim are not written.
pub open spec fn spec_serialize_line(m: LineModel) -> Seq<char> {
    render_required(m) + render_tail_from(m, 0)
}

// ---------------------------------------------------------------------------
// Well-formedness
// ---------------------------------------------------------------------------

/// Text that fits in one column: no tab, no newline.
pub open spec fn text_wf(s: Seq<char>) -> bool {
    forall|j: int| 0 <= j < s.len() ==> !is_field_delimiter(s[j])
}

/// A well-formed optional text value: absent, or non-empty column text.
pub open spec fn optional_text_wf(value: Option<Seq<char>>) -> bool {
    match value {
        Some(s) => s.len() > 0 && text_wf(s),
        None => true,
    }
}

/// A well-formed CIGAR string: every run length is positive.
pub open spec fn cigar_wf(columns: Seq<CigarColumn>) -> bool {
    forall|j: int| 0 <= j < columns.len() ==> cigar_length(#[trigger] columns[j]) >= 1
}

/// A character allowed inside an alignment difference payload: not a marker,
/// not a delimiter.
pub open spec fn difference_char_wf(c: char) -> bool {
    !is_difference_marker(c) && !is_field_delimiter(c)
}

/// A well-formed alignment difference entry: positive match runs, non-empty
/// literal runs, payload characters that neither end the column nor start
/// another entry.
pub open spec fn difference_entry_wf(entry: DiffEntry) -> bool {
    match entry {
        DiffEntry::Match { length } => length >= 1,
        DiffEntry::Insertion { chars } => chars.len() > 0 && (forall|j: int|
            0 <= j < chars.len() ==> difference_char_wf(chars[j])),
        DiffEntry::Deletion { chars } => chars.len() > 0 && (forall|j: int|
            0 <= j < chars.len() ==> difference_char_wf(chars[j])),
        DiffEntry::Mismatch { reference, query } => difference_char_wf(reference)
            && difference_char_wf(query),
    }
}

/// A well-formed alignment difference string.
pub open spec fn difference_wf(entries: Seq<DiffEntry>) -> bool {
    forall|j: int| 0 <= j < entries.len() ==> difference_entry_wf(#[trigger] entries[j])
}

/// A line model that serializes to a line the parser reads back: names and
/// text values fit in one column, present text values and nested grammars
/// are non-empty, run lengths are positive, and difference payloads hold no
/// marker or delimiter characters.
pub open spec fn line_wf(m: LineModel) -> bool {
    &&& text_wf(m.query_sequence_name)
    &&& text_wf(m.target_sequence_name)
    &&& optional_text_wf(m.unknown_md)
    &&& optional_text_wf(m.supplementary_alignments)
    &&& optional_text_wf(m.transcript_strand)
    &&& optional_text_wf(m.approximate_per_base_sequence_divergence)
    &&& optional_text_wf(m.gap_compressed_per_base_sequence_divergence)
    &&& (match m.cigar_string {
        Some(columns) => columns.len() > 0 && cigar_wf(columns),
        None => true,
    })
    &&& (match m.difference_string {
        Some(entries) => entries.len() > 0 && difference_wf(entries),
        None => true,
    })
}

/// The records coded by the input from position `i` on: lines are parsed in
/// order until the input is exhausted, and the first failure is the result.
pub open spec fn spec_parse_all(s: Seq<char>, i: int) -> Result<Seq<LineModel>, ErrorModel>
    decreases s.len() - i,
{
    if i < 0 || i >= s.len() {
        Ok(Seq::empty())
    } else {
        match spec_parse_line(s, i) {
            Err(e) => Err(e),
            Ok((record, next)) => {
                proof {
                    lemma_spec_parse_line_advances(s, i);
                }
                match spec_parse_all(s, next) {
                    Err(e) => Err(e),
                    Ok(rest) => Ok(seq![record] + rest),
                }
            },
        }
    }
}

} // verus!
