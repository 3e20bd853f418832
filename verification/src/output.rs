use vstd::prelude::*;
use vstd::string::StringExecFns;

use crate::data::{AlignmentDifference, AlignmentType, Cigar, CigarColumn, DifferenceColumn, PAFLine};
use crate::grammar::{
    alignment_type_code, cigar_length, cigar_op_char, digit_char, emit_order, render_cigar,
    render_difference, render_difference_entry, render_number, render_required, render_strand,
    render_tail_from, render_value, slot_get, spec_serialize_line, tag_header_chars, TagKind,
    TagValue,
};

verus! {

/// Relies on `String::push`: appends exactly the given character to the end
/// of the string.
#[verifier::external_body]
fn push_char(string: &mut String, c: char)
    ensures
        final(string)@ == old(string)@.push(c),
{
    string.push(c);
}

/// The text of one decimal digit.
fn digit_text(d: usize) -> (r: &'static str)
    requires
        d <= 9,
    ensures
        r@ == seq![digit_char(d as int)],
{
    proof {
        reveal_strlit("0");
        reveal_strlit("1");
        reveal_strlit("2");
        reveal_strlit("3");
        reveal_strlit("4");
        reveal_strlit("5");
        reveal_strlit("6");
        reveal_strlit("7");
        reveal_strlit("8");
        reveal_strlit("9");
        assert(("0")@ =~= seq!['0']);
        assert(("1")@ =~= seq!['1']);
        assert(("2")@ =~= seq!['2']);
        assert(("3")@ =~= seq!['3']);
        assert(("4")@ =~= seq!['4']);
        assert(("5")@ =~= seq!['5']);
        assert(("6")@ =~= seq!['6']);
        assert(("7")@ =~= seq!['7']);
        assert(("8")@ =~= seq!['8']);
        assert(("9")@ =~= seq!['9']);
    }
    if d == 0 {
        "0"
    } else if d == 1 {
        "1"
    } else if d == 2 {
        "2"
    } else if d == 3 {
        "3"
    } else if d == 4 {
        "4"
    } else if d == 5 {
        "5"
    } else if d == 6 {
        "6"
    } else if d == 7 {
        "7"
    } else if d == 8 {
        "8"
    } else {
        "9"
    }
}

/// The decimal writing of `n`, without sign or leading zeros.
pub fn render_number_string(n: usize) -> (r: String)
    ensures
        r@ == render_number(n as int),
    decreases n,
{
    if n <= 9 {
        digit_text(n).to_owned()
    } else {
        let mut prefix = render_number_string(n / 10);
        prefix.append(digit_text(n % 10));
        proof {
            assert(render_number((n / 10) as int).push(digit_char((n % 10) as int))
                =~= render_number((n / 10) as int) + seq![digit_char((n % 10) as int)]);
        }
        prefix
    }
}

impl AlignmentType {
    /// The one-character code written for this alignment type.
    pub fn code_text(&self) -> (r: &'static str)
        ensures
            r@ == seq![alignment_type_code(*self)],
    {
        proof {
            reveal_strlit("P");
            reveal_strlit("S");
            reveal_strlit("I");
            reveal_strlit("i");
            assert(("P")@ =~= seq!['P']);
            assert(("S")@ =~= seq!['S']);
            assert(("I")@ =~= seq!['I']);
            assert(("i")@ =~= seq!['i']);
        }
        match self {
            AlignmentType::Primary => "P",
            AlignmentType::Secondary => "S",
            AlignmentType::PrimaryInversion => "I",
            AlignmentType::SecondaryInversion => "i",
        }
    }
}

impl Cigar {
    /// Renders this CIGAR string as text: each column as its run length
    /// followed by its operation code.
    pub fn to_paf_string(&self) -> (r: String)
        ensures
            r@ == render_cigar(self@),
    {
        let ghost columns = self@;
        let mut out = String::new();
        let len = self.0.len();
        proof {
            assert(columns.subrange(0, len as int) =~= columns);
            assert(Seq::<char>::empty() + render_cigar(columns) =~= render_cigar(columns));
        }
        let mut k: usize = 0;
        while k < len
            invariant
                k <= len,
                len == self.0.len(),
                columns == self@,
                out@ + render_cigar(columns.subrange(k as int, len as int)) == render_cigar(
                    columns,
                ),
            decreases len - k,
        {
            let column = self.0[k];
            let (length, op) = match column {
                CigarColumn::Match(length) => (length, "M"),
                CigarColumn::Insertion(length) => (length, "I"),
                CigarColumn::Deletion(length) => (length, "D"),
                CigarColumn::Mismatch(length) => (length, "X"),
            };
            let number = render_number_string(length);
            out.append(number.as_str());
            out.append(op);
            proof {
                reveal_strlit("M");
                reveal_strlit("I");
                reveal_strlit("D");
                reveal_strlit("X");
                let rest = columns.subrange(k as int, len as int);
                assert(rest[0] == column);
                assert(rest.drop_first() =~= columns.subrange(k + 1 as int, len as int));
                assert(op@ =~= seq![cigar_op_char(column)]);
                assert(length == cigar_length(column));
                assert(render_cigar(rest) == render_number(length as int).push(
                    cigar_op_char(column),
                ) + render_cigar(columns.subrange(k + 1 as int, len as int)));
                assert(out@ + render_cigar(columns.subrange(k + 1 as int, len as int))
                    =~= render_cigar(columns));
            }
            k = k + 1;
        }
        proof {
            assert(columns.subrange(len as int, len as int) =~= Seq::<CigarColumn>::empty());
            assert(out@ =~= render_cigar(columns));
        }
        out
    }
}

impl AlignmentDifference {
    /// Renders this alignment difference string as text: each entry as its
    /// marker followed by its payload.
    pub fn to_paf_string(&self) -> (r: String)
        ensures
            r@ == render_difference(self@),
    {
        let ghost entries = self@;
        let mut out = String::new();
        let len = self.0.len();
        proof {
            assert(entries.subrange(0, len as int) =~= entries);
            assert(Seq::<char>::empty() + render_difference(entries) =~= render_difference(
                entries,
            ));
        }
        let mut k: usize = 0;
        while k < len
            invariant
                k <= len,
                len == self.0.len(),
                entries == self@,
                out@ + render_difference(entries.subrange(k as int, len as int))
                    == render_difference(entries),
            decreases len - k,
        {
            proof {
                reveal_strlit(":");
                reveal_strlit("+");
                reveal_strlit("-");
                reveal_strlit("*");
                let rest = entries.subrange(k as int, len as int);
                assert(rest[0] == self.0@[k as int]@);
                assert(rest.drop_first() =~= entries.subrange(k + 1 as int, len as int));
            }
            let ghost entry = self.0@[k as int]@;
            match &self.0[k] {
                DifferenceColumn::Match { length } => {
                    out.append(":");
                    let number = render_number_string(*length);
                    out.append(number.as_str());
                    assert(render_difference_entry(entry) =~= (":")@ + render_number(
                        *length as int,
                    ));
                },
                DifferenceColumn::Insertion { superfluous_query_characters } => {
                    out.append("+");
                    out.append(superfluous_query_characters.as_str());
                    assert(render_difference_entry(entry) =~= ("+")@
                        + superfluous_query_characters@);
                },
                DifferenceColumn::Deletion { missing_query_characters } => {
                    out.append("-");
                    out.append(missing_query_characters.as_str());
                    assert(render_difference_entry(entry) =~= ("-")@ + missing_query_characters@);
                },
                DifferenceColumn::Mismatch { reference, query } => {
                    out.append("*");
                    push_char(&mut out, *reference);
                    push_char(&mut out, *query);
                    assert(render_difference_entry(entry) =~= ("*")@.push(*reference).push(
                        *query,
                    ));
                },
            }
            proof {
                let rest = entries.subrange(k as int, len as int);
                assert(render_difference(rest) == render_difference_entry(entry)
                    + render_difference(entries.subrange(k + 1 as int, len as int)));
                assert(out@ + render_difference(entries.subrange(k + 1 as int, len as int))
                    =~= render_difference(entries));
            }
            k = k + 1;
        }
        proof {
            assert(entries.subrange(len as int, len as int)
                =~= Seq::<crate::data::DiffEntry>::empty());
            assert(out@ =~= render_difference(entries));
        }
        out
    }
}

impl PAFLine {
    /// Writes the twelve required columns, tab-separated, onto `out`.
    #[verifier::rlimit(100)]
    fn append_required(&self, out: &mut String)
        ensures
            final(out)@ == old(out)@ + render_required(self@),
    {
        let ghost m = self@;
        proof {
            reveal_strlit("\t");
            reveal_strlit("+");
            reveal_strlit("-");
        }
        out.append(self.query_sequence_name.as_str());
        out.append("\t");
        let number = render_number_string(self.query_sequence_length);
        out.append(number.as_str());
        out.append("\t");
        let number = render_number_string(self.query_start_coordinate);
        out.append(number.as_str());
        out.append("\t");
        let number = render_number_string(self.query_end_coordinate);
        out.append(number.as_str());
        out.append("\t");
        if self.strand {
            out.append("+");
        } else {
            out.append("-");
        }
        out.append("\t");
        out.append(self.target_sequence_name.as_str());
        out.append("\t");
        let number = render_number_string(self.target_sequence_length);
        out.append(number.as_str());
        out.append("\t");
        let number = render_number_string(self.target_start_coordinate_on_original_strand);
        out.append(number.as_str());
        out.append("\t");
        let number = render_number_string(self.target_end_coordinate_on_original_strand);
        out.append(number.as_str());
        out.append("\t");
        let number = render_number_string(self.number_of_matching_bases);
        out.append(number.as_str());
        out.append("\t");
        let number = render_number_string(self.number_of_bases_and_gaps);
        out.append(number.as_str());
        out.append("\t");
        let number = render_number_string(self.mapping_quality as usize);
        out.append(number.as_str());
        proof {
            assert(("\t")@ =~= seq!['\t']);
            assert(self.strand ==> ("+")@ =~= render_strand(m.strand));
            assert(!self.strand ==> ("-")@ =~= render_strand(m.strand));
            assert(out@ =~= old(out)@ + render_required(m));
        }
    }

    /// Writes the present optional columns at places 0 to 2 of the emission order onto `out`.
    #[verifier::rlimit(100)]
    fn append_tail_a(&self, out: &mut String)
        ensures
            old(out)@ + render_tail_from(self@, 0) == final(out)@ + render_tail_from(
                self@,
                3,
            ),
    {
        let ghost m = self@;
        assert(old(out)@ + render_tail_from(m, 0) =~= out@ + render_tail_from(m, 0));
        if let Some(value) = self.total_number_of_mismatches_and_gaps {
            out.append("\tNM:i:");
            let number = render_number_string(value);
            out.append(number.as_str());
            proof {
                reveal_strlit("\tNM:i:");
                assert(emit_order()[0] == TagKind::Nm);
                assert(slot_get(m, TagKind::Nm) == Some(TagValue::UInt(value)));
                assert(("\tNM:i:")@ =~= seq!['\t'] + tag_header_chars(TagKind::Nm));
            }
        } else {
            assert(slot_get(m, TagKind::Nm) is None);
        }
        assert(old(out)@ + render_tail_from(m, 0) =~= out@ + render_tail_from(m, 1));
        if let Some(value) = self.best_segment_dp_score {
            out.append("\tms:i:");
            let number = render_number_string(value);
            out.append(number.as_str());
            proof {
                reveal_strlit("\tms:i:");
                assert(emit_order()[1] == TagKind::Ms);
                assert(slot_get(m, TagKind::Ms) == Some(TagValue::UInt(value)));
                assert(("\tms:i:")@ =~= seq!['\t'] + tag_header_chars(TagKind::Ms));
            }
        } else {
            assert(slot_get(m, TagKind::Ms) is None);
        }
        assert(old(out)@ + render_tail_from(m, 0) =~= out@ + render_tail_from(m, 2));
        if let Some(value) = self.dp_alignment_score {
            out.append("\tAS:i:");
            let number = render_number_string(value);
            out.append(number.as_str());
            proof {
                reveal_strlit("\tAS:i:");
                assert(emit_order()[2] == TagKind::As);
                assert(slot_get(m, TagKind::As) == Some(TagValue::UInt(value)));
                assert(("\tAS:i:")@ =~= seq!['\t'] + tag_header_chars(TagKind::As));
            }
        } else {
            assert(slot_get(m, TagKind::As) is None);
        }
        assert(old(out)@ + render_tail_from(m, 0) =~= out@ + render_tail_from(m, 3));
    }

    /// Writes the present optional columns at places 3 to 5 of the emission order onto `out`.
    #[verifier::rlimit(100)]
    fn append_tail_b(&self, out: &mut String)
        ensures
            old(out)@ + render_tail_from(self@, 3) == final(out)@ + render_tail_from(
                self@,
                6,
            ),
    {
        let ghost m = self@;
        assert(old(out)@ + render_tail_from(m, 3) =~= out@ + render_tail_from(m, 3));
        if let Some(value) = self.number_of_ambiguous_bases {
            out.append("\tnn:i:");
            let number = render_number_string(value);
            out.append(number.as_str());
            proof {
                reveal_strlit("\tnn:i:");
                assert(emit_order()[3] == TagKind::Nn);
                assert(slot_get(m, TagKind::Nn) == Some(TagValue::UInt(value)));
                assert(("\tnn:i:")@ =~= seq!['\t'] + tag_header_chars(TagKind::Nn));
            }
        } else {
            assert(slot_get(m, TagKind::Nn) is None);
        }
        assert(old(out)@ + render_tail_from(m, 3) =~= out@ + render_tail_from(m, 4));
        if let Some(alignment_type) = &self.alignment_type {
            out.append("\ttp:A:");
            out.append(alignment_type.code_text());
            proof {
                reveal_strlit("\ttp:A:");
                assert(emit_order()[4] == TagKind::Tp);
                assert(slot_get(m, TagKind::Tp) == Some(TagValue::AType(*alignment_type)));
                assert(("\ttp:A:")@ =~= seq!['\t'] + tag_header_chars(TagKind::Tp));
            }
        } else {
            assert(slot_get(m, TagKind::Tp) is None);
        }
        assert(old(out)@ + render_tail_from(m, 3) =~= out@ + render_tail_from(m, 5));
        if let Some(value) = self.number_of_minimisers {
            out.append("\tcm:i:");
            let number = render_number_string(value);
            out.append(number.as_str());
            proof {
                reveal_strlit("\tcm:i:");
                assert(emit_order()[5] == TagKind::Cm);
                assert(slot_get(m, TagKind::Cm) == Some(TagValue::UInt(value)));
                assert(("\tcm:i:")@ =~= seq!['\t'] + tag_header_chars(TagKind::Cm));
            }
        } else {
            assert(slot_get(m, TagKind::Cm) is None);
        }
        assert(old(out)@ + render_tail_from(m, 3) =~= out@ + render_tail_from(m, 6));
    }

    /// Writes the present optional columns at places 6 to 8 of the emission order onto `out`.
    #[verifier::rlimit(100)]
    fn append_tail_c(&self, out: &mut String)
        ensures
            old(out)@ + render_tail_from(self@, 6) == final(out)@ + render_tail_from(
                self@,
                9,
            ),
    {
        let ghost m = self@;
        assert(old(out)@ + render_tail_from(m, 6) =~= out@ + render_tail_from(m, 6));
        if let Some(value) = self.chaining_score {
            out.append("\ts1:i:");
            let number = render_number_string(value);
            out.append(number.as_str());
            proof {
                reveal_strlit("\ts1:i:");
                assert(emit_order()[6] == TagKind::S1);
                assert(slot_get(m, TagKind::S1) == Some(TagValue::UInt(value)));
                assert(("\ts1:i:")@ =~= seq!['\t'] + tag_header_chars(TagKind::S1));
            }
        } else {
            assert(slot_get(m, TagKind::S1) is None);
        }
        assert(old(out)@ + render_tail_from(m, 6) =~= out@ + render_tail_from(m, 7));
        if let Some(value) = self.best_secondary_chaining_score {
            out.append("\ts2:i:");
            let number = render_number_string(value);
            out.append(number.as_str());
            proof {
                reveal_strlit("\ts2:i:");
                assert(emit_order()[7] == TagKind::S2);
                assert(slot_get(m, TagKind::S2) == Some(TagValue::UInt(value)));
                assert(("\ts2:i:")@ =~= seq!['\t'] + tag_header_chars(TagKind::S2));
            }
        } else {
            assert(slot_get(m, TagKind::S2) is None);
        }
        assert(old(out)@ + render_tail_from(m, 6) =~= out@ + render_tail_from(m, 8));
        if let Some(value) = &self.gap_compressed_per_base_sequence_divergence {
            out.append("\tde:f:");
            out.append(value.as_str());
            proof {
                reveal_strlit("\tde:f:");
                assert(emit_order()[8] == TagKind::De);
                assert(slot_get(m, TagKind::De) == Some(TagValue::Text(value@)));
                assert(("\tde:f:")@ =~= seq!['\t'] + tag_header_chars(TagKind::De));
            }
        } else {
            assert(slot_get(m, TagKind::De) is None);
        }
        assert(old(out)@ + render_tail_from(m, 6) =~= out@ + render_tail_from(m, 9));
    }

    /// Writes the present optional columns at places 9 to 11 of the emission order onto `out`.
    #[verifier::rlimit(100)]
    fn append_tail_d(&self, out: &mut String)
        ensures
            old(out)@ + render_tail_from(self@, 9) == final(out)@ + render_tail_from(
                self@,
                12,
            ),
    {
        let ghost m = self@;
        assert(old(out)@ + render_tail_from(m, 9) =~= out@ + render_tail_from(m, 9));
        if let Some(value) = self.length_of_query_regions_with_repetitive_seeds {
            out.append("\trl:i:");
            let number = render_number_string(value);
            out.append(number.as_str());
            proof {
                reveal_strlit("\trl:i:");
                assert(emit_order()[9] == TagKind::Rl);
                assert(slot_get(m, TagKind::Rl) == Some(TagValue::UInt(value)));
                assert(("\trl:i:")@ =~= seq!['\t'] + tag_header_chars(TagKind::Rl));
            }
        } else {
            assert(slot_get(m, TagKind::Rl) is None);
        }
        assert(old(out)@ + render_tail_from(m, 9) =~= out@ + render_tail_from(m, 10));
        if let Some(value) = &self.unknown_md {
            out.append("\tMD:Z:");
            out.append(value.as_str());
            proof {
                reveal_strlit("\tMD:Z:");
                assert(emit_order()[10] == TagKind::Md);
                assert(slot_get(m, TagKind::Md) == Some(TagValue::Text(value@)));
                assert(("\tMD:Z:")@ =~= seq!['\t'] + tag_header_chars(TagKind::Md));
            }
        } else {
            assert(slot_get(m, TagKind::Md) is None);
        }
        assert(old(out)@ + render_tail_from(m, 9) =~= out@ + render_tail_from(m, 11));
        if let Some(value) = &self.supplementary_alignments {
            out.append("\tSA:Z:");
            out.append(value.as_str());
            proof {
                reveal_strlit("\tSA:Z:");
                assert(emit_order()[11] == TagKind::Sa);
                assert(slot_get(m, TagKind::Sa) == Some(TagValue::Text(value@)));
                assert(("\tSA:Z:")@ =~= seq!['\t'] + tag_header_chars(TagKind::Sa));
            }
        } else {
            assert(slot_get(m, TagKind::Sa) is None);
        }
        assert(old(out)@ + render_tail_from(m, 9) =~= out@ + render_tail_from(m, 12));
    }

    /// Writes the present optional columns at places 12 and 13 of the emission order onto `out`.
    #[verifier::rlimit(100)]
    fn append_tail_e(&self, out: &mut String)
        ensures
            old(out)@ + render_tail_from(self@, 12) == final(out)@ + render_tail_from(
                self@,
                14,
            ),
    {
        let ghost m = self@;
        assert(old(out)@ + render_tail_from(m, 12) =~= out@ + render_tail_from(m, 12));
        if let Some(value) = &self.transcript_strand {
            out.append("\tts:A:");
            out.append(value.as_str());
            proof {
                reveal_strlit("\tts:A:");
                assert(emit_order()[12] == TagKind::Ts);
                assert(slot_get(m, TagKind::Ts) == Some(TagValue::Text(value@)));
                assert(("\tts:A:")@ =~= seq!['\t'] + tag_header_chars(TagKind::Ts));
            }
        } else {
            assert(slot_get(m, TagKind::Ts) is None);
        }
        assert(old(out)@ + render_tail_from(m, 12) =~= out@ + render_tail_from(m, 13));
        if let Some(cigar) = &self.cigar_string {
            out.append("\tcg:Z:");
            let rendered = cigar.to_paf_string();
            out.append(rendered.as_str());
            proof {
                reveal_strlit("\tcg:Z:");
                assert(emit_order()[13] == TagKind::Cg);
                assert(slot_get(m, TagKind::Cg) == Some(TagValue::Ops(cigar@)));
                assert(("\tcg:Z:")@ =~= seq!['\t'] + tag_header_chars(TagKind::Cg));
            }
        } else {
            assert(slot_get(m, TagKind::Cg) is None);
        }
        assert(old(out)@ + render_tail_from(m, 12) =~= out@ + render_tail_from(m, 14));
    }

    /// Writes the present optional columns at places 14 and 15 of the emission order onto `out`.
    #[verifier::rlimit(100)]
    fn append_tail_f(&self, out: &mut String)
        ensures
            old(out)@ + render_tail_from(self@, 14) == final(out)@ + render_tail_from(
                self@,
                16,
            ),
    {
        let ghost m = self@;
        assert(old(out)@ + render_tail_from(m, 14) =~= out@ + render_tail_from(m, 14));
        if let Some(difference) = &self.difference_string {
            out.append("\tcs:Z:");
            let rendered = difference.to_paf_string();
            out.append(rendered.as_str());
            proof {
                reveal_strlit("\tcs:Z:");
                assert(emit_order()[14] == TagKind::Cs);
                assert(slot_get(m, TagKind::Cs) == Some(TagValue::Diffs(difference@)));
                assert(("\tcs:Z:")@ =~= seq!['\t'] + tag_header_chars(TagKind::Cs));
            }
        } else {
            assert(slot_get(m, TagKind::Cs) is None);
        }
        assert(old(out)@ + render_tail_from(m, 14) =~= out@ + render_tail_from(m, 15));
        if let Some(value) = &self.approximate_per_base_sequence_divergence {
            out.append("\tdv:f:");
            out.append(value.as_str());
            proof {
                reveal_strlit("\tdv:f:");
                assert(emit_order()[15] == TagKind::Dv);
                assert(slot_get(m, TagKind::Dv) == Some(TagValue::Text(value@)));
                assert(("\tdv:f:")@ =~= seq!['\t'] + tag_header_chars(TagKind::Dv));
            }
        } else {
            assert(slot_get(m, TagKind::Dv) is None);
        }
        assert(old(out)@ + render_tail_from(m, 14) =~= out@ + render_tail_from(m, 16));
    }

    /// Renders this record as one PAF line: the twelve required columns in
    /// fixed order, then the present optional columns in the fixed emission
    /// order, without a trailing newline.  Unrecognized columns that were
    /// kept verbatim are not written.
    pub fn to_paf_string(&self) -> (r: String)
        ensures
            r@ == spec_serialize_line(self@),
    {
        let ghost m = self@;
        let mut out = String::new();
        self.append_required(&mut out);
        self.append_tail_a(&mut out);
        self.append_tail_b(&mut out);
        self.append_tail_c(&mut out);
        self.append_tail_d(&mut out);
        self.append_tail_e(&mut out);
        self.append_tail_f(&mut out);
        proof {
            assert(render_tail_from(m, 16) =~= Seq::<char>::empty());
            assert(out@ + render_tail_from(m, 16) =~= out@);
            assert(out@ =~= spec_serialize_line(m));
        }
        out
    }
}

} // verus!
