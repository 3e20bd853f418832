use vstd::prelude::*;

use crate::data::{CigarColumn, DiffEntry, LineModel};
use crate::error::ErrorModel;
use crate::grammar::{
    alignment_type_code, alignment_type_of_code, all_digits, cigar_column_of, cigar_length,
    cigar_op_char, cigar_wf, difference_char_wf, difference_entry_wf, difference_wf, digit_value,
    digits_value, dispatch_next, emit_order, header_tag, initial_line_model, is_ascii_digit,
    is_cigar_operation, is_difference_marker, is_field_delimiter, is_number, is_number_tag,
    is_text_tag, line_wf, optional_text_wf, render_cigar, render_difference,
    render_difference_entry, render_number, render_required, render_rest_from, render_strand,
    render_tail_from, render_value, scan_cigar_op, scan_delimiter, scan_difference_marker,
    slot_get, slot_set, spec_decode_value, spec_dispatch, spec_parse_cigar_entries,
    spec_parse_difference_entries, spec_parse_line, spec_parse_u8, spec_parse_usize,
    spec_req_number, spec_req_quality, spec_req_strand, spec_req_text, spec_serialize_line,
    spec_take_field, tag_header_chars, text_wf, TagKind, TagValue,
};
use crate::grammar::{
    lemma_render_number, lemma_scan_cigar_op, lemma_scan_delimiter, lemma_scan_difference_marker,
    lemma_spec_parse_line_unfold, lemma_dispatch_recognized, lemma_dispatch_unknown,
};

verus! {

/// A decimal digit is not a delimiter, not a CIGAR operation code, and not a
/// difference marker.
pub proof fn lemma_digit_char_classes(c: char)
    requires
        is_ascii_digit(c),
    ensures
        !is_field_delimiter(c),
        !is_cigar_operation(c),
        !is_difference_marker(c),
{
}

/// Where the first delimiter at or after `i` is known, the scan finds it.
pub proof fn lemma_scan_delimiter_at(s: Seq<char>, i: int, e: int)
    requires
        0 <= i <= e <= s.len(),
        forall|j: int| i <= j < e ==> !is_field_delimiter(s[j]),
        e == s.len() || is_field_delimiter(s[e]),
    ensures
        scan_delimiter(s, i) == e,
    decreases e - i,
{
    if i < e {
        lemma_scan_delimiter_at(s, i + 1, e);
    }
}

/// Where the first operation code in the range is known, the scan finds it.
pub proof fn lemma_scan_cigar_op_at(s: Seq<char>, i: int, p: int, limit: int)
    requires
        0 <= i <= p <= limit,
        forall|j: int| i <= j < p ==> !is_cigar_operation(s[j]),
        p == limit || is_cigar_operation(s[p]),
    ensures
        scan_cigar_op(s, i, limit) == p,
    decreases p - i,
{
    if i < p {
        lemma_scan_cigar_op_at(s, i + 1, p, limit);
    }
}

/// Where the first difference marker in the range is known, the scan finds
/// it.
pub proof fn lemma_scan_difference_marker_at(s: Seq<char>, i: int, p: int, limit: int)
    requires
        0 <= i <= p <= limit,
        forall|j: int| i <= j < p ==> !is_difference_marker(s[j]),
        p == limit || is_difference_marker(s[p]),
    ensures
        scan_difference_marker(s, i, limit) == p,
    decreases p - i,
{
    if i < p {
        lemma_scan_difference_marker_at(s, i + 1, p, limit);
    }
}

/// The decimal writing of a number read back as a `usize` is the number.
pub proof fn lemma_parse_render_number(n: usize)
    ensures
        spec_parse_usize(render_number(n as int)) == Some(n),
{
    lemma_render_number(n as int);
}

/// The rendered text of a CIGAR string holds no delimiter, and is non-empty
/// when the string is.
pub proof fn lemma_render_cigar_chars(columns: Seq<CigarColumn>)
    ensures
        forall|j: int|
            0 <= j < render_cigar(columns).len() ==> !is_field_delimiter(
                #[trigger] render_cigar(columns)[j],
            ),
        columns.len() > 0 ==> render_cigar(columns).len() > 0,
    decreases columns.len(),
{
    if columns.len() > 0 {
        lemma_render_cigar_chars(columns.drop_first());
        lemma_render_number(cigar_length(columns[0]) as int);
        let entry = render_number(cigar_length(columns[0]) as int).push(
            cigar_op_char(columns[0]),
        );
        assert forall|j: int| 0 <= j < render_cigar(columns).len() implies !is_field_delimiter(
            #[trigger] render_cigar(columns)[j],
        ) by {
            if j < entry.len() {
                if j < entry.len() - 1 {
                    assert(entry[j] == render_number(cigar_length(columns[0]) as int)[j]);
                    assert(is_ascii_digit(entry[j]));
                } else {
                    assert(entry[j] == cigar_op_char(columns[0]));
                }
            } else {
                assert(render_cigar(columns)[j] == render_cigar(columns.drop_first())[j
                    - entry.len()]);
            }
        }
    }
}

/// The rendered text of an alignment difference string holds no delimiter,
/// and is non-empty when the string is.
pub proof fn lemma_render_difference_chars(entries: Seq<DiffEntry>)
    requires
        difference_wf(entries),
    ensures
        forall|j: int|
            0 <= j < render_difference(entries).len() ==> !is_field_delimiter(
                #[trigger] render_difference(entries)[j],
            ),
        entries.len() > 0 ==> render_difference(entries).len() > 0,
    decreases entries.len(),
{
    if entries.len() > 0 {
        assert(difference_wf(entries.drop_first()));
        lemma_render_difference_chars(entries.drop_first());
        let entry = render_difference_entry(entries[0]);
        assert(difference_entry_wf(entries[0]));
        assert forall|j: int| 0 <= j < entry.len() implies !is_field_delimiter(entry[j]) by {
            match entries[0] {
                DiffEntry::Match { length } => {
                    lemma_render_number(length as int);
                    if j > 0 {
                        assert(entry[j] == render_number(length as int)[j - 1]);
                        assert(is_ascii_digit(entry[j]));
                    }
                },
                DiffEntry::Insertion { chars } => {
                    if j > 0 {
                        assert(entry[j] == chars[j - 1]);
                        assert(difference_char_wf(chars[j - 1]));
                    }
                },
                DiffEntry::Deletion { chars } => {
                    if j > 0 {
                        assert(entry[j] == chars[j - 1]);
                        assert(difference_char_wf(chars[j - 1]));
                    }
                },
                DiffEntry::Mismatch { reference, query } => {},
            }
        }
        assert forall|j: int| 0 <= j < render_difference(entries).len() implies !is_field_delimiter(
            #[trigger] render_difference(entries)[j],
        ) by {
            if j < entry.len() {
                assert(render_difference(entries)[j] == entry[j]);
            } else {
                assert(render_difference(entries)[j] == render_difference(entries.drop_first())[j
                    - entry.len()]);
            }
        }
    }
}

/// The header of every tag has five characters, none of them a delimiter.
pub proof fn lemma_tag_header_chars(tag: TagKind)
    ensures
        tag_header_chars(tag).len() == 5,
        forall|j: int|
            0 <= j < 5 ==> !is_field_delimiter(#[trigger] tag_header_chars(tag)[j]),
{
}

/// The rendered value of a present slot holds no delimiter and is non-empty,
/// for every slot of a well-formed line model.
pub proof fn lemma_render_value_chars(m: LineModel, tag: TagKind, value: TagValue)
    requires
        line_wf(m),
        slot_get(m, tag) == Some(value),
    ensures
        render_value(value).len() > 0,
        forall|j: int|
            0 <= j < render_value(value).len() ==> !is_field_delimiter(
                #[trigger] render_value(value)[j],
            ),
{
    match value {
        TagValue::UInt(n) => {
            lemma_render_number(n as int);
            assert forall|j: int| 0 <= j < render_value(value).len() implies !is_field_delimiter(
                #[trigger] render_value(value)[j],
            ) by {
                assert(is_ascii_digit(render_number(n as int)[j]));
            }
        },
        TagValue::Text(t) => {},
        TagValue::AType(a) => {},
        TagValue::Ops(columns) => {
            lemma_render_cigar_chars(columns);
        },
        TagValue::Diffs(entries) => {
            lemma_render_difference_chars(entries);
        },
    }
}

/// The header written for a tag is recognized as that tag.
pub proof fn lemma_header_tag_of(s: Seq<char>, i: int, tag: TagKind)
    requires
        0 <= i,
        i + 5 <= s.len(),
        s.subrange(i, i + 5) == tag_header_chars(tag),
    ensures
        header_tag(s, i) == Some(tag),
{
    assert(s[i] == tag_header_chars(tag)[0]);
    assert(s[i + 1] == tag_header_chars(tag)[1]);
    assert(s[i + 2] == tag_header_chars(tag)[2]);
    assert(s[i + 3] == tag_header_chars(tag)[3]);
    assert(s[i + 4] == tag_header_chars(tag)[4]);
}

/// Setting one slot leaves the required columns, the unrecognized columns,
/// and every other slot unchanged.
pub proof fn lemma_slot_set_frame(m: LineModel, tag: TagKind, value: TagValue, other: TagKind)
    requires
        other != tag,
    ensures
        slot_get(slot_set(m, tag, value), other) == slot_get(m, other),
        slot_set(m, tag, value).query_sequence_name == m.query_sequence_name,
        slot_set(m, tag, value).query_sequence_length == m.query_sequence_length,
        slot_set(m, tag, value).query_start_coordinate == m.query_start_coordinate,
        slot_set(m, tag, value).query_end_coordinate == m.query_end_coordinate,
        slot_set(m, tag, value).strand == m.strand,
        slot_set(m, tag, value).target_sequence_name == m.target_sequence_name,
        slot_set(m, tag, value).target_sequence_length == m.target_sequence_length,
        slot_set(m, tag, value).target_start_coordinate_on_original_strand
            == m.target_start_coordinate_on_original_strand,
        slot_set(m, tag, value).target_end_coordinate_on_original_strand
            == m.target_end_coordinate_on_original_strand,
        slot_set(m, tag, value).number_of_matching_bases == m.number_of_matching_bases,
        slot_set(m, tag, value).number_of_bases_and_gaps == m.number_of_bases_and_gaps,
        slot_set(m, tag, value).mapping_quality == m.mapping_quality,
        slot_set(m, tag, value).unknown_fields == m.unknown_fields,
{
}

/// Setting a slot to a value of its own kind stores that value.
pub proof fn lemma_slot_set_get(m: LineModel, tag: TagKind, value: TagValue)
    requires
        (match value {
            TagValue::UInt(_) => is_number_tag(tag),
            TagValue::Text(_) => is_text_tag(tag),
            TagValue::AType(_) => tag is Tp,
            TagValue::Ops(_) => tag is Cg,
            TagValue::Diffs(_) => tag is Cs,
        }),
    ensures
        slot_get(slot_set(m, tag, value), tag) == Some(value),
{
}

/// Decoding the rendered text of a well-formed CIGAR string yields the
/// string back.
pub proof fn lemma_parse_rendered_cigar(
    s: Seq<char>,
    i: int,
    limit: int,
    columns: Seq<CigarColumn>,
    acc: Seq<CigarColumn>,
)
    requires
        0 <= i <= limit <= s.len(),
        s.subrange(i, limit) == render_cigar(columns),
        cigar_wf(columns),
    ensures
        spec_parse_cigar_entries(s, i, limit, acc) == Ok::<_, ErrorModel>(acc + columns),
    decreases columns.len(),
{
    if columns.len() == 0 {
        assert(limit == i);
        assert(acc + columns =~= acc);
    } else {
        let first = columns[0];
        let num = render_number(cigar_length(first) as int);
        lemma_render_number(cigar_length(first) as int);
        let entry = num.push(cigar_op_char(first));
        let rest = render_cigar(columns.drop_first());
        assert(render_cigar(columns) == entry + rest);
        let p = i + num.len();
        assert(limit - i == entry.len() + rest.len());
        assert forall|j: int| i <= j < p implies !is_cigar_operation(s[j]) by {
            assert(s[j] == render_cigar(columns)[j - i]);
            assert(entry[j - i] == num[j - i]);
            assert(is_ascii_digit(num[j - i]));
        }
        assert(s[p] == render_cigar(columns)[p - i]);
        assert(entry[num.len() as int] == cigar_op_char(first));
        assert(is_cigar_operation(cigar_op_char(first)));
        lemma_scan_cigar_op_at(s, i, p, limit);
        assert(s.subrange(i, p) =~= num);
        assert(cigar_length(first) >= 1);
        assert(cigar_column_of(cigar_op_char(first), cigar_length(first)) == first);
        assert forall|x: int| 0 <= x < limit - (p + 1) implies s.subrange(p + 1, limit)[x]
            == rest[x] by {
            assert(s[p + 1 + x] == render_cigar(columns)[p + 1 + x - i]);
            assert(render_cigar(columns)[p + 1 + x - i] == rest[p + 1 + x - i - entry.len()]);
        }
        assert(s.subrange(p + 1, limit) =~= rest);
        assert(cigar_wf(columns.drop_first()));
        lemma_parse_rendered_cigar(s, p + 1, limit, columns.drop_first(), acc.push(first));
        assert(acc.push(first) + columns.drop_first() =~= acc + columns);
    }
}

/// The rendered text of a non-empty difference string starts with a marker.
pub proof fn lemma_render_difference_first(entries: Seq<DiffEntry>)
    requires
        entries.len() > 0,
    ensures
        render_difference(entries).len() > 0,
        is_difference_marker(render_difference(entries)[0]),
{
    let entry = render_difference_entry(entries[0]);
    assert(render_difference(entries)[0] == entry[0]);
    match entries[0] {
        DiffEntry::Match { length } => {},
        DiffEntry::Insertion { chars } => {},
        DiffEntry::Deletion { chars } => {},
        DiffEntry::Mismatch { reference, query } => {},
    }
}

/// Decoding the rendered text of a well-formed difference string yields the
/// string back.
pub proof fn lemma_parse_rendered_difference(
    s: Seq<char>,
    i: int,
    limit: int,
    entries: Seq<DiffEntry>,
    acc: Seq<DiffEntry>,
)
    requires
        0 <= i <= limit <= s.len(),
        s.subrange(i, limit) == render_difference(entries),
        difference_wf(entries),
    ensures
        spec_parse_difference_entries(s, i, limit, acc) == Ok::<_, ErrorModel>(acc + entries),
    decreases entries.len(),
{
    if entries.len() == 0 {
        assert(limit == i);
        assert(acc + entries =~= acc);
    } else {
        let e0 = entries[0];
        assert(difference_entry_wf(e0));
        let entry = render_difference_entry(e0);
        let rest = render_difference(entries.drop_first());
        assert(render_difference(entries) == entry + rest);
        let pend = i + entry.len();
        assert(limit - i == entry.len() + rest.len());
        assert(s[i] == render_difference(entries)[0]);
        assert(render_difference(entries)[0] == entry[0]);
        if e0 is Match {
            lemma_render_number(e0->Match_length as int);
        }
        assert forall|j: int| i + 1 <= j < pend implies !is_difference_marker(s[j]) by {
            assert(s[j] == render_difference(entries)[j - i]);
            assert(s[j] == entry[j - i]);
            match e0 {
                DiffEntry::Match { length } => {
                    assert(entry[j - i] == render_number(length as int)[j - i - 1]);
                    assert(is_ascii_digit(entry[j - i]));
                },
                DiffEntry::Insertion { chars } => {
                    assert(entry[j - i] == chars[j - i - 1]);
                    assert(difference_char_wf(chars[j - i - 1]));
                },
                DiffEntry::Deletion { chars } => {
                    assert(entry[j - i] == chars[j - i - 1]);
                    assert(difference_char_wf(chars[j - i - 1]));
                },
                DiffEntry::Mismatch { reference, query } => {},
            }
        }
        if rest.len() > 0 {
            assert(difference_wf(entries.drop_first()));
            lemma_render_difference_first(entries.drop_first());
            assert(s[pend] == render_difference(entries)[pend - i]);
            assert(render_difference(entries)[pend - i] == rest[pend - i - entry.len()]);
            assert(s[pend] == rest[0]);
        }
        lemma_scan_difference_marker_at(s, i + 1, pend, limit);
        let payload = s.subrange(i + 1, pend);
        assert forall|x: int| 0 <= x < limit - pend implies s.subrange(pend, limit)[x] == rest[x] by {
            assert(s[pend + x] == render_difference(entries)[pend + x - i]);
            assert(render_difference(entries)[pend + x - i] == rest[pend + x - i - entry.len()]);
        }
        assert(s.subrange(pend, limit) =~= rest);
        assert forall|x: int| 0 <= x < pend - (i + 1) implies payload[x] == entry[x + 1] by {
            assert(s[i + 1 + x] == render_difference(entries)[x + 1]);
            assert(render_difference(entries)[x + 1] == entry[x + 1]);
        }
        assert(difference_wf(entries.drop_first()));
        match e0 {
            DiffEntry::Match { length } => {
                assert(payload =~= render_number(length as int));
                assert(length >= 1);
                lemma_parse_rendered_difference(
                    s,
                    pend,
                    limit,
                    entries.drop_first(),
                    acc.push(e0),
                );
            },
            DiffEntry::Insertion { chars } => {
                assert(payload =~= chars);
                lemma_parse_rendered_difference(
                    s,
                    pend,
                    limit,
                    entries.drop_first(),
                    acc.push(e0),
                );
            },
            DiffEntry::Deletion { chars } => {
                assert(payload =~= chars);
                lemma_parse_rendered_difference(
                    s,
                    pend,
                    limit,
                    entries.drop_first(),
                    acc.push(e0),
                );
            },
            DiffEntry::Mismatch { reference, query } => {
                assert(payload =~= seq![reference, query]);
                lemma_parse_rendered_difference(
                    s,
                    pend,
                    limit,
                    entries.drop_first(),
                    acc.push(e0),
                );
            },
        }
        assert(acc.push(e0) + entries.drop_first() =~= acc + entries);
    }
}

/// The tabbed rendering of the optional columns is empty exactly when the
/// dispatcher-aligned rendering is, and otherwise is it preceded by one tab.
pub proof fn lemma_tail_rest(m: LineModel, k: int)
    requires
        0 <= k <= 16,
    ensures
        render_tail_from(m, k) == (if render_rest_from(m, k).len() == 0 {
            Seq::<char>::empty()
        } else {
            seq!['\t'] + render_rest_from(m, k)
        }),
    decreases 16 - k,
{
    if k < 16 {
        lemma_tail_rest(m, k + 1);
        match slot_get(m, emit_order()[k]) {
            Some(value) => {
                lemma_tag_header_chars(emit_order()[k]);
                assert(seq!['\t'] + tag_header_chars(emit_order()[k]) + render_value(value)
                    + render_tail_from(m, k + 1) =~= seq!['\t'] + (tag_header_chars(
                    emit_order()[k],
                ) + render_value(value) + render_tail_from(m, k + 1)));
            },
            None => {},
        }
    }
}

/// The model obtained from `acc` by copying into it every slot that is
/// present in `m`, over the emission order from place `k` on.
pub open spec fn merge_from(acc: LineModel, m: LineModel, k: int) -> LineModel
    decreases 16 - k,
{
    if !(0 <= k < 16) {
        acc
    } else {
        match slot_get(m, emit_order()[k]) {
            Some(value) => merge_from(slot_set(acc, emit_order()[k], value), m, k + 1),
            None => merge_from(acc, m, k + 1),
        }
    }
}

/// No tag appears twice in the emission order.
pub proof fn lemma_emit_order_distinct()
    ensures
        forall|j1: int, j2: int| 0 <= j1 < j2 < 16 ==> emit_order()[j1] != emit_order()[j2],
{
}

/// What merging does, slot by slot: slots at places before `k` and the
/// required columns come from `acc`; slots at places from `k` on come from
/// `m` where present in `m`, from `acc` where absent.
pub proof fn lemma_merge_from(acc: LineModel, m: LineModel, k: int)
    requires
        0 <= k <= 16,
    ensures
        forall|j: int|
            k <= j < 16 ==> slot_get(merge_from(acc, m, k), #[trigger] emit_order()[j]) == (
            match slot_get(m, emit_order()[j]) {
                Some(value) => Some(value),
                None => slot_get(acc, emit_order()[j]),
            }),
        forall|j: int|
            0 <= j < k ==> slot_get(merge_from(acc, m, k), #[trigger] emit_order()[j])
                == slot_get(acc, emit_order()[j]),
        merge_from(acc, m, k).query_sequence_name == acc.query_sequence_name,
        merge_from(acc, m, k).query_sequence_length == acc.query_sequence_length,
        merge_from(acc, m, k).query_start_coordinate == acc.query_start_coordinate,
        merge_from(acc, m, k).query_end_coordinate == acc.query_end_coordinate,
        merge_from(acc, m, k).strand == acc.strand,
        merge_from(acc, m, k).target_sequence_name == acc.target_sequence_name,
        merge_from(acc, m, k).target_sequence_length == acc.target_sequence_length,
        merge_from(acc, m, k).target_start_coordinate_on_original_strand
            == acc.target_start_coordinate_on_original_strand,
        merge_from(acc, m, k).target_end_coordinate_on_original_strand
            == acc.target_end_coordinate_on_original_strand,
        merge_from(acc, m, k).number_of_matching_bases == acc.number_of_matching_bases,
        merge_from(acc, m, k).number_of_bases_and_gaps == acc.number_of_bases_and_gaps,
        merge_from(acc, m, k).mapping_quality == acc.mapping_quality,
        merge_from(acc, m, k).unknown_fields == acc.unknown_fields,
    decreases 16 - k,
{
    lemma_emit_order_distinct();
    if k < 16 {
        let tag = emit_order()[k];
        match slot_get(m, tag) {
            Some(value) => {
                let acc2 = slot_set(acc, tag, value);
                lemma_merge_from(acc2, m, k + 1);
                lemma_slot_set_get(acc, tag, value);
                assert forall|j: int| 0 <= j < 16 && j != k implies slot_get(
                    acc2,
                    #[trigger] emit_order()[j],
                ) == slot_get(acc, emit_order()[j]) by {
                    lemma_slot_set_frame(acc, tag, value, emit_order()[j]);
                }
            },
            None => {
                lemma_merge_from(acc, m, k + 1);
            },
        }
    }
}

/// Running the dispatcher over the rendered present optional columns of a
/// well-formed line fills exactly those slots and consumes the input.
#[verifier::rlimit(100)]
pub proof fn lemma_dispatch_rendered_rest(
    s: Seq<char>,
    i: int,
    acc: LineModel,
    m: LineModel,
    k: int,
)
    requires
        line_wf(m),
        0 <= k <= 16,
        0 <= i <= s.len(),
        s.subrange(i, s.len() as int) == render_rest_from(m, k),
    ensures
        spec_dispatch(s, i, acc) == Ok::<_, ErrorModel>((merge_from(acc, m, k), s.len() as int)),
    decreases 16 - k,
{
    if k == 16 {
        assert(i == s.len());
    } else {
        let tag = emit_order()[k];
        match slot_get(m, tag) {
            None => {
                lemma_dispatch_rendered_rest(s, i, acc, m, k + 1);
            },
            Some(value) => {
                let hv = tag_header_chars(tag);
                let rv = render_value(value);
                let tail = render_tail_from(m, k + 1);
                let rest2 = render_rest_from(m, k + 1);
                assert(render_rest_from(m, k) == hv + rv + tail);
                lemma_tag_header_chars(tag);
                lemma_render_value_chars(m, tag, value);
                lemma_tail_rest(m, k + 1);
                let vstart = i + 5;
                let vend = vstart + rv.len();
                assert(s.len() - i == 5 + rv.len() + tail.len());
                assert forall|x: int| 0 <= x < 5 implies s[i + x] == hv[x] by {
                    assert(s[i + x] == render_rest_from(m, k)[x]);
                }
                assert(s.subrange(i, i + 5) =~= hv);
                lemma_header_tag_of(s, i, tag);
                assert forall|x: int| 0 <= x < rv.len() implies s[vstart + x] == rv[x] by {
                    assert(s[vstart + x] == render_rest_from(m, k)[5 + x]);
                }
                assert(s.subrange(vstart, vend) =~= rv);
                if tail.len() == 0 {
                    assert(vend == s.len());
                } else {
                    assert(rest2.len() > 0);
                    assert(tail[0] == '\t');
                    assert(s[vend] == render_rest_from(m, k)[5 + rv.len() as int]);
                    assert(s[vend] == '\t');
                }
                assert forall|j: int| vstart <= j < vend implies !is_field_delimiter(s[j]) by {
                    assert(s[j] == rv[j - vstart]);
                }
                lemma_scan_delimiter_at(s, vstart, vend);
                if is_number_tag(tag) {
                    let n = value->UInt_0;
                    assert(value == TagValue::UInt(n));
                    lemma_parse_render_number(n);
                    assert(spec_decode_value(tag, s, vstart, vend) == Ok::<_, ErrorModel>(value));
                } else if is_text_tag(tag) {
                    assert(spec_decode_value(tag, s, vstart, vend) == Ok::<_, ErrorModel>(value));
                } else if tag is Tp {
                    let a = value->AType_0;
                    assert(value == TagValue::AType(a));
                    assert(rv == seq![alignment_type_code(a)]);
                    assert(s[vstart + 0] == rv[0]);
                    assert(s[vstart] == alignment_type_code(a));
                    assert(alignment_type_of_code(alignment_type_code(a)) == Some(a));
                    assert(spec_decode_value(tag, s, vstart, vend) == Ok::<_, ErrorModel>(value));
                } else if tag is Cg {
                    let columns = value->Ops_0;
                    assert(value == TagValue::Ops(columns));
                    assert(rv == render_cigar(columns));
                    assert(cigar_wf(columns));
                    lemma_parse_rendered_cigar(s, vstart, vend, columns, Seq::empty());
                    assert(Seq::<CigarColumn>::empty() + columns =~= columns);
                    assert(spec_decode_value(tag, s, vstart, vend) == Ok::<_, ErrorModel>(value));
                } else {
                    let entries = value->Diffs_0;
                    assert(tag is Cs);
                    assert(value == TagValue::Diffs(entries));
                    assert(rv == render_difference(entries));
                    assert(difference_wf(entries));
                    lemma_parse_rendered_difference(s, vstart, vend, entries, Seq::empty());
                    assert(Seq::<DiffEntry>::empty() + entries =~= entries);
                    assert(spec_decode_value(tag, s, vstart, vend) == Ok::<_, ErrorModel>(value));
                }
                assert(s[i] == hv[0]);
                assert(!is_field_delimiter(hv[0]));
                lemma_dispatch_recognized(s, i, acc, tag, value);
                let next = dispatch_next(s, i);
                if tail.len() == 0 {
                    assert(next == s.len());
                    assert(s.subrange(next, s.len() as int) =~= rest2);
                } else {
                    assert(next == vend + 1);
                    assert(tail == seq!['\t'] + rest2);
                    assert forall|x: int| 0 <= x < s.len() - next implies s.subrange(
                        next,
                        s.len() as int,
                    )[x] == rest2[x] by {
                        assert(s[next + x] == render_rest_from(m, k)[5 + rv.len() as int + 1 + x]);
                        assert(render_rest_from(m, k)[5 + rv.len() as int + 1 + x] == tail[1 + x]);
                    }
                    assert(s.subrange(next, s.len() as int) =~= rest2);
                }
                lemma_dispatch_rendered_rest(s, next, slot_set(acc, tag, value), m, k + 1);
            },
        }
    }
}

/// Merging a well-formed line's slots into the model that holds its
/// required columns and nothing else yields the line itself.
#[verifier::rlimit(100)]
pub proof fn lemma_merge_into_initial(init: LineModel, m: LineModel)
    requires
        init == initial_line_model(
            m.query_sequence_name,
            m.query_sequence_length,
            m.query_start_coordinate,
            m.query_end_coordinate,
            m.strand,
            m.target_sequence_name,
            m.target_sequence_length,
            m.target_start_coordinate_on_original_strand,
            m.target_end_coordinate_on_original_strand,
            m.number_of_matching_bases,
            m.number_of_bases_and_gaps,
            m.mapping_quality,
        ),
        m.unknown_fields.len() == 0,
    ensures
        merge_from(init, m, 0) == m,
{
    lemma_merge_from(init, m, 0);
    let r = merge_from(init, m, 0);
    assert(emit_order()[0] == TagKind::Nm);
    assert(slot_get(r, emit_order()[0]) == (match slot_get(m, emit_order()[0]) {
        Some(value) => Some(value),
        None => slot_get(init, emit_order()[0]),
    }));
    assert(r.total_number_of_mismatches_and_gaps == m.total_number_of_mismatches_and_gaps);
    assert(emit_order()[1] == TagKind::Ms);
    assert(slot_get(r, emit_order()[1]) == (match slot_get(m, emit_order()[1]) {
        Some(value) => Some(value),
        None => slot_get(init, emit_order()[1]),
    }));
    assert(r.best_segment_dp_score == m.best_segment_dp_score);
    assert(emit_order()[2] == TagKind::As);
    assert(slot_get(r, emit_order()[2]) == (match slot_get(m, emit_order()[2]) {
        Some(value) => Some(value),
        None => slot_get(init, emit_order()[2]),
    }));
    assert(r.dp_alignment_score == m.dp_alignment_score);
    assert(emit_order()[3] == TagKind::Nn);
    assert(slot_get(r, emit_order()[3]) == (match slot_get(m, emit_order()[3]) {
        Some(value) => Some(value),
        None => slot_get(init, emit_order()[3]),
    }));
    assert(r.number_of_ambiguous_bases == m.number_of_ambiguous_bases);
    assert(emit_order()[4] == TagKind::Tp);
    assert(slot_get(r, emit_order()[4]) == (match slot_get(m, emit_order()[4]) {
        Some(value) => Some(value),
        None => slot_get(init, emit_order()[4]),
    }));
    assert(r.alignment_type == m.alignment_type);
    assert(emit_order()[5] == TagKind::Cm);
    assert(slot_get(r, emit_order()[5]) == (match slot_get(m, emit_order()[5]) {
        Some(value) => Some(value),
        None => slot_get(init, emit_order()[5]),
    }));
    assert(r.number_of_minimisers == m.number_of_minimisers);
    assert(emit_order()[6] == TagKind::S1);
    assert(slot_get(r, emit_order()[6]) == (match slot_get(m, emit_order()[6]) {
        Some(value) => Some(value),
        None => slot_get(init, emit_order()[6]),
    }));
    assert(r.chaining_score == m.chaining_score);
    assert(emit_order()[7] == TagKind::S2);
    assert(slot_get(r, emit_order()[7]) == (match slot_get(m, emit_order()[7]) {
        Some(value) => Some(value),
        None => slot_get(init, emit_order()[7]),
    }));
    assert(r.best_secondary_chaining_score == m.best_secondary_chaining_score);
    assert(emit_order()[8] == TagKind::De);
    assert(slot_get(r, emit_order()[8]) == (match slot_get(m, emit_order()[8]) {
        Some(value) => Some(value),
        None => slot_get(init, emit_order()[8]),
    }));
    assert(r.gap_compressed_per_base_sequence_divergence == m.gap_compressed_per_base_sequence_divergence);
    assert(emit_order()[9] == TagKind::Rl);
    assert(slot_get(r, emit_order()[9]) == (match slot_get(m, emit_order()[9]) {
        Some(value) => Some(value),
        None => slot_get(init, emit_order()[9]),
    }));
    assert(r.length_of_query_regions_with_repetitive_seeds == m.length_of_query_regions_with_repetitive_seeds);
    assert(emit_order()[10] == TagKind::Md);
    assert(slot_get(r, emit_order()[10]) == (match slot_get(m, emit_order()[10]) {
        Some(value) => Some(value),
        None => slot_get(init, emit_order()[10]),
    }));
    assert(r.unknown_md == m.unknown_md);
    assert(emit_order()[11] == TagKind::Sa);
    assert(slot_get(r, emit_order()[11]) == (match slot_get(m, emit_order()[11]) {
        Some(value) => Some(value),
        None => slot_get(init, emit_order()[11]),
    }));
    assert(r.supplementary_alignments == m.supplementary_alignments);
    assert(emit_order()[12] == TagKind::Ts);
    assert(slot_get(r, emit_order()[12]) == (match slot_get(m, emit_order()[12]) {
        Some(value) => Some(value),
        None => slot_get(init, emit_order()[12]),
    }));
    assert(r.transcript_strand == m.transcript_strand);
    assert(emit_order()[13] == TagKind::Cg);
    assert(slot_get(r, emit_order()[13]) == (match slot_get(m, emit_order()[13]) {
        Some(value) => Some(value),
        None => slot_get(init, emit_order()[13]),
    }));
    assert(r.cigar_string == m.cigar_string);
    assert(emit_order()[14] == TagKind::Cs);
    assert(slot_get(r, emit_order()[14]) == (match slot_get(m, emit_order()[14]) {
        Some(value) => Some(value),
        None => slot_get(init, emit_order()[14]),
    }));
    assert(r.difference_string == m.difference_string);
    assert(emit_order()[15] == TagKind::Dv);
    assert(slot_get(r, emit_order()[15]) == (match slot_get(m, emit_order()[15]) {
        Some(value) => Some(value),
        None => slot_get(init, emit_order()[15]),
    }));
    assert(r.approximate_per_base_sequence_divergence == m.approximate_per_base_sequence_divergence);
    assert(m.unknown_fields =~= Seq::<Seq<char>>::empty());
    assert(r =~= m);
}

/// A rendered column followed by a tab is taken back as the column, and the
/// cursor moves past the tab.
pub proof fn lemma_peel_field(s: Seq<char>, i: int, content: Seq<char>, rest: Seq<char>)
    requires
        0 <= i <= s.len(),
        s.subrange(i, s.len() as int) == content + seq!['\t'] + rest,
        text_wf(content),
    ensures
        spec_take_field(s, i, false) == Ok::<_, ErrorModel>((content, i + content.len() + 1)),
        s.subrange(i + content.len() + 1, s.len() as int) == rest,
{
    let e = i + content.len();
    let whole = content + seq!['\t'] + rest;
    assert(s.subrange(i, s.len() as int).len() == s.len() - i);
    assert(s.len() - i == whole.len());
    assert forall|x: int| 0 <= x < content.len() implies s[i + x] == content[x] by {
        assert(s.subrange(i, s.len() as int)[x] == s[i + x]);
        assert(s[i + x] == whole[x]);
    }
    assert forall|j: int| i <= j < e implies !is_field_delimiter(s[j]) by {
        assert(s[j] == content[j - i]);
    }
    assert(s.subrange(i, s.len() as int)[content.len() as int] == s[e]);
    assert(s[e] == whole[content.len() as int]);
    assert(s[e] == '\t');
    lemma_scan_delimiter_at(s, i, e);
    assert(s.subrange(i, e) =~= content);
    assert forall|x: int| 0 <= x < s.len() - (e + 1) implies s.subrange(e + 1, s.len() as int)[x]
        == rest[x] by {
        assert(s.subrange(i, s.len() as int)[content.len() as int + 1 + x] == s[e + 1 + x]);
        assert(s[e + 1 + x] == whole[content.len() as int + 1 + x]);
    }
    assert(s.subrange(e + 1, s.len() as int) =~= rest);
}

/// The decimal writing of a number fits in one column.
pub proof fn lemma_render_number_text_wf(n: int)
    requires
        0 <= n,
    ensures
        text_wf(render_number(n)),
        render_number(n).len() > 0,
{
    lemma_render_number(n);
    assert forall|j: int| 0 <= j < render_number(n).len() implies !is_field_delimiter(
        render_number(n)[j],
    ) by {
        assert(is_ascii_digit(render_number(n)[j]));
    }
}

/// Merging a line's slots into a model whose slots are all empty copies
/// every slot of the line, and keeps the model's required columns and
/// unrecognized columns.
#[verifier::rlimit(100)]
pub proof fn lemma_merge_fills(acc: LineModel, m: LineModel)
    requires
        forall|t: TagKind| slot_get(acc, t) is None,
    ensures
        merge_from(acc, m, 0) == (LineModel {
            query_sequence_name: acc.query_sequence_name,
            query_sequence_length: acc.query_sequence_length,
            query_start_coordinate: acc.query_start_coordinate,
            query_end_coordinate: acc.query_end_coordinate,
            strand: acc.strand,
            target_sequence_name: acc.target_sequence_name,
            target_sequence_length: acc.target_sequence_length,
            target_start_coordinate_on_original_strand: acc.target_start_coordinate_on_original_strand,
            target_end_coordinate_on_original_strand: acc.target_end_coordinate_on_original_strand,
            number_of_matching_bases: acc.number_of_matching_bases,
            number_of_bases_and_gaps: acc.number_of_bases_and_gaps,
            mapping_quality: acc.mapping_quality,
            unknown_fields: acc.unknown_fields,
            ..m
        }),
{
    lemma_merge_from(acc, m, 0);
    let r = merge_from(acc, m, 0);
    assert(emit_order()[0] == TagKind::Nm);
    assert(slot_get(r, emit_order()[0]) == (match slot_get(m, emit_order()[0]) {
        Some(value) => Some(value),
        None => slot_get(acc, emit_order()[0]),
    }));
    assert(r.total_number_of_mismatches_and_gaps == m.total_number_of_mismatches_and_gaps);
    assert(emit_order()[1] == TagKind::Ms);
    assert(slot_get(r, emit_order()[1]) == (match slot_get(m, emit_order()[1]) {
        Some(value) => Some(value),
        None => slot_get(acc, emit_order()[1]),
    }));
    assert(r.best_segment_dp_score == m.best_segment_dp_score);
    assert(emit_order()[2] == TagKind::As);
    assert(slot_get(r, emit_order()[2]) == (match slot_get(m, emit_order()[2]) {
        Some(value) => Some(value),
        None => slot_get(acc, emit_order()[2]),
    }));
    assert(r.dp_alignment_score == m.dp_alignment_score);
    assert(emit_order()[3] == TagKind::Nn);
    assert(slot_get(r, emit_order()[3]) == (match slot_get(m, emit_order()[3]) {
        Some(value) => Some(value),
        None => slot_get(acc, emit_order()[3]),
    }));
    assert(r.number_of_ambiguous_bases == m.number_of_ambiguous_bases);
    assert(emit_order()[4] == TagKind::Tp);
    assert(slot_get(r, emit_order()[4]) == (match slot_get(m, emit_order()[4]) {
        Some(value) => Some(value),
        None => slot_get(acc, emit_order()[4]),
    }));
    assert(r.alignment_type == m.alignment_type);
    assert(emit_order()[5] == TagKind::Cm);
    assert(slot_get(r, emit_order()[5]) == (match slot_get(m, emit_order()[5]) {
        Some(value) => Some(value),
        None => slot_get(acc, emit_order()[5]),
    }));
    assert(r.number_of_minimisers == m.number_of_minimisers);
    assert(emit_order()[6] == TagKind::S1);
    assert(slot_get(r, emit_order()[6]) == (match slot_get(m, emit_order()[6]) {
        Some(value) => Some(value),
        None => slot_get(acc, emit_order()[6]),
    }));
    assert(r.chaining_score == m.chaining_score);
    assert(emit_order()[7] == TagKind::S2);
    assert(slot_get(r, emit_order()[7]) == (match slot_get(m, emit_order()[7]) {
        Some(value) => Some(value),
        None => slot_get(acc, emit_order()[7]),
    }));
    assert(r.best_secondary_chaining_score == m.best_secondary_chaining_score);
    assert(emit_order()[8] == TagKind::De);
    assert(slot_get(r, emit_order()[8]) == (match slot_get(m, emit_order()[8]) {
        Some(value) => Some(value),
        None => slot_get(acc, emit_order()[8]),
    }));
    assert(r.gap_compressed_per_base_sequence_divergence == m.gap_compressed_per_base_sequence_divergence);
    assert(emit_order()[9] == TagKind::Rl);
    assert(slot_get(r, emit_order()[9]) == (match slot_get(m, emit_order()[9]) {
        Some(value) => Some(value),
        None => slot_get(acc, emit_order()[9]),
    }));
    assert(r.length_of_query_regions_with_repetitive_seeds == m.length_of_query_regions_with_repetitive_seeds);
    assert(emit_order()[10] == TagKind::Md);
    assert(slot_get(r, emit_order()[10]) == (match slot_get(m, emit_order()[10]) {
        Some(value) => Some(value),
        None => slot_get(acc, emit_order()[10]),
    }));
    assert(r.unknown_md == m.unknown_md);
    assert(emit_order()[11] == TagKind::Sa);
    assert(slot_get(r, emit_order()[11]) == (match slot_get(m, emit_order()[11]) {
        Some(value) => Some(value),
        None => slot_get(acc, emit_order()[11]),
    }));
    assert(r.supplementary_alignments == m.supplementary_alignments);
    assert(emit_order()[12] == TagKind::Ts);
    assert(slot_get(r, emit_order()[12]) == (match slot_get(m, emit_order()[12]) {
        Some(value) => Some(value),
        None => slot_get(acc, emit_order()[12]),
    }));
    assert(r.transcript_strand == m.transcript_strand);
    assert(emit_order()[13] == TagKind::Cg);
    assert(slot_get(r, emit_order()[13]) == (match slot_get(m, emit_order()[13]) {
        Some(value) => Some(value),
        None => slot_get(acc, emit_order()[13]),
    }));
    assert(r.cigar_string == m.cigar_string);
    assert(emit_order()[14] == TagKind::Cs);
    assert(slot_get(r, emit_order()[14]) == (match slot_get(m, emit_order()[14]) {
        Some(value) => Some(value),
        None => slot_get(acc, emit_order()[14]),
    }));
    assert(r.difference_string == m.difference_string);
    assert(emit_order()[15] == TagKind::Dv);
    assert(slot_get(r, emit_order()[15]) == (match slot_get(m, emit_order()[15]) {
        Some(value) => Some(value),
        None => slot_get(acc, emit_order()[15]),
    }));
    assert(r.approximate_per_base_sequence_divergence == m.approximate_per_base_sequence_divergence);
    assert(r =~= (LineModel {
        query_sequence_name: acc.query_sequence_name,
        query_sequence_length: acc.query_sequence_length,
        query_start_coordinate: acc.query_start_coordinate,
        query_end_coordinate: acc.query_end_coordinate,
        strand: acc.strand,
        target_sequence_name: acc.target_sequence_name,
        target_sequence_length: acc.target_sequence_length,
        target_start_coordinate_on_original_strand: acc.target_start_coordinate_on_original_strand,
        target_end_coordinate_on_original_strand: acc.target_end_coordinate_on_original_strand,
        number_of_matching_bases: acc.number_of_matching_bases,
        number_of_bases_and_gaps: acc.number_of_bases_and_gaps,
        mapping_quality: acc.mapping_quality,
        unknown_fields: acc.unknown_fields,
        ..m
    }));
}

} // verus!
