use vstd::prelude::*;
use vstd::string::StrSliceExecFns;
use vstd::string::StringExecFns;

use crate::data::PAFLine;
use crate::data::{AlignmentDifference, AlignmentType, Cigar, CigarColumn, DifferenceColumn};
use crate::error::{Error, ErrorModel};
use crate::data::LineModel;
use crate::grammar::{
    all_digits, digit_value, digits_value, is_ascii_digit, is_cigar_operation, is_field_delimiter,
    is_number, scan_cigar_op, scan_delimiter, scan_difference_marker, is_difference_marker,
    spec_parse_u8, spec_parse_usize, spec_take_field, spec_extract_value,
};
use crate::grammar::{
    header_tag, initial_line_model, slot_set, spec_decode_value,
    spec_dispatch, spec_parse_all, spec_parse_line, spec_req_number, spec_req_quality,
    spec_req_strand, spec_req_text, TagKind, TagValue,
};

verus! {

/// The position of the first tab or newline at or after `from`, or the end
/// of the input if none follows.
fn find_delimiter(string: &str, from: usize) -> (r: usize)
    requires
        from as int <= string@.len(),
    ensures
        r as int == scan_delimiter(string@, from as int),
        from <= r,
        r as int <= string@.len(),
{
    let len = string.unicode_len();
    let mut j = from;
    while j < len
        invariant
            from <= j <= len,
            len as int == string@.len(),
            scan_delimiter(string@, from as int) == scan_delimiter(string@, j as int),
        decreases len - j,
    {
        let c = string.get_char(j);
        if c == '\t' || c == '\n' {
            assert(scan_delimiter(string@, j as int) == j as int);
            return j;
        }
        assert(scan_delimiter(string@, j as int) == scan_delimiter(string@, j + 1 as int));
        j = j + 1;
    }
    assert(scan_delimiter(string@, j as int) == j as int);
    j
}

/// The position of the first CIGAR operation code in `[from, limit)`, or
/// `limit` if the range holds none.
fn find_cigar_op(string: &str, from: usize, limit: usize) -> (r: usize)
    requires
        from <= limit,
        limit as int <= string@.len(),
    ensures
        r as int == scan_cigar_op(string@, from as int, limit as int),
        from <= r <= limit,
{
    let mut j = from;
    while j < limit
        invariant
            from <= j <= limit,
            limit as int <= string@.len(),
            scan_cigar_op(string@, from as int, limit as int) == scan_cigar_op(
                string@,
                j as int,
                limit as int,
            ),
        decreases limit - j,
    {
        let c = string.get_char(j);
        if c == 'M' || c == 'D' || c == 'I' || c == 'X' {
            return j;
        }
        j = j + 1;
    }
    j
}

/// The position of the first difference marker in `[from, limit)`, or
/// `limit` if the range holds none.
fn find_difference_marker(string: &str, from: usize, limit: usize) -> (r: usize)
    requires
        from <= limit,
        limit as int <= string@.len(),
    ensures
        r as int == scan_difference_marker(string@, from as int, limit as int),
        from <= r <= limit,
{
    let mut j = from;
    while j < limit
        invariant
            from <= j <= limit,
            limit as int <= string@.len(),
            scan_difference_marker(string@, from as int, limit as int) == scan_difference_marker(
                string@,
                j as int,
                limit as int,
            ),
        decreases limit - j,
    {
        let c = string.get_char(j);
        if c == ':' || c == '-' || c == '+' || c == '*' {
            return j;
        }
        j = j + 1;
    }
    j
}

/// The text read as an unsigned number: its digits' value if it is a
/// non-empty digit string whose value fits in `usize`, absent otherwise.
pub fn parse_usize_str(field: &str) -> (r: Option<usize>)
    ensures
        r == spec_parse_usize(field@),
{
    let len = field.unicode_len();
    if len == 0 {
        return None;
    }
    let mut acc: usize = 0;
    let mut overflow = false;
    let mut j: usize = 0;
    while j < len
        invariant
            0 <= j <= len,
            len as int == field@.len(),
            all_digits(field@.subrange(0, j as int)),
            !overflow ==> acc as int == digits_value(field@.subrange(0, j as int)),
            overflow ==> digits_value(field@.subrange(0, j as int)) > usize::MAX,
        decreases len - j,
    {
        let c = field.get_char(j);
        let u = c as u32;
        if u < 48 || u > 57 {
            assert(!is_ascii_digit(field@[j as int]));
            return None;
        }
        let d = (u - 48) as usize;
        proof {
            let prefix = field@.subrange(0, j as int);
            let extended = field@.subrange(0, j + 1 as int);
            assert(extended.drop_last() =~= prefix);
            assert(extended.last() == field@[j as int]);
            assert(is_ascii_digit(field@[j as int]));
            assert(digit_value(field@[j as int]) == d as int);
            assert(digits_value(extended) == 10 * digits_value(prefix) + d);
            assert(all_digits(extended));
        }
        if !overflow {
            if acc > usize::MAX / 10 || (acc == usize::MAX / 10 && d > usize::MAX % 10) {
                overflow = true;
                proof {
                    assert(usize::MAX == 10 * (usize::MAX / 10) + usize::MAX % 10);
                    assert(10 * (acc as int) + d > usize::MAX);
                }
            } else {
                proof {
                    assert(usize::MAX == 10 * (usize::MAX / 10) + usize::MAX % 10);
                    assert(10 * (acc as int) + d <= usize::MAX);
                }
                acc = acc * 10 + d;
            }
        } else {
            proof {
                let prefix = field@.subrange(0, j as int);
                assert(digits_value(prefix) > usize::MAX);
                assert(10 * digits_value(prefix) + d > usize::MAX);
            }
        }
        j = j + 1;
    }
    proof {
        assert(field@.subrange(0, len as int) =~= field@);
    }
    if overflow {
        None
    } else {
        Some(acc)
    }
}

/// The text read as a byte-range unsigned number.
pub fn parse_u8_str(field: &str) -> (r: Option<u8>)
    ensures
        r == spec_parse_u8(field@),
{
    let r = parse_usize_str(field);
    proof {
        assert(usize::MAX >= 255);
        if is_number(field@) {
            crate::grammar::lemma_digits_value_nonnegative(field@);
        }
    }
    match r {
        Some(value) => {
            if value <= 255 {
                Some(value as u8)
            } else {
                None
            }
        },
        None => None,
    }
}

/// Reads one column starting at `position`: the text up to the next tab or
/// newline.  A tab is consumed; a newline or the end of input ends the
/// column without being consumed, and is an error unless `allow_end_of_line`
/// is set.
pub fn parse_column(string: &str, position: &mut usize, allow_end_of_line: bool) -> (r: Result<
    String,
    Error,
>)
    requires
        *old(position) as int <= string@.len(),
    ensures
        (match r {
            Ok(field) => spec_take_field(string@, *old(position) as int, allow_end_of_line)
                == Ok::<_, ErrorModel>((field@, *final(position) as int)) && *final(position) as int
                <= string@.len(),
            Err(e) => spec_take_field(string@, *old(position) as int, allow_end_of_line)
                == Err::<(Seq<char>, int), _>(e@) && *final(position) == *old(position),
        }),
{
    let i = *position;
    let e = find_delimiter(string, i);
    let len = string.unicode_len();
    if e == len {
        if allow_end_of_line {
            *position = e;
            Ok(string.substring_char(i, e).to_owned())
        } else {
            Err(Error::UnexpectedEndOfFile)
        }
    } else if string.get_char(e) == '\n' {
        if allow_end_of_line {
            *position = e;
            Ok(string.substring_char(i, e).to_owned())
        } else {
            Err(Error::UnexpectedEndOfLine)
        }
    } else {
        *position = e + 1;
        Ok(string.substring_char(i, e).to_owned())
    }
}

/// Reads the raw value of an optional column starting at `position`: the
/// text up to the next tab or newline.  A tab is consumed; a newline or the
/// end of input ends the value without being consumed, since an optional
/// column may end the line.
pub fn extract_column_value<'a>(string: &'a str, position: &mut usize) -> (r: &'a str)
    requires
        *old(position) as int <= string@.len(),
    ensures
        r@ == spec_extract_value(string@, *old(position) as int).0,
        *final(position) as int == spec_extract_value(string@, *old(position) as int).1,
        *final(position) as int <= string@.len(),
{
    let i = *position;
    let e = find_delimiter(string, i);
    let len = string.unicode_len();
    let value = string.substring_char(i, e);
    if e < len && string.get_char(e) == '\t' {
        *position = e + 1;
    } else {
        *position = e;
    }
    value
}

/// Decodes a CIGAR string starting at `position`: run-length coded
/// operations up to the next tab or newline.  A trailing tab is consumed, a
/// newline or the end of input is not.
pub fn parse_cigar(string: &str, position: &mut usize) -> (r: Result<Cigar, Error>)
    requires
        *old(position) as int <= string@.len(),
    ensures
        ({
            let start = *old(position) as int;
            let vend = scan_delimiter(string@, start);
            match r {
                Ok(cigar) => crate::grammar::spec_parse_cigar_entries(
                    string@,
                    start,
                    vend,
                    Seq::empty(),
                ) == Ok::<_, ErrorModel>(cigar@) && *final(position) as int == (if vend
                    < string@.len() && string@[vend] == '\t' {
                    vend + 1
                } else {
                    vend
                }) && *final(position) as int <= string@.len(),
                Err(e) => crate::grammar::spec_parse_cigar_entries(
                    string@,
                    start,
                    vend,
                    Seq::empty(),
                ) == Err::<Seq<CigarColumn>, _>(e@),
            }
        }),
{
    let ghost s = string@;
    let start = *position;
    let vend = find_delimiter(string, start);
    let len = string.unicode_len();
    let mut result: Vec<CigarColumn> = Vec::new();
    let mut j = start;
    while j < vend
        invariant
            start == *old(position),
            start <= j <= vend,
            vend as int == scan_delimiter(s, start as int),
            vend <= len,
            len as int == s.len(),
            s == string@,
            crate::grammar::spec_parse_cigar_entries(s, start as int, vend as int, Seq::empty())
                == crate::grammar::spec_parse_cigar_entries(s, j as int, vend as int, result@),
        decreases vend - j,
    {
        let p = find_cigar_op(string, j, vend);
        proof {
            crate::grammar::lemma_scan_cigar_op(s, j as int, vend as int);
        }
        if p == vend {
            assert(crate::grammar::spec_parse_cigar_entries(s, j as int, vend as int, result@)
                == Err::<Seq<CigarColumn>, ErrorModel>(ErrorModel::MalformedCigar));
            return Err(Error::MalformedCigar);
        }
        let count_str = string.substring_char(j, p);
        let n = match parse_usize_str(count_str) {
            Some(n) => n,
            None => 0,
        };
        if n == 0 {
            assert(crate::grammar::spec_parse_cigar_entries(s, j as int, vend as int, result@)
                == Err::<Seq<CigarColumn>, ErrorModel>(ErrorModel::MalformedCigar));
            return Err(Error::MalformedCigar);
        }
        let op = string.get_char(p);
        let column = if op == 'M' {
            CigarColumn::Match(n)
        } else if op == 'D' {
            CigarColumn::Deletion(n)
        } else if op == 'I' {
            CigarColumn::Insertion(n)
        } else {
            CigarColumn::Mismatch(n)
        };
        proof {
            crate::grammar::lemma_digits_value_nonnegative(s.subrange(j as int, p as int));
            assert(column == crate::grammar::cigar_column_of(s[p as int], n));
            assert(crate::grammar::spec_parse_cigar_entries(s, j as int, vend as int, result@)
                == crate::grammar::spec_parse_cigar_entries(
                s,
                p + 1 as int,
                vend as int,
                result@.push(column),
            ));
        }
        result.push(column);
        j = p + 1;
    }
    if vend < len && string.get_char(vend) == '\t' {
        *position = vend + 1;
    } else {
        *position = vend;
    }
    Ok(Cigar(result))
}

/// Decodes an alignment difference string starting at `position`: marker-led
/// entries up to the next tab or newline.  A trailing tab is consumed, a
/// newline or the end of input is not.
pub fn parse_alignment_difference(string: &str, position: &mut usize) -> (r: Result<
    AlignmentDifference,
    Error,
>)
    requires
        *old(position) as int <= string@.len(),
    ensures
        ({
            let start = *old(position) as int;
            let vend = scan_delimiter(string@, start);
            match r {
                Ok(difference) => crate::grammar::spec_parse_difference_entries(
                    string@,
                    start,
                    vend,
                    Seq::empty(),
                ) == Ok::<_, ErrorModel>(difference@) && *final(position) as int == (if vend
                    < string@.len() && string@[vend] == '\t' {
                    vend + 1
                } else {
                    vend
                }) && *final(position) as int <= string@.len(),
                Err(e) => crate::grammar::spec_parse_difference_entries(
                    string@,
                    start,
                    vend,
                    Seq::empty(),
                ) == Err::<Seq<crate::data::DiffEntry>, _>(e@),
            }
        }),
{
    let ghost s = string@;
    let start = *position;
    let vend = find_delimiter(string, start);
    let len = string.unicode_len();
    let mut result: Vec<DifferenceColumn> = Vec::new();
    proof {
        assert(result@.map_values(|column: DifferenceColumn| column@) =~= Seq::<
            crate::data::DiffEntry,
        >::empty());
    }
    let mut j = start;
    while j < vend
        invariant
            start == *old(position),
            start <= j <= vend,
            vend as int == scan_delimiter(s, start as int),
            vend <= len,
            len as int == s.len(),
            s == string@,
            crate::grammar::spec_parse_difference_entries(
                s,
                start as int,
                vend as int,
                Seq::empty(),
            ) == crate::grammar::spec_parse_difference_entries(
                s,
                j as int,
                vend as int,
                result@.map_values(|column: DifferenceColumn| column@),
            ),
        decreases vend - j,
    {
        let ghost entries = result@.map_values(|column: DifferenceColumn| column@);
        let marker = string.get_char(j);
        let pend = find_difference_marker(string, j + 1, vend);
        let payload = string.substring_char(j + 1, pend);
        let column: DifferenceColumn;
        if marker == ':' {
            let n = match parse_usize_str(payload) {
                Some(n) => n,
                None => 0,
            };
            if n == 0 {
                assert(crate::grammar::spec_parse_difference_entries(
                    s,
                    j as int,
                    vend as int,
                    entries,
                ) == Err::<Seq<crate::data::DiffEntry>, ErrorModel>(
                    ErrorModel::MalformedAlignmentDifference,
                ));
                return Err(Error::MalformedAlignmentDifference);
            }
            proof {
                crate::grammar::lemma_digits_value_nonnegative(
                    s.subrange(j + 1 as int, pend as int),
                );
            }
            column = DifferenceColumn::Match { length: n };
        } else if marker == '-' {
            if payload.unicode_len() == 0 {
                assert(crate::grammar::spec_parse_difference_entries(
                    s,
                    j as int,
                    vend as int,
                    entries,
                ) == Err::<Seq<crate::data::DiffEntry>, ErrorModel>(
                    ErrorModel::MalformedAlignmentDifference,
                ));
                return Err(Error::MalformedAlignmentDifference);
            }
            column = DifferenceColumn::Deletion { missing_query_characters: payload.to_owned() };
        } else if marker == '+' {
            if payload.unicode_len() == 0 {
                assert(crate::grammar::spec_parse_difference_entries(
                    s,
                    j as int,
                    vend as int,
                    entries,
                ) == Err::<Seq<crate::data::DiffEntry>, ErrorModel>(
                    ErrorModel::MalformedAlignmentDifference,
                ));
                return Err(Error::MalformedAlignmentDifference);
            }
            column = DifferenceColumn::Insertion {
                superfluous_query_characters: payload.to_owned(),
            };
        } else if marker == '*' {
            if payload.unicode_len() != 2 {
                assert(crate::grammar::spec_parse_difference_entries(
                    s,
                    j as int,
                    vend as int,
                    entries,
                ) == Err::<Seq<crate::data::DiffEntry>, ErrorModel>(
                    ErrorModel::MalformedAlignmentDifference,
                ));
                return Err(Error::MalformedAlignmentDifference);
            }
            let reference = payload.get_char(0);
            let query = payload.get_char(1);
            column = DifferenceColumn::Mismatch { reference, query };
        } else {
            assert(crate::grammar::spec_parse_difference_entries(
                s,
                j as int,
                vend as int,
                entries,
            ) == Err::<Seq<crate::data::DiffEntry>, ErrorModel>(
                ErrorModel::MalformedAlignmentDifference,
            ));
            return Err(Error::MalformedAlignmentDifference);
        }
        proof {
            assert(result@.push(column).map_values(|c: DifferenceColumn| c@) =~= entries.push(
                column@,
            ));
            assert(crate::grammar::spec_parse_difference_entries(s, j as int, vend as int, entries)
                == crate::grammar::spec_parse_difference_entries(
                s,
                pend as int,
                vend as int,
                entries.push(column@),
            ));
        }
        result.push(column);
        j = pend;
    }
    if vend < len && string.get_char(vend) == '\t' {
        *position = vend + 1;
    } else {
        *position = vend;
    }
    Ok(AlignmentDifference(result))
}

/// The recognized tag whose five header characters start at `i`, if any.
fn match_header(string: &str, i: usize) -> (r: Option<TagKind>)
    requires
        i + 5 <= string@.len(),
        string@.len() <= usize::MAX,
    ensures
        r == header_tag(string@, i as int),
{
    if string.get_char(i + 2) != ':' || string.get_char(i + 4) != ':' {
        return None;
    }
    let a = string.get_char(i);
    let b = string.get_char(i + 1);
    let t = string.get_char(i + 3);
    if a == 't' && b == 'p' && t == 'A' {
        Some(TagKind::Tp)
    } else if a == 'c' && b == 'm' && t == 'i' {
        Some(TagKind::Cm)
    } else if a == 's' && b == '1' && t == 'i' {
        Some(TagKind::S1)
    } else if a == 's' && b == '2' && t == 'i' {
        Some(TagKind::S2)
    } else if a == 'N' && b == 'M' && t == 'i' {
        Some(TagKind::Nm)
    } else if a == 'M' && b == 'D' && t == 'Z' {
        Some(TagKind::Md)
    } else if a == 'A' && b == 'S' && t == 'i' {
        Some(TagKind::As)
    } else if a == 'S' && b == 'A' && t == 'Z' {
        Some(TagKind::Sa)
    } else if a == 'm' && b == 's' && t == 'i' {
        Some(TagKind::Ms)
    } else if a == 'n' && b == 'n' && t == 'i' {
        Some(TagKind::Nn)
    } else if a == 't' && b == 's' && t == 'A' {
        Some(TagKind::Ts)
    } else if a == 'c' && b == 'g' && t == 'Z' {
        Some(TagKind::Cg)
    } else if a == 'c' && b == 's' && t == 'Z' {
        Some(TagKind::Cs)
    } else if a == 'd' && b == 'v' && t == 'f' {
        Some(TagKind::Dv)
    } else if a == 'd' && b == 'e' && t == 'f' {
        Some(TagKind::De)
    } else if a == 'r' && b == 'l' && t == 'i' {
        Some(TagKind::Rl)
    } else {
        None
    }
}

/// Reads the value of a number tag starting at `position`; an unparseable
/// value is a column parse error.
fn parse_number_value(string: &str, position: &mut usize) -> (r: Result<usize, Error>)
    requires
        *old(position) as int <= string@.len(),
    ensures
        (match r {
            Ok(v) => spec_parse_usize(spec_extract_value(string@, *old(position) as int).0)
                == Some(v) && *final(position) as int == spec_extract_value(
                string@,
                *old(position) as int,
            ).1 && *final(position) as int <= string@.len(),
            Err(e) => spec_parse_usize(spec_extract_value(string@, *old(position) as int).0)
                is None && e@ == ErrorModel::ColumnParseError,
        }),
{
    let value = extract_column_value(string, position);
    match parse_usize_str(value) {
        Some(v) => Ok(v),
        None => Err(Error::ColumnParseError),
    }
}

/// Parses one line of input into a [`PAFLine`].
///
/// `position` is advanced past the line's terminating newline, or to the end
/// of the input when the final line does not carry one.  On an error the
/// position is unspecified and the input should not be read further.
#[verifier::rlimit(100)]
pub fn parse_line(string: &str, position: &mut usize) -> (r: Result<PAFLine, Error>)
    requires
        *old(position) as int <= string@.len(),
    ensures
        (match r {
            Ok(record) => spec_parse_line(string@, *old(position) as int) == Ok::<_, ErrorModel>(
                (record@, *final(position) as int),
            ) && *final(position) as int <= string@.len(),
            Err(e) => spec_parse_line(string@, *old(position) as int) == Err::<
                (LineModel, int),
                _,
            >(e@),
        }),
{
    let ghost s = string@;
    let ghost i0 = *position as int;

    // the twelve required columns, in fixed order
    let query_sequence_name = match parse_column(string, position, false) {
        Ok(field) => field,
        Err(e) => {
            return Err(e);
        },
    };
    let ghost i1 = *position as int;
    let ghost qname = query_sequence_name@;
    assert(spec_req_text(s, i0) == Ok::<_, ErrorModel>((qname, i1)));

    let field = match parse_column(string, position, false) {
        Ok(field) => field,
        Err(e) => {
            return Err(e);
        },
    };
    let query_sequence_length = match parse_usize_str(field.as_str()) {
        Some(v) => v,
        None => {
            return Err(Error::ColumnParseError);
        },
    };
    let ghost i2 = *position as int;
    assert(spec_req_number(s, i1) == Ok::<_, ErrorModel>((query_sequence_length, i2)));

    let field = match parse_column(string, position, false) {
        Ok(field) => field,
        Err(e) => {
            return Err(e);
        },
    };
    let query_start_coordinate = match parse_usize_str(field.as_str()) {
        Some(v) => v,
        None => {
            return Err(Error::ColumnParseError);
        },
    };
    let ghost i3 = *position as int;
    assert(spec_req_number(s, i2) == Ok::<_, ErrorModel>((query_start_coordinate, i3)));

    let field = match parse_column(string, position, false) {
        Ok(field) => field,
        Err(e) => {
            return Err(e);
        },
    };
    let query_end_coordinate = match parse_usize_str(field.as_str()) {
        Some(v) => v,
        None => {
            return Err(Error::ColumnParseError);
        },
    };
    let ghost i4 = *position as int;
    assert(spec_req_number(s, i3) == Ok::<_, ErrorModel>((query_end_coordinate, i4)));

    let field = match parse_column(string, position, false) {
        Ok(field) => field,
        Err(e) => {
            return Err(e);
        },
    };
    let strand: bool;
    if field.as_str().unicode_len() == 1 && field.as_str().get_char(0) == '+' {
        strand = true;
    } else if field.as_str().unicode_len() == 1 && field.as_str().get_char(0) == '-' {
        strand = false;
    } else {
        assert(spec_req_strand(s, i4) == Err::<(bool, int), _>(ErrorModel::UnexpectedCharacter));
        return Err(Error::UnexpectedCharacter);
    }
    let ghost i5 = *position as int;
    assert(spec_req_strand(s, i4) == Ok::<_, ErrorModel>((strand, i5)));

    let target_sequence_name = match parse_column(string, position, false) {
        Ok(field) => field,
        Err(e) => {
            return Err(e);
        },
    };
    let ghost i6 = *position as int;
    let ghost tname = target_sequence_name@;
    assert(spec_req_text(s, i5) == Ok::<_, ErrorModel>((tname, i6)));

    let field = match parse_column(string, position, false) {
        Ok(field) => field,
        Err(e) => {
            return Err(e);
        },
    };
    let target_sequence_length = match parse_usize_str(field.as_str()) {
        Some(v) => v,
        None => {
            return Err(Error::ColumnParseError);
        },
    };
    let ghost i7 = *position as int;
    assert(spec_req_number(s, i6) == Ok::<_, ErrorModel>((target_sequence_length, i7)));

    let field = match parse_column(string, position, false) {
        Ok(field) => field,
        Err(e) => {
            return Err(e);
        },
    };
    let target_start_coordinate_on_original_strand = match parse_usize_str(field.as_str()) {
        Some(v) => v,
        None => {
            return Err(Error::ColumnParseError);
        },
    };
    let ghost i8 = *position as int;
    assert(spec_req_number(s, i7) == Ok::<_, ErrorModel>(
        (target_start_coordinate_on_original_strand, i8),
    ));

    let field = match parse_column(string, position, false) {
        Ok(field) => field,
        Err(e) => {
            return Err(e);
        },
    };
    let target_end_coordinate_on_original_strand = match parse_usize_str(field.as_str()) {
        Some(v) => v,
        None => {
            return Err(Error::ColumnParseError);
        },
    };
    let ghost i9 = *position as int;
    assert(spec_req_number(s, i8) == Ok::<_, ErrorModel>(
        (target_end_coordinate_on_original_strand, i9),
    ));

    let field = match parse_column(string, position, false) {
        Ok(field) => field,
        Err(e) => {
            return Err(e);
        },
    };
    let number_of_matching_bases = match parse_usize_str(field.as_str()) {
        Some(v) => v,
        None => {
            return Err(Error::ColumnParseError);
        },
    };
    let ghost i10 = *position as int;
    assert(spec_req_number(s, i9) == Ok::<_, ErrorModel>((number_of_matching_bases, i10)));

    let field = match parse_column(string, position, false) {
        Ok(field) => field,
        Err(e) => {
            return Err(e);
        },
    };
    let number_of_bases_and_gaps = match parse_usize_str(field.as_str()) {
        Some(v) => v,
        None => {
            return Err(Error::ColumnParseError);
        },
    };
    let ghost i11 = *position as int;
    assert(spec_req_number(s, i10) == Ok::<_, ErrorModel>((number_of_bases_and_gaps, i11)));

    let field = match parse_column(string, position, true) {
        Ok(field) => field,
        Err(e) => {
            return Err(e);
        },
    };
    let mapping_quality = match parse_u8_str(field.as_str()) {
        Some(v) => v,
        None => {
            return Err(Error::ColumnParseError);
        },
    };
    let ghost i12 = *position as int;
    assert(spec_req_quality(s, i11) == Ok::<_, ErrorModel>((mapping_quality, i12)));

    // the optional columns
    let mut record = PAFLine {
        query_sequence_name,
        query_sequence_length,
        query_start_coordinate,
        query_end_coordinate,
        strand,
        target_sequence_name,
        target_sequence_length,
        target_start_coordinate_on_original_strand,
        target_end_coordinate_on_original_strand,
        number_of_matching_bases,
        number_of_bases_and_gaps,
        mapping_quality,
        alignment_type: None,
        number_of_minimisers: None,
        chaining_score: None,
        best_secondary_chaining_score: None,
        total_number_of_mismatches_and_gaps: None,
        unknown_md: None,
        dp_alignment_score: None,
        supplementary_alignments: None,
        best_segment_dp_score: None,
        number_of_ambiguous_bases: None,
        transcript_strand: None,
        cigar_string: None,
        difference_string: None,
        approximate_per_base_sequence_divergence: None,
        gap_compressed_per_base_sequence_divergence: None,
        length_of_query_regions_with_repetitive_seeds: None,
        unknown_fields: Vec::new(),
    };
    let ghost init = record@;
    proof {
        assert(init =~= initial_line_model(
            qname,
            query_sequence_length,
            query_start_coordinate,
            query_end_coordinate,
            strand,
            tname,
            target_sequence_length,
            target_start_coordinate_on_original_strand,
            target_end_coordinate_on_original_strand,
            number_of_matching_bases,
            number_of_bases_and_gaps,
            mapping_quality,
        ));
        crate::grammar::lemma_spec_parse_line_unfold(
            s,
            i0,
            qname,
            i1,
            query_sequence_length,
            i2,
            query_start_coordinate,
            i3,
            query_end_coordinate,
            i4,
            strand,
            i5,
            tname,
            i6,
            target_sequence_length,
            i7,
            target_start_coordinate_on_original_strand,
            i8,
            target_end_coordinate_on_original_strand,
            i9,
            number_of_matching_bases,
            i10,
            number_of_bases_and_gaps,
            i11,
            mapping_quality,
            i12,
        );
        assert(spec_parse_line(s, i0) == spec_dispatch(s, i12, init));
    }

    let len = string.unicode_len();
    let mut finished = false;
    while !finished
        invariant
            s == string@,
            len as int == s.len(),
            *position as int <= s.len(),
            i0 == *old(position) as int,
            spec_parse_line(s, i0) == spec_dispatch(s, i12, init),
            !finished ==> spec_dispatch(s, i12, init) == spec_dispatch(
                s,
                *position as int,
                record@,
            ),
            finished ==> spec_dispatch(s, i12, init) == Ok::<_, ErrorModel>(
                (record@, *position as int),
            ),
        decreases s.len() - *position + (if finished {
            0int
        } else {
            1int
        }),
    {
        let i = *position;
        let ghost prev = record@;
        let ghost ig = i as int;
        if i == len {
            assert(spec_dispatch(s, ig, prev) == Ok::<_, ErrorModel>((prev, ig)));
            finished = true;
        } else {
            let c = string.get_char(i);
            if c == '\n' {
                assert(spec_dispatch(s, ig, prev) == Ok::<_, ErrorModel>((prev, ig + 1)));
                *position = i + 1;
                finished = true;
            } else if len - i < 6 {
                assert(spec_dispatch(s, ig, prev) == Err::<(LineModel, int), _>(
                    ErrorModel::UnexpectedCharacter,
                ));
                return Err(Error::UnexpectedCharacter);
            } else {
                let header = match_header(string, i);
                let ghost vstart = ig + 5;
                let ghost vend = scan_delimiter(s, vstart);
                *position = i + 5;
                match header {
                    Some(tag) => {
                        match tag {
                            TagKind::Tp => {
                                let value = extract_column_value(string, position);
                                let at: AlignmentType;
                                if value.unicode_len() == 1 && value.get_char(0) == 'P' {
                                    at = AlignmentType::Primary;
                                } else if value.unicode_len() == 1 && value.get_char(0) == 'S' {
                                    at = AlignmentType::Secondary;
                                } else if value.unicode_len() == 1 && value.get_char(0) == 'I' {
                                    at = AlignmentType::PrimaryInversion;
                                } else if value.unicode_len() == 1 && value.get_char(0) == 'i' {
                                    at = AlignmentType::SecondaryInversion;
                                } else {
                                    assert(spec_decode_value(TagKind::Tp, s, vstart, vend)
                                        == Err::<TagValue, _>(ErrorModel::UnexpectedCharacter));
                                    proof {
                                        crate::grammar::lemma_dispatch_recognized_err(
                                            s,
                                            ig,
                                            prev,
                                            tag,
                                            ErrorModel::UnexpectedCharacter,
                                        );
                                    }
                                    return Err(Error::UnexpectedCharacter);
                                }
                                record.alignment_type = Some(at);
                                assert(spec_decode_value(TagKind::Tp, s, vstart, vend)
                                    == Ok::<_, ErrorModel>(TagValue::AType(at)));
                                assert(record@ =~= slot_set(prev, tag, TagValue::AType(at)));
                                proof {
                                    crate::grammar::lemma_dispatch_recognized(
                                        s,
                                        ig,
                                        prev,
                                        tag,
                                        TagValue::AType(at),
                                    );
                                    assert(*position as int == crate::grammar::dispatch_next(
                                        s,
                                        ig,
                                    ));
                                }
                            },
                            TagKind::Cm => {
                                let v = match parse_number_value(string, position) {
                                    Ok(v) => v,
                                    Err(e) => {
                                        proof {

                                            crate::grammar::lemma_dispatch_recognized_err(

                                                s,

                                                ig,

                                                prev,

                                                tag,

                                                e@,

                                            );
                                        }
                                        return Err(e);
                                    },
                                };
                                record.number_of_minimisers = Some(v);
                                assert(record@ =~= slot_set(prev, tag, TagValue::UInt(v)));
                                proof {
                                    crate::grammar::lemma_dispatch_recognized(
                                        s,
                                        ig,
                                        prev,
                                        tag,
                                        TagValue::UInt(v),
                                    );
                                    assert(*position as int == crate::grammar::dispatch_next(
                                        s,
                                        ig,
                                    ));
                                }
                            },
                            TagKind::S1 => {
                                let v = match parse_number_value(string, position) {
                                    Ok(v) => v,
                                    Err(e) => {
                                        proof {

                                            crate::grammar::lemma_dispatch_recognized_err(

                                                s,

                                                ig,

                                                prev,

                                                tag,

                                                e@,

                                            );
                                        }
                                        return Err(e);
                                    },
                                };
                                record.chaining_score = Some(v);
                                assert(record@ =~= slot_set(prev, tag, TagValue::UInt(v)));
                                proof {
                                    crate::grammar::lemma_dispatch_recognized(
                                        s,
                                        ig,
                                        prev,
                                        tag,
                                        TagValue::UInt(v),
                                    );
                                    assert(*position as int == crate::grammar::dispatch_next(
                                        s,
                                        ig,
                                    ));
                                }
                            },
                            TagKind::S2 => {
                                let v = match parse_number_value(string, position) {
                                    Ok(v) => v,
                                    Err(e) => {
                                        proof {

                                            crate::grammar::lemma_dispatch_recognized_err(

                                                s,

                                                ig,

                                                prev,

                                                tag,

                                                e@,

                                            );
                                        }
                                        return Err(e);
                                    },
                                };
                                record.best_secondary_chaining_score = Some(v);
                                assert(record@ =~= slot_set(prev, tag, TagValue::UInt(v)));
                                proof {
                                    crate::grammar::lemma_dispatch_recognized(
                                        s,
                                        ig,
                                        prev,
                                        tag,
                                        TagValue::UInt(v),
                                    );
                                    assert(*position as int == crate::grammar::dispatch_next(
                                        s,
                                        ig,
                                    ));
                                }
                            },
                            TagKind::Nm => {
                                let v = match parse_number_value(string, position) {
                                    Ok(v) => v,
                                    Err(e) => {
                                        proof {

                                            crate::grammar::lemma_dispatch_recognized_err(

                                                s,

                                                ig,

                                                prev,

                                                tag,

                                                e@,

                                            );
                                        }
                                        return Err(e);
                                    },
                                };
                                record.total_number_of_mismatches_and_gaps = Some(v);
                                assert(record@ =~= slot_set(prev, tag, TagValue::UInt(v)));
                                proof {
                                    crate::grammar::lemma_dispatch_recognized(
                                        s,
                                        ig,
                                        prev,
                                        tag,
                                        TagValue::UInt(v),
                                    );
                                    assert(*position as int == crate::grammar::dispatch_next(
                                        s,
                                        ig,
                                    ));
                                }
                            },
                            TagKind::Md => {
                                let value = extract_column_value(string, position);
                                record.unknown_md = Some(value.to_owned());
                                assert(record@ =~= slot_set(prev, tag, TagValue::Text(value@)));
                                proof {
                                    crate::grammar::lemma_dispatch_recognized(
                                        s,
                                        ig,
                                        prev,
                                        tag,
                                        TagValue::Text(value@),
                                    );
                                    assert(*position as int == crate::grammar::dispatch_next(
                                        s,
                                        ig,
                                    ));
                                }
                            },
                            TagKind::As => {
                                let v = match parse_number_value(string, position) {
                                    Ok(v) => v,
                                    Err(e) => {
                                        proof {

                                            crate::grammar::lemma_dispatch_recognized_err(

                                                s,

                                                ig,

                                                prev,

                                                tag,

                                                e@,

                                            );
                                        }
                                        return Err(e);
                                    },
                                };
                                record.dp_alignment_score = Some(v);
                                assert(record@ =~= slot_set(prev, tag, TagValue::UInt(v)));
                                proof {
                                    crate::grammar::lemma_dispatch_recognized(
                                        s,
                                        ig,
                                        prev,
                                        tag,
                                        TagValue::UInt(v),
                                    );
                                    assert(*position as int == crate::grammar::dispatch_next(
                                        s,
                                        ig,
                                    ));
                                }
                            },
                            TagKind::Sa => {
                                let value = extract_column_value(string, position);
                                record.supplementary_alignments = Some(value.to_owned());
                                assert(record@ =~= slot_set(prev, tag, TagValue::Text(value@)));
                                proof {
                                    crate::grammar::lemma_dispatch_recognized(
                                        s,
                                        ig,
                                        prev,
                                        tag,
                                        TagValue::Text(value@),
                                    );
                                    assert(*position as int == crate::grammar::dispatch_next(
                                        s,
                                        ig,
                                    ));
                                }
                            },
                            TagKind::Ms => {
                                let v = match parse_number_value(string, position) {
                                    Ok(v) => v,
                                    Err(e) => {
                                        proof {

                                            crate::grammar::lemma_dispatch_recognized_err(

                                                s,

                                                ig,

                                                prev,

                                                tag,

                                                e@,

                                            );
                                        }
                                        return Err(e);
                                    },
                                };
                                record.best_segment_dp_score = Some(v);
                                assert(record@ =~= slot_set(prev, tag, TagValue::UInt(v)));
                                proof {
                                    crate::grammar::lemma_dispatch_recognized(
                                        s,
                                        ig,
                                        prev,
                                        tag,
                                        TagValue::UInt(v),
                                    );
                                    assert(*position as int == crate::grammar::dispatch_next(
                                        s,
                                        ig,
                                    ));
                                }
                            },
                            TagKind::Nn => {
                                let v = match parse_number_value(string, position) {
                                    Ok(v) => v,
                                    Err(e) => {
                                        proof {

                                            crate::grammar::lemma_dispatch_recognized_err(

                                                s,

                                                ig,

                                                prev,

                                                tag,

                                                e@,

                                            );
                                        }
                                        return Err(e);
                                    },
                                };
                                record.number_of_ambiguous_bases = Some(v);
                                assert(record@ =~= slot_set(prev, tag, TagValue::UInt(v)));
                                proof {
                                    crate::grammar::lemma_dispatch_recognized(
                                        s,
                                        ig,
                                        prev,
                                        tag,
                                        TagValue::UInt(v),
                                    );
                                    assert(*position as int == crate::grammar::dispatch_next(
                                        s,
                                        ig,
                                    ));
                                }
                            },
                            TagKind::Ts => {
                                let value = extract_column_value(string, position);
                                record.transcript_strand = Some(value.to_owned());
                                assert(record@ =~= slot_set(prev, tag, TagValue::Text(value@)));
                                proof {
                                    crate::grammar::lemma_dispatch_recognized(
                                        s,
                                        ig,
                                        prev,
                                        tag,
                                        TagValue::Text(value@),
                                    );
                                    assert(*position as int == crate::grammar::dispatch_next(
                                        s,
                                        ig,
                                    ));
                                }
                            },
                            TagKind::Cg => {
                                let cigar = match parse_cigar(string, position) {
                                    Ok(cigar) => cigar,
                                    Err(e) => {
                                        proof {
                                            crate::grammar::lemma_dispatch_recognized_err(
                                                s,
                                                ig,
                                                prev,
                                                tag,
                                                e@,
                                            );
                                        }
                                        return Err(e);
                                    },
                                };
                                let ghost columns = cigar@;
                                record.cigar_string = Some(cigar);
                                assert(record@ =~= slot_set(prev, tag, TagValue::Ops(columns)));
                                proof {
                                    crate::grammar::lemma_dispatch_recognized(
                                        s,
                                        ig,
                                        prev,
                                        tag,
                                        TagValue::Ops(columns),
                                    );
                                    assert(*position as int == crate::grammar::dispatch_next(
                                        s,
                                        ig,
                                    ));
                                }
                            },
                            TagKind::Cs => {
                                let difference = match parse_alignment_difference(
                                    string,
                                    position,
                                ) {
                                    Ok(difference) => difference,
                                    Err(e) => {
                                        proof {
                                            crate::grammar::lemma_dispatch_recognized_err(
                                                s,
                                                ig,
                                                prev,
                                                tag,
                                                e@,
                                            );
                                        }
                                        return Err(e);
                                    },
                                };
                                let ghost entries = difference@;
                                record.difference_string = Some(difference);
                                assert(record@ =~= slot_set(prev, tag, TagValue::Diffs(entries)));
                                proof {
                                    crate::grammar::lemma_dispatch_recognized(
                                        s,
                                        ig,
                                        prev,
                                        tag,
                                        TagValue::Diffs(entries),
                                    );
                                    assert(*position as int == crate::grammar::dispatch_next(
                                        s,
                                        ig,
                                    ));
                                }
                            },
                            TagKind::Dv => {
                                let value = extract_column_value(string, position);
                                record.approximate_per_base_sequence_divergence = Some(
                                    value.to_owned(),
                                );
                                assert(record@ =~= slot_set(prev, tag, TagValue::Text(value@)));
                                proof {
                                    crate::grammar::lemma_dispatch_recognized(
                                        s,
                                        ig,
                                        prev,
                                        tag,
                                        TagValue::Text(value@),
                                    );
                                    assert(*position as int == crate::grammar::dispatch_next(
                                        s,
                                        ig,
                                    ));
                                }
                            },
                            TagKind::De => {
                                let value = extract_column_value(string, position);
                                record.gap_compressed_per_base_sequence_divergence = Some(
                                    value.to_owned(),
                                );
                                assert(record@ =~= slot_set(prev, tag, TagValue::Text(value@)));
                                proof {
                                    crate::grammar::lemma_dispatch_recognized(
                                        s,
                                        ig,
                                        prev,
                                        tag,
                                        TagValue::Text(value@),
                                    );
                                    assert(*position as int == crate::grammar::dispatch_next(
                                        s,
                                        ig,
                                    ));
                                }
                            },
                            TagKind::Rl => {
                                let v = match parse_number_value(string, position) {
                                    Ok(v) => v,
                                    Err(e) => {
                                        proof {

                                            crate::grammar::lemma_dispatch_recognized_err(

                                                s,

                                                ig,

                                                prev,

                                                tag,

                                                e@,

                                            );
                                        }
                                        return Err(e);
                                    },
                                };
                                record.length_of_query_regions_with_repetitive_seeds = Some(v);
                                assert(record@ =~= slot_set(prev, tag, TagValue::UInt(v)));
                                proof {
                                    crate::grammar::lemma_dispatch_recognized(
                                        s,
                                        ig,
                                        prev,
                                        tag,
                                        TagValue::UInt(v),
                                    );
                                    assert(*position as int == crate::grammar::dispatch_next(
                                        s,
                                        ig,
                                    ));
                                }
                            },
                        }
                        assert(spec_dispatch(s, ig, prev) == spec_dispatch(
                            s,
                            *position as int,
                            record@,
                        ));
                    },
                    None => {
                        let header_text = string.substring_char(i, i + 5);
                        let value = extract_column_value(string, position);
                        let mut unknown_field = header_text.to_owned();
                        unknown_field.append(value);
                        let ghost unknown_view = unknown_field@;
                        let ghost previous_fields = record.unknown_fields@;
                        record.unknown_fields.push(unknown_field);
                        proof {
                            assert(unknown_view =~= s.subrange(ig, vend));
                            assert(record.unknown_fields@.map_values(|f: String| f@)
                                =~= previous_fields.map_values(|f: String| f@).push(unknown_view));
                            assert(record@ =~= LineModel {
                                unknown_fields: prev.unknown_fields.push(s.subrange(ig, vend)),
                                ..prev
                            });
                            crate::grammar::lemma_dispatch_unknown(s, ig, prev);
                            assert(*position as int == crate::grammar::dispatch_next(s, ig));
                            assert(spec_dispatch(s, ig, prev) == spec_dispatch(
                                s,
                                *position as int,
                                record@,
                            ));
                        }
                    },
                }
            }
        }
    }
    Ok(record)
}

/// Parses every line of the given input string.
pub fn parse_input_str(string: &str) -> (r: Result<Vec<PAFLine>, Error>)
    ensures
        (match r {
            Ok(records) => spec_parse_all(string@, 0) == Ok::<_, ErrorModel>(
                records@.map_values(|record: PAFLine| record@),
            ),
            Err(e) => spec_parse_all(string@, 0) == Err::<Seq<LineModel>, _>(e@),
        }),
{
    let mut result: Vec<PAFLine> = Vec::new();
    let mut position: usize = 0;
    let len = string.unicode_len();
    proof {
        assert(result@.map_values(|record: PAFLine| record@) =~= Seq::<LineModel>::empty());
    }
    while position < len
        invariant
            position <= len,
            len as int == string@.len(),
            (match spec_parse_all(string@, position as int) {
                Ok(rest) => spec_parse_all(string@, 0) == Ok::<_, ErrorModel>(
                    result@.map_values(|record: PAFLine| record@) + rest,
                ),
                Err(e) => spec_parse_all(string@, 0) == Err::<Seq<LineModel>, _>(e),
            }),
        decreases len - position,
    {
        let ghost before = position as int;
        let ghost records_before = result@.map_values(|record: PAFLine| record@);
        let record = match parse_line(string, &mut position) {
            Ok(record) => record,
            Err(e) => {
                assert(spec_parse_all(string@, before) == Err::<Seq<LineModel>, _>(e@));
                return Err(e);
            },
        };
        let ghost record_view = record@;
        result.push(record);
        proof {
            crate::grammar::lemma_spec_parse_line_advances(string@, before);
            assert(result@.map_values(|r2: PAFLine| r2@) =~= records_before.push(record_view));
            match spec_parse_all(string@, position as int) {
                Ok(rest) => {
                    assert(spec_parse_all(string@, before) == Ok::<_, ErrorModel>(
                        seq![record_view] + rest,
                    ));
                    assert(records_before + (seq![record_view] + rest) =~= records_before.push(
                        record_view,
                    ) + rest);
                },
                Err(_) => {},
            }
        }
    }
    assert(spec_parse_all(string@, position as int) == Ok::<_, ErrorModel>(Seq::<
        LineModel,
    >::empty()));
    proof {
        assert(result@.map_values(|record: PAFLine| record@) + Seq::<LineModel>::empty()
            =~= result@.map_values(|record: PAFLine| record@));
    }
    Ok(result)
}

} // verus!
