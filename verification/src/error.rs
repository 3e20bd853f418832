use vstd::prelude::*;

verus! {

/// All errors that can occur while parsing.
///
/// Reading from an external source can additionally fail with an I/O error;
/// such a failure is reported by the caller that performs the read and is not
/// part of this library's error type.
#[derive(Debug)]
pub enum Error {
    /// Parsing error when parsing the column into the expected type.
    ColumnParseError,
    /// The line was ended, but it was not expected (e.g. further columns are expected instead).
    UnexpectedEndOfLine,
    /// The file was ended, but it was not expected (e.g. further columns are expected instead).
    UnexpectedEndOfFile,
    /// An unexpected character was found.
    UnexpectedCharacter,
    /// An optional column with an unexpected name or type was found.
    UnexpectedOptionalColumn {
        /// The header of the column, or a part of it.
        /// The header is the name and type.
        column_header: String,
    },
    /// A cigar string could not be parsed.
    MalformedCigar,
    /// An alignment difference string could not be parsed.
    MalformedAlignmentDifference,
}

/// The mathematical model of an [`Error`]: the same variants, with text
/// carried as a sequence of characters.
pub enum ErrorModel {
    /// Model of [`Error::ColumnParseError`].
    ColumnParseError,
    /// Model of [`Error::UnexpectedEndOfLine`].
    UnexpectedEndOfLine,
    /// Model of [`Error::UnexpectedEndOfFile`].
    UnexpectedEndOfFile,
    /// Model of [`Error::UnexpectedCharacter`].
    UnexpectedCharacter,
    /// Model of [`Error::UnexpectedOptionalColumn`].
    UnexpectedOptionalColumn {
        /// The characters of the unrecognized column header.
        column_header: Seq<char>,
    },
    /// Model of [`Error::MalformedCigar`].
    MalformedCigar,
    /// Model of [`Error::MalformedAlignmentDifference`].
    MalformedAlignmentDifference,
}

impl View for Error {
    type V = ErrorModel;

    open spec fn view(&self) -> ErrorModel {
        match self {
            Error::ColumnParseError => ErrorModel::ColumnParseError,
            Error::UnexpectedEndOfLine => ErrorModel::UnexpectedEndOfLine,
            Error::UnexpectedEndOfFile => ErrorModel::UnexpectedEndOfFile,
            Error::UnexpectedCharacter => ErrorModel::UnexpectedCharacter,
            Error::UnexpectedOptionalColumn { column_header } => ErrorModel::UnexpectedOptionalColumn {
                column_header: column_header@,
            },
            Error::MalformedCigar => ErrorModel::MalformedCigar,
            Error::MalformedAlignmentDifference => ErrorModel::MalformedAlignmentDifference,
        }
    }
}

} // verus!
