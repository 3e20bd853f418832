use vstd::prelude::*;

verus! {

/// A line in a minimap2 PAF file.
///
/// The field names are adapted from the minimap2 manual page.
///
/// The two per-base sequence divergence columns (`dv:f:` and `de:f:`) carry
/// decimal fractions on the wire.  This library stores their text verbatim:
/// the parser and serializer never interpret the number, so the caller decides
/// how to read it.
#[derive(Clone, Debug, PartialEq)]
pub struct PAFLine {
    /// Name of the query sequence.
    pub query_sequence_name: String,
    /// Length of the query sequence.
    pub query_sequence_length: usize,
    /// Start coordinate of the alignment on the query sequence.
    pub query_start_coordinate: usize,
    /// End coordinate of the alignment on the query sequence.
    pub query_end_coordinate: usize,
    /// Relative strand: `true` is forward (`+`), `false` is reverse (`-`).
    pub strand: bool,
    /// Name of the target sequence.
    pub target_sequence_name: String,
    /// Length of the target sequence.
    pub target_sequence_length: usize,
    /// Start coordinate of the alignment on the original strand of the target.
    pub target_start_coordinate_on_original_strand: usize,
    /// End coordinate of the alignment on the original strand of the target.
    pub target_end_coordinate_on_original_strand: usize,
    /// Number of matching bases in the alignment.
    pub number_of_matching_bases: usize,
    /// Number of bases and gaps in the alignment.
    pub number_of_bases_and_gaps: usize,
    /// Mapping quality.
    pub mapping_quality: u8,

    /// Optional column `tp:A:`: the type of the alignment.
    pub alignment_type: Option<AlignmentType>,
    /// Optional column `cm:i:`: the number of minimisers of the alignment.
    pub number_of_minimisers: Option<usize>,
    /// Optional column `s1:i:`: the chaining score.
    pub chaining_score: Option<usize>,
    /// Optional column `s2:i:`: the chaining score of the best secondary chain.
    pub best_secondary_chaining_score: Option<usize>,
    /// Optional column `NM:i:`: the total number of mismatches and gaps.
    pub total_number_of_mismatches_and_gaps: Option<usize>,
    /// Optional column `MD:Z:`: kept verbatim.
    pub unknown_md: Option<String>,
    /// Optional column `AS:i:`: the dynamic programming alignment score.
    pub dp_alignment_score: Option<usize>,
    /// Optional column `SA:Z:`: supplementary alignments.
    pub supplementary_alignments: Option<String>,
    /// Optional column `ms:i:`: the dynamic programming score of the best segment.
    pub best_segment_dp_score: Option<usize>,
    /// Optional column `nn:i:`: the number of ambiguous bases.
    pub number_of_ambiguous_bases: Option<usize>,
    /// Optional column `ts:A:`: the transcript strand.
    pub transcript_strand: Option<String>,
    /// Optional column `cg:Z:`: the CIGAR string of the alignment.
    pub cigar_string: Option<Cigar>,
    /// Optional column `cs:Z:`: the difference string of the alignment.
    pub difference_string: Option<AlignmentDifference>,
    /// Optional column `dv:f:`: the approximate per-base sequence divergence,
    /// carried as verbatim text.
    pub approximate_per_base_sequence_divergence: Option<String>,
    /// Optional column `de:f:`: the gap-compressed per-base sequence
    /// divergence, carried as verbatim text.
    pub gap_compressed_per_base_sequence_divergence: Option<String>,
    /// Optional column `rl:i:`: the length of the query regions with
    /// repetitive seeds.
    pub length_of_query_regions_with_repetitive_seeds: Option<usize>,

    /// Optional columns with unrecognized headers, kept verbatim as
    /// header text immediately followed by value text.
    pub unknown_fields: Vec<String>,
}

/// The type of a minimap2 alignment.
#[derive(Clone, Debug, Eq, PartialEq, Structural)]
pub enum AlignmentType {
    /// A primary alignment, code `P`.
    Primary,
    /// A secondary alignment, code `S`.
    Secondary,
    /// A primary alignment of an inversion, code `I`.
    PrimaryInversion,
    /// A secondary alignment of an inversion, code `i`.
    SecondaryInversion,
}

/// A CIGAR string: a sequence of run-length coded alignment operations.
#[derive(Clone, Debug, Eq, PartialEq)]
pub struct Cigar(pub Vec<CigarColumn>);

/// A column of a CIGAR string: one run-length coded alignment operation.
#[derive(Clone, Copy, Debug, Eq, PartialEq, Structural)]
pub enum CigarColumn {
    /// A run of matching characters, code `M`.
    Match(usize),
    /// A run of characters inserted into the query, code `I`.
    Insertion(usize),
    /// A run of characters deleted from the query, code `D`.
    Deletion(usize),
    /// A run of mismatching characters, code `X`.
    Mismatch(usize),
}

/// An alignment difference string: a sequence of [`DifferenceColumn`] entries.
#[derive(Clone, Debug, Eq, PartialEq)]
pub struct AlignmentDifference(pub Vec<DifferenceColumn>);

/// A column of an alignment difference string.
#[derive(Clone, Debug, Eq, PartialEq)]
pub enum DifferenceColumn {
    /// A run of matching characters, marker `:`.
    Match {
        /// The length of the run.
        length: usize,
    },
    /// A run of characters present in the query but absent from the
    /// reference, marker `+`.
    Insertion {
        /// The characters of the run.
        superfluous_query_characters: String,
    },
    /// A run of characters present in the reference but absent from the
    /// query, marker `-`.
    Deletion {
        /// The characters of the run.
        missing_query_characters: String,
    },
    /// A single-character substitution, marker `*`.
    Mismatch {
        /// The reference character.
        reference: char,
        /// The query character.
        query: char,
    },
}

/// The mathematical model of a [`DifferenceColumn`]: literal runs are
/// carried as character sequences.
pub enum DiffEntry {
    /// Model of [`DifferenceColumn::Match`].
    Match {
        /// The length of the run.
        length: usize,
    },
    /// Model of [`DifferenceColumn::Insertion`].
    Insertion {
        /// The characters of the run.
        chars: Seq<char>,
    },
    /// Model of [`DifferenceColumn::Deletion`].
    Deletion {
        /// The characters of the run.
        chars: Seq<char>,
    },
    /// Model of [`DifferenceColumn::Mismatch`].
    Mismatch {
        /// The reference character.
        reference: char,
        /// The query character.
        query: char,
    },
}

impl View for DifferenceColumn {
    type V = DiffEntry;

    open spec fn view(&self) -> DiffEntry {
        match self {
            DifferenceColumn::Match { length } => DiffEntry::Match { length: *length },
            DifferenceColumn::Insertion { superfluous_query_characters } => DiffEntry::Insertion {
                chars: superfluous_query_characters@,
            },
            DifferenceColumn::Deletion { missing_query_characters } => DiffEntry::Deletion {
                chars: missing_query_characters@,
            },
            DifferenceColumn::Mismatch { reference, query } => DiffEntry::Mismatch {
                reference: *reference,
                query: *query,
            },
        }
    }
}

impl View for Cigar {
    type V = Seq<CigarColumn>;

    open spec fn view(&self) -> Seq<CigarColumn> {
        self.0@
    }
}

impl View for AlignmentDifference {
    type V = Seq<DiffEntry>;

    open spec fn view(&self) -> Seq<DiffEntry> {
        self.0@.map_values(|column: DifferenceColumn| column@)
    }
}

/// The model of an optional text column: absent, or a character sequence.
pub open spec fn view_optional_text(text: Option<String>) -> Option<Seq<char>> {
    match text {
        Some(text) => Some(text@),
        None => None,
    }
}

/// The mathematical model of a [`PAFLine`]: the same fields, with text
/// carried as character sequences and the nested grammars as sequences of
/// their entry models.
#[verifier::ext_equal]
pub struct LineModel {
    /// Model of the query sequence name.
    pub query_sequence_name: Seq<char>,
    /// Model of the query sequence length.
    pub query_sequence_length: usize,
    /// Model of the query start coordinate.
    pub query_start_coordinate: usize,
    /// Model of the query end coordinate.
    pub query_end_coordinate: usize,
    /// Model of the strand.
    pub strand: bool,
    /// Model of the target sequence name.
    pub target_sequence_name: Seq<char>,
    /// Model of the target sequence length.
    pub target_sequence_length: usize,
    /// Model of the target start coordinate.
    pub target_start_coordinate_on_original_strand: usize,
    /// Model of the target end coordinate.
    pub target_end_coordinate_on_original_strand: usize,
    /// Model of the number of matching bases.
    pub number_of_matching_bases: usize,
    /// Model of the number of bases and gaps.
    pub number_of_bases_and_gaps: usize,
    /// Model of the mapping quality.
    pub mapping_quality: u8,
    /// Model of the `tp:A:` column.
    pub alignment_type: Option<AlignmentType>,
    /// Model of the `cm:i:` column.
    pub number_of_minimisers: Option<usize>,
    /// Model of the `s1:i:` column.
    pub chaining_score: Option<usize>,
    /// Model of the `s2:i:` column.
    pub best_secondary_chaining_score: Option<usize>,
    /// Model of the `NM:i:` column.
    pub total_number_of_mismatches_and_gaps: Option<usize>,
    /// Model of the `MD:Z:` column.
    pub unknown_md: Option<Seq<char>>,
    /// Model of the `AS:i:` column.
    pub dp_alignment_score: Option<usize>,
    /// Model of the `SA:Z:` column.
    pub supplementary_alignments: Option<Seq<char>>,
    /// Model of the `ms:i:` column.
    pub best_segment_dp_score: Option<usize>,
    /// Model of the `nn:i:` column.
    pub number_of_ambiguous_bases: Option<usize>,
    /// Model of the `ts:A:` column.
    pub transcript_strand: Option<Seq<char>>,
    /// Model of the `cg:Z:` column.
    pub cigar_string: Option<Seq<CigarColumn>>,
    /// Model of the `cs:Z:` column.
    pub difference_string: Option<Seq<DiffEntry>>,
    /// Model of the `dv:f:` column.
    pub approximate_per_base_sequence_divergence: Option<Seq<char>>,
    /// Model of the `de:f:` column.
    pub gap_compressed_per_base_sequence_divergence: Option<Seq<char>>,
    /// Model of the `rl:i:` column.
    pub length_of_query_regions_with_repetitive_seeds: Option<usize>,
    /// Model of the unrecognized optional columns, kept in input order.
    pub unknown_fields: Seq<Seq<char>>,
}

impl View for PAFLine {
    type V = LineModel;

    open spec fn view(&self) -> LineModel {
        LineModel {
            query_sequence_name: self.query_sequence_name@,
            query_sequence_length: self.query_sequence_length,
            query_start_coordinate: self.query_start_coordinate,
            query_end_coordinate: self.query_end_coordinate,
            strand: self.strand,
            target_sequence_name: self.target_sequence_name@,
            target_sequence_length: self.target_sequence_length,
            target_start_coordinate_on_original_strand: self.target_start_coordinate_on_original_strand,
            target_end_coordinate_on_original_strand: self.target_end_coordinate_on_original_strand,
            number_of_matching_bases: self.number_of_matching_bases,
            number_of_bases_and_gaps: self.number_of_bases_and_gaps,
            mapping_quality: self.mapping_quality,
            alignment_type: self.alignment_type,
            number_of_minimisers: self.number_of_minimisers,
            chaining_score: self.chaining_score,
            best_secondary_chaining_score: self.best_secondary_chaining_score,
            total_number_of_mismatches_and_gaps: self.total_number_of_mismatches_and_gaps,
            unknown_md: view_optional_text(self.unknown_md),
            dp_alignment_score: self.dp_alignment_score,
            supplementary_alignments: view_optional_text(self.supplementary_alignments),
            best_segment_dp_score: self.best_segment_dp_score,
            number_of_ambiguous_bases: self.number_of_ambiguous_bases,
            transcript_strand: view_optional_text(self.transcript_strand),
            cigar_string: (match self.cigar_string {
                Some(cigar) => Some(cigar@),
                None => None,
            }),
            difference_string: (match self.difference_string {
                Some(difference) => Some(difference@),
                None => None,
            }),
            approximate_per_base_sequence_divergence: view_optional_text(
                self.approximate_per_base_sequence_divergence,
            ),
            gap_compressed_per_base_sequence_divergence: view_optional_text(
                self.gap_compressed_per_base_sequence_divergence,
            ),
            length_of_query_regions_with_repetitive_seeds: self.length_of_query_regions_with_repetitive_seeds,
            unknown_fields: self.unknown_fields@.map_values(|field: String| field@),
        }
    }
}

} // verus!
