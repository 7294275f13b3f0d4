//! A line-oriented pattern search library: deciding which lines of a text
//! match a compiled pattern, rendering them with optional case folding,
//! line numbers and inline highlighting, and composing the per-file output
//! blocks that a concurrent driver prints.

pub mod config;
pub mod format;
pub mod pattern;
pub mod report;
pub mod scan;
pub mod text;

pub use config::effective_source;
pub use config::PatternError;
pub use config::RunParameters;
pub use format::end_marker;
pub use format::formatted_body;
pub use format::highlight_from;
pub use format::highlight_matches;
pub use format::lemma_highlight_strip;
pub use format::start_marker;
pub use format::strip_markers;
pub use pattern::lower_chars;
pub use pattern::match_spans;
pub use pattern::pattern_ok;
pub use pattern::spans_wf;
pub use pattern::Pattern;
pub use report::block_of;
pub use report::file_blocks;
pub use report::no_files_notice;
pub use report::report_block;
pub use report::FileReport;
pub use scan::comparison_of;
pub use scan::lemma_case_insensitive;
pub use scan::lemma_scan_split;
pub use scan::lemma_unmatched_line;
pub use scan::line_output;
pub use scan::number_prefix;
pub use scan::process_lines;
pub use scan::record_output;
pub use scan::scan_from;
pub use scan::LineOutcome;
pub use text::ascii_lower;
pub use text::dec_digits;
pub use text::lower_byte;
pub use text::lower_bytes;
