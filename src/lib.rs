//! Discovery and inspection of experiment data files: bounded directory
//! scans, location of the active proposal, instrument filtering, and the
//! assembly of per-file inspection records.

mod coda;
mod filter;
mod order;
mod pipeline;
mod record;

pub use coda::{
    base_dir_path, char_of_digit, coda_base_dir, coda_raw_dir, data_root, decimal_digits,
    decimal_text, find_proposal, is_selected, lemma_latest_proposal_selected, raw_dir_path,
    raw_time, resolve_year, LocateError, ProposalEntry,
};
pub use filter::{
    alias_rules, contains_seq, folded_match, instrument_aliases, instrument_match,
    lemma_no_filter_matches_all, lower_of, matches_folded, matches_instrument, InstrumentAlias,
};
pub use order::{
    is_sorted_arrangement, is_sorted_paths, lemma_lex_antisym, lemma_lex_refl,
    lemma_sorted_arrangements_agree, lemma_lex_total, lemma_lex_trans, lex_le, list_bounded_files,
    path_le,
};
pub use pipeline::{
    default_input_path, disposition_of, plan_inputs, Disposition, InputPlan, ReportRun,
};
pub use record::{
    decoded_text, inspect_container, optional_time, read_field, read_timestamp, rfc3339_value,
    ContainerReads, FieldRead, FileStat, InspectError, InspectResult, Timestamp,
};
