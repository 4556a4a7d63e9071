//! A client-side wallet-scanning library: it plans a range of block heights,
//! pages through the blocks an endpoint serves, detects which ciphertext
//! records belong to a viewing credential, and decrypts the owned records,
//! optionally excluding records that were already spent.
//!
//! The scan itself performs no network requests: a caller fetches what the
//! planner asks for and hands the outcomes back, so every decision — range
//! validation, page layout, ownership filtering, spend resolution and error
//! propagation — lives here and is verified.

use vstd::prelude::*;

mod account;
mod crypto;
mod errors;
mod range;
mod scan;

pub use account::{
    lemma_mismatched_credentials_rejected, spec_resolve_credentials, string_opt_chars, Account,
};
pub use crypto::{
    spec_address, spec_block_records, spec_decrypt, spec_derived_view_key, spec_is_owner,
    spec_parse_blocks, spec_parse_private_key, spec_parse_view_key, spec_serial_number,
    spec_x_coordinate, AccountAddress, AddressXCoordinate, BlockData, Commitment, CurrentNetwork,
    RecordCiphertext, RecordPlaintext, SerialNumber, SpendingKey, ViewingKey,
};
pub use errors::ScanError;
pub use range::{
    lemma_page_plan_covers, spec_end_height, spec_page_plan, plan_pages, PageRequest,
    MAX_BLOCK_RANGE,
};
pub use scan::{
    collect_record_tasks, decrypt_record, fetch_records, finish_scan,
    lemma_failed_page_fails_scan, lemma_non_owned_never_selected,
    lemma_spent_record_excluded, lemma_view_only_page_yields_owned_record, owned_records,
    page_records, parse_block_page,
    parse_fetched_page, resolve_tasks, spec_decrypt_step, spec_owned_records, spec_page_owned,
    spec_page_records, spec_record_tasks, spec_resolve_one, spec_resolve_tasks,
    spec_scan_pages, spec_scan_prepend, LookupOutcome, PageFetch, PageOutcome, RecordTask,
    ScanResult, SpendCheckPolicy,
};

verus! {

/// One scan invocation's configuration, as the caller supplies it.
pub struct Scan {
    /// An optional spending credential, to also exclude spent records.
    pub private_key: Option<String>,
    /// The viewing credential used to scan for records.
    pub view_key: Option<String>,
    /// The block height to start scanning from.
    pub start: u32,
    /// The block height to stop scanning at; when absent, the endpoint's
    /// latest height takes its place.
    pub end: Option<u32>,
    /// The endpoint to scan blocks from.
    pub endpoint: String,
}

} // verus!
