//! The scan core: ownership filtering, serial-number preparation, spend
//! resolution and decryption, page by page.
//!
//! A caller drives one page at a time: it parses the fetched page with
//! [`parse_block_page`], flattens it with [`page_records`], selects the
//! owned records and their serial numbers with [`collect_record_tasks`],
//! performs one spent-lookup per task, and hands the outcomes to
//! [`resolve_tasks`]. A caller that already holds every page's outcome can
//! instead run the whole scan through [`fetch_records`]. Every decision in
//! either pipeline is verified; the caller only moves bytes.

use vstd::prelude::*;

use crate::account::Account;
use crate::crypto::{
    address_of_view_key, decrypt_with_view_key, parse_blocks, record_is_owner, records_of_block,
    serial_number_of, spec_block_records, spec_decrypt, spec_is_owner, spec_parse_blocks,
    spec_serial_number, BlockData, Commitment, RecordCiphertext, RecordPlaintext, SerialNumber,
    SpendingKey, ViewingKey, x_coordinate_of_address,
};
use crate::errors::ScanError;

verus! {

/// The outcome of one spent-record lookup, as the caller observed it.
#[derive(Debug, Clone, Copy, PartialEq, Eq, Structural)]
pub enum LookupOutcome {
    /// No lookup was made: the scan runs without a spending credential.
    NotChecked,
    /// The endpoint knows a spending transition for the serial number: the
    /// record is spent.
    Found,
    /// The endpoint answered that it knows no such transition: the record is
    /// unspent.
    NotFound,
    /// The lookup itself failed (connection, timeout, resolution): whether
    /// the record is spent is unknown.
    TransportFailed,
}

/// How a failed spent-record lookup is treated.
#[derive(Debug, Clone, Copy, PartialEq, Eq, Structural)]
pub enum SpendCheckPolicy {
    /// Treat a failed lookup like "not found" and keep the record. This
    /// matches the reference behaviour, at the price of possibly reporting
    /// an already-spent record.
    Lenient,
    /// Propagate a failed lookup as `EndpointUnavailable`.
    Strict,
}

/// One owned record awaiting spend resolution: its commitment, the serial
/// number to look up (when a spending credential is present), and the
/// ciphertext to decrypt.
pub struct RecordTask {
    /// The record's on-chain commitment.
    pub commitment: Commitment,
    /// The serial number to look up, present exactly when the scan holds a
    /// spending credential.
    pub serial_number: Option<SerialNumber>,
    /// The record itself, still encrypted.
    pub ciphertext: RecordCiphertext,
}

/// What a whole scan returns: the decrypted records, and whether their
/// spent state is unknown because no spending credential was supplied.
pub struct ScanResult {
    /// The decrypted records, in the order the scan met them.
    pub records: Vec<RecordPlaintext>,
    /// True when no spending credential was available: the list may then
    /// contain records that have already been spent.
    pub spent_state_unknown: bool,
}

/// The (commitment, ciphertext record) pairs of a page of blocks, in block
/// order, keeping each block's own record order.
pub open spec fn spec_page_records(blocks: Seq<BlockData>) -> Seq<(Commitment, RecordCiphertext)>
    decreases blocks.len(),
{
    if blocks.len() == 0 {
        Seq::empty()
    } else {
        spec_page_records(blocks.drop_last()) + spec_block_records(blocks.last())
    }
}

/// The subsequence of records whose ownership tag matches the viewing
/// credential, in source order.
pub open spec fn spec_owned_records(
    recs: Seq<(Commitment, RecordCiphertext)>,
    vk: ViewingKey,
) -> Seq<(Commitment, RecordCiphertext)>
    decreases recs.len(),
{
    if recs.len() == 0 {
        Seq::empty()
    } else {
        let rest = spec_owned_records(recs.drop_last(), vk);
        if spec_is_owner(recs.last().1, vk) {
            rest.push(recs.last())
        } else {
            rest
        }
    }
}

/// The tasks the owned records of a page give rise to: one per owned
/// record, with a serial number exactly when a spending credential is
/// present. Serial-number derivation failing on any owned record is a
/// defect and fails the page.
pub open spec fn spec_record_tasks(
    owned: Seq<(Commitment, RecordCiphertext)>,
    pk: Option<SpendingKey>,
) -> Result<Seq<RecordTask>, ScanError>
    decreases owned.len(),
{
    if owned.len() == 0 {
        Ok(Seq::empty())
    } else {
        match spec_record_tasks(owned.drop_last(), pk) {
            Err(e) => Err(e),
            Ok(ts) => match pk {
                None => Ok(
                    ts.push(
                        RecordTask {
                            commitment: owned.last().0,
                            serial_number: None,
                            ciphertext: owned.last().1,
                        },
                    ),
                ),
                Some(k) => match spec_serial_number(k, owned.last().0) {
                    None => Err(ScanError::DecryptionFailed),
                    Some(sn) => Ok(
                        ts.push(
                            RecordTask {
                                commitment: owned.last().0,
                                serial_number: Some(sn),
                                ciphertext: owned.last().1,
                            },
                        ),
                    ),
                },
            },
        }
    }
}

/// What decrypting one owned record returns, given the outcome of its
/// spent-record lookup: a spent record is excluded (`Ok(None)`), a failed
/// lookup is either absorbed (lenient) or surfaced (strict), and everything
/// else is decrypted.
pub open spec fn spec_resolve_one(
    vk: ViewingKey,
    rec: RecordCiphertext,
    lookup: LookupOutcome,
    policy: SpendCheckPolicy,
) -> Result<Option<RecordPlaintext>, ScanError> {
    match lookup {
        LookupOutcome::Found => Ok(None),
        LookupOutcome::TransportFailed => match policy {
            SpendCheckPolicy::Strict => Err(ScanError::EndpointUnavailable),
            SpendCheckPolicy::Lenient => spec_decrypt_step(rec, vk),
        },
        _ => spec_decrypt_step(rec, vk),
    }
}

/// Decryption of one record: the plaintext, or the defect error.
pub open spec fn spec_decrypt_step(rec: RecordCiphertext, vk: ViewingKey) -> Result<
    Option<RecordPlaintext>,
    ScanError,
> {
    match spec_decrypt(rec, vk) {
        Some(p) => Ok(Some(p)),
        None => Err(ScanError::DecryptionFailed),
    }
}

/// What resolving a page's tasks returns: the decrypted unspent records in
/// task order, or the first error.
pub open spec fn spec_resolve_tasks(
    vk: ViewingKey,
    tasks: Seq<RecordTask>,
    lookups: Seq<LookupOutcome>,
    policy: SpendCheckPolicy,
) -> Result<Seq<RecordPlaintext>, ScanError>
    decreases tasks.len(),
{
    if tasks.len() == 0 {
        Ok(Seq::empty())
    } else {
        match spec_resolve_tasks(vk, tasks.drop_last(), lookups, policy) {
            Err(e) => Err(e),
            Ok(rs) => match spec_resolve_one(
                vk,
                tasks.last().ciphertext,
                lookups[tasks.len() - 1],
                policy,
            ) {
                Err(e) => Err(e),
                Ok(None) => Ok(rs),
                Ok(Some(p)) => Ok(rs.push(p)),
            },
        }
    }
}

/// One page of the scan after fetching, parsing and flattening: its
/// records, or the error that ends the scan at this page.
pub enum PageOutcome {
    /// The page's (commitment, ciphertext record) pairs, in order.
    Records(Vec<(Commitment, RecordCiphertext)>),
    /// Fetching or parsing this page failed; the scan fails with this error.
    Failed(ScanError),
}

/// The owned records a page contributes to the scan.
pub open spec fn spec_page_owned(page: PageOutcome, vk: ViewingKey) -> Seq<
    (Commitment, RecordCiphertext),
> {
    match page {
        PageOutcome::Records(rs) => spec_owned_records(rs@, vk),
        PageOutcome::Failed(_) => Seq::empty(),
    }
}

/// Prepends already-resolved records to the rest of a scan's outcome; an
/// error swallows them, so a failed scan returns no partial results.
pub open spec fn spec_scan_prepend(
    prefix: Seq<RecordPlaintext>,
    rest: Result<Seq<RecordPlaintext>, ScanError>,
) -> Result<Seq<RecordPlaintext>, ScanError> {
    match rest {
        Ok(rs) => Ok(prefix + rs),
        Err(e) => Err(e),
    }
}

/// What a whole scan returns for given page outcomes and per-page lookup
/// outcomes: the decrypted unspent records of every page, in page order,
/// or the first error — and then nothing of what preceded it.
pub open spec fn spec_scan_pages(
    vk: ViewingKey,
    pk: Option<SpendingKey>,
    pages: Seq<PageOutcome>,
    lookups: Seq<Vec<LookupOutcome>>,
    policy: SpendCheckPolicy,
) -> Result<Seq<RecordPlaintext>, ScanError>
    decreases pages.len(),
{
    if pages.len() == 0 {
        Ok(Seq::empty())
    } else {
        match pages[0] {
            PageOutcome::Failed(e) => Err(e),
            PageOutcome::Records(rs) => match spec_record_tasks(
                spec_owned_records(rs@, vk),
                pk,
            ) {
                Err(e) => Err(e),
                Ok(ts) => match spec_resolve_tasks(vk, ts, lookups[0]@, policy) {
                    Err(e) => Err(e),
                    Ok(got) => spec_scan_prepend(
                        got,
                        spec_scan_pages(vk, pk, pages.drop_first(), lookups.drop_first(), policy),
                    ),
                },
            },
        }
    }
}

/// Runs the whole scan over fetched pages: selects each page's owned
/// records, prepares their tasks, and resolves them against that page's
/// lookup outcomes, aborting on the first error with no partial results.
/// The caller hands in one lookup outcome per owned record of each page.
pub fn fetch_records(
    account: &Account,
    pages: &Vec<PageOutcome>,
    lookups: &Vec<Vec<LookupOutcome>>,
    policy: SpendCheckPolicy,
) -> (r: Result<Vec<RecordPlaintext>, ScanError>)
    requires
        lookups@.len() == pages@.len(),
        forall|j: int|
            0 <= j < pages@.len() ==> (#[trigger] lookups@[j])@.len() == spec_page_owned(
                pages@[j],
                account.view_key,
            ).len(),
    ensures
        (match r {
            Ok(rs) => Ok(rs@),
            Err(e) => Err(e),
        }) == spec_scan_pages(account.view_key, account.private_key, pages@, lookups@, policy),
{
    let ghost vk = account.view_key;
    let ghost pk = account.private_key;
    let mut out: Vec<RecordPlaintext> = Vec::new();
    let mut i: usize = 0;
    proof {
        assert(pages@.skip(0) =~= pages@);
        assert(lookups@.skip(0) =~= lookups@);
        let s0 = spec_scan_pages(vk, pk, pages@, lookups@, policy);
        if s0 is Ok {
            assert(Seq::<RecordPlaintext>::empty() + s0->Ok_0 =~= s0->Ok_0);
        }
    }
    while i < pages.len()
        invariant
            0 <= i <= pages@.len(),
            lookups@.len() == pages@.len(),
            forall|j: int|
                0 <= j < pages@.len() ==> (#[trigger] lookups@[j])@.len() == spec_page_owned(
                    pages@[j],
                    account.view_key,
                ).len(),
            vk == account.view_key,
            pk == account.private_key,
            spec_scan_pages(vk, pk, pages@, lookups@, policy) == spec_scan_prepend(
                out@,
                spec_scan_pages(vk, pk, pages@.skip(i as int), lookups@.skip(i as int), policy),
            ),
        decreases pages@.len() - i,
    {
        proof {
            assert(pages@.skip(i as int)[0] == pages@[i as int]);
            assert(lookups@.skip(i as int)[0] == lookups@[i as int]);
            assert(pages@.skip(i as int).drop_first() =~= pages@.skip(i + 1));
            assert(lookups@.skip(i as int).drop_first() =~= lookups@.skip(i + 1));
        }
        let page_lookups = &lookups[i];
        match &pages[i] {
            PageOutcome::Failed(e) => {
                return Err(*e);
            },
            PageOutcome::Records(rs) => {
                let owned = owned_records(&account.view_key, rs);
                proof {
                    lemma_record_tasks_len(owned@, pk);
                }
                let tasks = match collect_record_tasks(account, &owned) {
                    Ok(ts) => ts,
                    Err(e) => {
                        return Err(e);
                    },
                };
                let mut got = match resolve_tasks(&account.view_key, &tasks, page_lookups,
                    policy) {
                    Ok(g) => g,
                    Err(e) => {
                        return Err(e);
                    },
                };
                let ghost got_seq = got@;
                let ghost old_out = out@;
                out.append(&mut got);
                proof {
                    let s_i = spec_scan_pages(vk, pk, pages@.skip(i as int),
                        lookups@.skip(i as int), policy);
                    let tail = spec_scan_pages(vk, pk, pages@.skip(i + 1),
                        lookups@.skip(i + 1), policy);
                    assert(s_i == spec_scan_prepend(got_seq, tail));
                    if tail is Ok {
                        assert(old_out + (got_seq + tail->Ok_0) =~= (old_out + got_seq)
                            + tail->Ok_0);
                    }
                }
            },
        }
        i = i + 1;
    }
    proof {
        assert(pages@.skip(pages@.len() as int) =~= Seq::<PageOutcome>::empty());
        assert(out@ + Seq::<RecordPlaintext>::empty() =~= out@);
    }
    Ok(out)
}

/// Law: a scan with a failed page among its pages fails as a whole — it
/// never returns a partial result set.
pub proof fn lemma_failed_page_fails_scan(
    vk: ViewingKey,
    pk: Option<SpendingKey>,
    pages: Seq<PageOutcome>,
    lookups: Seq<Vec<LookupOutcome>>,
    policy: SpendCheckPolicy,
    j: int,
)
    requires
        0 <= j < pages.len(),
        pages[j] matches PageOutcome::Failed(_),
    ensures
        spec_scan_pages(vk, pk, pages, lookups, policy) is Err,
    decreases pages.len(),
{
    if j > 0 {
        match pages[0] {
            PageOutcome::Failed(_) => {
            },
            PageOutcome::Records(_) => {
                lemma_failed_page_fails_scan(
                    vk,
                    pk,
                    pages.drop_first(),
                    lookups.drop_first(),
                    policy,
                    j - 1,
                );
            },
        }
    }
}

/// Law: with a viewing credential alone, a fetched page holding one owned
/// record and one non-owned record scans to exactly the owned record,
/// decrypted; the non-owned record is absent. Without a spending
/// credential no task carries a serial number, so no spent lookup is asked
/// for — its outcome stays `NotChecked` — and `finish_scan` marks the
/// result's spent state unknown.
pub proof fn lemma_view_only_page_yields_owned_record(
    vk: ViewingKey,
    page: Vec<(Commitment, RecordCiphertext)>,
    lookups: Vec<LookupOutcome>,
    policy: SpendCheckPolicy,
    plain: RecordPlaintext,
)
    requires
        page@.len() == 2,
        spec_is_owner(page@[0].1, vk),
        !spec_is_owner(page@[1].1, vk),
        spec_decrypt(page@[0].1, vk) == Some(plain),
        lookups@ == seq![LookupOutcome::NotChecked],
    ensures
        spec_scan_pages(vk, None, seq![PageOutcome::Records(page)], seq![lookups], policy)
            == Ok::<Seq<RecordPlaintext>, ScanError>(seq![plain]),
{
    let recs = page@;
    let empty_recs = Seq::<(Commitment, RecordCiphertext)>::empty();
    assert(recs.drop_last() =~= seq![recs[0]]);
    assert(seq![recs[0]].drop_last() =~= empty_recs);
    assert(spec_owned_records(empty_recs, vk) =~= empty_recs);
    assert(spec_owned_records(seq![recs[0]], vk) =~= seq![recs[0]]);
    let owned = spec_owned_records(recs, vk);
    assert(owned =~= seq![recs[0]]);
    let task = RecordTask { commitment: recs[0].0, serial_number: None, ciphertext: recs[0].1 };
    assert(owned.drop_last() =~= empty_recs);
    assert(spec_record_tasks(owned, None) == Ok::<_, ScanError>(
        spec_record_tasks(empty_recs, None)->Ok_0.push(task),
    ));
    let tasks = seq![task];
    assert(spec_record_tasks(empty_recs, None)->Ok_0.push(task) =~= tasks);
    assert(tasks.drop_last() =~= Seq::<RecordTask>::empty());
    assert(spec_resolve_one(vk, task.ciphertext, lookups@[0], policy) == Ok::<
        Option<RecordPlaintext>,
        ScanError,
    >(Some(plain)));
    assert(tasks.last() == task);
    assert(spec_resolve_tasks(vk, Seq::<RecordTask>::empty(), lookups@, policy) == Ok::<
        _,
        ScanError,
    >(Seq::<RecordPlaintext>::empty()));
    assert(spec_resolve_tasks(vk, tasks, lookups@, policy) == Ok::<_, ScanError>(
        Seq::<RecordPlaintext>::empty().push(plain),
    ));
    assert(Seq::<RecordPlaintext>::empty().push(plain) =~= seq![plain]);
    let pages = seq![PageOutcome::Records(page)];
    assert(pages.drop_first() =~= Seq::<PageOutcome>::empty());
    assert(spec_scan_pages(vk, None, pages.drop_first(), seq![lookups].drop_first(), policy)
        == Ok::<Seq<RecordPlaintext>, ScanError>(Seq::empty()));
    assert(seq![plain] + Seq::<RecordPlaintext>::empty() =~= seq![plain]);
}

/// Law: with a spending credential, an owned record whose serial number
/// the endpoint reports as found is excluded as spent: the scan of its
/// page succeeds with an empty result set, and exclusion is no error.
pub proof fn lemma_spent_record_excluded(
    sk: SpendingKey,
    vk: ViewingKey,
    page: Vec<(Commitment, RecordCiphertext)>,
    lookups: Vec<LookupOutcome>,
    policy: SpendCheckPolicy,
)
    requires
        page@.len() == 1,
        spec_is_owner(page@[0].1, vk),
        spec_serial_number(sk, page@[0].0) is Some,
        lookups@ == seq![LookupOutcome::Found],
    ensures
        spec_scan_pages(vk, Some(sk), seq![PageOutcome::Records(page)], seq![lookups], policy)
            == Ok::<Seq<RecordPlaintext>, ScanError>(Seq::empty()),
{
    let recs = page@;
    let empty_recs = Seq::<(Commitment, RecordCiphertext)>::empty();
    assert(recs.drop_last() =~= empty_recs);
    assert(spec_owned_records(empty_recs, vk) =~= empty_recs);
    let owned = spec_owned_records(recs, vk);
    assert(owned =~= recs);
    let task = RecordTask {
        commitment: recs[0].0,
        serial_number: Some(spec_serial_number(sk, recs[0].0)->Some_0),
        ciphertext: recs[0].1,
    };
    assert(owned.drop_last() =~= empty_recs);
    assert(spec_record_tasks(owned, Some(sk)) == Ok::<_, ScanError>(
        spec_record_tasks(empty_recs, Some(sk))->Ok_0.push(task),
    ));
    let tasks = seq![task];
    assert(spec_record_tasks(empty_recs, Some(sk))->Ok_0.push(task) =~= tasks);
    assert(tasks.drop_last() =~= Seq::<RecordTask>::empty());
    assert(spec_resolve_one(vk, task.ciphertext, lookups@[0], policy) == Ok::<
        Option<RecordPlaintext>,
        ScanError,
    >(None));
    assert(tasks.last() == task);
    assert(spec_resolve_tasks(vk, Seq::<RecordTask>::empty(), lookups@, policy) == Ok::<
        _,
        ScanError,
    >(Seq::<RecordPlaintext>::empty()));
    assert(spec_resolve_tasks(vk, tasks, lookups@, policy) == Ok::<_, ScanError>(
        Seq::<RecordPlaintext>::empty(),
    ));
    let pages = seq![PageOutcome::Records(page)];
    assert(pages.drop_first() =~= Seq::<PageOutcome>::empty());
    assert(spec_scan_pages(vk, Some(sk), pages.drop_first(), seq![lookups].drop_first(), policy)
        == Ok::<Seq<RecordPlaintext>, ScanError>(Seq::empty()));
    assert(Seq::<RecordPlaintext>::empty() + Seq::<RecordPlaintext>::empty()
        =~= Seq::<RecordPlaintext>::empty());
}

/// Task preparation yields one task per owned record.
proof fn lemma_record_tasks_len(owned: Seq<(Commitment, RecordCiphertext)>, pk: Option<
    SpendingKey,
>)
    ensures
        spec_record_tasks(owned, pk) matches Ok(ts) ==> ts.len() == owned.len(),
    decreases owned.len(),
{
    if owned.len() > 0 {
        lemma_record_tasks_len(owned.drop_last(), pk);
    }
}

/// The observed outcome of one page request, as the caller hands it back.
pub enum PageFetch {
    /// The endpoint answered; the body is still unparsed.
    Body(String),
    /// The request failed at the transport level (connection, timeout,
    /// resolution, non-success status).
    TransportFailed,
}

/// Turns one page-request outcome into blocks: a transport failure is
/// fatal (`EndpointUnavailable`, the scan returns no partial results), and
/// a body that does not parse as a list of blocks is `MalformedResponse`.
pub fn parse_fetched_page(fetch: &PageFetch) -> (r: Result<Vec<BlockData>, ScanError>)
    ensures
        fetch matches PageFetch::TransportFailed ==> r matches Err(e) && e
            == ScanError::EndpointUnavailable,
        fetch matches PageFetch::Body(body) ==> {
            &&& (r matches Ok(blocks) ==> spec_parse_blocks(body@) == Some(blocks@))
            &&& (r is Err <==> spec_parse_blocks(body@) is None)
            &&& (r matches Err(e) ==> e == ScanError::MalformedResponse)
        },
{
    match fetch {
        PageFetch::Body(body) => parse_block_page(body.as_str()),
        PageFetch::TransportFailed => Err(ScanError::EndpointUnavailable),
    }
}

/// Parses one fetched page body as a list of blocks.
pub fn parse_block_page(body: &str) -> (r: Result<Vec<BlockData>, ScanError>)
    ensures
        r matches Ok(blocks) ==> spec_parse_blocks(body@) == Some(blocks@),
        r is Err <==> spec_parse_blocks(body@) is None,
        r matches Err(e) ==> e == ScanError::MalformedResponse,
{
    match parse_blocks(body) {
        Some(blocks) => Ok(blocks),
        None => Err(ScanError::MalformedResponse),
    }
}

/// Flattens a page of blocks into its (commitment, ciphertext record)
/// pairs, in order.
pub fn page_records(blocks: &Vec<BlockData>) -> (r: Vec<(Commitment, RecordCiphertext)>)
    ensures
        r@ == spec_page_records(blocks@),
{
    let mut out: Vec<(Commitment, RecordCiphertext)> = Vec::new();
    let mut i: usize = 0;
    while i < blocks.len()
        invariant
            0 <= i <= blocks@.len(),
            out@ == spec_page_records(blocks@.take(i as int)),
        decreases blocks@.len() - i,
    {
        let mut recs = records_of_block(&blocks[i]);
        out.append(&mut recs);
        proof {
            assert(blocks@.take(i + 1).drop_last() =~= blocks@.take(i as int));
            assert(blocks@.take(i + 1).last() == blocks@[i as int]);
        }
        i = i + 1;
    }
    proof {
        assert(blocks@.take(blocks@.len() as int) =~= blocks@);
    }
    out
}

/// Selects the records owned by the viewing credential, in source order,
/// dropping every other record undecrypted.
pub fn owned_records(vk: &ViewingKey, records: &Vec<(Commitment, RecordCiphertext)>) -> (r: Vec<
    (Commitment, RecordCiphertext),
>)
    ensures
        r@ == spec_owned_records(records@, *vk),
{
    let address = address_of_view_key(vk);
    let x = x_coordinate_of_address(&address);
    let mut owned: Vec<(Commitment, RecordCiphertext)> = Vec::new();
    let mut i: usize = 0;
    while i < records.len()
        invariant
            0 <= i <= records@.len(),
            owned@ == spec_owned_records(records@.take(i as int), *vk),
            x == crate::crypto::spec_x_coordinate(crate::crypto::spec_address(*vk)),
        decreases records@.len() - i,
    {
        proof {
            assert(records@.take(i + 1).drop_last() =~= records@.take(i as int));
            assert(records@.take(i + 1).last() == records@[i as int]);
        }
        let pair = &records[i];
        if record_is_owner(&pair.1, vk, &x) {
            let rec = pair.1.clone();
            owned.push((pair.0, rec));
            proof {
                assert(owned@.last() == records@[i as int]);
            }
        }
        i = i + 1;
    }
    proof {
        assert(records@.take(records@.len() as int) =~= records@);
    }
    owned
}

/// Turns the owned records of a page into tasks: each keeps its commitment
/// and ciphertext, and gains its serial number when a spending credential is
/// present. Fails with the defect error if a serial number cannot be
/// derived.
#[verifier::rlimit(60)]
pub fn collect_record_tasks(
    account: &Account,
    owned: &Vec<(Commitment, RecordCiphertext)>,
) -> (r: Result<Vec<RecordTask>, ScanError>)
    ensures
        (match r {
            Ok(ts) => Ok(ts@),
            Err(e) => Err(e),
        }) == spec_record_tasks(owned@, account.private_key),
{
    let mut tasks: Vec<RecordTask> = Vec::new();
    let mut i: usize = 0;
    while i < owned.len()
        invariant
            0 <= i <= owned@.len(),
            spec_record_tasks(owned@.take(i as int), account.private_key) == Ok::<_, ScanError>(
                tasks@,
            ),
        decreases owned@.len() - i,
    {
        proof {
            assert(owned@.take(i + 1).drop_last() =~= owned@.take(i as int));
            assert(owned@.take(i + 1).last() == owned@[i as int]);
        }
        let pair = &owned[i];
        let serial_number: Option<SerialNumber> = match account.private_key {
            Some(key) => match serial_number_of(&key, &pair.0) {
                Some(sn) => Some(sn),
                None => {
                    proof {
                        lemma_record_tasks_step_err(owned@, key, i as int, tasks@);
                    }
                    return Err(ScanError::DecryptionFailed);
                },
            },
            None => None,
        };
        let ciphertext = pair.1.clone();
        tasks.push(RecordTask { commitment: pair.0, serial_number, ciphertext });
        i = i + 1;
    }
    proof {
        assert(owned@.take(owned@.len() as int) =~= owned@);
    }
    Ok(tasks)
}

/// Decrypts one owned record, or excludes it, per the outcome of its
/// spent-record lookup and the chosen policy: a spent record is excluded
/// without error, an unspent (or unchecked) record is decrypted, and a
/// failed lookup is absorbed as "unspent" under the lenient policy or
/// surfaced as `EndpointUnavailable` under the strict one.
pub fn decrypt_record(
    vk: &ViewingKey,
    ciphertext: &RecordCiphertext,
    lookup: LookupOutcome,
    policy: SpendCheckPolicy,
) -> (r: Result<Option<RecordPlaintext>, ScanError>)
    ensures
        r == spec_resolve_one(*vk, *ciphertext, lookup, policy),
{
    match lookup {
        LookupOutcome::Found => Ok(None),
        LookupOutcome::TransportFailed => match policy {
            SpendCheckPolicy::Strict => Err(ScanError::EndpointUnavailable),
            SpendCheckPolicy::Lenient => decrypt_step(vk, ciphertext),
        },
        _ => decrypt_step(vk, ciphertext),
    }
}

/// Decrypts one record outright; failure is the defect error.
fn decrypt_step(vk: &ViewingKey, rec: &RecordCiphertext) -> (r: Result<
    Option<RecordPlaintext>,
    ScanError,
>)
    ensures
        r == spec_decrypt_step(*rec, *vk),
{
    match decrypt_with_view_key(rec, vk) {
        Some(p) => Ok(Some(p)),
        None => Err(ScanError::DecryptionFailed),
    }
}

/// Resolves a page's tasks against the outcomes of their spent-record
/// lookups: returns the decrypted unspent records in task order, or the
/// first error.
pub fn resolve_tasks(
    vk: &ViewingKey,
    tasks: &Vec<RecordTask>,
    lookups: &Vec<LookupOutcome>,
    policy: SpendCheckPolicy,
) -> (r: Result<Vec<RecordPlaintext>, ScanError>)
    requires
        lookups@.len() == tasks@.len(),
    ensures
        (match r {
            Ok(rs) => Ok(rs@),
            Err(e) => Err(e),
        }) == spec_resolve_tasks(*vk, tasks@, lookups@, policy),
{
    let mut out: Vec<RecordPlaintext> = Vec::new();
    let mut i: usize = 0;
    while i < tasks.len()
        invariant
            0 <= i <= tasks@.len(),
            lookups@.len() == tasks@.len(),
            spec_resolve_tasks(*vk, tasks@.take(i as int), lookups@, policy) == Ok::<
                _,
                ScanError,
            >(out@),
        decreases tasks@.len() - i,
    {
        proof {
            assert(tasks@.take(i + 1).drop_last() =~= tasks@.take(i as int));
            assert(tasks@.take(i + 1).last() == tasks@[i as int]);
        }
        match decrypt_record(vk, &tasks[i].ciphertext, lookups[i], policy) {
            Ok(Some(p)) => {
                out.push(p);
            },
            Ok(None) => {
            },
            Err(e) => {
                proof {
                    assert(spec_resolve_tasks(*vk, tasks@.take(i + 1), lookups@, policy) == Err::<
                        Seq<RecordPlaintext>,
                        ScanError,
                    >(e));
                    lemma_resolve_tasks_err_extends(*vk, tasks@, lookups@, policy, i + 1,
                        tasks@.len() as int);
                    assert(tasks@.take(tasks@.len() as int) =~= tasks@);
                }
                return Err(e);
            },
        }
        i = i + 1;
    }
    proof {
        assert(tasks@.take(tasks@.len() as int) =~= tasks@);
    }
    Ok(out)
}

/// Wraps up a whole scan: the accumulated records, with the unknown
/// spent-state advisory exactly when the scan ran without a spending
/// credential.
pub fn finish_scan(account: &Account, records: Vec<RecordPlaintext>) -> (r: ScanResult)
    ensures
        r.records == records,
        r.spent_state_unknown == account.spec_spent_state_unknown(),
{
    let spent_state_unknown = !account.has_spending_key();
    ScanResult { records, spent_state_unknown }
}

/// When serial-number derivation fails on the owned record at position `k`,
/// task preparation fails for the whole list with the defect error.
proof fn lemma_record_tasks_step_err(
    owned: Seq<(Commitment, RecordCiphertext)>,
    key: SpendingKey,
    k: int,
    ts: Seq<RecordTask>,
)
    requires
        0 <= k < owned.len(),
        spec_record_tasks(owned.take(k), Some(key)) == Ok::<_, ScanError>(ts),
        spec_serial_number(key, owned[k].0) is None,
    ensures
        spec_record_tasks(owned, Some(key)) == Err::<Seq<RecordTask>, ScanError>(
            ScanError::DecryptionFailed,
        ),
{
    assert(owned.take(k + 1).drop_last() =~= owned.take(k));
    assert(owned.take(k + 1).last() == owned[k]);
    assert(spec_record_tasks(owned.take(k + 1), Some(key)) == Err::<Seq<RecordTask>, ScanError>(
        ScanError::DecryptionFailed,
    ));
    lemma_record_tasks_err_extends(owned, Some(key), k + 1, owned.len() as int);
    assert(owned.take(owned.len() as int) =~= owned);
}

/// Once task preparation has failed on a prefix of the owned records, it
/// fails identically on every extension of that prefix.
proof fn lemma_record_tasks_err_extends(
    owned: Seq<(Commitment, RecordCiphertext)>,
    pk: Option<SpendingKey>,
    j: int,
    j2: int,
)
    requires
        0 <= j <= j2 <= owned.len(),
        spec_record_tasks(owned.take(j), pk) is Err,
    ensures
        spec_record_tasks(owned.take(j2), pk) == spec_record_tasks(owned.take(j), pk),
    decreases j2 - j,
{
    if j2 > j {
        lemma_record_tasks_err_extends(owned, pk, j, j2 - 1);
        assert(owned.take(j2).drop_last() =~= owned.take(j2 - 1));
    }
}

/// Once task resolution has failed on a prefix of the tasks, it fails
/// identically on every extension of that prefix.
proof fn lemma_resolve_tasks_err_extends(
    vk: ViewingKey,
    tasks: Seq<RecordTask>,
    lookups: Seq<LookupOutcome>,
    policy: SpendCheckPolicy,
    j: int,
    j2: int,
)
    requires
        0 <= j <= j2 <= tasks.len(),
        spec_resolve_tasks(vk, tasks.take(j), lookups, policy) is Err,
    ensures
        spec_resolve_tasks(vk, tasks.take(j2), lookups, policy) == spec_resolve_tasks(
            vk,
            tasks.take(j),
            lookups,
            policy,
        ),
    decreases j2 - j,
{
    if j2 > j {
        lemma_resolve_tasks_err_extends(vk, tasks, lookups, policy, j, j2 - 1);
        assert(tasks.take(j2).drop_last() =~= tasks.take(j2 - 1));
    }
}

/// Law: the owned-record selection keeps exactly the records whose
/// ownership tag matches the viewing credential; in particular, a record
/// whose tag does not match is never selected, and so never reaches
/// decryption.
pub proof fn lemma_non_owned_never_selected(
    recs: Seq<(Commitment, RecordCiphertext)>,
    vk: ViewingKey,
)
    ensures
        forall|i: int|
            0 <= i < spec_owned_records(recs, vk).len() ==> spec_is_owner(
                #[trigger] spec_owned_records(recs, vk)[i].1,
                vk,
            ),
    decreases recs.len(),
{
    if recs.len() > 0 {
        lemma_non_owned_never_selected(recs.drop_last(), vk);
        let prev = spec_owned_records(recs.drop_last(), vk);
        let cur = spec_owned_records(recs, vk);
        assert forall|i: int| 0 <= i < cur.len() implies spec_is_owner(
            #[trigger] cur[i].1,
            vk,
        ) by {
            if spec_is_owner(recs.last().1, vk) {
                assert(cur == prev.push(recs.last()));
                if i < prev.len() {
                    assert(cur[i] == prev[i]);
                } else {
                    assert(cur[i] == recs.last());
                }
            } else {
                assert(cur == prev);
                assert(cur[i] == prev[i]);
            }
        }
    }
}

} // verus!
