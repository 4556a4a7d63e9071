use record_scan::{
    collect_record_tasks, decrypt_record, fetch_records, finish_scan, owned_records,
    page_records, parse_fetched_page, plan_pages, resolve_tasks, Account, Commitment,
    CurrentNetwork, LookupOutcome, PageFetch, PageOutcome, RecordCiphertext, Scan, ScanError,
    ScanResult, SerialNumber, SpendCheckPolicy, ViewingKey,
};

use snarkvm::prelude::{
    Address, Ciphertext, Environment, Field, Network, Plaintext, PrivateKey, Record, Scalar,
    TestRng, Uniform, ViewKey,
};
use std::str::FromStr;

/// A plaintext record owned by `address`, together with its encrypted form.
fn sample_record(
    rng: &mut TestRng,
    address: &Address<CurrentNetwork>,
) -> (Record<CurrentNetwork, Plaintext<CurrentNetwork>>, Record<CurrentNetwork, Ciphertext<CurrentNetwork>>)
{
    let randomizer = Scalar::<CurrentNetwork>::rand(rng);
    let nonce = CurrentNetwork::g_scalar_multiply(&randomizer);
    let text = format!(
        "{{ owner: {address}.private, microcredits: 1u64.private, _nonce: {nonce}.public }}"
    );
    let plaintext = Record::<CurrentNetwork, Plaintext<CurrentNetwork>>::from_str(&text).unwrap();
    let ciphertext = plaintext.encrypt(randomizer).unwrap();
    (plaintext, ciphertext)
}

fn random_commitment(rng: &mut TestRng) -> Commitment {
    Commitment(Field::rand(rng))
}

/// One page of a mock chain: either the raw outcome of a page request, or a
/// page already flattened to its record list.
enum MockPage {
    Fetch(PageFetch),
    Records(Vec<(Commitment, RecordCiphertext)>),
}

/// Drives a whole scan over mock pages the way a caller would: one page at
/// a time, aborting on the first error, resolving spent lookups through the
/// given mock endpoint.
fn run_scan<F: Fn(&SerialNumber) -> LookupOutcome>(
    account: &Account,
    pages: &[MockPage],
    lookup: F,
    policy: SpendCheckPolicy,
) -> Result<ScanResult, ScanError> {
    // Turn each mock page into the outcome a caller would hand the library.
    let mut outcomes: Vec<PageOutcome> = Vec::new();
    for page in pages {
        outcomes.push(match page {
            MockPage::Fetch(fetch) => match parse_fetched_page(fetch) {
                Ok(blocks) => PageOutcome::Records(page_records(&blocks)),
                Err(e) => PageOutcome::Failed(e),
            },
            MockPage::Records(recs) => {
                let mut copy = Vec::new();
                for (c, r) in recs {
                    copy.push((*c, r.clone()));
                }
                PageOutcome::Records(copy)
            }
        });
    }
    // Resolve one lookup per owned record of each page, via the mock
    // endpoint.
    let mut lookups: Vec<Vec<LookupOutcome>> = Vec::new();
    for outcome in &outcomes {
        let mut page_lookups = Vec::new();
        if let PageOutcome::Records(recs) = outcome {
            let owned = owned_records(&account.view_key, recs);
            match collect_record_tasks(account, &owned) {
                Ok(tasks) => {
                    for task in &tasks {
                        page_lookups.push(match &task.serial_number {
                            Some(sn) => lookup(sn),
                            None => LookupOutcome::NotChecked,
                        });
                    }
                }
                Err(_) => {
                    for _ in 0..owned.len() {
                        page_lookups.push(LookupOutcome::NotChecked);
                    }
                }
            }
        }
        lookups.push(page_lookups);
    }
    let records = fetch_records(account, &outcomes, &lookups, policy)?;
    Ok(finish_scan(account, records))
}

fn scan_config(private_key: Option<String>, view_key: Option<String>) -> Scan {
    Scan { private_key, view_key, start: 0, end: Some(10), endpoint: String::new() }
}

#[test]
fn test_parse_account() {
    let rng = &mut TestRng::default();

    // Generate private key and view key.
    let private_key = PrivateKey::<CurrentNetwork>::new(rng).unwrap();
    let view_key = ViewKey::try_from(private_key).unwrap();

    // Generate unassociated private key and view key.
    let unassociated_private_key = PrivateKey::<CurrentNetwork>::new(rng).unwrap();
    let unassociated_view_key = ViewKey::try_from(unassociated_private_key).unwrap();

    let config = scan_config(Some(format!("{private_key}")), Some(format!("{view_key}")));
    assert!(config.parse_account().is_ok());

    let config =
        scan_config(Some(format!("{private_key}")), Some(format!("{unassociated_view_key}")));
    assert!(config.parse_account().is_err());
}

#[test]
fn test_parse_end_height() {
    let config = Scan {
        private_key: None,
        view_key: Some(String::new()),
        start: 0,
        end: Some(10),
        endpoint: String::new(),
    };
    assert!(config.parse_end_height(None).is_ok());

    let config = Scan {
        private_key: None,
        view_key: Some(String::new()),
        start: 10,
        end: Some(5),
        endpoint: String::new(),
    };
    assert!(config.parse_end_height(None).is_err());
}

#[test]
fn test_credential_error_kinds() {
    let rng = &mut TestRng::default();
    let private_key = PrivateKey::<CurrentNetwork>::new(rng).unwrap();
    let other_key = PrivateKey::<CurrentNetwork>::new(rng).unwrap();
    let other_view_key = ViewKey::try_from(other_key).unwrap();

    let config = scan_config(None, None);
    assert_eq!(config.parse_account().err().unwrap(), ScanError::MissingCredential);

    let config = scan_config(Some(String::from("not a key")), None);
    assert_eq!(config.parse_account().err().unwrap(), ScanError::InvalidCredentialFormat);

    let config = scan_config(None, Some(String::from("not a key")));
    assert_eq!(config.parse_account().err().unwrap(), ScanError::InvalidCredentialFormat);

    let config =
        scan_config(Some(format!("{private_key}")), Some(format!("{other_view_key}")));
    assert_eq!(config.parse_account().err().unwrap(), ScanError::CredentialMismatch);

    // A spending credential alone derives its viewing credential.
    let config = scan_config(Some(format!("{private_key}")), None);
    let account = config.parse_account().unwrap();
    assert!(account.has_spending_key());
    let expected = ViewKey::try_from(private_key).unwrap();
    let derived = account.view_key;
    let config = scan_config(None, Some(format!("{expected}")));
    let view_only = config.parse_account().unwrap();
    assert!(!view_only.has_spending_key());
    // Both resolutions agree on the viewing credential's address.
    assert_eq!(derived.0.to_address(), view_only.view_key.0.to_address());
}

#[test]
fn test_invalid_range_kinds() {
    // Explicit end at or below the start is rejected.
    let mut config = scan_config(None, Some(String::new()));
    config.start = 5;
    config.end = Some(5);
    assert_eq!(config.parse_end_height(None).unwrap_err(), ScanError::InvalidRange);
    config.end = Some(4);
    assert_eq!(config.parse_end_height(None).unwrap_err(), ScanError::InvalidRange);

    // A derived end below the start is rejected the same way.
    config.end = None;
    assert_eq!(config.parse_end_height(Some(5)).unwrap_err(), ScanError::InvalidRange);
    assert_eq!(config.parse_end_height(Some(9)).unwrap(), 9);

    // No explicit end and no answer from the endpoint.
    assert_eq!(config.parse_end_height(None).unwrap_err(), ScanError::EndpointUnavailable);

    // The full-chain advisory fires only for an open-ended scan from zero.
    config.start = 0;
    assert!(config.full_chain_advisory());
    config.start = 5;
    assert!(!config.full_chain_advisory());
    config.end = Some(10);
    config.start = 0;
    assert!(!config.full_chain_advisory());
}

#[test]
fn test_page_plan_layout() {
    // A span of 121 heights needs three pages of at most 50.
    let pages = plan_pages(0, 120);
    assert_eq!(pages.len(), 3);
    assert_eq!((pages[0].start, pages[0].end), (0, 49));
    assert_eq!((pages[1].start, pages[1].end), (50, 99));
    assert_eq!((pages[2].start, pages[2].end), (100, 120));

    // One-block range.
    let pages = plan_pages(5, 5);
    assert_eq!(pages.len(), 1);
    assert_eq!((pages[0].start, pages[0].end), (5, 5));

    // Exactly one full page, then one page further.
    let pages = plan_pages(0, 49);
    assert_eq!(pages.len(), 1);
    assert_eq!((pages[0].start, pages[0].end), (0, 49));
    let pages = plan_pages(0, 50);
    assert_eq!(pages.len(), 2);
    assert_eq!((pages[1].start, pages[1].end), (50, 50));

    // ceil(span / page size) pages, contiguous and gap-free.
    let pages = plan_pages(10, 309);
    assert_eq!(pages.len(), 6);
    assert_eq!(pages[0].start, 10);
    assert_eq!(pages[5].end, 309);
    for i in 0..pages.len() - 1 {
        assert_eq!(pages[i + 1].start, pages[i].end + 1);
    }
    for page in &pages {
        assert!(page.end - page.start < 50);
    }
}

#[test]
fn test_ownership_filter_drops_non_owned() {
    let rng = &mut TestRng::default();
    let private_key = PrivateKey::<CurrentNetwork>::new(rng).unwrap();
    let view_key = ViewKey::try_from(private_key).unwrap();
    let address = view_key.to_address();
    let other_key = PrivateKey::<CurrentNetwork>::new(rng).unwrap();
    let other_address = ViewKey::try_from(other_key).unwrap().to_address();

    let (_, owned_cipher) = sample_record(rng, &address);
    let (_, other_cipher) = sample_record(rng, &other_address);

    let records = vec![
        (random_commitment(rng), RecordCiphertext(other_cipher)),
        (random_commitment(rng), RecordCiphertext(owned_cipher)),
    ];
    let owned = owned_records(&ViewingKey(view_key), &records);
    assert_eq!(owned.len(), 1);
    let got = &owned[0].1;
    let want = &records[1].1;
    assert!(got.0 == want.0);

    // A non-owned record that slipped past the filter would fail to
    // decrypt: that is the defect error, and the filter prevents it.
    let stray = &records[0].1;
    assert_eq!(
        decrypt_record(&ViewingKey(view_key), stray, LookupOutcome::NotChecked,
            SpendCheckPolicy::Lenient)
            .err()
            .unwrap(),
        ScanError::DecryptionFailed
    );
}

#[test]
fn test_spend_resolution_found_excludes() {
    let rng = &mut TestRng::default();
    let private_key = PrivateKey::<CurrentNetwork>::new(rng).unwrap();
    let config = scan_config(Some(format!("{private_key}")), None);
    let account = config.parse_account().unwrap();
    let address = account.view_key.0.to_address();

    let (plaintext, ciphertext) = sample_record(rng, &address);
    let commitment = random_commitment(rng);
    let owned = vec![(commitment, RecordCiphertext(ciphertext))];

    let tasks = collect_record_tasks(&account, &owned).unwrap();
    assert_eq!(tasks.len(), 1);
    let serial = tasks[0].serial_number.as_ref().unwrap();
    let expected_serial =
        Record::<CurrentNetwork, Plaintext<CurrentNetwork>>::serial_number(private_key,
            commitment.0)
            .unwrap();
    assert_eq!(serial.0, expected_serial);

    // The mock endpoint knows the serial number: the record is spent and
    // excluded, with no error.
    let resolved = resolve_tasks(&account.view_key, &tasks, &vec![LookupOutcome::Found],
        SpendCheckPolicy::Lenient)
        .unwrap();
    assert!(resolved.is_empty());

    // The mock endpoint does not know it: the record is included, decrypted.
    let resolved = resolve_tasks(&account.view_key, &tasks, &vec![LookupOutcome::NotFound],
        SpendCheckPolicy::Lenient)
        .unwrap();
    assert_eq!(resolved.len(), 1);
    assert!(resolved[0].0 == plaintext);
}

#[test]
fn test_spend_lookup_failure_policies() {
    let rng = &mut TestRng::default();
    let private_key = PrivateKey::<CurrentNetwork>::new(rng).unwrap();
    let config = scan_config(Some(format!("{private_key}")), None);
    let account = config.parse_account().unwrap();
    let address = account.view_key.0.to_address();

    let (plaintext, ciphertext) = sample_record(rng, &address);
    let owned = vec![(random_commitment(rng), RecordCiphertext(ciphertext))];
    let tasks = collect_record_tasks(&account, &owned).unwrap();

    // Lenient: a failed lookup counts as "unspent" and the record stays.
    let resolved = resolve_tasks(&account.view_key, &tasks,
        &vec![LookupOutcome::TransportFailed], SpendCheckPolicy::Lenient)
        .unwrap();
    assert_eq!(resolved.len(), 1);
    assert!(resolved[0].0 == plaintext);

    // Strict: a failed lookup aborts the scan.
    let err = resolve_tasks(&account.view_key, &tasks,
        &vec![LookupOutcome::TransportFailed], SpendCheckPolicy::Strict)
        .err()
        .unwrap();
    assert_eq!(err, ScanError::EndpointUnavailable);
}

#[test]
fn test_scan_empty_range() {
    let rng = &mut TestRng::default();
    let private_key = PrivateKey::<CurrentNetwork>::new(rng).unwrap();
    let view_key = ViewKey::try_from(private_key).unwrap();
    let config = scan_config(None, Some(format!("{view_key}")));
    let account = config.parse_account().unwrap();

    // Pages come back without any blocks: an empty result set, no error.
    let pages = vec![
        MockPage::Fetch(PageFetch::Body(String::from("[]"))),
        MockPage::Fetch(PageFetch::Body(String::from("[]"))),
    ];
    let result = run_scan(&account, &pages, |_| LookupOutcome::NotFound,
        SpendCheckPolicy::Lenient)
        .unwrap();
    assert!(result.records.is_empty());
    assert!(result.spent_state_unknown);
}

#[test]
fn test_scan_view_only_credential() {
    let rng = &mut TestRng::default();
    let private_key = PrivateKey::<CurrentNetwork>::new(rng).unwrap();
    let view_key = ViewKey::try_from(private_key).unwrap();
    let address = view_key.to_address();
    let other_key = PrivateKey::<CurrentNetwork>::new(rng).unwrap();
    let other_address = ViewKey::try_from(other_key).unwrap().to_address();

    let config = scan_config(None, Some(format!("{view_key}")));
    let account = config.parse_account().unwrap();

    let (plaintext, owned_cipher) = sample_record(rng, &address);
    let (_, other_cipher) = sample_record(rng, &other_address);
    let pages = vec![MockPage::Records(vec![
        (random_commitment(rng), RecordCiphertext(owned_cipher)),
        (random_commitment(rng), RecordCiphertext(other_cipher)),
    ])];

    let result = run_scan(&account, &pages, |_| panic!("no lookup without a spending key"),
        SpendCheckPolicy::Lenient)
        .unwrap();
    // Exactly the owned record, decrypted; the non-owned one is absent; and
    // the unknown-spent-state advisory is set.
    assert_eq!(result.records.len(), 1);
    assert!(result.records[0].0 == plaintext);
    assert!(result.spent_state_unknown);
}

#[test]
fn test_scan_spent_record_excluded() {
    let rng = &mut TestRng::default();
    let private_key = PrivateKey::<CurrentNetwork>::new(rng).unwrap();
    let config = scan_config(Some(format!("{private_key}")), None);
    let account = config.parse_account().unwrap();
    let address = account.view_key.0.to_address();

    let (_, spent_cipher) = sample_record(rng, &address);
    let (live_plain, live_cipher) = sample_record(rng, &address);
    let spent_commitment = random_commitment(rng);
    let live_commitment = random_commitment(rng);
    let pages = vec![MockPage::Records(vec![
        (spent_commitment, RecordCiphertext(spent_cipher)),
        (live_commitment, RecordCiphertext(live_cipher)),
    ])];

    let spent_serial =
        Record::<CurrentNetwork, Plaintext<CurrentNetwork>>::serial_number(private_key,
            spent_commitment.0)
            .unwrap();
    let result = run_scan(
        &account,
        &pages,
        |sn| if sn.0 == spent_serial { LookupOutcome::Found } else { LookupOutcome::NotFound },
        SpendCheckPolicy::Lenient,
    )
    .unwrap();

    // The spent record is excluded; the live one is included, decrypted;
    // and the spent state is known.
    assert_eq!(result.records.len(), 1);
    assert!(result.records[0].0 == live_plain);
    assert!(!result.spent_state_unknown);
}

#[test]
fn test_scan_idempotent_on_fixed_data() {
    let rng = &mut TestRng::default();
    let private_key = PrivateKey::<CurrentNetwork>::new(rng).unwrap();
    let view_key = ViewKey::try_from(private_key).unwrap();
    let address = view_key.to_address();
    let config = scan_config(None, Some(format!("{view_key}")));
    let account = config.parse_account().unwrap();

    let (_, owned_a) = sample_record(rng, &address);
    let (_, owned_b) = sample_record(rng, &address);
    let dataset = vec![
        (random_commitment(rng), RecordCiphertext(owned_a)),
        (random_commitment(rng), RecordCiphertext(owned_b)),
    ];

    let mut outcomes = Vec::new();
    for _ in 0..2 {
        let mut page = Vec::new();
        for (c, r) in &dataset {
            page.push((*c, r.clone()));
        }
        let pages = vec![MockPage::Records(page)];
        let result = run_scan(&account, &pages, |_| LookupOutcome::NotFound,
            SpendCheckPolicy::Lenient)
            .unwrap();
        outcomes.push(result);
    }

    let first = &outcomes[0];
    let second = &outcomes[1];
    assert_eq!(first.records.len(), 2);
    assert_eq!(first.records.len(), second.records.len());
    for i in 0..first.records.len() {
        assert!(first.records[i].0 == second.records[i].0);
    }
    assert_eq!(first.spent_state_unknown, second.spent_state_unknown);
}

#[test]
fn test_scan_transport_failure_aborts() {
    let rng = &mut TestRng::default();
    let private_key = PrivateKey::<CurrentNetwork>::new(rng).unwrap();
    let view_key = ViewKey::try_from(private_key).unwrap();
    let address = view_key.to_address();
    let config = scan_config(None, Some(format!("{view_key}")));
    let account = config.parse_account().unwrap();

    // The first page yields an owned record, then a page request fails at
    // the transport level: the whole scan fails, nothing is returned.
    let (_, owned_cipher) = sample_record(rng, &address);
    let pages = vec![
        MockPage::Records(vec![(random_commitment(rng), RecordCiphertext(owned_cipher))]),
        MockPage::Fetch(PageFetch::TransportFailed),
    ];
    let err = run_scan(&account, &pages, |_| LookupOutcome::NotFound,
        SpendCheckPolicy::Lenient)
        .err()
        .unwrap();
    assert_eq!(err, ScanError::EndpointUnavailable);
}

#[test]
fn test_malformed_page_response() {
    assert_eq!(
        parse_fetched_page(&PageFetch::Body(String::from("not json"))).err().unwrap(),
        ScanError::MalformedResponse
    );
    // A well-formed empty page parses to no blocks and no records.
    let blocks = parse_fetched_page(&PageFetch::Body(String::from("[]"))).unwrap();
    assert!(blocks.is_empty());
    assert!(page_records(&blocks).is_empty());
}
