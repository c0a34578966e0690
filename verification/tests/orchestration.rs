use std::collections::HashMap;

use failcat::car::{Car, CarId};
use failcat::orchestrator::{
    Action, Event, FetchOutcome, Orchestrator, Outcome, ScrapeError,
};
use failcat::serial::SerialNumber;

/// How the fake external source answers every fetch.
enum FetchMode {
    Fail,
    Sentinel,
    Doc(Vec<u8>),
}

/// In-memory ports: key-value cache, object store, relational rows.
struct Env {
    kv: HashMap<i32, Car>,
    docs: HashMap<String, Vec<u8>>,
    rows: HashMap<i32, i32>,
    next_id: i32,
    fetch_mode: FetchMode,
    fetch_count: usize,
    doc_writes: usize,
    store_fail: bool,
    insert_fail: bool,
    readback_missing: bool,
    /// A concurrent winner's row that becomes visible only at read-back.
    late_row: Option<i32>,
}

impl Env {
    fn new() -> Env {
        Env {
            kv: HashMap::new(),
            docs: HashMap::new(),
            rows: HashMap::new(),
            next_id: 1,
            fetch_mode: FetchMode::Fail,
            fetch_count: 0,
            doc_writes: 0,
            store_fail: false,
            insert_fail: false,
            readback_missing: false,
            late_row: None,
        }
    }
}

/// Runs one orchestration to completion against the fake ports,
/// performing each action and answering with the matching event.
fn run(env: &mut Env, serial: i32) -> Outcome {
    let (mut m, mut a) = Orchestrator::start(SerialNumber(serial));
    loop {
        let ev = match a {
            Action::GetCachedCar { serial } => Event::CacheResult {
                present: env.kv.contains_key(&serial.0),
            },
            Action::GetDocument { vin } => Event::DocResult {
                doc: env.docs.get(&vin).cloned(),
            },
            Action::FetchDocument { vin: _ } => {
                env.fetch_count += 1;
                let fetch = match env.fetch_mode {
                    FetchMode::Fail => FetchOutcome::TransportFailure,
                    FetchMode::Sentinel => {
                        FetchOutcome::Payload(b"SAP API limits exceeded".to_vec())
                    }
                    FetchMode::Doc(ref bytes) => FetchOutcome::Payload(bytes.clone()),
                };
                Event::FetchResult { fetch }
            }
            Action::PutDocument { vin, bytes } => {
                if env.store_fail {
                    Event::StoreResult { ok: false }
                } else {
                    env.doc_writes += 1;
                    env.docs.insert(vin, bytes);
                    Event::StoreResult { ok: true }
                }
            }
            Action::ExtractText { bytes } => Event::TextResult {
                text: pdf_extract::extract_text_from_mem(&bytes).ok(),
            },
            Action::GetCarIdBySerial { serial } => Event::LookupResult {
                id: env.rows.get(&serial.0).map(|id| CarId(*id)),
            },
            Action::InsertCar { car } => {
                if env.insert_fail {
                    Event::InsertResult { ok: false }
                } else {
                    let id = env.next_id;
                    env.next_id += 1;
                    env.rows.insert(car.serial_number.0, id);
                    Event::InsertResult { ok: true }
                }
            }
            Action::ReadBackCarId { serial } => {
                let id = if env.readback_missing {
                    None
                } else if let Some(late) = env.late_row {
                    Some(CarId(late))
                } else {
                    env.rows.get(&serial.0).map(|id| CarId(*id))
                };
                Event::ReadBackResult { id }
            }
            Action::PutCachedCar { car } => {
                env.kv.insert(car.serial_number.0, car);
                Event::MirrorResult { ok: true }
            }
            Action::Finish { outcome } => return outcome,
        };
        let (m2, a2) = m.step(ev);
        m = m2;
        a = a2;
    }
}

fn first_candidate(serial: i32) -> String {
    failcat::candidates::get_possible_vins_from_serial(&SerialNumber(serial))[0].clone()
}

const DOC_TEXT: &str = "DESC MODEL/OPT.CODE AB/CD EXTERIOR COLOR RED INTERIOR COLOR BLK \
VEHICLE ID NUMBER 5XYP24GCXPG100000 PORT OF ENTRY PX Sold To: 12345 DEALER Ship To: 67890";

/// A minimal one-page document with a single line of text, with the
/// cross-reference table computed from the assembled byte offsets.
fn minimal_pdf(text: &str) -> Vec<u8> {
    let contents = format!("BT /F1 10 Tf 20 700 Td ({}) Tj ET", text);
    let objects = vec![
        String::from("<< /Type /Catalog /Pages 2 0 R >>"),
        String::from("<< /Type /Pages /Kids [3 0 R] /Count 1 >>"),
        String::from(
            "<< /Type /Page /Parent 2 0 R /MediaBox [0 0 1500 792] \
             /Contents 4 0 R /Resources << /Font << /F1 5 0 R >> >> >>",
        ),
        format!(
            "<< /Length {} >>\nstream\n{}\nendstream",
            contents.len(),
            contents
        ),
        String::from("<< /Type /Font /Subtype /Type1 /BaseFont /Helvetica >>"),
    ];
    let mut pdf = String::from("%PDF-1.4\n");
    let mut offsets = Vec::new();
    for (i, body) in objects.iter().enumerate() {
        offsets.push(pdf.len());
        pdf.push_str(&format!("{} 0 obj\n{}\nendobj\n", i + 1, body));
    }
    let xref_at = pdf.len();
    pdf.push_str(&format!("xref\n0 {}\n", objects.len() + 1));
    pdf.push_str("0000000000 65535 f \n");
    for off in &offsets {
        pdf.push_str(&format!("{:010} 00000 n \n", off));
    }
    pdf.push_str(&format!(
        "trailer\n<< /Size {} /Root 1 0 R >>\nstartxref\n{}\n%%EOF\n",
        objects.len() + 1,
        xref_at
    ));
    pdf.into_bytes()
}

#[test]
fn cached_document_is_extracted_parsed_and_persisted() {
    let mut env = Env::new();
    let pdf = minimal_pdf(DOC_TEXT);
    assert!(pdf.len() >= 100, "the document must clear the sentinel size");
    env.docs.insert(first_candidate(100000), pdf);
    match run(&mut env, 100000) {
        Outcome::Saved(car) => {
            assert_eq!(car.vin.0, "5XYP24GCXPG100000");
            assert_eq!(car.car_model, "DESC");
            assert_eq!(car.serial_number, SerialNumber(100000));
            assert_eq!(car.model_year, "2023");
            assert_eq!(car.id, Some(CarId(1)));
        }
        _ => panic!("expected a parsed, persisted car"),
    }
    assert_eq!(env.fetch_count, 0);
    assert_eq!(env.rows.len(), 1);
    assert_eq!(env.kv.len(), 1);
}

#[test]
fn fetched_document_is_stored_then_parsed() {
    let mut env = Env::new();
    env.fetch_mode = FetchMode::Doc(minimal_pdf(DOC_TEXT));
    match run(&mut env, 100000) {
        Outcome::Saved(car) => {
            assert_eq!(car.vin.0, "5XYP24GCXPG100000");
            assert_eq!(car.id, Some(CarId(1)));
        }
        _ => panic!("expected a parsed, persisted car"),
    }
    // The first candidate missed the store, was fetched, and its bytes
    // were written back before parsing.
    assert_eq!(env.fetch_count, 1);
    assert_eq!(env.doc_writes, 1);
    assert!(env.docs.contains_key(&first_candidate(100000)));
    assert_eq!(env.rows.len(), 1);
}

#[test]
fn broken_document_yields_placeholder_car() {
    let mut env = Env::new();
    // A stored document below the sentinel size marks a probed VIN.
    env.docs.insert(first_candidate(100000), vec![0u8; 10]);
    match run(&mut env, 100000) {
        Outcome::Saved(car) => {
            assert_eq!(car.ext_color, "BROKEN");
            assert_eq!(car.int_color, "BROKEN");
            assert_eq!(car.car_model, "BROKEN");
            assert_eq!(car.opt_code, "BROKEN");
            assert_eq!(car.ship_to, "BROKEN");
            assert_eq!(car.sold_to, "BROKEN");
            assert_eq!(car.model_year, "BROKEN");
            assert_eq!(car.serial_number, SerialNumber(100000));
            assert_eq!(car.vin.0, first_candidate(100000));
            assert_eq!(car.id, Some(CarId(1)));
        }
        _ => panic!("expected a saved placeholder car"),
    }
    // Parsing was skipped: no fetch happened and nothing else was tried.
    assert_eq!(env.fetch_count, 0);
    assert_eq!(env.rows.len(), 1);
    assert_eq!(env.kv.len(), 1);
}

#[test]
fn second_invocation_is_already_saved() {
    let mut env = Env::new();
    env.docs.insert(first_candidate(4242), vec![0u8; 5]);
    match run(&mut env, 4242) {
        Outcome::Saved(_) => {}
        _ => panic!("first invocation should save a car"),
    }
    assert_eq!(env.rows.len(), 1);
    match run(&mut env, 4242) {
        Outcome::Failed(ScrapeError::AlreadySaved) => {}
        _ => panic!("second invocation should report AlreadySaved"),
    }
    // No duplicate row and no further fetches.
    assert_eq!(env.rows.len(), 1);
    assert_eq!(env.fetch_count, 0);
}

#[test]
fn rate_limit_aborts_scan_without_writes() {
    let mut env = Env::new();
    env.fetch_mode = FetchMode::Sentinel;
    match run(&mut env, 100000) {
        Outcome::Failed(ScrapeError::RateLimited) => {}
        _ => panic!("expected RateLimited"),
    }
    // Only the first candidate was fetched; the other seven were not
    // tried, and nothing was written to the object store.
    assert_eq!(env.fetch_count, 1);
    assert_eq!(env.doc_writes, 0);
    assert_eq!(env.docs.len(), 0);
    assert_eq!(env.rows.len(), 0);
    assert_eq!(env.kv.len(), 0);
}

#[test]
fn exhausted_scan_reports_not_found() {
    let mut env = Env::new();
    match run(&mut env, 77) {
        Outcome::NotFound => {}
        _ => panic!("expected NotFound"),
    }
    // All eight candidates were fetched once each, softly failing.
    assert_eq!(env.fetch_count, 8);
    assert_eq!(env.rows.len(), 0);
}

#[test]
fn adoption_of_existing_row_keeps_its_id() {
    let mut env = Env::new();
    env.docs.insert(first_candidate(55), vec![0u8; 3]);
    // A concurrent winner already persisted this serial under id 40.
    env.rows.insert(55, 40);
    match run(&mut env, 55) {
        Outcome::Saved(car) => {
            assert_eq!(car.id, Some(CarId(40)));
        }
        _ => panic!("expected adoption of the existing row"),
    }
    assert_eq!(env.rows.len(), 1);
    assert_eq!(env.rows[&55], 40);
}

#[test]
fn store_write_failure_is_fatal() {
    let mut env = Env::new();
    env.fetch_mode = FetchMode::Doc(b"some fetched document bytes".to_vec());
    env.store_fail = true;
    match run(&mut env, 100000) {
        Outcome::Failed(ScrapeError::StorageWriteFailed) => {}
        _ => panic!("expected StorageWriteFailed"),
    }
    assert_eq!(env.fetch_count, 1);
    assert_eq!(env.rows.len(), 0);
}

#[test]
fn unparsable_fetched_documents_advance_the_scan() {
    let mut env = Env::new();
    env.fetch_mode = FetchMode::Doc(b"these bytes are no readable document".to_vec());
    match run(&mut env, 100000) {
        Outcome::NotFound => {}
        _ => panic!("expected NotFound"),
    }
    // Every candidate was fetched, its bytes stored, and the parse
    // failure advanced the scan.
    assert_eq!(env.fetch_count, 8);
    assert_eq!(env.doc_writes, 8);
    assert_eq!(env.docs.len(), 8);
    assert_eq!(env.rows.len(), 0);
}

#[test]
fn failed_insert_with_no_winner_row_is_storage_failure() {
    let mut env = Env::new();
    env.docs.insert(first_candidate(91), vec![0u8; 3]);
    env.insert_fail = true;
    match run(&mut env, 91) {
        Outcome::Failed(ScrapeError::StorageWriteFailed) => {}
        _ => panic!("expected StorageWriteFailed"),
    }
}

#[test]
fn failed_insert_still_adopts_a_concurrent_winner() {
    let mut env = Env::new();
    env.docs.insert(first_candidate(92), vec![0u8; 3]);
    // A concurrent run wins the race between our lookup and our
    // insert: the insert fails on the unique constraint, and the
    // read-back sees the winner's row.
    env.insert_fail = true;
    env.late_row = Some(17);
    match run(&mut env, 92) {
        Outcome::Saved(car) => assert_eq!(car.id, Some(CarId(17))),
        _ => panic!("the losing writer should adopt the winner's row"),
    }
}

#[test]
fn missing_readback_after_insert_is_invariant_violation() {
    let mut env = Env::new();
    env.docs.insert(first_candidate(90), vec![0u8; 3]);
    env.readback_missing = true;
    match run(&mut env, 90) {
        Outcome::Failed(ScrapeError::InvariantViolation) => {}
        _ => panic!("expected InvariantViolation"),
    }
    assert_eq!(env.kv.len(), 0);
}
