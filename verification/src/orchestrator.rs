//! Scrape orchestrator: a per-serial state machine.  It tries the
//! generated candidates in order against the document cache, falls back
//! to the rate-limited external source, parses what it finds, and
//! persists the result idempotently.  Every decision is made here; the
//! caller only performs the returned action on its ports — including
//! handing a found document to its text extractor — and gives the
//! outcome back as the next event.

use vstd::prelude::*;
use crate::candidates::{get_possible_vins_from_serial, spec_candidate_at};
use crate::car::{Car, CarId, CarView, Vin};
use crate::parse::{car_from_text, spec_parse_ok, spec_parsed_car};
use crate::ports::utc_now_string;
use crate::serial::SerialNumber;

verus! {

/// The size below which a stored document is the permanent-failure
/// sentinel: that VIN was probed before and yielded no real document.
pub open spec fn spec_sentinel_size() -> int {
    100
}

/// What the external source answered for one fetch.
pub enum FetchOutcome {
    /// The source returned a payload (possibly the rate-limit sentinel).
    Payload(Vec<u8>),
    /// The fetch itself failed; the scan moves on to the next candidate.
    TransportFailure,
}

/// Why an orchestration ended without a saved record.
#[derive(Debug, Clone, Copy, PartialEq, Eq, Structural)]
pub enum ScrapeError {
    /// The serial already has a persisted car; nothing is retried.
    AlreadySaved,
    /// The source signalled quota exhaustion; the whole scan aborts.
    RateLimited,
    /// A storage write failed; fatal, never retried locally.
    StorageWriteFailed,
    /// Stored state contradicts itself; fatal.
    InvariantViolation,
}

/// How an orchestration ended.
pub enum Outcome {
    /// A record was parsed, persisted and mirrored.
    Saved(Car),
    /// No candidate yielded a document; not an error.
    NotFound,
    Failed(ScrapeError),
}

/// Where the orchestration stands; the index counts candidates already
/// given up on.
pub enum MachineState {
    /// Awaiting the key-value cache answer for the serial.
    CacheCheck,
    /// Awaiting the object store answer for candidate `idx`.
    DocLookup { idx: usize },
    /// Awaiting the external source answer for candidate `idx`.
    Fetching { idx: usize },
    /// Awaiting the object store write of the fetched bytes.
    Storing { idx: usize, bytes: Vec<u8> },
    /// Awaiting the caller's text extractor for candidate `idx`'s
    /// document.
    Extracting { idx: usize },
    /// Awaiting the relational lookup by serial for the parsed record.
    PersistLookup { car: Car },
    /// Awaiting the relational insert.
    Inserting { car: Car },
    /// Awaiting the post-insert lookup that reads the assigned id back.
    ReadBack { car: Car, insert_ok: bool },
    /// Awaiting the key-value mirror write.
    Mirroring { car: Car, sql_id: CarId },
    /// Finished; the outcome went out with the final action.
    Done,
}

/// What a port answered; each variant answers the action of the state
/// with the matching name.
pub enum Event {
    CacheResult { present: bool },
    DocResult { doc: Option<Vec<u8>> },
    FetchResult { fetch: FetchOutcome },
    StoreResult { ok: bool },
    TextResult { text: Option<String> },
    LookupResult { id: Option<CarId> },
    InsertResult { ok: bool },
    ReadBackResult { id: Option<CarId> },
    MirrorResult { ok: bool },
}

/// What the caller must do next on its ports.
pub enum Action {
    /// Ask the key-value cache whether the serial has a car.
    GetCachedCar { serial: SerialNumber },
    /// Ask the object store for the document of this VIN.
    GetDocument { vin: String },
    /// Ask the external source for the document of this VIN.
    FetchDocument { vin: String },
    /// Write the fetched document to the object store.
    PutDocument { vin: String, bytes: Vec<u8> },
    /// Hand the document to the text extractor; the answer carries the
    /// extracted text, or nothing where extraction fails.
    ExtractText { bytes: Vec<u8> },
    /// Ask the relational store for the id persisted under the serial.
    GetCarIdBySerial { serial: SerialNumber },
    /// Insert the record into the relational store.
    InsertCar { car: Car },
    /// Read back, by serial, the id the insert produced (or the row a
    /// concurrent winner created).
    ReadBackCarId { serial: SerialNumber },
    /// Mirror the persisted record into the key-value cache.
    PutCachedCar { car: Car },
    /// Stop: the orchestration ended with this outcome.
    Finish { outcome: Outcome },
}

/// The rate-limit sentinel payload of the external source, as bytes.
pub open spec fn spec_rate_limit_sentinel() -> Seq<u8> {
    Seq::new("SAP API limits exceeded"@.len(), |i: int| "SAP API limits exceeded"@[i] as u8)
}

/// Whether a payload is the rate-limit sentinel.
pub fn is_rate_limit_payload(bytes: &Vec<u8>) -> (r: bool)
    ensures
        r == (bytes@ == spec_rate_limit_sentinel()),
{
    let pat = "SAP API limits exceeded";
    proof {
        reveal_strlit("SAP API limits exceeded");
    }
    let m = pat.unicode_len();
    if bytes.len() != m {
        proof {
            assert(bytes@.len() != spec_rate_limit_sentinel().len());
        }
        return false;
    }
    let mut i: usize = 0;
    while i < m
        invariant
            0 <= i <= m,
            m == pat@.len(),
            pat@ == "SAP API limits exceeded"@,
            bytes@.len() == m,
            forall|j: int| 0 <= j < i ==> bytes@[j] == spec_rate_limit_sentinel()[j],
        decreases m - i,
    {
        proof {
            reveal_strlit("SAP API limits exceeded");
        }
        let c = pat.get_char(i);
        if bytes[i] != (c as u8) {
            proof {
                assert(spec_rate_limit_sentinel()[i as int] == pat@[i as int] as u8);
                assert(bytes@[i as int] != spec_rate_limit_sentinel()[i as int]);
            }
            return false;
        }
        proof {
            assert(spec_rate_limit_sentinel()[i as int] == pat@[i as int] as u8);
        }
        i = i + 1;
    }
    proof {
        assert(bytes@ =~= spec_rate_limit_sentinel());
    }
    true
}

/// The orchestration for one serial number.
pub struct Orchestrator {
    pub serial: SerialNumber,
    pub candidates: Vec<String>,
    pub created_date: String,
    pub state: MachineState,
}

impl Orchestrator {
    /// The machine's invariant: the serial fits six digits, the
    /// candidate list is the generated one, and every candidate index
    /// in the state is in range.
    pub open spec fn wf(&self) -> bool {
        &&& 0 <= self.serial.0 <= 999999
        &&& self.candidates@.len() == 8
        &&& forall|i: int|
            0 <= i < 8 ==> (#[trigger] self.candidates@[i])@ == spec_candidate_at(
                self.serial.0 as int,
                i,
            )
        &&& match self.state {
            MachineState::DocLookup { idx } => idx < 8,
            MachineState::Fetching { idx } => idx < 8,
            MachineState::Storing { idx, .. } => idx < 8,
            MachineState::Extracting { idx } => idx < 8,
            _ => true,
        }
    }

    /// Which events answer the pending action of each state.  `Done`
    /// accepts none: a finished orchestration issues no further action,
    /// so nothing more is fetched, parsed or written.
    pub open spec fn spec_accepts(state: MachineState, ev: Event) -> bool {
        match (state, ev) {
            (MachineState::CacheCheck, Event::CacheResult { .. }) => true,
            (MachineState::DocLookup { .. }, Event::DocResult { .. }) => true,
            (MachineState::Fetching { .. }, Event::FetchResult { .. }) => true,
            (MachineState::Storing { .. }, Event::StoreResult { .. }) => true,
            (MachineState::Extracting { .. }, Event::TextResult { .. }) => true,
            (MachineState::PersistLookup { .. }, Event::LookupResult { .. }) => true,
            (MachineState::Inserting { .. }, Event::InsertResult { .. }) => true,
            (MachineState::ReadBack { .. }, Event::ReadBackResult { .. }) => true,
            (MachineState::Mirroring { .. }, Event::MirrorResult { .. }) => true,
            _ => false,
        }
    }
}

/// The candidate scan gives up on candidate `idx`: the next candidate
/// is looked up, or the scan ends in `NotFound` after the last one.
pub open spec fn spec_advance(pre: Orchestrator, post: Orchestrator, act: Action, idx: int) -> bool {
    if idx + 1 < 8 {
        &&& post.state matches MachineState::DocLookup { idx: i2 } && i2 == idx + 1
        &&& act matches Action::GetDocument { vin } && vin@ == spec_candidate_at(
            pre.serial.0 as int,
            idx + 1,
        )
    } else {
        &&& post.state is Done
        &&& act matches Action::Finish { outcome: Outcome::NotFound }
    }
}

/// A parsed record enters persistence carrying the relational id: the
/// mirror write is issued only with the id the store just returned.
pub open spec fn spec_enter_mirror(cv: CarView, cid: CarId, post: Orchestrator, act: Action) -> bool {
    let cv2 = CarView { id: Some(cid.0 as int), ..cv };
    &&& post.state matches MachineState::Mirroring { car, sql_id } && car@ == cv2 && sql_id == cid
    &&& act matches Action::PutCachedCar { car: c2 } && c2@ == cv2
}

/// The transition table of the orchestrator, exactly as `step` walks
/// it.  The serial, the candidate list and the creation timestamp never
/// change; the state and the action are pinned per state/event pair.
pub open spec fn spec_step_rel(pre: Orchestrator, ev: Event, post: Orchestrator, act: Action) -> bool {
    &&& post.serial == pre.serial
    &&& post.candidates == pre.candidates
    &&& post.created_date == pre.created_date
    &&& match (pre.state, ev) {
        (MachineState::CacheCheck, Event::CacheResult { present }) => {
            if present {
                &&& post.state is Done
                &&& act matches Action::Finish {
                    outcome: Outcome::Failed(ScrapeError::AlreadySaved),
                }
            } else {
                &&& post.state matches MachineState::DocLookup { idx } && idx == 0
                &&& act matches Action::GetDocument { vin } && vin@ == spec_candidate_at(
                    pre.serial.0 as int,
                    0,
                )
            }
        },
        (MachineState::DocLookup { idx }, Event::DocResult { doc }) => match doc {
            None => {
                &&& post.state matches MachineState::Fetching { idx: i2 } && i2 == idx
                &&& act matches Action::FetchDocument { vin } && vin@ == spec_candidate_at(
                    pre.serial.0 as int,
                    idx as int,
                )
            },
            Some(bytes) => {
                if bytes@.len() < spec_sentinel_size() {
                    &&& post.state matches MachineState::PersistLookup { car } && car@
                        == crate::car::spec_broken_car(
                        spec_candidate_at(pre.serial.0 as int, idx as int),
                        pre.serial.0 as int,
                        pre.created_date@,
                    )
                    &&& act matches Action::GetCarIdBySerial { serial } && serial == pre.serial
                } else {
                    &&& post.state matches MachineState::Extracting { idx: i2 } && i2 == idx
                    &&& act matches Action::ExtractText { bytes: b2 } && b2@ == bytes@
                }
            },
        },
        (MachineState::Fetching { idx }, Event::FetchResult { fetch }) => match fetch {
            FetchOutcome::Payload(bytes) => {
                if bytes@ == spec_rate_limit_sentinel() {
                    &&& post.state is Done
                    &&& act matches Action::Finish {
                        outcome: Outcome::Failed(ScrapeError::RateLimited),
                    }
                } else {
                    &&& post.state matches MachineState::Storing { idx: i2, bytes: b2 } && i2
                        == idx && b2@ == bytes@
                    &&& act matches Action::PutDocument { vin, bytes: b3 } && vin@
                        == spec_candidate_at(pre.serial.0 as int, idx as int) && b3@ == bytes@
                }
            },
            FetchOutcome::TransportFailure => spec_advance(pre, post, act, idx as int),
        },
        (MachineState::Storing { idx, bytes }, Event::StoreResult { ok }) => {
            if !ok {
                &&& post.state is Done
                &&& act matches Action::Finish {
                    outcome: Outcome::Failed(ScrapeError::StorageWriteFailed),
                }
            } else {
                &&& post.state matches MachineState::Extracting { idx: i2 } && i2 == idx
                &&& act matches Action::ExtractText { bytes: b2 } && b2@ == bytes@
            }
        },
        (MachineState::Extracting { idx }, Event::TextResult { text }) => match text {
            None => spec_advance(pre, post, act, idx as int),
            Some(t) => {
                if spec_parse_ok(t@) {
                    &&& post.state matches MachineState::PersistLookup { car } && car@
                        == spec_parsed_car(t@, pre.created_date@)
                    &&& act matches Action::GetCarIdBySerial { serial } && serial == pre.serial
                } else {
                    spec_advance(pre, post, act, idx as int)
                }
            },
        },
        (MachineState::PersistLookup { car }, Event::LookupResult { id }) => match id {
            Some(cid) => spec_enter_mirror(car@, cid, post, act),
            None => {
                &&& post.state matches MachineState::Inserting { car: c2 } && c2@ == car@
                &&& act matches Action::InsertCar { car: c3 } && c3@ == car@
            },
        },
        (MachineState::Inserting { car }, Event::InsertResult { ok }) => {
            &&& post.state matches MachineState::ReadBack { car: c2, insert_ok } && c2@ == car@
                && insert_ok == ok
            &&& act matches Action::ReadBackCarId { serial } && serial == pre.serial
        },
        (MachineState::ReadBack { car, insert_ok }, Event::ReadBackResult { id }) => match id {
            Some(cid) => spec_enter_mirror(car@, cid, post, act),
            None => {
                &&& post.state is Done
                &&& act matches Action::Finish { outcome: Outcome::Failed(e) } && e == (
                if insert_ok {
                    ScrapeError::InvariantViolation
                } else {
                    ScrapeError::StorageWriteFailed
                })
            },
        },
        (MachineState::Mirroring { car, sql_id: _ }, Event::MirrorResult { ok }) => {
            if ok {
                &&& post.state is Done
                &&& act matches Action::Finish { outcome: Outcome::Saved(c) } && c@ == car@
            } else {
                &&& post.state is Done
                &&& act matches Action::Finish {
                    outcome: Outcome::Failed(ScrapeError::StorageWriteFailed),
                }
            }
        },
        _ => false,
    }
}

impl Orchestrator {
    /// Starts an orchestration: the candidate list is generated once,
    /// the record timestamp is taken once, and the first action asks
    /// the key-value cache whether the serial is already saved.
    pub fn start(serial: SerialNumber) -> (r: (Orchestrator, Action))
        requires
            0 <= serial.0 <= 999999,
        ensures
            r.0.wf(),
            r.0.serial == serial,
            r.0.state is CacheCheck,
            r.1 matches Action::GetCachedCar { serial: s } && s == serial,
    {
        let candidates = get_possible_vins_from_serial(&serial);
        let created_date = utc_now_string();
        let m = Orchestrator { serial, candidates, created_date, state: MachineState::CacheCheck };
        (m, Action::GetCachedCar { serial })
    }

    /// Whether this event answers the machine's pending action; a
    /// caller can test it before `step`.
    pub fn accepts(&self, event: &Event) -> (r: bool)
        ensures
            r == Orchestrator::spec_accepts(self.state, *event),
    {
        match (&self.state, event) {
            (MachineState::CacheCheck, Event::CacheResult { .. }) => true,
            (MachineState::DocLookup { .. }, Event::DocResult { .. }) => true,
            (MachineState::Fetching { .. }, Event::FetchResult { .. }) => true,
            (MachineState::Storing { .. }, Event::StoreResult { .. }) => true,
            (MachineState::Extracting { .. }, Event::TextResult { .. }) => true,
            (MachineState::PersistLookup { .. }, Event::LookupResult { .. }) => true,
            (MachineState::Inserting { .. }, Event::InsertResult { .. }) => true,
            (MachineState::ReadBack { .. }, Event::ReadBackResult { .. }) => true,
            (MachineState::Mirroring { .. }, Event::MirrorResult { .. }) => true,
            _ => false,
        }
    }

    /// One transition: consumes the machine and the event answering its
    /// pending action, and returns the next machine and the next action.
    pub fn step(self, event: Event) -> (r: (Orchestrator, Action))
        requires
            self.wf(),
            Orchestrator::spec_accepts(self.state, event),
        ensures
            r.0.wf(),
            spec_step_rel(self, event, r.0, r.1),
    {
        let Orchestrator { serial, candidates, created_date, state } = self;
        match (state, event) {
            (MachineState::CacheCheck, Event::CacheResult { present }) => {
                if present {
                    let m = Orchestrator {
                        serial,
                        candidates,
                        created_date,
                        state: MachineState::Done,
                    };
                    (
                        m,
                        Action::Finish {
                            outcome: Outcome::Failed(ScrapeError::AlreadySaved),
                        },
                    )
                } else {
                    let vin = candidates[0].clone();
                    let m = Orchestrator {
                        serial,
                        candidates,
                        created_date,
                        state: MachineState::DocLookup { idx: 0 },
                    };
                    (m, Action::GetDocument { vin })
                }
            },
            (MachineState::DocLookup { idx }, Event::DocResult { doc }) => match doc {
                None => {
                    let vin = candidates[idx].clone();
                    let m = Orchestrator {
                        serial,
                        candidates,
                        created_date,
                        state: MachineState::Fetching { idx },
                    };
                    (m, Action::FetchDocument { vin })
                },
                Some(bytes) => {
                    if bytes.len() < 100 {
                        let vin = Vin(candidates[idx].clone());
                        let car = Car::broken(vin, serial, created_date.clone());
                        let m = Orchestrator {
                            serial,
                            candidates,
                            created_date,
                            state: MachineState::PersistLookup { car },
                        };
                        (m, Action::GetCarIdBySerial { serial })
                    } else {
                        let m = Orchestrator {
                            serial,
                            candidates,
                            created_date,
                            state: MachineState::Extracting { idx },
                        };
                        (m, Action::ExtractText { bytes })
                    }
                },
            },
            (MachineState::Fetching { idx }, Event::FetchResult { fetch }) => match fetch {
                FetchOutcome::Payload(bytes) => {
                    if is_rate_limit_payload(&bytes) {
                        let m = Orchestrator {
                            serial,
                            candidates,
                            created_date,
                            state: MachineState::Done,
                        };
                        (
                            m,
                            Action::Finish {
                                outcome: Outcome::Failed(ScrapeError::RateLimited),
                            },
                        )
                    } else {
                        let vin = candidates[idx].clone();
                        let copy = vstd::slice::slice_to_vec(bytes.as_slice());
                        let m = Orchestrator {
                            serial,
                            candidates,
                            created_date,
                            state: MachineState::Storing { idx, bytes: copy },
                        };
                        (m, Action::PutDocument { vin, bytes })
                    }
                },
                FetchOutcome::TransportFailure => advance(serial, candidates, created_date, idx),
            },
            (MachineState::Storing { idx, bytes }, Event::StoreResult { ok }) => {
                if !ok {
                    let m = Orchestrator {
                        serial,
                        candidates,
                        created_date,
                        state: MachineState::Done,
                    };
                    (
                        m,
                        Action::Finish {
                            outcome: Outcome::Failed(ScrapeError::StorageWriteFailed),
                        },
                    )
                } else {
                    let m = Orchestrator {
                        serial,
                        candidates,
                        created_date,
                        state: MachineState::Extracting { idx },
                    };
                    (m, Action::ExtractText { bytes })
                }
            },
            (MachineState::Extracting { idx }, Event::TextResult { text }) => match text {
                None => advance(serial, candidates, created_date, idx),
                Some(t) => match car_from_text(t.as_str(), created_date.clone()) {
                    Some(car) => {
                        let m = Orchestrator {
                            serial,
                            candidates,
                            created_date,
                            state: MachineState::PersistLookup { car },
                        };
                        (m, Action::GetCarIdBySerial { serial })
                    },
                    None => advance(serial, candidates, created_date, idx),
                },
            },
            (MachineState::PersistLookup { car }, Event::LookupResult { id }) => match id {
                Some(cid) => enter_mirror(serial, candidates, created_date, car, cid),
                None => {
                    let copy = car.duplicate();
                    let m = Orchestrator {
                        serial,
                        candidates,
                        created_date,
                        state: MachineState::Inserting { car },
                    };
                    (m, Action::InsertCar { car: copy })
                },
            },
            (MachineState::Inserting { car }, Event::InsertResult { ok }) => {
                let m = Orchestrator {
                    serial,
                    candidates,
                    created_date,
                    state: MachineState::ReadBack { car, insert_ok: ok },
                };
                (m, Action::ReadBackCarId { serial })
            },
            (MachineState::ReadBack { car, insert_ok }, Event::ReadBackResult { id }) => match id {
                Some(cid) => enter_mirror(serial, candidates, created_date, car, cid),
                None => {
                    let m = Orchestrator {
                        serial,
                        candidates,
                        created_date,
                        state: MachineState::Done,
                    };
                    let e = if insert_ok {
                        ScrapeError::InvariantViolation
                    } else {
                        ScrapeError::StorageWriteFailed
                    };
                    (m, Action::Finish { outcome: Outcome::Failed(e) })
                },
            },
            (MachineState::Mirroring { car, sql_id: _ }, Event::MirrorResult { ok }) => {
                let m = Orchestrator {
                    serial,
                    candidates,
                    created_date,
                    state: MachineState::Done,
                };
                if ok {
                    (m, Action::Finish { outcome: Outcome::Saved(car) })
                } else {
                    (
                        m,
                        Action::Finish {
                            outcome: Outcome::Failed(ScrapeError::StorageWriteFailed),
                        },
                    )
                }
            },
            _ => {
                proof {
                    assert(false);
                }
                let m = Orchestrator {
                    serial,
                    candidates,
                    created_date,
                    state: MachineState::Done,
                };
                (m, Action::Finish { outcome: Outcome::NotFound })
            },
        }
    }
}

/// A serial that already has a cached car ends the orchestration at
/// once with `AlreadySaved`: no candidate is tried, nothing is fetched,
/// and nothing is written, so a second invocation for a persisted
/// serial creates no duplicate row.
pub proof fn lemma_already_saved(pre: Orchestrator, ev: Event, post: Orchestrator, act: Action)
    requires
        pre.state is CacheCheck,
        ev == (Event::CacheResult { present: true }),
        spec_step_rel(pre, ev, post, act),
    ensures
        post.state is Done,
        act matches Action::Finish { outcome: Outcome::Failed(ScrapeError::AlreadySaved) },
        forall|ev2: Event| !Orchestrator::spec_accepts(post.state, ev2),
{
}

/// The rate-limit sentinel aborts the whole orchestration: whichever
/// candidate's fetch returned it, the machine finishes with
/// `RateLimited`, the final action is no store write, and the finished
/// machine accepts no further event, so no remaining candidate is
/// tried and nothing is written for this VIN.
pub proof fn lemma_rate_limit_aborts(
    pre: Orchestrator,
    ev: Event,
    post: Orchestrator,
    act: Action,
    bytes: Vec<u8>,
)
    requires
        pre.state is Fetching,
        ev == (Event::FetchResult { fetch: FetchOutcome::Payload(bytes) }),
        bytes@ == spec_rate_limit_sentinel(),
        spec_step_rel(pre, ev, post, act),
    ensures
        post.state is Done,
        act matches Action::Finish { outcome: Outcome::Failed(ScrapeError::RateLimited) },
        forall|ev2: Event| !Orchestrator::spec_accepts(post.state, ev2),
{
}

/// A stored document below the sentinel size yields the placeholder
/// record for that candidate and skips parsing entirely: the machine
/// proceeds straight to persistence with the synthesized car, whatever
/// the bytes hold.
pub proof fn lemma_broken_document(
    pre: Orchestrator,
    ev: Event,
    post: Orchestrator,
    act: Action,
    idx: usize,
    bytes: Vec<u8>,
)
    requires
        pre.state == (MachineState::DocLookup { idx }),
        ev == (Event::DocResult { doc: Some(bytes) }),
        bytes@.len() < spec_sentinel_size(),
        spec_step_rel(pre, ev, post, act),
    ensures
        post.state matches MachineState::PersistLookup { car } && car@
            == crate::car::spec_broken_car(
            spec_candidate_at(pre.serial.0 as int, idx as int),
            pre.serial.0 as int,
            pre.created_date@,
        ),
        act matches Action::GetCarIdBySerial { serial } && serial == pre.serial,
{
}

/// Gives up on candidate `idx`: looks the next one up, or ends the scan
/// in `NotFound` after the last.
fn advance(serial: SerialNumber, candidates: Vec<String>, created_date: String, idx: usize) -> (r: (
    Orchestrator,
    Action,
))
    requires
        0 <= serial.0 <= 999999,
        candidates@.len() == 8,
        forall|i: int|
            0 <= i < 8 ==> (#[trigger] candidates@[i])@ == spec_candidate_at(serial.0 as int, i),
        idx < 8,
    ensures
        r.0.wf(),
        r.0.serial == serial,
        r.0.candidates == candidates,
        r.0.created_date == created_date,
        spec_advance(r.0, r.0, r.1, idx as int),
{
    if idx + 1 < 8 {
        let vin = candidates[idx + 1].clone();
        let m = Orchestrator {
            serial,
            candidates,
            created_date,
            state: MachineState::DocLookup { idx: idx + 1 },
        };
        (m, Action::GetDocument { vin })
    } else {
        let m = Orchestrator { serial, candidates, created_date, state: MachineState::Done };
        (m, Action::Finish { outcome: Outcome::NotFound })
    }
}

/// Stamps the relational id into the record and issues the mirror
/// write; the id check guards the key-value cache against a record
/// whose id is not the one the store returned.
fn enter_mirror(
    serial: SerialNumber,
    candidates: Vec<String>,
    created_date: String,
    car: Car,
    cid: CarId,
) -> (r: (Orchestrator, Action))
    requires
        0 <= serial.0 <= 999999,
        candidates@.len() == 8,
        forall|i: int|
            0 <= i < 8 ==> (#[trigger] candidates@[i])@ == spec_candidate_at(serial.0 as int, i),
    ensures
        r.0.wf(),
        r.0.serial == serial,
        r.0.candidates == candidates,
        r.0.created_date == created_date,
        spec_enter_mirror(car@, cid, r.0, r.1),
{
    let mut car = car;
    car.set_id(cid);
    if car.id_matches(cid) {
        let copy = car.duplicate();
        let m = Orchestrator {
            serial,
            candidates,
            created_date,
            state: MachineState::Mirroring { car, sql_id: cid },
        };
        (m, Action::PutCachedCar { car: copy })
    } else {
        // Unreachable: the id was just set to the store's answer.
        proof {
            assert(false);
        }
        let m = Orchestrator { serial, candidates, created_date, state: MachineState::Done };
        (
            m,
            Action::Finish { outcome: Outcome::Failed(ScrapeError::InvariantViolation) },
        )
    }
}

} // verus!
