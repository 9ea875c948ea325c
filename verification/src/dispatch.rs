//! Request dispatch: one coordinator instruction becomes a change of the
//! store and exactly one of two outcomes.
//!
//! An *advance* instruction registers a device or submits a reading, which
//! is authenticated, encrypted under a freshly allocated counter and stored.
//! An *inspect* instruction reads the latest reading of a device back and
//! never changes the store. Each transition is a function of the store and
//! the instruction, written down as a specification function; the handlers
//! are proved to compute it.

use crate::clock::current_timestamp;
use crate::codec;
use crate::codec::spec_hex_decode;
use crate::database::{Database, SensorRecord, Store};
use crate::device_auth::{signature_verdict, verify_device_signature};
use crate::encryption::{
    context_bytes, dual_accepts, dual_open, dual_seal, key_fingerprint, sha256, stage1_key,
    stage2_key, DualCipher, Stage1Encryption, Stage2Encryption, ENCRYPTION_CONTEXT,
};
use crate::text::{
    has_prefix, lemma_utf8_after_ascii, str_eq, strip_prefix, trim_hex_marker, trim_hex_prefix,
};
use vstd::prelude::*;
use vstd::string::StringSliceAdditionalSpecFns;
use vstd::utf8::{encode_utf8, encode_utf8_decode_utf8, valid_utf8};

verus! {

/// Outcome reported back to the coordinator for one instruction.
#[derive(Clone, Copy, Debug, PartialEq, Eq, Structural)]
pub enum Status {
    Accept,
    Reject,
}

/// The kinds of instruction the coordinator sends.
#[derive(Clone, Copy, Debug, PartialEq, Eq, Structural)]
pub enum RequestKind {
    Advance,
    Inspect,
    Unknown,
}

/// The actions an advance instruction can name.
#[derive(Clone, Copy, Debug, PartialEq, Eq, Structural)]
pub enum ActionKind {
    Register,
    Submit,
    Unknown,
}

/// What to do with a submission that cannot be authenticated because the
/// device has no key on record or sent no signature.
#[derive(Clone, Copy, Debug, PartialEq, Eq, Structural)]
pub enum AuthPolicy {
    /// Reject it.
    Enforced,
    /// Take it unverified.
    AllowUnauthenticatedIfUnregistered,
}

/// Payload of a `register` action.
#[derive(Clone, Debug)]
pub struct RegisterPayload {
    pub device_id: String,
    pub did_document: String,
    pub public_key: String,
}

/// Payload of a `submit` action: the reading as hexadecimal text and the
/// signature envelope, which may be empty.
#[derive(Clone, Debug)]
pub struct DataPayload {
    pub device_id: String,
    pub jws: String,
    pub data: String,
}

/// A decoded advance instruction.
#[derive(Clone, Debug)]
pub enum Action {
    Register(RegisterPayload),
    Submit(DataPayload),
    /// An action this node does not know, with its name.
    Unknown(String),
}

/// A decoded coordinator instruction.
#[derive(Clone, Debug)]
pub enum Request {
    Advance(Action),
    /// An inspect instruction with its payload as received: hexadecimal
    /// text, optionally prefixed.
    Inspect(String),
    /// An instruction whose envelope could not be decoded.
    Malformed,
    /// An instruction of a type this node does not know, with its name.
    Unknown(String),
}

/// A reading recovered by an inspect instruction.
#[derive(Clone, Debug)]
pub struct DecryptedSensorData {
    pub id: i32,
    pub device_id: String,
    pub decrypted_payload: String,
    pub timestamp: String,
}

/// A recovered reading as a mathematical value.
pub struct Notice {
    pub id: int,
    pub device_id: Seq<char>,
    pub decrypted_payload: Seq<char>,
    pub timestamp: Seq<char>,
}

impl View for DecryptedSensorData {
    type V = Notice;

    open spec fn view(&self) -> Notice {
        Notice {
            id: self.id as int,
            device_id: self.device_id@,
            decrypted_payload: self.decrypted_payload@,
            timestamp: self.timestamp@,
        }
    }
}

/// What one instruction came to: the status for the coordinator and, for an
/// inspect instruction that found a reading, the reading.
#[derive(Clone, Debug)]
pub struct Outcome {
    pub status: Status,
    pub notice: Option<DecryptedSensorData>,
}

impl Outcome {
    /// The recovered reading as a mathematical value, if there is one.
    pub open spec fn notice_view(&self) -> Option<Notice> {
        match self.notice {
            Some(data) => Some(data@),
            None => None,
        }
    }
}

impl Status {
    /// The word the coordinator expects for this outcome.
    pub fn as_str(&self) -> (word: &'static str)
        ensures
            word@ == (match *self {
                Status::Accept => "accept"@,
                Status::Reject => "reject"@,
            }),
    {
        match self {
            Status::Accept => "accept",
            Status::Reject => "reject",
        }
    }
}

/// The kind of instruction a request type names.
pub open spec fn request_kind(request_type: Seq<char>) -> RequestKind {
    if request_type == "advance_state"@ {
        RequestKind::Advance
    } else if request_type == "inspect_state"@ {
        RequestKind::Inspect
    } else {
        RequestKind::Unknown
    }
}

/// The action an action name stands for.
pub open spec fn action_kind(action: Seq<char>) -> ActionKind {
    if action == "register"@ {
        ActionKind::Register
    } else if action == "submit"@ {
        ActionKind::Submit
    } else {
        ActionKind::Unknown
    }
}

/// Tells the kinds of instruction apart by the request type.
pub fn classify_request(request_type: &str) -> (kind: RequestKind)
    ensures
        kind == request_kind(request_type@),
{
    if str_eq(request_type, "advance_state") {
        RequestKind::Advance
    } else if str_eq(request_type, "inspect_state") {
        RequestKind::Inspect
    } else {
        RequestKind::Unknown
    }
}

/// Tells the actions apart by name.
pub fn classify_action(action: &str) -> (kind: ActionKind)
    ensures
        kind == action_kind(action@),
{
    if str_eq(action, "register") {
        ActionKind::Register
    } else if str_eq(action, "submit") {
        ActionKind::Submit
    } else {
        ActionKind::Unknown
    }
}

/// The bytes an instruction payload carries: hexadecimal text after any
/// number of leading `0x`.
pub open spec fn payload_bytes(payload: Seq<u8>) -> Option<Seq<u8>> {
    spec_hex_decode(trim_hex_marker(payload))
}

/// Decodes the payload of an instruction.
pub fn decode_payload(payload: &str) -> (res: Result<Vec<u8>, crate::error::LCoreError>)
    ensures
        match res {
            Ok(bytes) => payload_bytes(payload.spec_bytes()) == Some(bytes@),
            Err(e) => payload_bytes(payload.spec_bytes()) is None && e
                == crate::error::LCoreError::HexDecode,
        },
{
    codec::decode_hex(trim_hex_prefix(payload.as_bytes()))
}

/// Document recorded for a device that was never registered but submits.
pub open spec fn placeholder_document() -> Seq<char> {
    "{\"doc\":\"placeholder\"}"@
}

/// Key recorded for a device that was never registered but submits.
pub open spec fn placeholder_key() -> Seq<char> {
    "{\"key\":\"placeholder\"}"@
}

/// Whether a submission may go on to be stored. With a key on record and a
/// signature present the signature decides, whatever the policy; otherwise
/// there is nothing to verify and the policy decides.
pub open spec fn submit_authorized(
    store: Store,
    policy: AuthPolicy,
    device_id: Seq<char>,
    jws: Seq<char>,
    data: Seq<u8>,
) -> bool {
    if store.devices.contains_key(device_id) && jws.len() > 0 {
        signature_verdict(
            encode_utf8(jws),
            data,
            encode_utf8(store.devices[device_id].public_key),
        ) is Ok
    } else {
        policy == AuthPolicy::AllowUnauthenticatedIfUnregistered
    }
}

/// Hexadecimal digest of a key, as stored with each record.
pub open spec fn fingerprint(key: Seq<u8>) -> Seq<char> {
    codec::spec_hex_encode(sha256(key))
}

/// The two-stage encryption of a reading as message `counter` of a device;
/// `None` for a reading too long to encrypt.
pub open spec fn sealed_reading(device_id: Seq<char>, counter: u64, data: Seq<u8>) -> Option<
    Seq<u8>,
> {
    if dual_accepts(data.len()) {
        dual_seal(encode_utf8(device_id), counter, data)
    } else {
        None
    }
}

/// The transition of a `submit` action.
///
/// The reading must be hexadecimal and the submission authorized, else the
/// store is left as it is. Then the next counter is allocated, once; a
/// submission that fails after that point leaves the counter spent, never to
/// be handed out again. The reading is encrypted under that counter, the
/// device is registered with placeholders unless it is registered already,
/// and the record is appended.
pub open spec fn submit_outcome(
    store: Store,
    payload: DataPayload,
    timestamp: Seq<char>,
    policy: AuthPolicy,
) -> (Status, Store) {
    let device_id = payload.device_id@;
    match spec_hex_decode(encode_utf8(payload.data@)) {
        None => (Status::Reject, store),
        Some(data) => if !submit_authorized(store, policy, device_id, payload.jws@, data) {
            (Status::Reject, store)
        } else if store.counter(device_id) == u64::MAX {
            (Status::Reject, store)
        } else {
            let counter = (store.counter(device_id) + 1) as u64;
            let allocated = store.allocate(device_id);
            match sealed_reading(device_id, counter, data) {
                None => (Status::Reject, allocated),
                Some(sealed) => {
                    let registered = allocated.register(
                        device_id,
                        placeholder_document(),
                        placeholder_key(),
                    );
                    if registered.sensor_data.len() >= i32::MAX {
                        (Status::Reject, registered)
                    } else {
                        (
                            Status::Accept,
                            registered.append(
                                device_id,
                                sealed,
                                fingerprint(stage1_key(encode_utf8(device_id))),
                                fingerprint(stage2_key(context_bytes())),
                                counter,
                                timestamp,
                            ),
                        )
                    }
                },
            }
        },
    }
}

/// When a submission is accepted: the reading is hexadecimal, the
/// submission is authorized, the device's counter is not exhausted, the
/// reading is short enough to encrypt, and the record table has room.
pub open spec fn submit_accepted(store: Store, payload: DataPayload, policy: AuthPolicy) -> bool {
    &&& spec_hex_decode(encode_utf8(payload.data@)) matches Some(data)
    &&& submit_authorized(store, policy, payload.device_id@, payload.jws@, data)
    &&& store.counter(payload.device_id@) < u64::MAX
    &&& dual_accepts(data.len())
    &&& store.sensor_data.len() < i32::MAX
}

/// When an advance instruction is accepted: a registration always, a
/// submission under [`submit_accepted`], an unknown action never.
pub open spec fn advance_accepted(store: Store, action: Action, policy: AuthPolicy) -> bool {
    match action {
        Action::Register(_) => true,
        Action::Submit(payload) => submit_accepted(store, payload, policy),
        Action::Unknown(_) => false,
    }
}

/// The transition of an advance instruction: the status and the store it
/// leaves.
pub open spec fn advance_outcome(
    store: Store,
    action: Action,
    timestamp: Seq<char>,
    policy: AuthPolicy,
) -> (Status, Store) {
    match action {
        Action::Register(payload) => (
            Status::Accept,
            store.register(payload.device_id@, payload.did_document@, payload.public_key@),
        ),
        Action::Submit(payload) => submit_outcome(store, payload, timestamp, policy),
        Action::Unknown(_) => (Status::Reject, store),
    }
}

/// Handles a `submit` action at the given time.
fn handle_submit(db: &mut Database, payload: &DataPayload, timestamp: &str, policy: AuthPolicy) -> (status:
    Status)
    requires
        old(db).wf(),
    ensures
        final(db).wf(),
        (status, final(db)@) == submit_outcome(old(db)@, *payload, timestamp@, policy),
        (status == Status::Accept) == submit_accepted(old(db)@, *payload, policy),
{
    let device_id = payload.device_id.as_str();
    let data = match codec::decode_hex(payload.data.as_str().as_bytes()) {
        Ok(data) => data,
        Err(_) => {
            return Status::Reject;
        },
    };
    let authorized = match db.get_device_public_key(device_id) {
        Ok(Some(key)) => {
            if payload.jws.as_str().is_empty() {
                policy == AuthPolicy::AllowUnauthenticatedIfUnregistered
            } else {
                verify_device_signature(payload.jws.as_str(), data.as_slice(), key.as_str()).is_ok()
            }
        },
        _ => policy == AuthPolicy::AllowUnauthenticatedIfUnregistered,
    };
    if !authorized {
        return Status::Reject;
    }
    let counter = match db.next_message_counter(device_id) {
        Ok(counter) => counter,
        Err(_) => {
            return Status::Reject;
        },
    };
    let sealed = match DualCipher::encrypt(device_id, counter, data.as_slice()) {
        Ok(sealed) => sealed,
        Err(_) => {
            return Status::Reject;
        },
    };
    let _ = db.insert_device(device_id, "{\"doc\":\"placeholder\"}", "{\"key\":\"placeholder\"}");
    let key1 = match Stage1Encryption::derive_key_from_did(device_id) {
        Ok(key) => key,
        Err(_) => {
            return Status::Reject;
        },
    };
    let key2 = match Stage2Encryption::derive_key_from_context(ENCRYPTION_CONTEXT) {
        Ok(key) => key,
        Err(_) => {
            return Status::Reject;
        },
    };
    let key1_hash = key_fingerprint(&key1);
    let key2_hash = key_fingerprint(&key2);
    match db.insert_sensor_data(
        device_id,
        sealed.as_slice(),
        key1_hash.as_str(),
        key2_hash.as_str(),
        counter,
        timestamp,
    ) {
        Ok(_) => Status::Accept,
        Err(_) => Status::Reject,
    }
}

/// Handles an advance instruction at the given time: the store and the
/// status are those of [`advance_outcome`].
pub fn handle_advance_at(db: &mut Database, action: &Action, timestamp: &str, policy: AuthPolicy) -> (status:
    Status)
    requires
        old(db).wf(),
    ensures
        final(db).wf(),
        (status, final(db)@) == advance_outcome(old(db)@, *action, timestamp@, policy),
        (status == Status::Accept) == advance_accepted(old(db)@, *action, policy),
        old(db)@.counters_used_once() ==> final(db)@.counters_used_once(),
        final(db)@.extends(old(db)@),
{
    proof {
        if old(db)@.counters_used_once() {
            lemma_advance_keeps_counters_used_once(old(db)@, *action, timestamp@, policy);
        }
        lemma_advance_extends(old(db)@, *action, timestamp@, policy);
    }
    match action {
        Action::Register(payload) => {
            let _ = db.insert_device(
                payload.device_id.as_str(),
                payload.did_document.as_str(),
                payload.public_key.as_str(),
            );
            Status::Accept
        },
        Action::Submit(payload) => handle_submit(db, payload, timestamp, policy),
        Action::Unknown(_) => Status::Reject,
    }
}

/// Handles an advance instruction now: the transition is that of
/// [`advance_outcome`] at the time the clock gave.
pub fn handle_advance(db: &mut Database, action: &Action, policy: AuthPolicy) -> (status: Status)
    requires
        old(db).wf(),
    ensures
        final(db).wf(),
        exists|timestamp: Seq<char>|
            (status, final(db)@) == #[trigger] advance_outcome(
                old(db)@,
                *action,
                timestamp,
                policy,
            ),
        (status == Status::Accept) == advance_accepted(old(db)@, *action, policy),
        old(db)@.counters_used_once() ==> final(db)@.counters_used_once(),
        final(db)@.extends(old(db)@),
{
    let now = current_timestamp();
    handle_advance_at(db, action, now.as_str(), policy)
}

/// The text `get_latest:` that opens a query for the latest reading.
pub open spec fn query_prefix() -> Seq<u8> {
    seq![0x67u8, 0x65u8, 0x74u8, 0x5fu8, 0x6cu8, 0x61u8, 0x74u8, 0x65u8, 0x73u8, 0x74u8, 0x3au8]
}

/// What an inspect payload asks.
pub enum Query {
    /// The payload is not hexadecimal text, or not UTF-8.
    Malformed,
    /// The payload is text, but no query this node knows.
    Unrecognized,
    /// The latest reading of a device.
    Latest { device_id: Seq<char> },
}

/// Reads an inspect payload: hexadecimal text, after any number of leading
/// `0x`, of the UTF-8 text `get_latest:` followed by a device identifier.
pub open spec fn parse_query(payload: Seq<u8>) -> Query {
    match payload_bytes(payload) {
        None => Query::Malformed,
        Some(query) => if !valid_utf8(query) {
            Query::Malformed
        } else if has_prefix(query, query_prefix()) {
            Query::Latest {
                device_id: vstd::utf8::decode_utf8(query.skip(query_prefix().len() as int)),
            }
        } else {
            Query::Unrecognized
        },
    }
}

/// The reading a record gives back: the two stages are undone with the
/// counter stored in the record, and the plaintext is read as UTF-8. `None`
/// when a tag does not verify or the plaintext is not text.
pub open spec fn recovered_reading(record: SensorRecord) -> Option<Notice> {
    match dual_open(encode_utf8(record.device_id), record.counter, record.encrypted_payload) {
        None => None,
        Some(plaintext) => if valid_utf8(plaintext) {
            Some(
                Notice {
                    id: record.id,
                    device_id: record.device_id,
                    decrypted_payload: vstd::utf8::decode_utf8(plaintext),
                    timestamp: record.timestamp,
                },
            )
        } else {
            None
        },
    }
}

/// The result of an inspect instruction. A payload that cannot be read,
/// being no hexadecimal text or no UTF-8, is a protocol error, and protocol
/// errors are rejected for every kind of instruction rather than left to
/// stop the node. Everything else is accepted: a query this node does not
/// know, a device without records and a record that does not decrypt all
/// come back without a reading.
pub open spec fn inspect_outcome(store: Store, payload: Seq<char>) -> (Status, Option<Notice>) {
    match parse_query(encode_utf8(payload)) {
        Query::Malformed => (Status::Reject, None),
        Query::Unrecognized => (Status::Accept, None),
        Query::Latest { device_id } => (
            Status::Accept,
            match store.latest(device_id) {
                None => None,
                Some(record) => recovered_reading(record),
            },
        ),
    }
}

/// `reading` is the text of which the record holds the two-stage
/// encryption under its own device and counter, if there is such a text.
pub open spec fn sealed_text_is_read(record: SensorRecord, reading: Option<Notice>) -> bool {
    forall|text: Seq<char>| #[trigger]
        dual_seal(encode_utf8(record.device_id), record.counter, encode_utf8(text)) == Some(
            record.encrypted_payload,
        ) ==> reading == Some(
            Notice {
                id: record.id,
                device_id: record.device_id,
                decrypted_payload: text,
                timestamp: record.timestamp,
            },
        )
}

/// Whenever the latest record of the queried device holds the two-stage
/// encryption of a text, the reading is exactly that text.
pub open spec fn reads_back_what_was_sealed(
    store: Store,
    payload: Seq<char>,
    notice: Option<Notice>,
) -> bool {
    match parse_query(encode_utf8(payload)) {
        Query::Latest { device_id } => match store.latest(device_id) {
            Some(record) => sealed_text_is_read(record, notice),
            None => true,
        },
        _ => true,
    }
}

/// Recovers the reading of a record.
fn recover_reading(row: crate::database::SensorDataRow) -> (notice: Option<DecryptedSensorData>)
    ensures
        match notice {
            Some(data) => recovered_reading(row@) == Some(data@),
            None => recovered_reading(row@) is None,
        },
        sealed_text_is_read(row@, recovered_reading(row@)),
{
    let plaintext = match DualCipher::decrypt(
        row.device_id.as_str(),
        row.counter,
        row.encrypted_payload.as_slice(),
    ) {
        Ok(plaintext) => plaintext,
        Err(_) => {
            return None;
        },
    };
    proof {
        assert forall|text: Seq<char>| #[trigger]
            dual_seal(encode_utf8(row.device_id@), row.counter, encode_utf8(text)) == Some(
                row.encrypted_payload@,
            ) implies plaintext@ == encode_utf8(text) && valid_utf8(plaintext@)
            && vstd::utf8::decode_utf8(plaintext@) == text by {
            vstd::utf8::encode_utf8_valid_utf8(text);
            encode_utf8_decode_utf8(text);
        }
    }
    let text = match codec::decode_utf8(plaintext.as_slice()) {
        Ok(text) => text,
        Err(_) => {
            return None;
        },
    };
    proof {
        encode_utf8_decode_utf8(text@);
    }
    Some(
        DecryptedSensorData {
            id: row.id,
            device_id: row.device_id,
            decrypted_payload: text.to_owned(),
            timestamp: row.timestamp,
        },
    )
}

/// Handles an inspect instruction. The store is only read.
pub fn handle_inspect(db: &Database, payload: &str) -> (outcome: Outcome)
    requires
        db.wf(),
    ensures
        (outcome.status, outcome.notice_view()) == inspect_outcome(db@, payload@),
        reads_back_what_was_sealed(db@, payload@, outcome.notice_view()),
{
    let query = match decode_payload(payload) {
        Ok(query) => query,
        Err(_) => {
            return Outcome { status: Status::Reject, notice: None };
        },
    };
    if codec::decode_utf8(query.as_slice()).is_err() {
        return Outcome { status: Status::Reject, notice: None };
    }
    let prefix: [u8; 11] = [0x67, 0x65, 0x74, 0x5f, 0x6c, 0x61, 0x74, 0x65, 0x73, 0x74, 0x3a];
    let rest = match strip_prefix(query.as_slice(), prefix.as_slice()) {
        Some(rest) => rest,
        None => {
            return Outcome { status: Status::Accept, notice: None };
        },
    };
    proof {
        lemma_utf8_after_ascii(query@, 11);
    }
    let device_id = match codec::decode_utf8(rest) {
        Ok(device_id) => device_id,
        // Never taken: what follows an ASCII prefix of well-formed text is
        // well-formed.
        Err(_) => {
            return Outcome { status: Status::Reject, notice: None };
        },
    };
    proof {
        encode_utf8_decode_utf8(device_id@);
    }
    let notice = match db.get_latest_sensor_data(device_id) {
        Ok(Some(row)) => recover_reading(row),
        _ => None,
    };
    Outcome { status: Status::Accept, notice }
}

/// The transition of any instruction: the status, the reading if one was
/// recovered, and the store it leaves.
pub open spec fn dispatch_outcome(
    store: Store,
    request: Request,
    timestamp: Seq<char>,
    policy: AuthPolicy,
) -> (Status, Option<Notice>, Store) {
    match request {
        Request::Advance(action) => {
            let (status, after) = advance_outcome(store, action, timestamp, policy);
            (status, None, after)
        },
        Request::Inspect(payload) => {
            let (status, notice) = inspect_outcome(store, payload@);
            (status, notice, store)
        },
        Request::Malformed => (Status::Reject, None, store),
        Request::Unknown(_) => (Status::Reject, None, store),
    }
}

/// When an instruction is accepted: an advance instruction under
/// [`advance_accepted`], an inspect instruction whenever its payload can be
/// read, anything else never.
pub open spec fn dispatch_accepted(store: Store, request: Request, policy: AuthPolicy) -> bool {
    match request {
        Request::Advance(action) => advance_accepted(store, action, policy),
        Request::Inspect(payload) => parse_query(encode_utf8(payload@)) != Query::Malformed,
        Request::Malformed => false,
        Request::Unknown(_) => false,
    }
}

/// Processes one instruction at the given time.
pub fn dispatch_at(db: &mut Database, request: &Request, timestamp: &str, policy: AuthPolicy) -> (outcome:
    Outcome)
    requires
        old(db).wf(),
    ensures
        final(db).wf(),
        (outcome.status, outcome.notice_view(), final(db)@) == dispatch_outcome(
            old(db)@,
            *request,
            timestamp@,
            policy,
        ),
        (outcome.status == Status::Accept) == dispatch_accepted(old(db)@, *request, policy),
        old(db)@.counters_used_once() ==> final(db)@.counters_used_once(),
        final(db)@.extends(old(db)@),
{
    match request {
        Request::Advance(action) => {
            let status = handle_advance_at(db, action, timestamp, policy);
            Outcome { status, notice: None }
        },
        Request::Inspect(payload) => handle_inspect(db, payload.as_str()),
        Request::Malformed => Outcome { status: Status::Reject, notice: None },
        Request::Unknown(_) => Outcome { status: Status::Reject, notice: None },
    }
}

/// Processes one instruction now: the transition is that of
/// [`dispatch_outcome`] at the time the clock gave.
pub fn dispatch(db: &mut Database, request: &Request, policy: AuthPolicy) -> (outcome: Outcome)
    requires
        old(db).wf(),
    ensures
        final(db).wf(),
        exists|timestamp: Seq<char>|
            (outcome.status, outcome.notice_view(), final(db)@) == #[trigger] dispatch_outcome(
                old(db)@,
                *request,
                timestamp,
                policy,
            ),
        (outcome.status == Status::Accept) == dispatch_accepted(old(db)@, *request, policy),
        old(db)@.counters_used_once() ==> final(db)@.counters_used_once(),
        final(db)@.extends(old(db)@),
{
    let now = current_timestamp();
    let outcome = dispatch_at(db, request, now.as_str(), policy);
    assert((outcome.status, outcome.notice_view(), db@) == dispatch_outcome(
        old(db)@,
        *request,
        now@,
        policy,
    ));
    outcome
}

/// An advance instruction continues the store: it appends at most one
/// record, leaves every registered device as it was, and lowers no counter.
/// What it changed is therefore what [`Database::changes_since`] reports.
pub proof fn lemma_advance_extends(
    store: Store,
    action: Action,
    timestamp: Seq<char>,
    policy: AuthPolicy,
)
    ensures
        advance_outcome(store, action, timestamp, policy).1.extends(store),
{
    let after = advance_outcome(store, action, timestamp, policy).1;
    assert(store.sensor_data.is_prefix_of(after.sensor_data)) by {
        if after.sensor_data.len() > store.sensor_data.len() {
            assert(after.sensor_data.drop_last() =~= store.sensor_data);
        }
    }
}

/// An instruction of any kind continues the store.
pub proof fn lemma_dispatch_extends(
    store: Store,
    request: Request,
    timestamp: Seq<char>,
    policy: AuthPolicy,
)
    ensures
        dispatch_outcome(store, request, timestamp, policy).2.extends(store),
{
    if let Request::Advance(action) = request {
        lemma_advance_extends(store, action, timestamp, policy);
    }
}

/// An advance instruction keeps every counter value used once: a
/// registration touches no counter that exists, and a submission stores its
/// record under the value it has just allocated, which exceeds every value
/// the device's records carry.
pub proof fn lemma_advance_keeps_counters_used_once(
    store: Store,
    action: Action,
    timestamp: Seq<char>,
    policy: AuthPolicy,
)
    requires
        store.counters_used_once(),
    ensures
        advance_outcome(store, action, timestamp, policy).1.counters_used_once(),
{
    let after = advance_outcome(store, action, timestamp, policy).1;
    assert forall|i: int| 0 <= i < after.sensor_data.len() implies (
    #[trigger] after.sensor_data[i]).counter <= after.counter(after.sensor_data[i].device_id) by {
        if i < store.sensor_data.len() {
            assert(after.sensor_data[i] == store.sensor_data[i]);
            assert(store.counter(store.sensor_data[i].device_id) <= after.counter(
                store.sensor_data[i].device_id,
            ));
        }
    }
    assert forall|i: int, j: int|
        0 <= i < j < after.sensor_data.len() && (#[trigger] after.sensor_data[i]).device_id == (
        #[trigger] after.sensor_data[j]).device_id implies after.sensor_data[i].counter
        != after.sensor_data[j].counter by {
        assert(after.sensor_data[i] == store.sensor_data[i]);
        if j < store.sensor_data.len() {
            assert(after.sensor_data[j] == store.sensor_data[j]);
        }
    }
}

/// The counter value of an accepted submission is fresh: if every value was
/// used once before, no record of the device carried it, or anything as
/// great.
pub proof fn lemma_accepted_counter_is_fresh(
    store: Store,
    payload: DataPayload,
    timestamp: Seq<char>,
    policy: AuthPolicy,
)
    requires
        store.counters_used_once(),
        submit_outcome(store, payload, timestamp, policy).0 == Status::Accept,
    ensures
        ({
            let after = submit_outcome(store, payload, timestamp, policy).1;
            forall|j: int|
                0 <= j < store.sensor_data.len() && (#[trigger] store.sensor_data[j]).device_id
                    == payload.device_id@ ==> store.sensor_data[j].counter
                    < after.sensor_data.last().counter
        }),
{
}

/// An instruction of any kind keeps every counter value used once.
pub proof fn lemma_dispatch_keeps_counters_used_once(
    store: Store,
    request: Request,
    timestamp: Seq<char>,
    policy: AuthPolicy,
)
    requires
        store.counters_used_once(),
    ensures
        dispatch_outcome(store, request, timestamp, policy).2.counters_used_once(),
{
    if let Request::Advance(action) = request {
        lemma_advance_keeps_counters_used_once(store, action, timestamp, policy);
    }
}

/// An empty store has used no counter value.
pub proof fn lemma_empty_store_counters_used_once()
    ensures
        Store::empty().counters_used_once(),
{
}

/// An inspect instruction leaves the store as it was, whatever it asks and
/// whatever it finds.
pub proof fn lemma_inspect_changes_nothing(
    store: Store,
    payload: String,
    timestamp: Seq<char>,
    policy: AuthPolicy,
)
    ensures
        dispatch_outcome(store, Request::Inspect(payload), timestamp, policy).2 == store,
{
}

/// An action this node does not know is rejected and leaves the store as it
/// was, whatever its name, the time and the policy.
pub proof fn lemma_unknown_action_rejected(
    store: Store,
    name: String,
    timestamp: Seq<char>,
    policy: AuthPolicy,
)
    ensures
        advance_outcome(store, Action::Unknown(name), timestamp, policy) == (
            Status::Reject,
            store,
        ),
{
}

/// A request type other than the two this node knows is classified as
/// unknown, and an instruction of unknown type is rejected without a
/// reading and without a change to the store.
pub proof fn lemma_unknown_request_rejected(
    store: Store,
    request_type: String,
    timestamp: Seq<char>,
    policy: AuthPolicy,
)
    requires
        request_type@ != "advance_state"@,
        request_type@ != "inspect_state"@,
    ensures
        request_kind(request_type@) == RequestKind::Unknown,
        dispatch_outcome(store, Request::Unknown(request_type), timestamp, policy) == (
            Status::Reject,
            None::<Notice>,
            store,
        ),
{
}

/// A rejected advance instruction stores no record. If it was rejected for
/// its form, for want of authorization or because the counter is exhausted,
/// it changes nothing at all; if it failed later, the counter it had been
/// allocated stays spent and is never handed out again.
pub proof fn lemma_rejected_advance_stores_nothing(
    store: Store,
    action: Action,
    timestamp: Seq<char>,
    policy: AuthPolicy,
)
    requires
        advance_outcome(store, action, timestamp, policy).0 == Status::Reject,
    ensures
        advance_outcome(store, action, timestamp, policy).1.sensor_data == store.sensor_data,
        advance_outcome(store, action, timestamp, policy).1 == store || (action matches Action::Submit(
            payload,
        ) && advance_outcome(store, action, timestamp, policy).1.counters
            == store.allocate(payload.device_id@).counters),
{
}

/// An accepted submission allocates exactly one counter value, the next of
/// its device, and stores exactly one record, which carries that value, the
/// given time and the encryption of the reading under that value.
pub proof fn lemma_accepted_submit_stores_one_record(
    store: Store,
    payload: DataPayload,
    timestamp: Seq<char>,
    policy: AuthPolicy,
)
    requires
        submit_outcome(store, payload, timestamp, policy).0 == Status::Accept,
    ensures
        ({
            let after = submit_outcome(store, payload, timestamp, policy).1;
            let device_id = payload.device_id@;
            &&& spec_hex_decode(encode_utf8(payload.data@)) is Some
            &&& submit_authorized(
                store,
                policy,
                device_id,
                payload.jws@,
                spec_hex_decode(encode_utf8(payload.data@)).unwrap(),
            )
            &&& after.counter(device_id) == store.counter(device_id) + 1
            &&& after.devices.contains_key(device_id)
            &&& after.sensor_data.len() == store.sensor_data.len() + 1
            &&& after.sensor_data.drop_last() == store.sensor_data
            &&& after.sensor_data.last().device_id == device_id
            &&& after.sensor_data.last().counter == after.counter(device_id)
            &&& after.sensor_data.last().timestamp == timestamp
            &&& Some(after.sensor_data.last().encrypted_payload) == dual_seal(
                encode_utf8(device_id),
                after.counter(device_id),
                spec_hex_decode(encode_utf8(payload.data@)).unwrap(),
            )
        }),
{
}

/// A reading that was submitted and accepted is read back as it was sent:
/// if the record the submission stored is the latest of its device, an
/// inspect instruction for that device, answered as [`handle_inspect`]
/// answers, returns the submitted text with the record's number and time.
pub proof fn lemma_inspect_after_submit(
    store: Store,
    payload: DataPayload,
    timestamp: Seq<char>,
    policy: AuthPolicy,
    text: Seq<char>,
    query: Seq<char>,
    notice: Option<Notice>,
)
    requires
        submit_outcome(store, payload, timestamp, policy).0 == Status::Accept,
        spec_hex_decode(encode_utf8(payload.data@)) == Some(encode_utf8(text)),
        parse_query(encode_utf8(query)) == (Query::Latest { device_id: payload.device_id@ }),
        ({
            let after = submit_outcome(store, payload, timestamp, policy).1;
            &&& after.latest(payload.device_id@) == Some(after.sensor_data.last())
            &&& reads_back_what_was_sealed(after, query, notice)
        }),
    ensures
        notice == Some(
            Notice {
                id: store.sensor_data.len() as int + 1,
                device_id: payload.device_id@,
                decrypted_payload: text,
                timestamp,
            },
        ),
{
    lemma_accepted_submit_stores_one_record(store, payload, timestamp, policy);
    let after = submit_outcome(store, payload, timestamp, policy).1;
    let record = after.sensor_data.last();
    assert(dual_seal(encode_utf8(record.device_id), record.counter, encode_utf8(text)) == Some(
        record.encrypted_payload,
    ));
}

} // verus!
