//! A replay journal for host calls made by workflows: calls are numbered densely, each is
//! keyed by a hash of its request, a replayed call returns the recorded result without
//! running again, a changed request is a divergence, and agent calls draw on a budget.
use crate::host_routing::{json_string, string_value};
use crate::text::{decimal, decimal_text, same_text};
use serde_json::Value;
use vstd::prelude::*;
use vstd::string::*;
use vstd::utf8::encode_utf8;

verus! {

#[verifier::external_type_specification]
#[verifier::external_body]
pub struct ExJsonValue(Value);

/// Calls `Value::clone`. Trusted: serde_json derives `Clone` for `Value`, so the copy is
/// equal to the original.
#[verifier::external_body]
fn clone_value(v: &Value) -> (r: Value)
    ensures
        r == *v,
{
    v.clone()
}

/// The compact JSON text of a value, as serde_json's `Display` writes it.
pub uninterp spec fn json_text(v: Value) -> Seq<char>;

/// Calls `Value::to_string` (serde_json's compact `Display`). Trusted: the text depends on
/// the value alone; what it is is named by `json_text`, not written out.
#[verifier::external_body]
pub(crate) fn value_text(v: &Value) -> (s: String)
    ensures
        s@ == json_text(*v),
{
    v.to_string()
}

#[verifier::external_type_specification]
#[verifier::external_body]
#[verifier::reject_recursive_types(K)]
#[verifier::reject_recursive_types(V)]
pub struct ExJsonMap<K, V>(serde_json::Map<K, V>);

/// The members of a JSON object map, by key.
pub uninterp spec fn map_members(m: serde_json::Map<String, Value>) -> Map<Seq<char>, Value>;

/// The JSON object value holding these members.
pub uninterp spec fn json_object(members: Map<Seq<char>, Value>) -> Value;

/// The JSON boolean value.
pub uninterp spec fn json_bool(b: bool) -> Value;

/// An object without members.
pub open spec fn no_members() -> Map<Seq<char>, Value> {
    Map::empty()
}

/// Calls `serde_json::Map::new`. Trusted: the map starts without members.
#[verifier::external_body]
fn empty_members() -> (r: serde_json::Map<String, Value>)
    ensures
        map_members(r) == no_members(),
{
    serde_json::Map::new()
}

/// Calls `serde_json::Map::insert` on a map it takes and gives back. Trusted: the key now
/// holds the value (an earlier value under the key is replaced) and every other member stays.
#[verifier::external_body]
fn insert_member(m: serde_json::Map<String, Value>, key: String, value: Value) -> (r:
    serde_json::Map<String, Value>)
    ensures
        map_members(r) == map_members(m).insert(key@, value),
{
    let mut m = m;
    m.insert(key, value);
    m
}

/// Builds `Value::Object`. Trusted: the value depends on the members alone.
#[verifier::external_body]
fn object_value(m: serde_json::Map<String, Value>) -> (v: Value)
    ensures
        v == json_object(map_members(m)),
{
    Value::Object(m)
}

/// Builds `Value::Bool`. Trusted: the value depends on the flag alone.
#[verifier::external_body]
fn bool_value(b: bool) -> (v: Value)
    ensures
        v == json_bool(b),
{
    Value::Bool(b)
}

/// The object `{"agent_id": <id>, "success": true}`.
pub open spec fn spawn_reply(agent_id: Seq<char>) -> Value {
    json_object(
        no_members().insert("agent_id"@, json_string(agent_id)).insert(
            "success"@,
            json_bool(true),
        ),
    )
}

/// The host's reply to a spawned agent: its ID and success.
fn spawn_reply_value(agent_id: String) -> (v: Value)
    ensures
        v == spawn_reply(agent_id@),
{
    let object = empty_members();
    let object = insert_member(object, String::from_str("agent_id"), string_value(agent_id));
    let object = insert_member(object, String::from_str("success"), bool_value(true));
    object_value(object)
}

pub const FNV_OFFSET: u64 = 0xcbf29ce484222325;

pub const FNV_PRIME: u64 = 0x100000001b3;

/// FNV-1a over bytes.
pub open spec fn fnv1a(bytes: Seq<u8>) -> u64
    decreases bytes.len(),
{
    if bytes.len() == 0 {
        FNV_OFFSET
    } else {
        (fnv1a(bytes.drop_last()) ^ (bytes.last() as u64)).wrapping_mul(FNV_PRIME)
    }
}

pub open spec fn hex_char(d: nat) -> char {
    if d < 10 {
        crate::text::digit_char(d)
    } else if d == 10 {
        'a'
    } else if d == 11 {
        'b'
    } else if d == 12 {
        'c'
    } else if d == 13 {
        'd'
    } else if d == 14 {
        'e'
    } else {
        'f'
    }
}

/// The lowest `width` hexadecimal digits of `n`, zero-padded, most significant first.
pub open spec fn hex_padded(n: nat, width: nat) -> Seq<char>
    decreases width,
{
    if width == 0 {
        Seq::empty()
    } else {
        hex_padded(n / 16, (width - 1) as nat).push(hex_char(n % 16))
    }
}

fn hex_digit_text(d: u64) -> (s: &'static str)
    requires
        d < 16,
    ensures
        s@ == seq![hex_char(d as nat)],
{
    proof {
        reveal_strlit("0");
        reveal_strlit("1");
        reveal_strlit("2");
        reveal_strlit("3");
        reveal_strlit("4");
        reveal_strlit("5");
        reveal_strlit("6");
        reveal_strlit("7");
        reveal_strlit("8");
        reveal_strlit("9");
        reveal_strlit("a");
        reveal_strlit("b");
        reveal_strlit("c");
        reveal_strlit("d");
        reveal_strlit("e");
        reveal_strlit("f");
    }
    if d == 0 { "0" } else if d == 1 { "1" } else if d == 2 { "2" } else if d == 3 { "3" }
    else if d == 4 { "4" } else if d == 5 { "5" } else if d == 6 { "6" } else if d == 7 { "7" }
    else if d == 8 { "8" } else if d == 9 { "9" } else if d == 10 { "a" } else if d == 11 { "b" }
    else if d == 12 { "c" } else if d == 13 { "d" } else if d == 14 { "e" } else { "f" }
}

fn hex_text(n: u64, width: u64) -> (s: String)
    ensures
        s@ == hex_padded(n as nat, width as nat),
    decreases width,
{
    if width == 0 {
        String::new()
    } else {
        let mut s = hex_text(n / 16, width - 1);
        s.append(hex_digit_text(n % 16));
        s
    }
}

/// The bytes a request is hashed over: the kind, a zero byte, the payload's JSON text.
pub open spec fn request_bytes(kind: Seq<char>, payload: Value) -> Seq<u8> {
    encode_utf8(kind) + seq![0u8] + encode_utf8(json_text(payload))
}

/// The request key: FNV-1a of the request bytes as sixteen hex digits.
pub open spec fn request_key(kind: Seq<char>, payload: Value) -> Seq<char> {
    hex_padded(fnv1a(request_bytes(kind, payload)) as nat, 16)
}

/// Hashes a request deterministically.
pub fn request_hash(kind: &str, payload: &Value) -> (h: String)
    ensures
        h@ == request_key(kind@, *payload),
{
    let text = value_text(payload);
    let mut bytes: Vec<u8> = Vec::new();
    let kind_bytes = kind.as_bytes();
    let mut i: usize = 0;
    while i < kind_bytes.len()
        invariant
            i <= kind_bytes@.len(),
            bytes@ == kind_bytes@.take(i as int),
        decreases kind_bytes@.len() - i,
    {
        bytes.push(kind_bytes[i]);
        assert(bytes@ =~= kind_bytes@.take(i + 1));
        i = i + 1;
    }
    bytes.push(0u8);
    let payload_bytes = text.as_str().as_bytes();
    let ghost prefix = bytes@;
    let mut j: usize = 0;
    while j < payload_bytes.len()
        invariant
            j <= payload_bytes@.len(),
            bytes@ == prefix + payload_bytes@.take(j as int),
        decreases payload_bytes@.len() - j,
    {
        bytes.push(payload_bytes[j]);
        assert(bytes@ =~= prefix + payload_bytes@.take(j + 1));
        j = j + 1;
    }
    proof {
        assert(kind_bytes@.take(kind_bytes@.len() as int) =~= kind_bytes@);
        assert(payload_bytes@.take(payload_bytes@.len() as int) =~= payload_bytes@);
        assert(bytes@ =~= request_bytes(kind@, *payload));
    }
    let mut hash: u64 = FNV_OFFSET;
    let mut k: usize = 0;
    while k < bytes.len()
        invariant
            k <= bytes@.len(),
            hash == fnv1a(bytes@.take(k as int)),
        decreases bytes@.len() - k,
    {
        assert(bytes@.take(k + 1).drop_last() =~= bytes@.take(k as int));
        hash = hash ^ (bytes[k] as u64);
        hash = hash.wrapping_mul(FNV_PRIME);
        k = k + 1;
    }
    assert(bytes@.take(bytes@.len() as int) =~= bytes@);
    hex_text(hash, 16)
}

#[derive(Debug, PartialEq, Eq)]
pub struct JournalEntry {
    pub seq: u64,
    pub kind: String,
    pub request_hash: String,
    pub result: Value,
}

#[derive(Debug, PartialEq, Eq)]
pub enum JournalError {
    Sequence { expected: u64, actual: u64 },
    Divergence { seq: u64, kind: String },
}

/// A journal entry as its fields' values.
pub struct EntryModel {
    pub seq: u64,
    pub kind: Seq<char>,
    pub request_hash: Seq<char>,
    pub result: Value,
}

pub open spec fn entry_model(e: JournalEntry) -> EntryModel {
    EntryModel { seq: e.seq, kind: e.kind@, request_hash: e.request_hash@, result: e.result }
}

#[derive(Default)]
pub struct Journal {
    pub entries: Vec<JournalEntry>,
}

impl View for Journal {
    type V = Seq<EntryModel>;

    open spec fn view(&self) -> Seq<EntryModel> {
        self.entries@.map_values(|e: JournalEntry| entry_model(e))
    }
}

/// The error a replay reports, as its fields' values.
pub enum ErrorModel {
    Sequence { expected: u64, actual: u64 },
    Divergence { seq: u64, kind: Seq<char> },
}

pub open spec fn error_model(e: JournalError) -> ErrorModel {
    match e {
        JournalError::Sequence { expected, actual } => ErrorModel::Sequence { expected, actual },
        JournalError::Divergence { seq, kind } => ErrorModel::Divergence { seq, kind: kind@ },
    }
}

/// Replaying call `seq`: nothing recorded yet, the recorded result when the request is the
/// same, or a divergence.
pub open spec fn replay_model(j: Seq<EntryModel>, seq: u64, kind: Seq<char>, hash: Seq<char>) -> Result<
    Option<Value>,
    ErrorModel,
> {
    if seq >= j.len() {
        Ok(None)
    } else {
        let e = j[seq as int];
        if e.seq != seq || e.kind != kind || e.request_hash != hash {
            Err(ErrorModel::Divergence { seq, kind })
        } else {
            Ok(Some(e.result))
        }
    }
}

pub open spec fn replay_result(r: Result<Option<Value>, JournalError>) -> Result<Option<Value>, ErrorModel> {
    match r {
        Ok(v) => Ok(v),
        Err(e) => Err(error_model(e)),
    }
}

impl Journal {
    /// Looks up call `seq` for a request of `kind` with `request_hash`.
    pub fn replay(&self, seq: u64, kind: &str, request_hash: &str) -> (r: Result<Option<Value>, JournalError>)
        ensures
            replay_result(r) == replay_model(self@, seq, kind@, request_hash@),
    {
        if seq >= self.entries.len() as u64 {
            return Ok(None);
        }
        let entry = &self.entries[seq as usize];
        if entry.seq != seq || !same_text(entry.kind.as_str(), kind) || !same_text(
            entry.request_hash.as_str(),
            request_hash,
        ) {
            return Err(JournalError::Divergence { seq, kind: kind.to_owned() });
        }
        Ok(Some(clone_value(&entry.result)))
    }

    /// Records call `seq`, which must be the next one.
    pub fn record(&mut self, seq: u64, kind: &str, request_hash: String, result: Value) -> (r: Result<
        (),
        JournalError,
    >)
        ensures
            final(self)@ == record_model(
                old(self)@,
                EntryModel { seq, kind: kind@, request_hash: request_hash@, result },
            ),
            match r {
                Ok(()) => seq == old(self)@.len() && final(self)@ == old(self)@.push(
                    EntryModel { seq, kind: kind@, request_hash: request_hash@, result },
                ),
                Err(e) => seq != old(self)@.len() && error_model(e) == (ErrorModel::Sequence {
                    expected: old(self)@.len() as u64,
                    actual: seq,
                }) && final(self)@ == old(self)@,
            },
    {
        let expected = self.entries.len() as u64;
        if seq != expected {
            return Err(JournalError::Sequence { expected, actual: seq });
        }
        self.entries.push(
            JournalEntry { seq, kind: kind.to_owned(), request_hash, result },
        );
        assert(self@ =~= old(self)@.push(
            EntryModel { seq, kind: kind@, request_hash: request_hash@, result },
        ));
        Ok(())
    }
}

/// What a record request does to the journal: it is appended when it is the next call, and
/// refused otherwise.
pub open spec fn record_model(j: Seq<EntryModel>, e: EntryModel) -> Seq<EntryModel> {
    if e.seq == j.len() {
        j.push(e)
    } else {
        j
    }
}

/// A journal after a series of record requests, from an empty one.
pub open spec fn recorded(requests: Seq<EntryModel>) -> Seq<EntryModel>
    decreases requests.len(),
{
    if requests.len() == 0 {
        Seq::empty()
    } else {
        record_model(recorded(requests.drop_last()), requests.last())
    }
}

/// Entry `i` carries sequence number `i`.
pub open spec fn dense(j: Seq<EntryModel>) -> bool {
    forall|i: int| 0 <= i < j.len() ==> #[trigger] j[i].seq == i
}

/// The journal stays dense: after any series of record requests, whichever were accepted,
/// entry `i` carries sequence number `i`.
pub proof fn law_journal_is_dense(requests: Seq<EntryModel>)
    ensures
        dense(recorded(requests)),
    decreases requests.len(),
{
    if requests.len() > 0 {
        law_journal_is_dense(requests.drop_last());
    }
}

/// The host's reply to its `n`-th execution.
pub open spec fn host_reply(n: nat) -> Value {
    spawn_reply("child-"@ + decimal(n))
}

/// Calls the host through the journal: a recorded call is replayed without running the host;
/// a new call runs it once and is recorded. Reports whether the result was replayed.
pub fn call_host(
    journal: &mut Journal,
    seq: u64,
    kind: &str,
    payload: &Value,
    host_executions: &mut usize,
) -> (r: Result<(Value, bool), JournalError>)
    requires
        *old(host_executions) < usize::MAX,
    ensures
        ({
            let hash = request_key(kind@, *payload);
            match replay_model(old(journal)@, seq, kind@, hash) {
                Err(e) => r matches Err(err) && error_model(err) == e && final(journal)@ == old(
                    journal,
                )@ && *final(host_executions) == *old(host_executions),
                Ok(Some(v)) => r == Ok::<(Value, bool), JournalError>((v, true)) && final(journal)@
                    == old(journal)@ && *final(host_executions) == *old(host_executions),
                Ok(None) => {
                    let n = *old(host_executions) + 1;
                    &&& *final(host_executions) == n
                    &&& if seq == old(journal)@.len() {
                        &&& r == Ok::<(Value, bool), JournalError>((host_reply(n as nat), false))
                        &&& final(journal)@ == old(journal)@.push(
                            EntryModel { seq, kind: kind@, request_hash: hash, result: host_reply(n as nat) },
                        )
                    } else {
                        &&& r matches Err(err) && error_model(err) == (ErrorModel::Sequence {
                            expected: old(journal)@.len() as u64,
                            actual: seq,
                        })
                        &&& final(journal)@ == old(journal)@
                    }
                },
            }
        }),
{
    let hash = request_hash(kind, payload);
    match journal.replay(seq, kind, hash.as_str()) {
        Err(e) => {
            return Err(e);
        },
        Ok(Some(result)) => {
            return Ok((result, true));
        },
        Ok(None) => {},
    }
    *host_executions += 1;
    let agent_id = String::from_str("child-").concat(decimal_text(*host_executions as u64).as_str());
    let result = spawn_reply_value(agent_id);
    let recorded = clone_value(&result);
    match journal.record(seq, kind, hash, recorded) {
        Ok(()) => Ok((result, false)),
        Err(e) => Err(e),
    }
}

/// A call recorded once replays: the same call again returns the recorded result, marked as
/// replayed, and does not run the host.
pub proof fn law_replay_is_side_effect_free(
    journal: Seq<EntryModel>,
    seq: u64,
    kind: Seq<char>,
    payload: Value,
    n: nat,
)
    requires
        replay_model(journal, seq, kind, request_key(kind, payload)) == Ok::<Option<Value>, ErrorModel>(
            None,
        ),
        seq == journal.len(),
    ensures
        ({
            let recorded = journal.push(
                EntryModel { seq, kind, request_hash: request_key(kind, payload), result: host_reply(n) },
            );
            replay_model(recorded, seq, kind, request_key(kind, payload)) == Ok::<
                Option<Value>,
                ErrorModel,
            >(Some(host_reply(n)))
        }),
{
}

#[derive(Debug, PartialEq, Eq)]
pub struct AgentCallBudget {
    pub maximum: u64,
    pub reserved: u64,
}

/// A reservation of `count` calls: taken whole when it fits, refused otherwise (the sum
/// saturates at `u64::MAX`).
pub open spec fn reserve_model(b: AgentCallBudget, count: u64) -> (AgentCallBudget, bool) {
    let requested = if b.reserved + count > u64::MAX {
        u64::MAX as int
    } else {
        b.reserved + count
    };
    if requested <= b.maximum {
        (AgentCallBudget { reserved: requested as u64, ..b }, true)
    } else {
        (b, false)
    }
}

/// A release of `count` calls, never below zero.
pub open spec fn release_model(b: AgentCallBudget, count: u64) -> AgentCallBudget {
    AgentCallBudget {
        reserved: if b.reserved >= count {
            (b.reserved - count) as u64
        } else {
            0
        },
        ..b
    }
}

impl AgentCallBudget {
    /// Reserves `count` calls, all or none.
    pub fn reserve(&mut self, count: u64) -> (r: Result<(), &'static str>)
        ensures
            (*final(self), r is Ok) == reserve_model(*old(self), count),
            r matches Err(e) ==> e@ == "agent-call quota exceeded"@,
    {
        let requested = self.reserved.saturating_add(count);
        if requested > self.maximum {
            return Err("agent-call quota exceeded");
        }
        self.reserved = requested;
        Ok(())
    }

    /// Gives back `count` calls; the reservation never drops below zero.
    pub fn release(&mut self, count: u64)
        ensures
            *final(self) == release_model(*old(self), count),
    {
        self.reserved = self.reserved.saturating_sub(count);
    }
}

/// Reserving and releasing keep the reservation within the maximum.
pub proof fn law_budget_stays_within_maximum(b: AgentCallBudget, count: u64)
    requires
        b.reserved <= b.maximum,
    ensures
        reserve_model(b, count).0.reserved <= reserve_model(b, count).0.maximum,
        release_model(b, count).reserved <= release_model(b, count).maximum,
        !reserve_model(b, count).1 ==> reserve_model(b, count).0 == b,
{
}

} // verus!
