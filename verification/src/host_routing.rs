//! Which host a command line runs under, leader readiness, and per-client registrations.
use crate::katas::{digits_value, is_ascii_digit, parse_u64, unsigned_value};
use crate::storage_recovery::{parse_json, parsed_json};
use crate::text::{decimal, decimal_text, digit_char};
use crate::workflow_replay::{json_text, value_text};
use serde_json::Value;
use std::collections::{BTreeMap, BTreeSet};
use vstd::prelude::*;
use vstd::string::*;

verus! {

broadcast use vstd::std_specs::btree::group_btree_axioms;

#[derive(Clone, Copy, Debug, PartialEq, Eq, Structural)]
pub enum Command {
    Interactive,
    Stdio,
    Headless,
    Leader,
}

#[derive(Clone, Copy, Debug, PartialEq, Eq, Structural)]
pub enum ClientMode {
    Stdio,
    Headless,
}

#[derive(Clone, Copy, Debug, PartialEq, Eq, Structural)]
pub enum HostRoute {
    EmbeddedSingleTurn,
    EmbeddedInteractive,
    DirectStdio,
    DirectRelay,
    LeaderClient(ClientMode),
    LeaderServer,
}

pub struct Args {
    pub has_single_prompt: bool,
    pub command: Command,
    pub use_leader: bool,
    pub has_session_auth: bool,
}

/// The route for the arguments, or why they are refused: a single prompt always runs
/// embedded; a headless relay needs session auth.
pub open spec fn route_for(args: Args) -> Result<HostRoute, Seq<char>> {
    if args.has_single_prompt {
        Ok(HostRoute::EmbeddedSingleTurn)
    } else {
        match args.command {
            Command::Interactive => if args.use_leader {
                Ok(HostRoute::LeaderClient(ClientMode::Stdio))
            } else {
                Ok(HostRoute::EmbeddedInteractive)
            },
            Command::Stdio => if args.use_leader {
                Ok(HostRoute::LeaderClient(ClientMode::Stdio))
            } else {
                Ok(HostRoute::DirectStdio)
            },
            Command::Headless => if !args.has_session_auth {
                Err("headless relay requires session auth"@)
            } else if args.use_leader {
                Ok(HostRoute::LeaderClient(ClientMode::Headless))
            } else {
                Ok(HostRoute::DirectRelay)
            },
            Command::Leader => Ok(HostRoute::LeaderServer),
        }
    }
}

pub fn resolve_host(args: Args) -> (r: Result<HostRoute, &'static str>)
    ensures
        match r {
            Ok(route) => route_for(args) == Ok::<HostRoute, Seq<char>>(route),
            Err(e) => route_for(args) == Err::<HostRoute, Seq<char>>(e@),
        },
{
    if args.has_single_prompt {
        return Ok(HostRoute::EmbeddedSingleTurn);
    }
    match (args.command, args.use_leader) {
        (Command::Interactive, false) => Ok(HostRoute::EmbeddedInteractive),
        (Command::Interactive, true) | (Command::Stdio, true) => Ok(
            HostRoute::LeaderClient(ClientMode::Stdio),
        ),
        (Command::Stdio, false) => Ok(HostRoute::DirectStdio),
        (Command::Headless, _) if !args.has_session_auth => Err(
            "headless relay requires session auth",
        ),
        (Command::Headless, true) => Ok(HostRoute::LeaderClient(ClientMode::Headless)),
        (Command::Headless, false) => Ok(HostRoute::DirectRelay),
        (Command::Leader, _) => Ok(HostRoute::LeaderServer),
    }
}

#[derive(Clone, Copy, Debug, PartialEq, Eq)]
pub struct Registration {
    pub code_navigation: bool,
}

#[derive(Default)]
pub struct Leader {
    pub ready: bool,
    pub registrations: BTreeMap<u64, Registration>,
    pub sessions: BTreeSet<&'static str>,
}

impl Leader {
    /// Requests are refused while the leader is starting.
    pub fn accept_request(&self) -> (r: Result<(), &'static str>)
        ensures
            match r {
                Ok(()) => self.ready,
                Err(e) => !self.ready && e@ == "leader_starting"@,
            },
    {
        if self.ready {
            Ok(())
        } else {
            Err("leader_starting")
        }
    }

    /// A disconnecting client loses its registration; other clients and sessions stay.
    pub fn disconnect(&mut self, client_id: u64)
        ensures
            final(self).registrations@ == old(self).registrations@.remove(client_id),
            final(self).sessions == old(self).sessions,
            final(self).ready == old(self).ready,
    {
        self.registrations.remove(&client_id);
    }
}


/// The member of a JSON object under a key (nothing for a missing key or a non-object).
pub uninterp spec fn json_field(v: Value, key: Seq<char>) -> Option<Value>;

/// The text of a JSON string value (nothing for any other value).
pub uninterp spec fn json_str(v: Value) -> Option<Seq<char>>;

/// The JSON string value holding a text.
pub uninterp spec fn json_string(s: Seq<char>) -> Value;

/// Calls `Value::get` with a key and clones the member. Trusted: the result depends on the
/// value and the key alone.
#[verifier::external_body]
fn get_field(json: &Value, key: &str) -> (r: Option<Value>)
    ensures
        r == json_field(*json, key@),
{
    json.get(key).cloned()
}

/// Sets an existing member through `IndexMut` (`json[key] = value`). Trusted: per
/// serde_json, indexing an object by a key inserts or replaces that member and leaves the
/// others; the object must already hold the key (so it is an object and nothing panics).
#[verifier::external_body]
fn set_field(json: &mut Value, key: &str, value: Value)
    requires
        json_field(*old(json), key@) is Some,
    ensures
        json_field(*final(json), key@) == Some(value),
        forall|k: Seq<char>| k != key@ ==> json_field(*final(json), k) == json_field(*old(json), k),
{
    json[key] = value;
}

/// Calls `Value::as_str` and copies the text. Trusted: the result depends on the value alone.
#[verifier::external_body]
fn as_text(v: &Value) -> (r: Option<String>)
    ensures
        match r {
            Some(s) => json_str(*v) == Some(s@),
            None => json_str(*v) is None,
        },
{
    v.as_str().map(|s| s.to_owned())
}

/// Builds `Value::String`. Trusted: the value depends on the text alone, and `as_str` gives
/// the text back (serde_json's `as_str` returns the string of a `Value::String`).
#[verifier::external_body]
pub(crate) fn string_value(s: String) -> (v: Value)
    ensures
        v == json_string(s@),
        json_str(v) == Some(s@),
{
    Value::String(s)
}

/// The namespaced ID of a request: the client, a bar, the original ID's JSON text.
pub open spec fn namespaced_id(client_id: u64, original: Value) -> Seq<char> {
    decimal(client_id as nat) + "|"@ + json_text(original)
}

/// Rewrites a request's ID to carry the client's ID; gives the new ID, or nothing when the
/// request has no ID.
pub fn namespace_request_id(json: &mut Value, client_id: u64) -> (r: Option<String>)
    ensures
        match json_field(*old(json), "id"@) {
            None => r is None && *final(json) == *old(json),
            Some(original) => {
                &&& r matches Some(s) && s@ == namespaced_id(client_id, original)
                &&& json_field(*final(json), "id"@) == Some(json_string(namespaced_id(client_id, original)))
                &&& forall|k: Seq<char>| k != "id"@ ==> json_field(*final(json), k) == json_field(*old(json), k)
            },
        },
{
    let original = match get_field(json, "id") {
        Some(v) => v,
        None => {
            return None;
        },
    };
    let mut namespaced = decimal_text(client_id);
    namespaced.append("|");
    let text = value_text(&original);
    namespaced.append(text.as_str());
    let copy = namespaced.clone();
    set_field(json, "id", string_value(copy));
    Some(namespaced)
}

/// The position of the first `c` in `s`, if any.
pub open spec fn first_index_of(s: Seq<char>, c: char) -> Option<int> {
    if exists|i: int| 0 <= i < s.len() && s[i] == c {
        Some(choose|i: int| 0 <= i < s.len() && s[i] == c && forall|j: int| 0 <= j < i ==> s[j] != c)
    } else {
        None
    }
}

/// Splits at the first `c`: the text before it and the text after it.
fn split_once(s: &str, c: char) -> (r: Option<(&str, &str)>)
    ensures
        match r {
            Some((a, b)) => exists|i: int|
                0 <= i < s@.len() && s@[i] == c && (forall|j: int| 0 <= j < i ==> s@[j] != c) && a@
                    == s@.subrange(0, i) && b@ == s@.subrange(i + 1, s@.len() as int),
            None => forall|i: int| 0 <= i < s@.len() ==> s@[i] != c,
        },
{
    let n = s.unicode_len();
    let mut i: usize = 0;
    while i < n
        invariant
            n == s@.len(),
            i <= n,
            forall|j: int| 0 <= j < i ==> s@[j] != c,
        decreases n - i,
    {
        if s.get_char(i) == c {
            return Some((s.substring_char(0, i), s.substring_char(i + 1, n)));
        }
        i = i + 1;
    }
    None
}

/// The client and the original ID that a namespaced ID carries, when it reads as one.
pub open spec fn route_parts(id: Seq<char>) -> Option<(u64, Value)> {
    match first_index_of(id, '|') {
        None => None,
        Some(i) => {
            let client = unsigned_value(id.subrange(0, i));
            let original = parsed_json(id.subrange(i + 1, id.len() as int));
            if client is Some && client->0 <= u64::MAX && original is Some {
                Some((client->0 as u64, original->0))
            } else {
                None
            }
        },
    }
}

/// Routes a response back: reads the client from its namespaced ID and restores the
/// original ID; gives nothing, and leaves the response alone, when the ID is not one.
pub fn route_response(json: &mut Value) -> (r: Option<u64>)
    ensures
        ({
            let parts = match json_field(*old(json), "id"@) {
                Some(id) => match json_str(id) {
                    Some(text) => route_parts(text),
                    None => None,
                },
                None => None,
            };
            match parts {
                None => r is None && *final(json) == *old(json),
                Some((client, original)) => {
                    &&& r == Some(client)
                    &&& json_field(*final(json), "id"@) == Some(original)
                    &&& forall|k: Seq<char>| k != "id"@ ==> json_field(*final(json), k) == json_field(*old(json), k)
                },
            }
        }),
{
    let id = match get_field(json, "id") {
        Some(v) => v,
        None => {
            return None;
        },
    };
    let namespaced = match as_text(&id) {
        Some(s) => s,
        None => {
            return None;
        },
    };
    let (client, original_json) = match split_once(namespaced.as_str(), '|') {
        Some(parts) => parts,
        None => {
            assert(first_index_of(namespaced@, '|') is None);
            return None;
        },
    };
    proof {
        let i = choose|i: int|
            0 <= i < namespaced@.len() && namespaced@[i] == '|' && (forall|j: int| 0 <= j < i ==> namespaced@[j] != '|')
                && client@ == namespaced@.subrange(0, i) && original_json@ == namespaced@.subrange(
                i + 1,
                namespaced@.len() as int,
            );
        let k = first_index_of(namespaced@, '|')->0;
        if k < i {
            assert(namespaced@[k] != '|');
        } else if k > i {
            assert(namespaced@[i] != '|');
        }
    }
    let client_id = match parse_u64(client) {
        Ok(v) => v,
        Err(_) => {
            return None;
        },
    };
    let original = match parse_json(original_json) {
        Some(v) => v,
        None => {
            return None;
        },
    };
    set_field(json, "id", original);
    Some(client_id)
}

/// A digit's character is that many places after `0`.
proof fn lemma_digit_char(d: nat)
    requires
        d < 10,
    ensures
        is_ascii_digit(digit_char(d)),
        digit_char(d) as nat - '0' as nat == d,
{
}

/// The digits of a decimal rendering spell its number.
proof fn lemma_decimal_digits(n: nat)
    ensures
        decimal(n).len() > 0,
        forall|i: int| 0 <= i < decimal(n).len() ==> is_ascii_digit(#[trigger] decimal(n)[i]),
        digits_value(decimal(n)) == n,
        unsigned_value(decimal(n)) == Some(n),
    decreases n,
{
    lemma_digit_char(n % 10);
    if n >= 10 {
        lemma_decimal_digits(n / 10);
        let d = decimal(n);
        assert(d.drop_last() =~= decimal(n / 10));
        assert(d.last() == digit_char(n % 10));
        assert((n / 10) * 10 + n % 10 == n) by (nonlinear_arith);
        assert(digits_value(d) == n);
        assert(digits_value(d) == digits_value(decimal(n / 10)) * 10 + (digit_char(n % 10) as nat
            - '0' as nat) as nat);
        assert forall|i: int| 0 <= i < d.len() implies is_ascii_digit(#[trigger] d[i]) by {
            if i < d.len() - 1 {
                assert(d[i] == decimal(n / 10)[i]);
            }
        }
    } else {
        let d = decimal(n);
        assert(d.drop_last() =~= Seq::<char>::empty());
        assert(digits_value(d.drop_last()) == 0);
        assert(d.last() == digit_char(n));
        assert(digits_value(d) == n);
    }
    let d = decimal(n);
    assert(d[0] != '+') by {
        assert(is_ascii_digit(d[0]));
    }
}

/// A namespaced ID routes back to its client and original ID whenever the original's JSON
/// text parses back to it.
pub proof fn law_route_undoes_namespace(client_id: u64, original: Value)
    requires
        parsed_json(json_text(original)) == Some(original),
    ensures
        route_parts(namespaced_id(client_id, original)) == Some((client_id, original)),
{
    let d = decimal(client_id as nat);
    let id = namespaced_id(client_id, original);
    lemma_decimal_digits(client_id as nat);
    reveal_strlit("|");
    assert(id[d.len() as int] == '|');
    assert forall|j: int| 0 <= j < d.len() implies id[j] != '|' by {
        assert(id[j] == d[j]);
        assert(is_ascii_digit(d[j]));
    }
    let k = first_index_of(id, '|')->0;
    if k < d.len() {
        assert(id[k] != '|');
    } else if k > d.len() {
        assert(id[d.len() as int] != '|');
    }
    assert(id.subrange(0, d.len() as int) =~= d);
    assert(id.subrange(d.len() + 1int, id.len() as int) =~= json_text(original));
}

} // verus!
