//! Source-aware configuration: the highest-priority source that sets a value wins, and
//! layered JSON settings merge key by key.
use crate::text::same_text;
use vstd::prelude::*;

verus! {

#[derive(Clone, Copy, Debug, PartialEq, Eq, Structural)]
pub enum ConfigSource {
    Requirements,
    Cli,
    Env,
    Config,
    Remote,
    Default,
}

#[derive(Clone, Debug, PartialEq, Eq)]
pub struct Resolved<T> {
    pub value: T,
    pub source: ConfigSource,
}

#[derive(Default)]
pub struct Inputs<T> {
    pub requirements: Option<T>,
    pub cli: Option<T>,
    pub env: Option<T>,
    pub config: Option<T>,
    pub remote: Option<T>,
    pub default: T,
}

/// The first source, in priority order, that sets a value; the default when none does.
pub open spec fn winner<T>(inputs: Inputs<T>) -> (T, ConfigSource) {
    match inputs.requirements {
        Some(v) => (v, ConfigSource::Requirements),
        None => match inputs.cli {
            Some(v) => (v, ConfigSource::Cli),
            None => match inputs.env {
                Some(v) => (v, ConfigSource::Env),
                None => match inputs.config {
                    Some(v) => (v, ConfigSource::Config),
                    None => match inputs.remote {
                        Some(v) => (v, ConfigSource::Remote),
                        None => (inputs.default, ConfigSource::Default),
                    },
                },
            },
        },
    }
}

/// Picks the value of the highest-priority source that sets one.
pub fn resolve<T>(inputs: Inputs<T>) -> (r: Resolved<T>)
    ensures
        (r.value, r.source) == winner(inputs),
{
    let Inputs { requirements, cli, env, config, remote, default } = inputs;
    match requirements {
        Some(value) => Resolved { value, source: ConfigSource::Requirements },
        None => match cli {
            Some(value) => Resolved { value, source: ConfigSource::Cli },
            None => match env {
                Some(value) => Resolved { value, source: ConfigSource::Env },
                None => match config {
                    Some(value) => Resolved { value, source: ConfigSource::Config },
                    None => match remote {
                        Some(value) => Resolved { value, source: ConfigSource::Remote },
                        None => Resolved { value: default, source: ConfigSource::Default },
                    },
                },
            },
        },
    }
}

/// A pinned requirement beats every other source; without any override the default is used.
pub proof fn law_requirements_pin_and_default_backs<T>(inputs: Inputs<T>)
    ensures
        inputs.requirements is Some ==> winner(inputs) == (
            inputs.requirements->0,
            ConfigSource::Requirements,
        ),
        (inputs.requirements is None && inputs.cli is None && inputs.env is None
            && inputs.config is None && inputs.remote is None) ==> winner(inputs) == (
            inputs.default,
            ConfigSource::Default,
        ),
{
}

/// A JSON value as settings hold it. Numbers keep their JSON text; an object's members keep
/// their order of arrival, and no key occurs twice in a well-formed value.
#[derive(Debug, PartialEq)]
pub enum Json {
    Null,
    Bool(bool),
    Number(String),
    Text(String),
    Array(Vec<Json>),
    Object(Vec<(String, Json)>),
}

/// A JSON value as mathematics: an object is a map from keys to values.
pub enum JsonModel {
    Null,
    Bool(bool),
    Number(Seq<char>),
    Text(Seq<char>),
    Array(Seq<JsonModel>),
    Object(Map<Seq<char>, JsonModel>),
}

pub open spec fn model(j: Json) -> JsonModel
    decreases j,
{
    match j {
        Json::Null => JsonModel::Null,
        Json::Bool(b) => JsonModel::Bool(b),
        Json::Number(t) => JsonModel::Number(t@),
        Json::Text(t) => JsonModel::Text(t@),
        Json::Array(v) => JsonModel::Array(item_models(v@)),
        Json::Object(v) => JsonModel::Object(member_map(v@)),
    }
}

pub open spec fn item_models(s: Seq<Json>) -> Seq<JsonModel>
    decreases s,
{
    if s.len() == 0 {
        Seq::empty()
    } else {
        item_models(s.drop_last()).push(model(s.last()))
    }
}

pub open spec fn member_map(s: Seq<(String, Json)>) -> Map<Seq<char>, JsonModel>
    decreases s,
{
    if s.len() == 0 {
        Map::empty()
    } else {
        member_map(s.drop_last()).insert(s.last().0@, model(s.last().1))
    }
}

/// No key occurs twice among an object's members.
pub open spec fn unique_keys(s: Seq<(String, Json)>) -> bool {
    forall|i: int, j: int| 0 <= i < j < s.len() ==> #[trigger] s[i].0@ != #[trigger] s[j].0@
}

/// Every object, at every depth, has unique keys.
pub open spec fn json_wf(j: Json) -> bool
    decreases j,
{
    match j {
        Json::Array(v) => items_wf(v@),
        Json::Object(v) => unique_keys(v@) && members_wf(v@),
        _ => true,
    }
}

pub open spec fn items_wf(s: Seq<Json>) -> bool
    decreases s,
{
    s.len() == 0 || (items_wf(s.drop_last()) && json_wf(s.last()))
}

pub open spec fn members_wf(s: Seq<(String, Json)>) -> bool
    decreases s,
{
    s.len() == 0 || (members_wf(s.drop_last()) && json_wf(s.last().1))
}

/// Deep merge: two objects merge key by key, recursively; anything else is replaced by the
/// overlay.
pub open spec fn merged(base: JsonModel, overlay: JsonModel) -> JsonModel
    decreases overlay,
{
    match (base, overlay) {
        (JsonModel::Object(b), JsonModel::Object(o)) => JsonModel::Object(
            Map::new(
                |k: Seq<char>| b.contains_key(k) || o.contains_key(k),
                |k: Seq<char>|
                    if o.contains_key(k) && b.contains_key(k) {
                        merged(b[k], o[k])
                    } else if o.contains_key(k) {
                        o[k]
                    } else {
                        b[k]
                    },
            ),
        ),
        _ => overlay,
    }
}

/// The keys of an object's members are the keys of its map.
pub proof fn lemma_member_map_keys(s: Seq<(String, Json)>, k: Seq<char>)
    ensures
        member_map(s).contains_key(k) <==> exists|j: int| 0 <= j < s.len() && #[trigger] s[j].0@ == k,
    decreases s.len(),
{
    if s.len() > 0 {
        lemma_member_map_keys(s.drop_last(), k);
        if member_map(s.drop_last()).contains_key(k) {
            let j = choose|j: int| 0 <= j < s.drop_last().len() && #[trigger] s.drop_last()[j].0@ == k;
            assert(s[j].0@ == k);
        }
        if exists|j: int| 0 <= j < s.len() && #[trigger] s[j].0@ == k {
            let j = choose|j: int| 0 <= j < s.len() && #[trigger] s[j].0@ == k;
            if j < s.len() - 1 {
                assert(s.drop_last()[j].0@ == k);
            }
        }
    }
}

/// With unique keys, the map gives each member's value under its key.
pub proof fn lemma_member_map_value(s: Seq<(String, Json)>, j: int)
    requires
        unique_keys(s),
        0 <= j < s.len(),
    ensures
        member_map(s).contains_key(s[j].0@),
        member_map(s)[s[j].0@] == model(s[j].1),
    decreases s.len(),
{
    if j < s.len() - 1 {
        assert(s.drop_last()[j] == s[j]);
        assert(s[j].0@ != s[s.len() - 1].0@);
        lemma_member_map_value(s.drop_last(), j);
    }
}

/// Replacing a member's value under the same key replaces it in the map.
pub proof fn lemma_member_map_update(s: Seq<(String, Json)>, j: int, e: (String, Json))
    requires
        unique_keys(s),
        0 <= j < s.len(),
        e.0@ == s[j].0@,
    ensures
        member_map(s.update(j, e)) == member_map(s).insert(e.0@, model(e.1)),
    decreases s.len(),
{
    let t = s.update(j, e);
    if j == s.len() - 1 {
        assert(t.drop_last() =~= s.drop_last());
        assert(member_map(t) =~= member_map(s).insert(e.0@, model(e.1)));
    } else {
        assert(t.drop_last() =~= s.drop_last().update(j, e));
        assert(s.drop_last()[j] == s[j]);
        lemma_member_map_update(s.drop_last(), j, e);
        assert(s[j].0@ != s[s.len() - 1].0@);
        assert(member_map(t) =~= member_map(s).insert(e.0@, model(e.1)));
    }
}

/// Each member of a well-formed object is well formed.
pub proof fn lemma_members_wf_at(s: Seq<(String, Json)>, j: int)
    requires
        members_wf(s),
        0 <= j < s.len(),
    ensures
        json_wf(s[j].1),
    decreases s.len(),
{
    if j < s.len() - 1 {
        assert(s.drop_last()[j] == s[j]);
        lemma_members_wf_at(s.drop_last(), j);
    }
}

/// Replacing a member by a well-formed one keeps the members well formed.
pub proof fn lemma_members_wf_update(s: Seq<(String, Json)>, j: int, e: (String, Json))
    requires
        members_wf(s),
        0 <= j < s.len(),
        json_wf(e.1),
    ensures
        members_wf(s.update(j, e)),
    decreases s.len(),
{
    let t = s.update(j, e);
    if j == s.len() - 1 {
        assert(t.drop_last() =~= s.drop_last());
    } else {
        assert(t.drop_last() =~= s.drop_last().update(j, e));
        lemma_members_wf_update(s.drop_last(), j, e);
    }
}

/// The object map after the first `i` overlay members have been merged into the base.
pub open spec fn merged_prefix(
    bm: Map<Seq<char>, JsonModel>,
    om: Map<Seq<char>, JsonModel>,
    o: Seq<(String, Json)>,
    i: int,
) -> Map<Seq<char>, JsonModel> {
    Map::new(
        |k: Seq<char>| bm.contains_key(k) || merged_key(o, i, k),
        |k: Seq<char>|
            if merged_key(o, i, k) && bm.contains_key(k) {
                merged(bm[k], om[k])
            } else if merged_key(o, i, k) {
                om[k]
            } else {
                bm[k]
            },
    )
}

pub open spec fn merged_key(o: Seq<(String, Json)>, i: int, k: Seq<char>) -> bool {
    exists|j: int| 0 <= j < i && #[trigger] o[j].0@ == k
}

fn find_member(members: &Vec<(String, Json)>, key: &str) -> (r: Option<usize>)
    ensures
        match r {
            Some(i) => i < members@.len() && members@[i as int].0@ == key@,
            None => forall|i: int| 0 <= i < members@.len() ==> #[trigger] members@[i].0@ != key@,
        },
{
    let mut i: usize = 0;
    while i < members.len()
        invariant
            i <= members@.len(),
            forall|j: int| 0 <= j < i ==> #[trigger] members@[j].0@ != key@,
        decreases members@.len() - i,
    {
        if same_text(members[i].0.as_str(), key) {
            return Some(i);
        }
        i = i + 1;
    }
    None
}

#[verifier::loop_isolation(false)]
fn merge_values(base: Json, overlay: Json) -> (r: Json)
    requires
        json_wf(base),
        json_wf(overlay),
    ensures
        json_wf(r),
        model(r) == merged(model(base), model(overlay)),
    decreases overlay,
{
    let ghost ov = overlay;
    match base {
        Json::Object(mut members) => match overlay {
            Json::Object(mut incoming) => {
                let ghost ovec = incoming;
                let ghost b0 = members@;
                let ghost o0 = incoming@;
                let ghost bm = member_map(b0);
                let ghost om = member_map(o0);
                let ghost mut i: int = 0;
                proof {
                    assert(merged_prefix(bm, om, o0, 0) =~= bm);
                    assert(o0.subrange(0, o0.len() as int) =~= o0);
                }
                while incoming.len() > 0
                    invariant
                        ov == Json::Object(ovec),
                        o0 == ovec@,
                        0 <= i <= o0.len(),
                        incoming@ == o0.subrange(i, o0.len() as int),
                        unique_keys(o0),
                        members_wf(o0),
                        om == member_map(o0),
                        unique_keys(members@),
                        members_wf(members@),
                        member_map(members@) == merged_prefix(bm, om, o0, i),
                    decreases incoming@.len(),
                {
                    let (key, value) = incoming.remove(0);
                    proof {
                        assert(o0[i] == (key, value));
                        lemma_members_wf_at(o0, i);
                        lemma_member_map_value(o0, i);
                        assert(!merged_key(o0, i, key@));
                        assert(decreases_to!(ov => ov->Object_0));
                        assert(decreases_to!(ovec => ovec@));
                        assert(decreases_to!(ovec@ => ovec@[i]));
                        assert(decreases_to!(ovec@[i] => ovec@[i].1));
                    }
                    let ghost before = members@;
                    match find_member(&members, key.as_str()) {
                        Some(j) => {
                            let (k2, existing) = members.remove(j);
                            proof {
                                assert(before[j as int] == (k2, existing));
                                lemma_members_wf_at(before, j as int);
                                lemma_member_map_value(before, j as int);
                            }
                            let m = merge_values(existing, value);
                            members.insert(j, (k2, m));
                            proof {
                                assert(members@ =~= before.update(j as int, (k2, m)));
                                lemma_member_map_update(before, j as int, (k2, m));
                                lemma_members_wf_update(before, j as int, (k2, m));
                                assert(bm.contains_key(key@));
                                assert(model(existing) == bm[key@]);
                                assert forall|q: Seq<char>| #[trigger] merged_key(o0, i + 1, q) == (merged_key(o0, i, q) || q == key@) by {
                                    if merged_key(o0, i + 1, q) {
                                        let t = choose|t: int| 0 <= t < i + 1 && #[trigger] o0[t].0@ == q;
                                        if t < i {
                                            assert(merged_key(o0, i, q));
                                        }
                                    }
                                    if q == key@ {
                                        assert(o0[i].0@ == q);
                                    }
                                }
                                assert(member_map(members@) =~= merged_prefix(bm, om, o0, i + 1));
                            }
                        },
                        None => {
                            proof {
                                lemma_member_map_keys(before, key@);
                                assert(!bm.contains_key(key@));
                            }
                            members.push((key, value));
                            proof {
                                assert(members@.drop_last() =~= before);
                                assert forall|q: Seq<char>| #[trigger] merged_key(o0, i + 1, q) == (merged_key(o0, i, q) || q == key@) by {
                                    if merged_key(o0, i + 1, q) {
                                        let t = choose|t: int| 0 <= t < i + 1 && #[trigger] o0[t].0@ == q;
                                        if t < i {
                                            assert(merged_key(o0, i, q));
                                        }
                                    }
                                    if q == key@ {
                                        assert(o0[i].0@ == q);
                                    }
                                }
                                assert(member_map(members@) =~= merged_prefix(bm, om, o0, i + 1));
                            }
                        },
                    }
                    proof {
                        i = i + 1;
                        assert(incoming@ =~= o0.subrange(i, o0.len() as int));
                    }
                }
                proof {
                    assert forall|q: Seq<char>| #[trigger] merged_key(o0, i, q) == om.contains_key(q) by {
                        lemma_member_map_keys(o0, q);
                        if om.contains_key(q) {
                            let t = choose|t: int| 0 <= t < o0.len() && #[trigger] o0[t].0@ == q;
                            assert(merged_key(o0, i, q));
                        }
                    }
                    assert(member_map(members@) =~= match merged(JsonModel::Object(bm), JsonModel::Object(om)) {
                        JsonModel::Object(m) => m,
                        _ => Map::empty(),
                    });
                }
                Json::Object(members)
            },
            other => other,
        },
        _ => overlay,
    }
}

/// Merges `overlay` into `base`: objects merge key by key, recursively; anything else is
/// replaced by the overlay.
pub fn deep_merge(base: &mut Json, overlay: Json)
    requires
        json_wf(*old(base)),
        json_wf(overlay),
    ensures
        json_wf(*final(base)),
        model(*final(base)) == merged(model(*old(base)), model(overlay)),
{
    let mut current = Json::Null;
    std::mem::swap(&mut current, base);
    *base = merge_values(current, overlay);
}

/// In a merge of two objects, the overlay's non-object values win, the base's keys that the
/// overlay lacks survive, and keys present on both sides whose values are both objects merge
/// again.
pub proof fn law_overlay_wins_base_survives(b: Map<Seq<char>, JsonModel>, o: Map<Seq<char>, JsonModel>, k: Seq<char>)
    ensures
        ({
            let r = merged(JsonModel::Object(b), JsonModel::Object(o));
            &&& r is Object
            &&& (r->Object_0.contains_key(k) <==> (b.contains_key(k) || o.contains_key(k)))
            &&& o.contains_key(k) && !(o[k] is Object) ==> r->Object_0[k] == o[k]
            &&& b.contains_key(k) && !o.contains_key(k) ==> r->Object_0[k] == b[k]
            &&& b.contains_key(k) && o.contains_key(k) ==> r->Object_0[k] == merged(b[k], o[k])
        }),
{
}

/// The priority order in full: requirements, then the command line, the environment, the
/// config file, the remote settings, and last the default. A source is chosen exactly when
/// it sets a value and every source before it is silent, whatever the later ones hold.
pub proof fn law_priority_order<T>(inputs: Inputs<T>)
    ensures
        inputs.requirements is Some ==> winner(inputs) == (
            inputs.requirements->0,
            ConfigSource::Requirements,
        ),
        inputs.requirements is None && inputs.cli is Some ==> winner(inputs) == (
            inputs.cli->0,
            ConfigSource::Cli,
        ),
        inputs.requirements is None && inputs.cli is None && inputs.env is Some ==> winner(inputs)
            == (inputs.env->0, ConfigSource::Env),
        inputs.requirements is None && inputs.cli is None && inputs.env is None
            && inputs.config is Some ==> winner(inputs) == (inputs.config->0, ConfigSource::Config),
        inputs.requirements is None && inputs.cli is None && inputs.env is None
            && inputs.config is None && inputs.remote is Some ==> winner(inputs) == (
            inputs.remote->0,
            ConfigSource::Remote,
        ),
        winner(inputs).1 == ConfigSource::Default ==> (inputs.requirements is None
            && inputs.cli is None && inputs.env is None && inputs.config is None
            && inputs.remote is None && winner(inputs).0 == inputs.default),
{
}

} // verus!
