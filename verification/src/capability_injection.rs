//! Capability injection: tools receive typed resources from a registry rebuilt on each
//! reconfiguration, shared state outlives rebuilds, and per-call context stays per call.
use crate::text::{decimal, decimal_text};
use std::sync::atomic::{AtomicBool, AtomicUsize, Ordering};
use std::sync::Arc;
use vstd::prelude::*;
use vstd::string::*;

verus! {

/// Calls `Arc::clone`. Trusted: the clone points at the same value (std: "creates another
/// pointer to the same allocation").
#[verifier::external_body]
fn share<T>(a: &Arc<T>) -> (r: Arc<T>)
    ensures
        r == *a,
{
    Arc::clone(a)
}

/// Configuration for a tool, held as a resource.
#[derive(Clone)]
pub struct Params<T>(pub T);

/// State that outlives a rebuild of the registry.
pub struct State<T>(pub T);

#[derive(Clone, Debug, PartialEq, Eq)]
pub struct WorkspaceRoot(pub &'static str);

#[derive(Clone, Debug, PartialEq, Eq)]
pub struct ReadParams {
    pub max_bytes: usize,
}

#[derive(Clone, Debug, PartialEq, Eq)]
pub struct WebFetchClient {
    pub policy: &'static str,
}

/// How many reads ran, across rebuilds.
pub struct ReadCount(pub AtomicUsize);

/// The resource types the registry knows.
#[derive(Clone, Copy, Debug, PartialEq, Eq, Structural)]
pub enum ResourceKind {
    WorkspaceRoot,
    ReadParams,
    ReadCount,
    WebFetchClient,
    Text,
}

/// A shared resource of any known type.
pub enum AnyResource {
    WorkspaceRoot(Arc<WorkspaceRoot>),
    ReadParams(Arc<Params<ReadParams>>),
    ReadCount(Arc<State<ReadCount>>),
    WebFetchClient(Arc<WebFetchClient>),
    Text(Arc<String>),
}

pub open spec fn kind_of(r: AnyResource) -> ResourceKind {
    match r {
        AnyResource::WorkspaceRoot(_) => ResourceKind::WorkspaceRoot,
        AnyResource::ReadParams(_) => ResourceKind::ReadParams,
        AnyResource::ReadCount(_) => ResourceKind::ReadCount,
        AnyResource::WebFetchClient(_) => ResourceKind::WebFetchClient,
        AnyResource::Text(_) => ResourceKind::Text,
    }
}

/// A type that can be stored in the registry, keyed by its kind.
pub trait Resource: Sized {
    spec fn kind() -> ResourceKind;

    /// The value, if the resource holds one of this type.
    spec fn from_any(r: AnyResource) -> Option<Arc<Self>>;

    fn resource_kind() -> (k: ResourceKind)
        ensures
            k == Self::kind(),
    ;

    fn wrap(value: Arc<Self>) -> (r: AnyResource)
        ensures
            kind_of(r) == Self::kind(),
            Self::from_any(r) == Some(value),
    ;

    fn downcast(r: &AnyResource) -> (v: Option<Arc<Self>>)
        ensures
            v == Self::from_any(*r),
            kind_of(*r) == Self::kind() <==> v is Some,
    ;
}

impl Resource for WorkspaceRoot {
    open spec fn kind() -> ResourceKind {
        ResourceKind::WorkspaceRoot
    }

    open spec fn from_any(r: AnyResource) -> Option<Arc<Self>> {
        match r {
            AnyResource::WorkspaceRoot(v) => Some(v),
            _ => None,
        }
    }

    fn resource_kind() -> (k: ResourceKind) {
        ResourceKind::WorkspaceRoot
    }

    fn wrap(value: Arc<Self>) -> (r: AnyResource) {
        AnyResource::WorkspaceRoot(value)
    }

    fn downcast(r: &AnyResource) -> (v: Option<Arc<Self>>) {
        match r {
            AnyResource::WorkspaceRoot(v) => Some(share(v)),
            _ => None,
        }
    }
}

impl Resource for Params<ReadParams> {
    open spec fn kind() -> ResourceKind {
        ResourceKind::ReadParams
    }

    open spec fn from_any(r: AnyResource) -> Option<Arc<Self>> {
        match r {
            AnyResource::ReadParams(v) => Some(v),
            _ => None,
        }
    }

    fn resource_kind() -> (k: ResourceKind) {
        ResourceKind::ReadParams
    }

    fn wrap(value: Arc<Self>) -> (r: AnyResource) {
        AnyResource::ReadParams(value)
    }

    fn downcast(r: &AnyResource) -> (v: Option<Arc<Self>>) {
        match r {
            AnyResource::ReadParams(v) => Some(share(v)),
            _ => None,
        }
    }
}

impl Resource for State<ReadCount> {
    open spec fn kind() -> ResourceKind {
        ResourceKind::ReadCount
    }

    open spec fn from_any(r: AnyResource) -> Option<Arc<Self>> {
        match r {
            AnyResource::ReadCount(v) => Some(v),
            _ => None,
        }
    }

    fn resource_kind() -> (k: ResourceKind) {
        ResourceKind::ReadCount
    }

    fn wrap(value: Arc<Self>) -> (r: AnyResource) {
        AnyResource::ReadCount(value)
    }

    fn downcast(r: &AnyResource) -> (v: Option<Arc<Self>>) {
        match r {
            AnyResource::ReadCount(v) => Some(share(v)),
            _ => None,
        }
    }
}

impl Resource for WebFetchClient {
    open spec fn kind() -> ResourceKind {
        ResourceKind::WebFetchClient
    }

    open spec fn from_any(r: AnyResource) -> Option<Arc<Self>> {
        match r {
            AnyResource::WebFetchClient(v) => Some(v),
            _ => None,
        }
    }

    fn resource_kind() -> (k: ResourceKind) {
        ResourceKind::WebFetchClient
    }

    fn wrap(value: Arc<Self>) -> (r: AnyResource) {
        AnyResource::WebFetchClient(value)
    }

    fn downcast(r: &AnyResource) -> (v: Option<Arc<Self>>) {
        match r {
            AnyResource::WebFetchClient(v) => Some(share(v)),
            _ => None,
        }
    }
}

impl Resource for String {
    open spec fn kind() -> ResourceKind {
        ResourceKind::Text
    }

    open spec fn from_any(r: AnyResource) -> Option<Arc<Self>> {
        match r {
            AnyResource::Text(v) => Some(v),
            _ => None,
        }
    }

    fn resource_kind() -> (k: ResourceKind) {
        ResourceKind::Text
    }

    fn wrap(value: Arc<Self>) -> (r: AnyResource) {
        AnyResource::Text(value)
    }

    fn downcast(r: &AnyResource) -> (v: Option<Arc<Self>>) {
        match r {
            AnyResource::Text(v) => Some(share(v)),
            _ => None,
        }
    }
}

pub open spec fn slot_of(kind: ResourceKind) -> int {
    match kind {
        ResourceKind::WorkspaceRoot => 0,
        ResourceKind::ReadParams => 1,
        ResourceKind::ReadCount => 2,
        ResourceKind::WebFetchClient => 3,
        ResourceKind::Text => 4,
    }
}

fn slot(kind: ResourceKind) -> (i: usize)
    ensures
        i == slot_of(kind),
{
    match kind {
        ResourceKind::WorkspaceRoot => 0,
        ResourceKind::ReadParams => 1,
        ResourceKind::ReadCount => 2,
        ResourceKind::WebFetchClient => 3,
        ResourceKind::Text => 4,
    }
}

/// Resources by kind; at most one per kind.
pub struct Resources {
    slots: Vec<Option<AnyResource>>,
}

impl Resources {
    pub closed spec fn slots(&self) -> Seq<Option<AnyResource>> {
        self.slots@
    }

    /// One slot per kind, each holding a resource of its kind.
    pub open spec fn wf(&self) -> bool {
        &&& self.slots().len() == 5
        &&& forall|k: ResourceKind| #[trigger]
            self.slots()[slot_of(k)] is Some ==> kind_of(self.slots()[slot_of(k)]->0) == k
    }

    pub open spec fn view(&self) -> Map<ResourceKind, AnyResource> {
        Map::new(
            |k: ResourceKind| self.slots()[slot_of(k)] is Some,
            |k: ResourceKind| self.slots()[slot_of(k)]->0,
        )
    }

    pub fn new() -> (r: Self)
        ensures
            r.wf(),
            r@ == Map::<ResourceKind, AnyResource>::empty(),
    {
        let mut slots = Vec::new();
        slots.push(None);
        slots.push(None);
        slots.push(None);
        slots.push(None);
        slots.push(None);
        let r = Resources { slots };
        assert(r@ =~= Map::<ResourceKind, AnyResource>::empty());
        r
    }

    /// Stores a value under its type, replacing any earlier one.
    pub fn insert<T: Resource>(&mut self, value: T)
        requires
            old(self).wf(),
        ensures
            final(self).wf(),
            final(self)@ == old(self)@.insert(T::kind(), final(self)@[T::kind()]),
            T::from_any(final(self)@[T::kind()]) == Some(Arc::new(value)),
    {
        self.insert_shared(Arc::new(value));
    }

    /// Stores a shared value under its type, replacing any earlier one.
    pub fn insert_shared<T: Resource>(&mut self, value: Arc<T>)
        requires
            old(self).wf(),
        ensures
            final(self).wf(),
            final(self)@ == old(self)@.insert(T::kind(), final(self)@[T::kind()]),
            T::from_any(final(self)@[T::kind()]) == Some(value),
    {
        let i = slot(T::resource_kind());
        let wrapped = T::wrap(value);
        self.slots.set(i, Some(wrapped));
        proof {
            assert forall|k: ResourceKind| #[trigger] self.slots()[slot_of(k)] is Some implies kind_of(
                self.slots()[slot_of(k)]->0,
            ) == k by {
                if k != T::kind() {
                    assert(slot_of(k) != slot_of(T::kind()));
                }
            }
            assert(self@ =~= old(self)@.insert(T::kind(), wrapped));
        }
    }

    /// The value stored under type `T`, shared.
    pub fn get<T: Resource>(&self) -> (r: Option<Arc<T>>)
        requires
            self.wf(),
        ensures
            r == if self@.contains_key(T::kind()) {
                T::from_any(self@[T::kind()])
            } else {
                None
            },
            r is Some <==> self@.contains_key(T::kind()),
    {
        let i = slot(T::resource_kind());
        match &self.slots[i] {
            Some(resource) => T::downcast(resource),
            None => None,
        }
    }

    /// The value stored under type `T`, or an error naming the missing resource.
    pub fn require<T: Resource>(&self, name: &'static str) -> (r: Result<Arc<T>, String>)
        requires
            self.wf(),
        ensures
            match r {
                Ok(v) => self@.contains_key(T::kind()) && T::from_any(self@[T::kind()]) == Some(v),
                Err(e) => !self@.contains_key(T::kind()) && e@ == "missing resource: "@ + name@,
            },
    {
        match self.get::<T>() {
            Some(v) => Ok(v),
            None => Err(String::from_str("missing resource: ").concat(name)),
        }
    }
}

impl Default for Resources {
    fn default() -> (r: Self)
        ensures
            r.wf(),
            r@ == Map::<ResourceKind, AnyResource>::empty(),
    {
        Resources::new()
    }
}

/// Per-call context: never stored in the registry.
pub struct ToolCallContext {
    pub call_id: &'static str,
    pub cancelled: Arc<AtomicBool>,
    pub ephemeral_credential: Option<&'static str>,
}

/// The resources of a toolset for a workspace: its root, read parameters, the shared read
/// count, and a web client when web access is on.
pub open spec fn toolset_has(r: Map<ResourceKind, AnyResource>, workspace: &'static str, web_enabled: bool, read_count: Arc<State<ReadCount>>) -> bool {
    &&& r.contains_key(ResourceKind::WorkspaceRoot)
    &&& WorkspaceRoot::from_any(r[ResourceKind::WorkspaceRoot]) == Some(Arc::new(WorkspaceRoot(workspace)))
    &&& r.contains_key(ResourceKind::ReadParams)
    &&& <Params<ReadParams> as Resource>::from_any(r[ResourceKind::ReadParams]) == Some(
        Arc::new(Params(ReadParams { max_bytes: 4096 })),
    )
    &&& r.contains_key(ResourceKind::ReadCount)
    &&& <State<ReadCount> as Resource>::from_any(r[ResourceKind::ReadCount]) == Some(read_count)
    &&& r.contains_key(ResourceKind::WebFetchClient) == web_enabled
    &&& web_enabled ==> WebFetchClient::from_any(r[ResourceKind::WebFetchClient]) == Some(
        Arc::new(WebFetchClient { policy: "https-only" }),
    )
    &&& !r.contains_key(ResourceKind::Text)
}

/// Builds the registry for a workspace; the read count is shared, not copied.
pub fn build_toolset(workspace: &'static str, web_enabled: bool, read_count: Arc<State<ReadCount>>) -> (r:
    Arc<Resources>)
    ensures
        r.wf(),
        toolset_has(r@, workspace, web_enabled, read_count),
{
    let mut resources = Resources::new();
    resources.insert(WorkspaceRoot(workspace));
    resources.insert(Params(ReadParams { max_bytes: 4096 }));
    resources.insert_shared(read_count);
    if web_enabled {
        resources.insert(WebFetchClient { policy: "https-only" });
    }
    Arc::new(resources)
}

/// What a read returns when it runs: the workspace root and the byte limit.
pub open spec fn read_text(root: &'static str, max_bytes: usize) -> Seq<char> {
    root@ + ":"@ + decimal(max_bytes as nat)
}

fn usize_text(n: usize) -> (s: String)
    ensures
        s@ == decimal(n as nat),
{
    decimal_text(n as u64)
}

/// The outcome of a read that was not cancelled.
pub open spec fn read_outcome(r: Map<ResourceKind, AnyResource>) -> Result<Seq<char>, Seq<char>> {
    if !r.contains_key(ResourceKind::WorkspaceRoot) {
        Err("missing resource: "@ + "WorkspaceRoot"@)
    } else if !r.contains_key(ResourceKind::ReadParams) {
        Err("missing resource: "@ + "ReadParams"@)
    } else if !r.contains_key(ResourceKind::ReadCount) {
        Err("missing resource: "@ + "ReadCount"@)
    } else {
        Ok(
            read_text(
                (WorkspaceRoot::from_any(r[ResourceKind::WorkspaceRoot])->0).0,
                (<Params<ReadParams> as Resource>::from_any(r[ResourceKind::ReadParams])->0).0.max_bytes,
            ),
        )
    }
}

pub open spec fn as_text_result(r: Result<String, String>) -> Result<Seq<char>, Seq<char>> {
    match r {
        Ok(s) => Ok(s@),
        Err(e) => Err(e@),
    }
}

/// Runs the read tool once the call's cancellation flag has been read: a cancelled call
/// stops first; otherwise the resources it needs are required in order, the shared count
/// is bumped, and the root and limit are reported. The bump goes through an atomic whose
/// value this contract does not track: it is not stated that the count rises by one.
pub fn read_with(cancelled: bool, call_id: &'static str, resources: &Resources) -> (r: Result<
    String,
    String,
>)
    requires
        resources.wf(),
    ensures
        as_text_result(r) == if cancelled {
            Err::<Seq<char>, Seq<char>>(call_id@ + " cancelled"@)
        } else {
            read_outcome(resources@)
        },
{
    if cancelled {
        return Err(String::from_str(call_id).concat(" cancelled"));
    }
    let root = match resources.require::<WorkspaceRoot>("WorkspaceRoot") {
        Ok(v) => v,
        Err(e) => {
            return Err(e);
        },
    };
    let params = match resources.require::<Params<ReadParams>>("ReadParams") {
        Ok(v) => v,
        Err(e) => {
            return Err(e);
        },
    };
    let state = match resources.require::<State<ReadCount>>("ReadCount") {
        Ok(v) => v,
        Err(e) => {
            return Err(e);
        },
    };
    state.0.0.fetch_add(1, Ordering::SeqCst);
    let mut out = String::from_str(root.0);
    out.append(":");
    let limit = usize_text(params.0.max_bytes);
    out.append(limit.as_str());
    Ok(out)
}

/// Runs the read tool for a call: reads the call's cancellation flag, then does what
/// `read_with` does with it. The flag is an atomic shared with whoever cancels, so which of
/// the two outcomes comes is not known here.
pub fn run_read(context: &ToolCallContext, resources: &Resources) -> (r: Result<String, String>)
    requires
        resources.wf(),
    ensures
        as_text_result(r) == Err::<Seq<char>, Seq<char>>(context.call_id@ + " cancelled"@)
            || as_text_result(r) == read_outcome(resources@),
{
    let cancelled = context.cancelled.load(Ordering::SeqCst);
    read_with(cancelled, context.call_id, resources)
}

/// The web tool's policy, when a web client is configured.
pub fn run_web(resources: &Resources) -> (r: Result<&'static str, String>)
    requires
        resources.wf(),
    ensures
        match r {
            Ok(policy) => resources@.contains_key(ResourceKind::WebFetchClient) && policy
                == (WebFetchClient::from_any(resources@[ResourceKind::WebFetchClient])->0).policy,
            Err(e) => !resources@.contains_key(ResourceKind::WebFetchClient) && e@
                == "missing resource: "@ + "WebFetchClient"@,
        },
{
    match resources.require::<WebFetchClient>("WebFetchClient") {
        Ok(client) => Ok(client.policy),
        Err(e) => Err(e),
    }
}

/// What is stored under a type is what a later lookup of that type gives back: the lookup
/// that `get` performs on the registry after `insert_shared` yields the stored value.
pub proof fn law_get_returns_inserted<T: Resource>(before: Resources, after: Resources, value: Arc<T>)
    requires
        before.wf(),
        after.wf(),
        after@ == before@.insert(T::kind(), after@[T::kind()]),
        T::from_any(after@[T::kind()]) == Some(value),
    ensures
        (if after@.contains_key(T::kind()) {
            T::from_any(after@[T::kind()])
        } else {
            None
        }) == Some(value),
{
}

/// Storing a value under one type leaves what a lookup of every other type gives back as it
/// was; a fresh registry gives nothing for any type. (Pointer identity of the shared value
/// is not expressible here: `==` on `Arc` compares the values pointed at.)
pub proof fn law_insert_leaves_other_types<T: Resource, U: Resource>(
    before: Resources,
    after: Resources,
    value: Arc<T>,
    fresh: Resources,
)
    requires
        before.wf(),
        after.wf(),
        after@ == before@.insert(T::kind(), after@[T::kind()]),
        T::from_any(after@[T::kind()]) == Some(value),
        U::kind() != T::kind(),
        fresh@ == Map::<ResourceKind, AnyResource>::empty(),
    ensures
        (if after@.contains_key(U::kind()) {
            U::from_any(after@[U::kind()])
        } else {
            None
        }) == (if before@.contains_key(U::kind()) {
            U::from_any(before@[U::kind()])
        } else {
            None
        }),
        !fresh@.contains_key(U::kind()),
{
}

} // verus!
