//! Which credential a model request may carry, and the single refresh a turn may spend on
//! an unauthorized reply.
use vstd::prelude::*;

verus! {

#[derive(Clone, Copy, Debug, PartialEq, Eq, Structural)]
pub enum AuthMethod {
    ApiKey,
    CachedToken,
    Oidc,
}

impl AuthMethod {
    /// Cached tokens and OIDC logins are session credentials; API keys are not.
    pub fn is_session_based(self) -> (r: bool)
        ensures
            r == (self == AuthMethod::CachedToken || self == AuthMethod::Oidc),
    {
        match self {
            AuthMethod::CachedToken | AuthMethod::Oidc => true,
            AuthMethod::ApiKey => false,
        }
    }
}

#[derive(Clone, Copy, Debug, PartialEq, Eq, Structural)]
pub enum ModelByok {
    Byok,
    NotByok,
    Unknown,
}

#[derive(Clone, Copy, Debug, PartialEq, Eq, Structural)]
pub enum Endpoint {
    FirstParty,
    ThirdParty,
}

/// A session token may be sent: the login is session based, and the model is known not to
/// bring its own key, or its ownership is unknown but the endpoint is first party.
pub open spec fn session_gate(method: AuthMethod, model_byok: ModelByok, endpoint: Endpoint) -> bool {
    (method == AuthMethod::CachedToken || method == AuthMethod::Oidc) && match model_byok {
        ModelByok::NotByok => true,
        ModelByok::Byok => false,
        ModelByok::Unknown => endpoint == Endpoint::FirstParty,
    }
}

pub fn session_token_auth_gate(method: AuthMethod, model_byok: ModelByok, endpoint: Endpoint) -> (r:
    bool)
    ensures
        r == session_gate(method, model_byok, endpoint),
{
    method.is_session_based() && match model_byok {
        ModelByok::NotByok => true,
        ModelByok::Byok => false,
        ModelByok::Unknown => endpoint == Endpoint::FirstParty,
    }
}

/// A credential that never shows its value.
pub struct Secret(pub &'static str);

impl Secret {
    /// What the secret shows when debugged: never its value.
    pub fn debug_text(&self) -> (r: &'static str)
        ensures
            r@ == "<redacted>"@,
    {
        "<redacted>"
    }
}

#[derive(Clone, Copy, Debug, PartialEq, Eq, Structural)]
pub enum CredentialSource {
    Session,
    ModelByok,
}

pub struct ModelEntry {
    pub alias: &'static str,
    pub display_name: &'static str,
    pub wire_model: &'static str,
    pub endpoint: Endpoint,
    pub byok: ModelByok,
    pub model_key: Option<Secret>,
}

#[derive(Debug, PartialEq, Eq)]
pub struct SamplerConfig {
    pub wire_model: &'static str,
    pub endpoint: Endpoint,
    pub credential_source: CredentialSource,
    pub generation: u64,
}

/// The credential a model may use: its own key when it brings one, a session token for a
/// first-party model without a key when the session gate allows it, and nothing otherwise.
pub open spec fn credential_for(model: ModelEntry, method: AuthMethod) -> Option<CredentialSource> {
    if model.model_key is Some && model.byok == ModelByok::Byok {
        Some(CredentialSource::ModelByok)
    } else if model.model_key is None && model.byok == ModelByok::NotByok && model.endpoint
        == Endpoint::FirstParty && session_gate(method, model.byok, model.endpoint) {
        Some(CredentialSource::Session)
    } else {
        None
    }
}

pub open spec fn sampler_config_for(model: ModelEntry, method: AuthMethod, generation: u64) -> Option<
    SamplerConfig,
> {
    match credential_for(model, method) {
        Some(source) => Some(
            SamplerConfig {
                wire_model: model.wire_model,
                endpoint: model.endpoint,
                credential_source: source,
                generation,
            },
        ),
        None => None,
    }
}

/// The sampler configuration for a model, or the refusal when no credential may be used.
pub fn build_sampler_config(model: &ModelEntry, method: AuthMethod, generation: u64) -> (r: Result<
    SamplerConfig,
    &'static str,
>)
    ensures
        match r {
            Ok(config) => sampler_config_for(*model, method, generation) == Some(config),
            Err(e) => sampler_config_for(*model, method, generation) is None && e@
                == "no credential allowed for model/endpoint"@,
        },
{
    let credential_source = match (&model.model_key, model.byok) {
        (Some(_), ModelByok::Byok) => CredentialSource::ModelByok,
        (None, ModelByok::NotByok) if model.endpoint == Endpoint::FirstParty
            && session_token_auth_gate(method, model.byok, model.endpoint) => {
            CredentialSource::Session
        },
        _ => {
            return Err("no credential allowed for model/endpoint");
        },
    };
    Ok(
        SamplerConfig {
            wire_model: model.wire_model,
            endpoint: model.endpoint,
            credential_source,
            generation,
        },
    )
}

#[derive(Debug, PartialEq, Eq)]
pub enum Recovery {
    RefreshAndResubmit(SamplerConfig),
    SurfaceUnauthorized,
}

/// A turn's budget for recovering from an unauthorized reply.
pub struct TurnAuthRecovery {
    pub used: bool,
    pub refresh_calls: usize,
    pub sampler_generation: u64,
}

/// What an unauthorized reply does to the turn's budget, and how the turn recovers.
pub open spec fn handle_401_model(
    t: TurnAuthRecovery,
    model: ModelEntry,
    method: AuthMethod,
    refresh_succeeds: bool,
) -> (TurnAuthRecovery, Recovery) {
    if !session_gate(method, model.byok, model.endpoint) || t.used {
        (t, Recovery::SurfaceUnauthorized)
    } else if !refresh_succeeds {
        (
            TurnAuthRecovery { used: true, refresh_calls: (t.refresh_calls + 1) as usize, ..t },
            Recovery::SurfaceUnauthorized,
        )
    } else {
        let generation = (t.sampler_generation + 1) as u64;
        (
            TurnAuthRecovery {
                used: true,
                refresh_calls: (t.refresh_calls + 1) as usize,
                sampler_generation: generation,
            },
            Recovery::RefreshAndResubmit(sampler_config_for(model, method, generation)->0),
        )
    }
}

impl TurnAuthRecovery {
    /// On an unauthorized reply: a session-credentialed turn refreshes once and resubmits
    /// with a new sampler generation; anything else surfaces the error.
    pub fn handle_401(&mut self, model: &ModelEntry, method: AuthMethod, refresh_succeeds: bool) -> (r:
        Recovery)
        requires
            session_gate(method, model.byok, model.endpoint) && !old(self).used ==> {
                &&& old(self).refresh_calls < usize::MAX
                &&& refresh_succeeds ==> old(self).sampler_generation < u64::MAX
                    && credential_for(*model, method) is Some
            },
        ensures
            (*final(self), r) == handle_401_model(*old(self), *model, method, refresh_succeeds),
    {
        let eligible = session_token_auth_gate(method, model.byok, model.endpoint);
        if !eligible || self.used {
            return Recovery::SurfaceUnauthorized;
        }
        self.used = true;
        self.refresh_calls += 1;
        if !refresh_succeeds {
            return Recovery::SurfaceUnauthorized;
        }
        self.sampler_generation += 1;
        match build_sampler_config(model, method, self.sampler_generation) {
            Ok(config) => Recovery::RefreshAndResubmit(config),
            Err(_) => {
                assert(false);
                Recovery::SurfaceUnauthorized
            },
        }
    }
}

/// A turn refreshes at most once: after any unauthorized reply, a second one surfaces the
/// error and leaves the budget as it was.
pub proof fn law_one_refresh_per_turn(
    t: TurnAuthRecovery,
    model: ModelEntry,
    method: AuthMethod,
    first_refresh: bool,
    second_refresh: bool,
)
    ensures
        ({
            let (t1, _) = handle_401_model(t, model, method, first_refresh);
            let (t2, r2) = handle_401_model(t1, model, method, second_refresh);
            &&& t2 == t1
            &&& r2 == Recovery::SurfaceUnauthorized
            &&& t1.refresh_calls <= t.refresh_calls + 1
        }),
{
}

/// A model that brings its own key never receives a session token, and a refresh never
/// happens for it.
pub proof fn law_byok_never_uses_session(
    t: TurnAuthRecovery,
    model: ModelEntry,
    method: AuthMethod,
    refresh_succeeds: bool,
)
    requires
        model.byok == ModelByok::Byok,
    ensures
        credential_for(model, method) != Some(CredentialSource::Session),
        handle_401_model(t, model, method, refresh_succeeds) == (t, Recovery::SurfaceUnauthorized),
{
}

/// The session gate in full: an API key never sends a session token; a session login sends
/// one for a model known not to bring its own key on any endpoint, never for a model that
/// brings its own key, and for a model of unknown ownership only on a first-party endpoint.
pub proof fn law_session_gate_cases(method: AuthMethod, model_byok: ModelByok, endpoint: Endpoint)
    ensures
        method == AuthMethod::ApiKey ==> !session_gate(method, model_byok, endpoint),
        method != AuthMethod::ApiKey && model_byok == ModelByok::NotByok ==> session_gate(
            method,
            model_byok,
            endpoint,
        ),
        model_byok == ModelByok::Byok ==> !session_gate(method, model_byok, endpoint),
        method != AuthMethod::ApiKey && model_byok == ModelByok::Unknown ==> (session_gate(
            method,
            model_byok,
            endpoint,
        ) <==> endpoint == Endpoint::FirstParty),
{
}

} // verus!
