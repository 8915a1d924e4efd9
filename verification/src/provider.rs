//! Which provider, model and credential a run uses.
use crate::config::ProviderCfg;
use crate::text::{
    ascii_lower, blank, cut, find_char, first_index, has_prefix, lowered, opt_str, opt_text,
    parse_unsigned, parsed_unsigned, same, split_once, starts_with, strip_prefix, trim, trimmed,
};
use crate::vars::{var, var_or, Env};
use vstd::prelude::*;
use vstd::string::*;

verus! {

/// How hotl authenticates to the provider.
#[derive(Debug, Clone, Copy, PartialEq, Eq, Structural)]
pub enum AuthMode {
    /// hotl holds and sends a credential.
    ApiKey,
    /// hotl holds none; the endpoint authenticates upstream on its own.
    Subscription,
}

/// Whose protocol is spoken.
#[derive(Debug, Clone, Copy, PartialEq, Eq, Structural)]
pub enum Vendor {
    Anthropic,
    OpenAi,
}

/// What the providers themselves set as their defaults.
#[derive(Debug)]
pub struct Defaults {
    pub model: String,
    pub openai_base_url: String,
}

/// Where the credential comes from.
#[derive(Debug, PartialEq, Eq)]
pub enum KeyPlan {
    /// A command prints it; it is kept for so many seconds, where given.
    Helper { command: String, ttl_secs: Option<u64> },
    /// A fixed one, or none.
    Fixed(Option<String>),
}

/// The view of a [`KeyPlan`].
#[verifier::ext_equal]
pub enum KeyPlanV {
    Helper(Seq<char>, Option<u64>),
    Fixed(Option<Seq<char>>),
}

impl View for KeyPlan {
    type V = KeyPlanV;

    open spec fn view(&self) -> KeyPlanV {
        match *self {
            KeyPlan::Helper { command, ttl_secs } => KeyPlanV::Helper(command@, ttl_secs),
            KeyPlan::Fixed(k) => KeyPlanV::Fixed(opt_text(k)),
        }
    }
}

impl KeyPlan {
    /// Whether the credential can be had anew.
    pub fn refreshable(&self) -> (r: bool)
        ensures
            r == (self@ is Helper),
    {
        match self {
            KeyPlan::Helper { .. } => true,
            KeyPlan::Fixed(_) => false,
        }
    }
}

/// A provider as it is to be built, and the warning that goes with it.
#[derive(Debug)]
pub struct ProviderPlan {
    pub vendor: Vendor,
    pub model: String,
    /// The endpoint; nothing stands for the vendor's own.
    pub base_url: Option<String>,
    pub auth: AuthMode,
    pub key: KeyPlan,
    pub warning: Option<String>,
}

/// The view of a [`ProviderPlan`].
#[verifier::ext_equal]
pub struct ProviderPlanV {
    pub vendor: Vendor,
    pub model: Seq<char>,
    pub base_url: Option<Seq<char>>,
    pub auth: AuthMode,
    pub key: KeyPlanV,
    pub warning: Option<Seq<char>>,
}

impl View for ProviderPlan {
    type V = ProviderPlanV;

    open spec fn view(&self) -> ProviderPlanV {
        ProviderPlanV {
            vendor: self.vendor,
            model: self.model@,
            base_url: opt_text(self.base_url),
            auth: self.auth,
            key: self.key@,
            warning: opt_text(self.warning),
        }
    }
}

/// The text before the first `c`, or all of it.
pub open spec fn before(s: Seq<char>, c: char) -> Seq<char> {
    match first_index(s, c) {
        Some(i) => s.take(i),
        None => s,
    }
}

fn upto(s: &str, c: char) -> (r: &str)
    ensures
        r@ == before(s@, c),
{
    match find_char(s, c) {
        Some(i) => {
            let head = s.substring_char(0, i);
            assert(head@ =~= s@.take(i as int));
            head
        },
        None => s,
    }
}

/// The host of a URL's authority. A bracketed IPv6 literal stays whole.
pub open spec fn host_part(authority: Seq<char>) -> Seq<char> {
    let a = before(authority, '/');
    if a.len() > 0 && a[0] == '[' {
        match first_index(a, ']') {
            Some(i) => a.take(i + 1),
            None => a,
        }
    } else {
        before(a, ':')
    }
}

/// The host out of a URL's authority.
pub fn host_of(authority: &str) -> (r: &str)
    ensures
        r@ == host_part(authority@),
{
    let a = upto(authority, '/');
    if a.unicode_len() > 0 && a.get_char(0) == '[' {
        match find_char(a, ']') {
            Some(i) => {
                let head = a.substring_char(0, i + 1);
                assert(head@ =~= a@.take(i + 1));
                head
            },
            None => a,
        }
    } else {
        upto(a, ':')
    }
}

/// The names and addresses of the machine itself.
pub open spec fn is_loopback(host: Seq<char>) -> bool {
    host == "localhost"@ || host == "127.0.0.1"@ || host == "::1"@ || host == "[::1]"@
}

/// Whether a base URL goes over the network in the clear. What is neither
/// `https://` nor `http://` counts as clear.
pub open spec fn goes_in_the_clear(base: Seq<char>) -> bool {
    let b = lowered(trimmed(base));
    if b.len() == 0 || has_prefix(b, "https://"@) {
        false
    } else if !has_prefix(b, "http://"@) {
        true
    } else {
        let host = host_part(b.skip("http://"@.len() as int));
        !is_loopback(host) && host.len() > 0
    }
}

/// Whether a base URL goes over the network in the clear.
pub fn cleartext_nonloopback(base: &str) -> (r: bool)
    ensures
        r == goes_in_the_clear(base@),
{
    let b = ascii_lower(trim(base));
    if b.as_str().is_empty() || starts_with(b.as_str(), "https://") {
        return false;
    }
    let authority = match strip_prefix(b.as_str(), "http://") {
        Some(a) => a,
        None => {
            return true;
        },
    };
    let host = host_of(authority);
    let local = same(host, "localhost") || same(host, "127.0.0.1") || same(host, "::1") || same(
        host,
        "[::1]",
    );
    !local && !host.is_empty()
}

/// The warning on a base URL that goes in the clear: what is exposed depends
/// on whether a credential is sent.
pub open spec fn clear_warning(base: Seq<char>, auth: AuthMode, credential: bool) -> Option<
    Seq<char>,
> {
    if !goes_in_the_clear(base) {
        None
    } else if auth == AuthMode::Subscription {
        Some(
            "WARNING — [provider] base_url is a non-loopback http:// URL; prompts and session content will cross the network unencrypted. Use https:// or an SSH tunnel."@,
        )
    } else if credential {
        Some(
            "WARNING — [provider] base_url is a non-loopback http:// URL and an API key is set; the key will cross the network unencrypted. Use https:// or an SSH tunnel."@,
        )
    } else {
        None
    }
}

/// The warning on a base URL, where one is due.
pub fn warn_cleartext(base: &str, auth: AuthMode, credential_present: bool) -> (r: Option<String>)
    ensures
        opt_text(r) == clear_warning(base@, auth, credential_present),
{
    if !cleartext_nonloopback(base) {
        return None;
    }
    match auth {
        AuthMode::Subscription => Some(
            "WARNING — [provider] base_url is a non-loopback http:// URL; prompts and session content will cross the network unencrypted. Use https:// or an SSH tunnel.".to_owned(),
        ),
        AuthMode::ApiKey => {
            if credential_present {
                Some(
                    "WARNING — [provider] base_url is a non-loopback http:// URL and an API key is set; the key will cross the network unencrypted. Use https:// or an SSH tunnel.".to_owned(),
                )
            } else {
                None
            }
        },
    }
}

/// The authentication mode that is asked for, or why the word is none.
pub open spec fn auth_of(
    vars: Seq<(Seq<char>, Seq<char>)>,
    cfg: ProviderCfg,
) -> Result<AuthMode, Seq<char>> {
    match var_or(vars, "HOTL_PROVIDER_AUTH"@, opt_text(cfg.auth)) {
        None => Ok(AuthMode::ApiKey),
        Some(w) => if w == "api_key"@ {
            Ok(AuthMode::ApiKey)
        } else if w == "subscription"@ {
            Ok(AuthMode::Subscription)
        } else {
            Err(
                "unknown [provider] auth `"@ + w
                    + "`. Valid values: \"api_key\" (default — hotl holds the credential) or \"subscription\" (hotl holds no credential; the endpoint authenticates upstream, and base_url is required)."@,
            )
        },
    }
}

/// The authentication mode.
pub fn auth_mode(cfg: &ProviderCfg, env: &Env) -> (r: Result<AuthMode, String>)
    ensures
        match r {
            Ok(m) => auth_of(env@, *cfg) == Ok::<AuthMode, Seq<char>>(m),
            Err(e) => auth_of(env@, *cfg) == Err::<AuthMode, Seq<char>>(e@),
        },
{
    proof {
        reveal_strlit("api_key");
        reveal_strlit("subscription");
        assert("api_key"@.len() != "subscription"@.len());
    }
    match env.get_or("HOTL_PROVIDER_AUTH", &cfg.auth) {
        None => Ok(AuthMode::ApiKey),
        Some(w) => {
            if same(w, "api_key") {
                Ok(AuthMode::ApiKey)
            } else if same(w, "subscription") {
                Ok(AuthMode::Subscription)
            } else {
                let mut e = "unknown [provider] auth `".to_owned();
                e.append(w);
                e.append(
                    "`. Valid values: \"api_key\" (default — hotl holds the credential) or \"subscription\" (hotl holds no credential; the endpoint authenticates upstream, and base_url is required).",
                );
                Err(e)
            }
        },
    }
}

/// The provider's name and the model. A bare model means Anthropic.
pub open spec fn model_choice(
    vars: Seq<(Seq<char>, Seq<char>)>,
    cfg: ProviderCfg,
    default_model: Seq<char>,
) -> (Seq<char>, Seq<char>) {
    let raw = match var_or(vars, "HOTL_MODEL"@, opt_text(cfg.model)) {
        Some(m) => m,
        None => default_model,
    };
    match cut(raw, '/') {
        Some((p, m)) => (lowered(p), m),
        None => ("anthropic"@, raw),
    }
}

/// The provider's name and the model.
pub fn selected_model(cfg: &ProviderCfg, env: &Env, default_model: &str) -> (r: (String, String))
    ensures
        (r.0@, r.1@) == model_choice(env@, *cfg, default_model@),
{
    let raw: &str = match env.get_or("HOTL_MODEL", &cfg.model) {
        Some(m) => m,
        None => default_model,
    };
    match split_once(raw, '/') {
        Some((p, m)) => (ascii_lower(p), m.to_owned()),
        None => ("anthropic".to_owned(), raw.to_owned()),
    }
}

/// The vendor that a provider's name stands for.
pub open spec fn vendor_of(name: Seq<char>) -> Option<Vendor> {
    if name == "anthropic"@ {
        Some(Vendor::Anthropic)
    } else if name == "openai"@ || name == "oai"@ {
        Some(Vendor::OpenAi)
    } else {
        None
    }
}

/// The endpoint that the variable of the vendor, or the file, sets.
pub open spec fn endpoint_of(
    vars: Seq<(Seq<char>, Seq<char>)>,
    cfg: ProviderCfg,
    vendor: Vendor,
) -> Option<Seq<char>> {
    match vendor {
        Vendor::Anthropic => var_or(vars, "HOTL_ANTHROPIC_BASE_URL"@, opt_text(cfg.base_url)),
        Vendor::OpenAi => var_or(vars, "HOTL_OPENAI_BASE_URL"@, opt_text(cfg.base_url)),
    }
}

fn endpoint<'a>(cfg: &'a ProviderCfg, env: &'a Env, vendor: Vendor) -> (r: Option<&'a str>)
    ensures
        opt_str(r) == endpoint_of(env@, *cfg, vendor),
{
    match vendor {
        Vendor::Anthropic => env.get_or("HOTL_ANTHROPIC_BASE_URL", &cfg.base_url),
        Vendor::OpenAi => env.get_or("HOTL_OPENAI_BASE_URL", &cfg.base_url),
    }
}

fn owned(o: Option<&str>) -> (r: Option<String>)
    ensures
        opt_text(r) == opt_str(o),
{
    match o {
        Some(s) => Some(s.to_owned()),
        None => None,
    }
}

fn vendor(name: &str) -> (r: Option<Vendor>)
    ensures
        r == vendor_of(name@),
{
    if same(name, "anthropic") {
        Some(Vendor::Anthropic)
    } else if same(name, "openai") || same(name, "oai") {
        Some(Vendor::OpenAi)
    } else {
        None
    }
}

/// The endpoint in use, where it is not the vendor's own.
pub open spec fn foreign_endpoint(
    vars: Seq<(Seq<char>, Seq<char>)>,
    cfg: ProviderCfg,
    default_model: Seq<char>,
    openai_base_url: Seq<char>,
) -> Option<Seq<char>> {
    if vendor_of(model_choice(vars, cfg, default_model).0) == Some(Vendor::OpenAi) {
        match endpoint_of(vars, cfg, Vendor::OpenAi) {
            Some(b) => if b == openai_base_url {
                None
            } else {
                Some(b)
            },
            None => None,
        }
    } else {
        endpoint_of(vars, cfg, Vendor::Anthropic)
    }
}

/// The endpoint in use, where it is not the vendor's own.
pub fn active_endpoint(cfg: &ProviderCfg, env: &Env, defaults: &Defaults) -> (r: Option<String>)
    ensures
        opt_text(r) == foreign_endpoint(
            env@,
            *cfg,
            defaults.model@,
            defaults.openai_base_url@,
        ),
{
    let (name, _model) = selected_model(cfg, env, defaults.model.as_str());
    match vendor(name.as_str()) {
        Some(Vendor::OpenAi) => match endpoint(cfg, env, Vendor::OpenAi) {
            Some(b) => {
                if same(b, defaults.openai_base_url.as_str()) {
                    None
                } else {
                    Some(b.to_owned())
                }
            },
            None => None,
        },
        _ => owned(endpoint(cfg, env, Vendor::Anthropic)),
    }
}

/// The command that prints the credential: that of the environment, else that
/// of the file, unless it is blank.
pub open spec fn helper_of(vars: Seq<(Seq<char>, Seq<char>)>, cfg: ProviderCfg) -> Option<
    Seq<char>,
> {
    match var_or(vars, "HOTL_API_KEY_HELPER"@, opt_text(cfg.api_key_helper)) {
        Some(c) => if trimmed(c).len() == 0 {
            None
        } else {
            Some(c)
        },
        None => None,
    }
}

/// For how long what the command printed is kept.
pub open spec fn helper_ttl(vars: Seq<(Seq<char>, Seq<char>)>, cfg: ProviderCfg) -> Option<u64> {
    let set = match var(vars, "HOTL_API_KEY_HELPER_TTL_SECS"@) {
        Some(s) => parsed_unsigned(s, u64::MAX as nat),
        None => None,
    };
    match set {
        Some(n) => Some(n as u64),
        None => cfg.api_key_helper_ttl_secs,
    }
}

/// A configured command wins over a fixed credential.
pub open spec fn key_plan(
    vars: Seq<(Seq<char>, Seq<char>)>,
    cfg: ProviderCfg,
    fixed: Option<Seq<char>>,
) -> KeyPlanV {
    match helper_of(vars, cfg) {
        Some(c) => KeyPlanV::Helper(c, helper_ttl(vars, cfg)),
        None => KeyPlanV::Fixed(fixed),
    }
}

/// Where the credential comes from, given the provider's fixed one.
pub fn key_source_for(cfg: &ProviderCfg, env: &Env, fallback_key: Option<&str>) -> (r: KeyPlan)
    ensures
        r@ == key_plan(env@, *cfg, opt_str(fallback_key)),
{
    match env.get_or("HOTL_API_KEY_HELPER", &cfg.api_key_helper) {
        Some(c) => {
            if blank(c) {
                return KeyPlan::Fixed(owned(fallback_key));
            }
            let set: Option<u64> = match env.get("HOTL_API_KEY_HELPER_TTL_SECS") {
                Some(s) => parse_unsigned(s, u64::MAX),
                None => None,
            };
            let ttl_secs: Option<u64> = match set {
                Some(n) => Some(n),
                None => cfg.api_key_helper_ttl_secs,
            };
            KeyPlan::Helper { command: c.to_owned(), ttl_secs }
        },
        None => KeyPlan::Fixed(owned(fallback_key)),
    }
}

/// Why `auth = "subscription"` needs an endpoint.
pub open spec fn needs_base_url(variable: Seq<char>) -> Seq<char> {
    "[provider] auth = \"subscription\" requires base_url — hotl holds no credential in this mode, so it needs an endpoint that authenticates on its own. Set [provider] base_url (or "@
        + variable + ") to that endpoint, or use auth = \"api_key\"."@
}

fn subscription_needs_base_url(variable: &str) -> (r: String)
    ensures
        r@ == needs_base_url(variable@),
{
    let mut s =
        "[provider] auth = \"subscription\" requires base_url — hotl holds no credential in this mode, so it needs an endpoint that authenticates on its own. Set [provider] base_url (or ".to_owned();
    s.append(variable);
    s.append(") to that endpoint, or use auth = \"api_key\".");
    s
}

/// A subscription's provider: an endpoint is needed, and no credential is
/// held, whatever the environment offers.
pub open spec fn subscription_plan(
    vendor: Vendor,
    model: Seq<char>,
    base: Option<Seq<char>>,
    variable: Seq<char>,
) -> Result<ProviderPlanV, Seq<char>> {
    match base {
        None => Err(needs_base_url(variable)),
        Some(b) => Ok(
            ProviderPlanV {
                vendor,
                model,
                base_url: Some(b),
                auth: AuthMode::Subscription,
                key: KeyPlanV::Fixed(None),
                warning: clear_warning(b, AuthMode::Subscription, false),
            },
        ),
    }
}

fn resolve_subscription(
    vendor: Vendor,
    model: String,
    base: Option<&str>,
    variable: &str,
) -> (r: Result<ProviderPlan, String>)
    ensures
        match r {
            Ok(p) => subscription_plan(vendor, model@, opt_str(base), variable@) == Ok::<
                ProviderPlanV,
                Seq<char>,
            >(p@),
            Err(e) => subscription_plan(vendor, model@, opt_str(base), variable@) == Err::<
                ProviderPlanV,
                Seq<char>,
            >(e@),
        },
{
    match base {
        None => Err(subscription_needs_base_url(variable)),
        Some(b) => {
            let warning = warn_cleartext(b, AuthMode::Subscription, false);
            Ok(
                ProviderPlan {
                    vendor,
                    model,
                    base_url: Some(b.to_owned()),
                    auth: AuthMode::Subscription,
                    key: KeyPlan::Fixed(None),
                    warning,
                },
            )
        },
    }
}

/// Whether a key plan yields a credential.
pub open spec fn has_credential(k: KeyPlanV) -> bool {
    match k {
        KeyPlanV::Helper(_, _) => true,
        KeyPlanV::Fixed(f) => f is Some,
    }
}

fn credential(k: &KeyPlan) -> (r: bool)
    ensures
        r == has_credential(k@),
{
    match k {
        KeyPlan::Helper { .. } => true,
        KeyPlan::Fixed(f) => f.is_some(),
    }
}

/// Anthropic's provider with a credential.
pub open spec fn anthropic_plan(
    vars: Seq<(Seq<char>, Seq<char>)>,
    cfg: ProviderCfg,
    model: Seq<char>,
) -> Result<ProviderPlanV, Seq<char>> {
    let base = endpoint_of(vars, cfg, Vendor::Anthropic);
    let key = key_plan(vars, cfg, var(vars, "ANTHROPIC_API_KEY"@));
    if !has_credential(key) {
        Err(
            "ANTHROPIC_API_KEY is not set and no api_key_helper is configured.\nExport the key, set [provider] api_key_helper in config.toml, point [provider] base_url at an endpoint that authenticates for you and set auth = \"subscription\", or select another provider, e.g. HOTL_MODEL=openai/<model> (with OPENAI_API_KEY, or HOTL_OPENAI_BASE_URL for a local endpoint). `hotl watch` needs no key."@,
        )
    } else {
        Ok(
            ProviderPlanV {
                vendor: Vendor::Anthropic,
                model,
                base_url: base,
                auth: AuthMode::ApiKey,
                key,
                warning: match base {
                    Some(b) => clear_warning(b, AuthMode::ApiKey, true),
                    None => None,
                },
            },
        )
    }
}

fn resolve_anthropic(cfg: &ProviderCfg, env: &Env, model: String) -> (r: Result<
    ProviderPlan,
    String,
>)
    ensures
        match r {
            Ok(p) => anthropic_plan(env@, *cfg, model@) == Ok::<ProviderPlanV, Seq<char>>(p@),
            Err(e) => anthropic_plan(env@, *cfg, model@) == Err::<ProviderPlanV, Seq<char>>(e@),
        },
{
    let base = endpoint(cfg, env, Vendor::Anthropic);
    let key = key_source_for(cfg, env, env.get("ANTHROPIC_API_KEY"));
    if !credential(&key) {
        return Err(
            "ANTHROPIC_API_KEY is not set and no api_key_helper is configured.\nExport the key, set [provider] api_key_helper in config.toml, point [provider] base_url at an endpoint that authenticates for you and set auth = \"subscription\", or select another provider, e.g. HOTL_MODEL=openai/<model> (with OPENAI_API_KEY, or HOTL_OPENAI_BASE_URL for a local endpoint). `hotl watch` needs no key.".to_owned(),
        );
    }
    let warning = match base {
        Some(b) => warn_cleartext(b, AuthMode::ApiKey, true),
        None => None,
    };
    Ok(
        ProviderPlan {
            vendor: Vendor::Anthropic,
            model,
            base_url: owned(base),
            auth: AuthMode::ApiKey,
            key,
            warning,
        },
    )
}

/// OpenAI's provider with a credential, or without one on an endpoint of one's
/// own.
pub open spec fn openai_plan(
    vars: Seq<(Seq<char>, Seq<char>)>,
    cfg: ProviderCfg,
    model: Seq<char>,
    openai_base_url: Seq<char>,
) -> Result<ProviderPlanV, Seq<char>> {
    let base = match endpoint_of(vars, cfg, Vendor::OpenAi) {
        Some(b) => b,
        None => openai_base_url,
    };
    let key = key_plan(vars, cfg, var(vars, "OPENAI_API_KEY"@));
    if !has_credential(key) && base == openai_base_url {
        Err(
            "OPENAI_API_KEY is not set (required for api.openai.com; keyless works only with HOTL_OPENAI_BASE_URL pointing at a local/compatible endpoint, e.g. http://localhost:11434/v1 for Ollama), or configure [provider] api_key_helper."@,
        )
    } else {
        Ok(
            ProviderPlanV {
                vendor: Vendor::OpenAi,
                model,
                base_url: Some(base),
                auth: AuthMode::ApiKey,
                key,
                warning: clear_warning(
                    base,
                    AuthMode::ApiKey,
                    var(vars, "OPENAI_API_KEY"@) is Some || key is Helper,
                ),
            },
        )
    }
}

fn resolve_openai(
    cfg: &ProviderCfg,
    env: &Env,
    model: String,
    openai_base_url: &str,
) -> (r: Result<ProviderPlan, String>)
    ensures
        match r {
            Ok(p) => openai_plan(env@, *cfg, model@, openai_base_url@) == Ok::<
                ProviderPlanV,
                Seq<char>,
            >(p@),
            Err(e) => openai_plan(env@, *cfg, model@, openai_base_url@) == Err::<
                ProviderPlanV,
                Seq<char>,
            >(e@),
        },
{
    let base: &str = match endpoint(cfg, env, Vendor::OpenAi) {
        Some(b) => b,
        None => openai_base_url,
    };
    let fixed = env.get("OPENAI_API_KEY");
    let key = key_source_for(cfg, env, fixed);
    if !credential(&key) && same(base, openai_base_url) {
        return Err(
            "OPENAI_API_KEY is not set (required for api.openai.com; keyless works only with HOTL_OPENAI_BASE_URL pointing at a local/compatible endpoint, e.g. http://localhost:11434/v1 for Ollama), or configure [provider] api_key_helper.".to_owned(),
        );
    }
    let warning = warn_cleartext(base, AuthMode::ApiKey, fixed.is_some() || key.refreshable());
    Ok(
        ProviderPlan {
            vendor: Vendor::OpenAi,
            model,
            base_url: Some(base.to_owned()),
            auth: AuthMode::ApiKey,
            key,
            warning,
        },
    )
}

/// The provider that a run uses, or why there is none. The authentication
/// word is judged before the provider's name.
pub open spec fn provider_plan(
    vars: Seq<(Seq<char>, Seq<char>)>,
    cfg: ProviderCfg,
    default_model: Seq<char>,
    openai_base_url: Seq<char>,
) -> Result<ProviderPlanV, Seq<char>> {
    let (name, model) = model_choice(vars, cfg, default_model);
    match auth_of(vars, cfg) {
        Err(e) => Err(e),
        Ok(auth) => match vendor_of(name) {
            Some(Vendor::Anthropic) => if auth == AuthMode::Subscription {
                subscription_plan(
                    Vendor::Anthropic,
                    model,
                    endpoint_of(vars, cfg, Vendor::Anthropic),
                    "HOTL_ANTHROPIC_BASE_URL"@,
                )
            } else {
                anthropic_plan(vars, cfg, model)
            },
            Some(Vendor::OpenAi) => if auth == AuthMode::Subscription {
                subscription_plan(
                    Vendor::OpenAi,
                    model,
                    endpoint_of(vars, cfg, Vendor::OpenAi),
                    "HOTL_OPENAI_BASE_URL"@,
                )
            } else {
                openai_plan(vars, cfg, model, openai_base_url)
            },
            None => Err(
                "unknown provider `"@ + name
                    + "` in HOTL_MODEL. Supported: anthropic/<model>, openai/<model> (openai covers any OpenAI-compatible endpoint via HOTL_OPENAI_BASE_URL)."@,
            ),
        },
    }
}

/// Chooses the provider, the model and the source of the credential.
pub fn select_provider(cfg: &ProviderCfg, env: &Env, defaults: &Defaults) -> (r: Result<
    ProviderPlan,
    String,
>)
    ensures
        match r {
            Ok(p) => provider_plan(env@, *cfg, defaults.model@, defaults.openai_base_url@) == Ok::<
                ProviderPlanV,
                Seq<char>,
            >(p@),
            Err(e) => provider_plan(env@, *cfg, defaults.model@, defaults.openai_base_url@)
                == Err::<ProviderPlanV, Seq<char>>(e@),
        },
{
    let (name, model) = selected_model(cfg, env, defaults.model.as_str());
    let auth = match auth_mode(cfg, env) {
        Ok(a) => a,
        Err(e) => {
            return Err(e);
        },
    };
    match vendor(name.as_str()) {
        Some(Vendor::Anthropic) => {
            if auth == AuthMode::Subscription {
                resolve_subscription(
                    Vendor::Anthropic,
                    model,
                    endpoint(cfg, env, Vendor::Anthropic),
                    "HOTL_ANTHROPIC_BASE_URL",
                )
            } else {
                resolve_anthropic(cfg, env, model)
            }
        },
        Some(Vendor::OpenAi) => {
            if auth == AuthMode::Subscription {
                resolve_subscription(
                    Vendor::OpenAi,
                    model,
                    endpoint(cfg, env, Vendor::OpenAi),
                    "HOTL_OPENAI_BASE_URL",
                )
            } else {
                resolve_openai(cfg, env, model, defaults.openai_base_url.as_str())
            }
        },
        None => {
            let mut e = "unknown provider `".to_owned();
            e.append(name.as_str());
            e.append(
                "` in HOTL_MODEL. Supported: anthropic/<model>, openai/<model> (openai covers any OpenAI-compatible endpoint via HOTL_OPENAI_BASE_URL).",
            );
            Err(e)
        },
    }
}

/// Under a subscription no credential is ever held, whatever keys and helpers
/// the environment and the file offer, and there is always an endpoint.
pub proof fn subscriptions_hold_no_credential(
    vars: Seq<(Seq<char>, Seq<char>)>,
    cfg: ProviderCfg,
    default_model: Seq<char>,
    openai_base_url: Seq<char>,
)
    requires
        auth_of(vars, cfg) == Ok::<AuthMode, Seq<char>>(AuthMode::Subscription),
    ensures
        provider_plan(vars, cfg, default_model, openai_base_url) matches Ok(p) ==> p.key
            == KeyPlanV::Fixed(None) && p.base_url is Some && p.auth == AuthMode::Subscription,
{
}

/// A credential never crosses the network in the clear without a warning.
pub proof fn exposed_credentials_are_warned_of(
    vars: Seq<(Seq<char>, Seq<char>)>,
    cfg: ProviderCfg,
    default_model: Seq<char>,
    openai_base_url: Seq<char>,
)
    ensures
        provider_plan(vars, cfg, default_model, openai_base_url) matches Ok(p) ==> (p.base_url
            is Some && goes_in_the_clear(p.base_url->0) && (has_credential(p.key) || p.auth
            == AuthMode::Subscription) ==> p.warning is Some),
        provider_plan(vars, cfg, default_model, openai_base_url) matches Ok(p) ==> (p.warning
            is Some ==> p.base_url is Some && goes_in_the_clear(p.base_url->0)),
{
}

/// A configured command wins over every fixed credential.
pub proof fn helpers_win(
    vars: Seq<(Seq<char>, Seq<char>)>,
    cfg: ProviderCfg,
    default_model: Seq<char>,
    openai_base_url: Seq<char>,
)
    requires
        helper_of(vars, cfg) is Some,
        auth_of(vars, cfg) == Ok::<AuthMode, Seq<char>>(AuthMode::ApiKey),
        vendor_of(model_choice(vars, cfg, default_model).0) is Some,
    ensures
        provider_plan(vars, cfg, default_model, openai_base_url) matches Ok(p) && p.key
            == KeyPlanV::Helper(helper_of(vars, cfg)->0, helper_ttl(vars, cfg)),
{
}

/// `https` endpoints and the machine itself are never said to be in the clear.
pub proof fn safe_endpoints_are_exempt(base: Seq<char>)
    ensures
        has_prefix(lowered(trimmed(base)), "https://"@) ==> !goes_in_the_clear(base),
        has_prefix(lowered(trimmed(base)), "http://"@) && is_loopback(
            host_part(lowered(trimmed(base)).skip("http://"@.len() as int)),
        ) ==> !goes_in_the_clear(base),
{
}

proof fn provider_words_differ()
    ensures
        "anthropic"@ != "openai"@,
        "anthropic"@ != "oai"@,
        "openai"@ != "oai"@,
        "api_key"@ != "subscription"@,
        "HOTL_MODEL"@ != "HOTL_PROVIDER_AUTH"@,
        "HOTL_MODEL"@ != "HOTL_API_KEY_HELPER"@,
        "HOTL_MODEL"@ != "HOTL_ANTHROPIC_BASE_URL"@,
        "HOTL_MODEL"@ != "HOTL_OPENAI_BASE_URL"@,
        "HOTL_MODEL"@ != "ANTHROPIC_API_KEY"@,
        "HOTL_MODEL"@ != "OPENAI_API_KEY"@,
        "HOTL_PROVIDER_AUTH"@ != "HOTL_API_KEY_HELPER"@,
        "HOTL_PROVIDER_AUTH"@ != "HOTL_ANTHROPIC_BASE_URL"@,
        "HOTL_PROVIDER_AUTH"@ != "HOTL_OPENAI_BASE_URL"@,
        "HOTL_PROVIDER_AUTH"@ != "ANTHROPIC_API_KEY"@,
        "HOTL_PROVIDER_AUTH"@ != "OPENAI_API_KEY"@,
        "HOTL_API_KEY_HELPER"@ != "HOTL_ANTHROPIC_BASE_URL"@,
        "HOTL_API_KEY_HELPER"@ != "HOTL_OPENAI_BASE_URL"@,
        "HOTL_API_KEY_HELPER"@ != "ANTHROPIC_API_KEY"@,
        "HOTL_API_KEY_HELPER"@ != "OPENAI_API_KEY"@,
        "HOTL_ANTHROPIC_BASE_URL"@ != "HOTL_OPENAI_BASE_URL"@,
        "HOTL_ANTHROPIC_BASE_URL"@ != "ANTHROPIC_API_KEY"@,
        "HOTL_ANTHROPIC_BASE_URL"@ != "OPENAI_API_KEY"@,
        "HOTL_OPENAI_BASE_URL"@ != "ANTHROPIC_API_KEY"@,
        "HOTL_OPENAI_BASE_URL"@ != "OPENAI_API_KEY"@,
        "ANTHROPIC_API_KEY"@ != "OPENAI_API_KEY"@,
{
    reveal_strlit("anthropic");
    reveal_strlit("openai");
    reveal_strlit("oai");
    reveal_strlit("api_key");
    reveal_strlit("subscription");
    reveal_strlit("HOTL_MODEL");
    reveal_strlit("HOTL_PROVIDER_AUTH");
    reveal_strlit("HOTL_API_KEY_HELPER");
    reveal_strlit("HOTL_ANTHROPIC_BASE_URL");
    reveal_strlit("HOTL_OPENAI_BASE_URL");
    reveal_strlit("ANTHROPIC_API_KEY");
    reveal_strlit("OPENAI_API_KEY");
    assert("anthropic"@.len() != "openai"@.len());
    assert("anthropic"@.len() != "oai"@.len());
    assert("openai"@.len() != "oai"@.len());
    assert("api_key"@.len() != "subscription"@.len());
    assert("HOTL_MODEL"@.len() != "HOTL_PROVIDER_AUTH"@.len());
    assert("HOTL_MODEL"@.len() != "HOTL_API_KEY_HELPER"@.len());
    assert("HOTL_MODEL"@.len() != "HOTL_ANTHROPIC_BASE_URL"@.len());
    assert("HOTL_MODEL"@.len() != "HOTL_OPENAI_BASE_URL"@.len());
    assert("HOTL_MODEL"@.len() != "ANTHROPIC_API_KEY"@.len());
    assert("HOTL_MODEL"@.len() != "OPENAI_API_KEY"@.len());
    assert("HOTL_PROVIDER_AUTH"@.len() != "HOTL_API_KEY_HELPER"@.len());
    assert("HOTL_PROVIDER_AUTH"@.len() != "HOTL_ANTHROPIC_BASE_URL"@.len());
    assert("HOTL_PROVIDER_AUTH"@.len() != "HOTL_OPENAI_BASE_URL"@.len());
    assert("HOTL_PROVIDER_AUTH"@.len() != "ANTHROPIC_API_KEY"@.len());
    assert("HOTL_PROVIDER_AUTH"@.len() != "OPENAI_API_KEY"@.len());
    assert("HOTL_API_KEY_HELPER"@.len() != "HOTL_ANTHROPIC_BASE_URL"@.len());
    assert("HOTL_API_KEY_HELPER"@.len() != "HOTL_OPENAI_BASE_URL"@.len());
    assert("HOTL_API_KEY_HELPER"@.len() != "ANTHROPIC_API_KEY"@.len());
    assert("HOTL_API_KEY_HELPER"@.len() != "OPENAI_API_KEY"@.len());
    assert("HOTL_ANTHROPIC_BASE_URL"@.len() != "HOTL_OPENAI_BASE_URL"@.len());
    assert("HOTL_ANTHROPIC_BASE_URL"@.len() != "ANTHROPIC_API_KEY"@.len());
    assert("HOTL_ANTHROPIC_BASE_URL"@.len() != "OPENAI_API_KEY"@.len());
    assert("HOTL_OPENAI_BASE_URL"@.len() != "ANTHROPIC_API_KEY"@.len());
    assert("HOTL_OPENAI_BASE_URL"@.len() != "OPENAI_API_KEY"@.len());
    assert("ANTHROPIC_API_KEY"@.len() != "OPENAI_API_KEY"@.len());
}

/// A host ends where its port or its path begins; one in brackets ends with its
/// bracket, whatever colons it holds.
pub proof fn hosts_end_at_port_or_path(host: Seq<char>, rest: Seq<char>)
    ensures
        !host.contains('/') && !host.contains(':') && host.len() > 0 && host[0] != '[' ==> host_part(
            host,
        ) == host && host_part(host.push(':') + rest) == host && host_part(host.push('/') + rest)
            == host,
        !host.contains('/') && !host.contains(']') ==> host_part(
            seq!['['] + host + seq![']', ':'] + rest,
        ) == seq!['['] + host + seq![']'] && host_part(seq!['['] + host + seq![']'])
            == seq!['['] + host + seq![']'],
{
    if !host.contains('/') && !host.contains(':') && host.len() > 0 && host[0] != '[' {
        no_mark(host, '/');
        no_mark(host, ':');
        let a = host.push(':') + rest;
        let cut_a = before(a, '/');
        before_keeps(host.push(':'), '/', rest);
        mark_after(host, ':', cut_a);
        let b = host.push('/') + rest;
        mark_after(host, '/', b);
        assert(before(b, '/') =~= host);
    }
    if !host.contains('/') && !host.contains(']') {
        let whole = seq!['['] + host + seq![']'];
        assert forall|i: int| 0 <= i < whole.len() implies whole[i] != '/' by {
            if 0 < i < whole.len() - 1 {
                assert(whole[i] == host[i - 1]);
                assert(host.contains(host[i - 1]));
            }
        }
        no_mark(whole, '/');
        let inner = seq!['['] + host;
        assert forall|i: int| 0 <= i < inner.len() implies inner[i] != ']' by {
            if 0 < i {
                assert(inner[i] == host[i - 1]);
                assert(host.contains(host[i - 1]));
            }
        }
        assert(!inner.contains(']'));
        mark_after(inner, ']', whole);
        let long = seq!['['] + host + seq![']', ':'] + rest;
        assert(long =~= whole.push(':') + rest);
        assert(!whole.push(':').contains('/'));
        before_keeps(whole.push(':'), '/', rest);
        let c = before(long, '/');
        mark_after(inner, ']', c);
        assert(c.take(inner.len() as int + 1) =~= whole);
        assert(whole.take(inner.len() as int + 1) =~= whole);
    }
}

proof fn no_mark(s: Seq<char>, c: char)
    requires
        !s.contains(c),
    ensures
        first_index(s, c) is None,
        before(s, c) == s,
{
    crate::text::first_index_shape(s, c);
    if first_index(s, c) is Some {
        assert(s[first_index(s, c)->0] == c);
    }
}

/// Where `s` leads `t` and `c` follows it there, `c` first stands behind it.
proof fn mark_after(s: Seq<char>, c: char, t: Seq<char>)
    requires
        !s.contains(c),
        s.push(c).is_prefix_of(t),
    ensures
        first_index(t, c) == Some(s.len() as int),
        before(t, c) == s,
{
    let p = s.push(c);
    assert(t[s.len() as int] == p[s.len() as int]);
    assert forall|j: int| 0 <= j < s.len() implies #[trigger] t[j] != c by {
        assert(t[j] == p[j]);
        assert(s.contains(s[j]));
    }
    crate::text::first_index_is(t, c, s.len() as int);
    assert(t.take(s.len() as int) =~= s) by {
        assert forall|j: int| 0 <= j < s.len() implies t[j] == s[j] by {
            assert(t[j] == p[j]);
        }
    }
}

proof fn before_keeps(s: Seq<char>, c: char, rest: Seq<char>)
    requires
        !s.contains(c),
    ensures
        s.is_prefix_of(before(s + rest, c)),
{
    let t = s + rest;
    crate::text::first_index_shape(t, c);
    match first_index(t, c) {
        Some(i) => {
            if i < s.len() {
                assert(t[i] == s[i]);
                assert(s.contains(s[i]));
            }
            assert(t.take(i).take(s.len() as int) =~= s);
        },
        None => {
            assert(t.take(s.len() as int) =~= s);
        },
    }
}

/// A base address goes in the clear unless it is blank, encrypted, or on this very
/// machine: case and white space around it make no difference.
pub proof fn only_safe_addresses_are_silent(base: Seq<char>, host: Seq<char>, rest: Seq<char>)
    requires
        !host.contains('/'),
        !host.contains(':'),
        host.len() > 0,
        host[0] != '[',
    ensures
        trimmed(base).len() == 0 ==> !goes_in_the_clear(base),
        lowered(trimmed(base)) == "https://"@ + rest ==> !goes_in_the_clear(base),
        lowered(trimmed(base)) == "http://"@ + host + "/"@ + rest || lowered(trimmed(base))
            == "http://"@ + host || lowered(trimmed(base)) == "http://"@ + host + ":"@ + rest ==> (
        goes_in_the_clear(base) <==> host != "localhost"@ && host != "127.0.0.1"@),
        trimmed(base).len() > 0 && !"https://"@.is_prefix_of(lowered(trimmed(base)))
            && !"http://"@.is_prefix_of(lowered(trimmed(base))) ==> goes_in_the_clear(base),
{
    reveal_strlit("https://");
    reveal_strlit("http://");
    reveal_strlit(":");
    reveal_strlit("/");
    reveal_strlit("::1");
    reveal_strlit("[::1]");
    let b = lowered(trimmed(base));
    let h = "http://"@;
    let hs = "https://"@;
    if b == hs + rest {
        assert(b.subrange(0, hs.len() as int) =~= hs);
        assert(b.take(hs.len() as int) =~= hs);
    }
    assert(host != "::1"@) by {
        if host == "::1"@ {
            assert(host[0] == ':');
            assert(host.contains(':'));
        }
    }
    assert(host != "[::1]"@);
    hosts_end_at_port_or_path(host, rest);
    if b == h + host || b == h + host + "/"@ + rest || b == h + host + ":"@ + rest {
        assert(b.take(7) =~= h);
        assert(b.subrange(0, 7) =~= h);
        assert(b[4] == ':');
        assert(hs[4] == 's');
        assert(!has_prefix(b, hs)) by {
            if has_prefix(b, hs) {
                assert(b.subrange(0, 8)[4] == 's');
                assert(b.take(8)[4] == 's');
            }
        }
        if b == h + host {
            assert(b.skip(7) =~= host);
        } else if b == h + host + "/"@ + rest {
            assert(b.skip(7) =~= host.push('/') + rest);
        } else {
            assert(b.skip(7) =~= host.push(':') + rest);
        }
    }
    if trimmed(base).len() > 0 && !hs.is_prefix_of(b) && !h.is_prefix_of(b) {
        if has_prefix(b, hs) {
            assert(hs =~= b.take(hs.len() as int));
        }
        if has_prefix(b, h) {
            assert(h =~= b.take(h.len() as int));
        }
    }
}

/// The environment's model comes before the file's, and the file's before the
/// default. What stands before its first slash names the provider, in any case;
/// without one the provider is the default one and the model is the whole text.
pub proof fn models_name_their_provider(
    vars: Seq<(Seq<char>, Seq<char>)>,
    cfg: ProviderCfg,
    default_model: Seq<char>,
    provider: Seq<char>,
    model: Seq<char>,
)
    requires
        !provider.contains('/'),
    ensures
        ({
            let chosen = match var(vars, "HOTL_MODEL"@) {
                Some(m) => m,
                None => match opt_text(cfg.model) {
                    Some(m) => m,
                    None => default_model,
                },
            };
            &&& chosen == provider.push('/') + model ==> model_choice(vars, cfg, default_model) == (
                lowered(provider),
                model,
            )
            &&& chosen == provider ==> model_choice(vars, cfg, default_model) == (
                "anthropic"@,
                provider,
            )
        }),
        vendor_of("anthropic"@) == Some(Vendor::Anthropic),
        vendor_of("openai"@) == Some(Vendor::OpenAi),
        vendor_of("oai"@) == Some(Vendor::OpenAi),
        provider != "anthropic"@ && provider != "openai"@ && provider != "oai"@ ==> vendor_of(
            provider,
        ) is None,
{
    provider_words_differ();
    let whole = provider.push('/') + model;
    assert(whole.take(provider.len() as int + 1) =~= provider.push('/'));
    mark_after(provider, '/', whole);
    assert(whole.take(provider.len() as int) =~= provider);
    assert(whole.skip(provider.len() as int + 1) =~= model);
    no_mark(provider, '/');
}

/// A plan is for the provider and the model that were chosen, and for the endpoint
/// that is set for that provider; a provider's own key goes to it and to no other.
pub proof fn plans_are_for_what_was_chosen(
    vars: Seq<(Seq<char>, Seq<char>)>,
    cfg: ProviderCfg,
    default_model: Seq<char>,
    openai_base_url: Seq<char>,
)
    ensures
        provider_plan(vars, cfg, default_model, openai_base_url) matches Ok(p) ==> {
            let (name, model) = model_choice(vars, cfg, default_model);
            &&& p.model == model
            &&& p.vendor == Vendor::Anthropic <==> name == "anthropic"@
            &&& p.vendor == Vendor::OpenAi <==> name == "openai"@ || name == "oai"@
            &&& p.vendor == Vendor::Anthropic ==> p.base_url == (match var(
                vars,
                "HOTL_ANTHROPIC_BASE_URL"@,
            ) {
                Some(b) => Some(b),
                None => opt_text(cfg.base_url),
            })
            &&& p.vendor == Vendor::OpenAi ==> p.base_url == Some(
                match var(vars, "HOTL_OPENAI_BASE_URL"@) {
                    Some(b) => b,
                    None => match opt_text(cfg.base_url) {
                        Some(b) => b,
                        None => openai_base_url,
                    },
                },
            )
            &&& p.key matches KeyPlanV::Fixed(Some(k)) ==> if p.vendor == Vendor::Anthropic {
                var(vars, "ANTHROPIC_API_KEY"@) == Some(k)
            } else {
                var(vars, "OPENAI_API_KEY"@) == Some(k)
            }
            &&& p.key matches KeyPlanV::Helper(c, ttl) ==> Some(c) == (match var(
                vars,
                "HOTL_API_KEY_HELPER"@,
            ) {
                Some(h) => Some(h),
                None => opt_text(cfg.api_key_helper),
            }) && trimmed(c).len() > 0
        },
{
    provider_words_differ();
}

/// A run comes about where there is a way to authenticate, and not without: a
/// subscription needs an endpoint, the first provider needs a key or a helper, and
/// so does the second at its own endpoint, but not at another.
pub proof fn runs_need_a_way_in(
    vars: Seq<(Seq<char>, Seq<char>)>,
    cfg: ProviderCfg,
    default_model: Seq<char>,
    openai_base_url: Seq<char>,
)
    ensures
        ({
            let name = model_choice(vars, cfg, default_model).0;
            let said = match var(vars, "HOTL_PROVIDER_AUTH"@) {
                Some(w) => Some(w),
                None => opt_text(cfg.auth),
            };
            let theirs = said == Some("subscription"@);
            let ours = said is None || said == Some("api_key"@);
            let helper = helper_of(vars, cfg) is Some;
            let ok = provider_plan(vars, cfg, default_model, openai_base_url) is Ok;
            let a = endpoint_of(vars, cfg, Vendor::Anthropic);
            let o = endpoint_of(vars, cfg, Vendor::OpenAi);
            &&& !theirs && !ours ==> !ok
            &&& vendor_of(name) is None ==> !ok
            &&& name == "anthropic"@ && theirs ==> (ok <==> a is Some)
            &&& (name == "openai"@ || name == "oai"@) && theirs ==> (ok <==> o is Some)
            &&& name == "anthropic"@ && ours ==> (ok <==> helper || var(
                vars,
                "ANTHROPIC_API_KEY"@,
            ) is Some)
            &&& (name == "openai"@ || name == "oai"@) && ours ==> (ok <==> helper || var(
                vars,
                "OPENAI_API_KEY"@,
            ) is Some || (o is Some && o != Some(openai_base_url)))
        }),
{
    provider_words_differ();
}

/// A credential that would cross the network in the clear is warned of, and so is
/// a session that somebody else authenticates; an endpoint of one's own without a
/// credential is not.
pub proof fn warnings_are_for_what_is_exposed(base: Seq<char>, credential: bool)
    ensures
        goes_in_the_clear(base) ==> clear_warning(base, AuthMode::Subscription, credential) is Some,
        goes_in_the_clear(base) ==> (clear_warning(base, AuthMode::ApiKey, credential) is Some
            <==> credential),
        !goes_in_the_clear(base) ==> clear_warning(base, AuthMode::Subscription, credential) is None
            && clear_warning(base, AuthMode::ApiKey, credential) is None,
{
}

/// An endpoint is foreign where one is set that is not the provider's own.
pub proof fn foreign_endpoints_are_set_ones(
    vars: Seq<(Seq<char>, Seq<char>)>,
    cfg: ProviderCfg,
    default_model: Seq<char>,
    openai_base_url: Seq<char>,
)
    ensures
        ({
            let name = model_choice(vars, cfg, default_model).0;
            let open = name == "openai"@ || name == "oai"@;
            let own = if open {
                var(vars, "HOTL_OPENAI_BASE_URL"@)
            } else {
                var(vars, "HOTL_ANTHROPIC_BASE_URL"@)
            };
            let set = match own {
                Some(b) => Some(b),
                None => opt_text(cfg.base_url),
            };
            foreign_endpoint(vars, cfg, default_model, openai_base_url) == (if open && set == Some(
                openai_base_url,
            ) {
                None
            } else {
                set
            })
        }),
{
    provider_words_differ();
}

} // verus!
