use vstd::prelude::*;

use crate::auth::{
    set_non_empty, CLOUD_BASE_URL,
    resolve_auth, resolve_base_url, resolve_namespace, resolve_workspace,
    resolved_auth, resolved_base_url, resolved_namespace, resolved_workspace, Credential, EnvVars,
    VERSION,
};
use crate::error::ConfigError;
use crate::json::opt_view;
use crate::text::{concat, strip_trailing, strip_trailing_str};

verus! {

broadcast use vstd::string::group_string_axioms;

/// Retries after the first attempt when none are configured.
pub const DEFAULT_MAX_RETRIES: usize = 2;

/// What a caller configured on the client builder (plain values).
#[derive(Debug, Clone, Default, PartialEq)]
pub struct ClientOptions {
    pub api_key: Option<String>,
    pub dev_key: Option<String>,
    pub base_url: Option<String>,
    pub namespace: Option<String>,
    pub workspace: Option<String>,
    pub user_agent: Option<String>,
    pub max_retries: Option<usize>,
}

/// The settings a built client runs with.
#[derive(Debug, Clone, PartialEq)]
pub struct ClientConfig {
    pub credential: Credential,
    /// Base URL without trailing `/`.
    pub base_url: String,
    /// Default namespace; empty when none applies.
    pub namespace: String,
    /// The explicitly configured workspace, when any.
    pub workspace: Option<String>,
    pub user_agent: String,
    pub max_retries: usize,
}

/// `infolang-rust/<version>`.
pub open spec fn default_user_agent_text() -> Seq<char> {
    "infolang-rust/"@ + VERSION@
}

/// The User-Agent sent when none is configured.
pub fn default_user_agent() -> (r: String)
    ensures
        r@ == default_user_agent_text(),
{
    concat("infolang-rust/", VERSION)
}

/// Builds the client settings from builder options and the environment;
/// fails exactly when no credential can be resolved.
pub fn configure(options: ClientOptions, env: &EnvVars) -> (r: Result<ClientConfig, ConfigError>)
    ensures
        match r {
            Ok(cfg) => {
                &&& resolved_auth(
                    opt_view(options.api_key),
                    opt_view(options.dev_key),
                    opt_view(env.api_key),
                    opt_view(env.dev_key),
                ) == Ok::<_, Seq<char>>(cfg.credential@)
                &&& cfg.base_url@ == strip_trailing(
                    resolved_base_url(opt_view(options.base_url), opt_view(env.base_url)),
                    '/',
                )
                &&& cfg.namespace@ == resolved_namespace(
                    opt_view(options.namespace),
                    cfg.credential@,
                    opt_view(env.namespace),
                )
                &&& opt_view(cfg.workspace) == resolved_workspace(
                    opt_view(options.workspace),
                    opt_view(env.workspace),
                    opt_view(env.workspace_id),
                )
                &&& cfg.user_agent@ == match options.user_agent {
                    Some(ua) => ua@,
                    None => default_user_agent_text(),
                }
                &&& cfg.max_retries == match options.max_retries {
                    Some(n) => n,
                    None => DEFAULT_MAX_RETRIES,
                }
            },
            Err(e) => resolved_auth(
                opt_view(options.api_key),
                opt_view(options.dev_key),
                opt_view(env.api_key),
                opt_view(env.dev_key),
            ) == Err::<crate::auth::CredentialV, _>(e.message@),
        },
{
    let credential = match resolve_auth(options.api_key, options.dev_key, env) {
        Ok(c) => c,
        Err(e) => {
            return Err(e);
        },
    };
    let base_url = resolve_base_url(options.base_url, &env.base_url);
    let namespace = resolve_namespace(options.namespace, &credential, &env.namespace);
    let workspace = resolve_workspace(options.workspace, &env.workspace, &env.workspace_id);
    let user_agent = match options.user_agent {
        Some(ua) => ua,
        None => default_user_agent(),
    };
    let max_retries = match options.max_retries {
        Some(n) => n,
        None => DEFAULT_MAX_RETRIES,
    };
    Ok(ClientConfig {
        credential,
        base_url: strip_trailing_str(base_url.as_str(), '/'),
        namespace,
        workspace,
        user_agent,
        max_retries,
    })
}


/// Unless a base URL is configured or set in the environment, a client talks
/// to the managed gateway, whatever its credential (dev keys included).
pub proof fn law_gateway_is_default(env_base_url: Option<Seq<char>>)
    requires
        set_non_empty(env_base_url) is None,
    ensures
        strip_trailing(resolved_base_url(None, env_base_url), '/') == CLOUD_BASE_URL@,
{
    reveal_strlit("https://api.infolang.ai");
    assert(CLOUD_BASE_URL@.last() == 'i');
}

} // verus!
