use vstd::prelude::*;

use crate::error::ConfigError;
use crate::json::opt_view;
use crate::text::{chars_of, concat, owned, push_char};

verus! {

broadcast use vstd::string::group_string_axioms;

/// Managed cloud gateway base URL — always the default.
pub const CLOUD_BASE_URL: &'static str = "https://api.infolang.ai";

/// Self-hosted base URL of 0.2.x. The direct endpoint is gone; kept only so
/// older code compiles.
pub const DIRECT_BASE_URL: &'static str = "http://127.0.0.1:8766";

/// Crate semver; stamped into the default User-Agent header.
pub const VERSION: &'static str = "0.3.0";

/// Bearer authentication with a managed-cloud API key (`il_live_...`).
#[derive(Debug, Clone, PartialEq)]
pub struct ApiKeyAuth {
    pub key: String,
}

impl ApiKeyAuth {
    pub fn new(key: &str) -> (r: Self)
        ensures
            r.key@ == key@,
    {
        ApiKeyAuth { key: owned(key) }
    }
}

/// Self-hosted dev key in `key:namespace` form. The direct endpoint is gone;
/// prefer an API key against the gateway.
#[derive(Debug, Clone, PartialEq)]
pub struct DevKeyAuth {
    pub key: String,
    pub namespace: String,
}

/// `i` is the position of the first `c` in `s`.
pub open spec fn is_first_index(s: Seq<char>, c: char, i: int) -> bool {
    &&& 0 <= i < s.len()
    &&& s[i] == c
    &&& forall|j: int| 0 <= j < i ==> s[j] != c
}

/// The position of the first `c` in `s`, when there is one.
pub open spec fn first_index_of(s: Seq<char>, c: char) -> Option<int> {
    if exists|i: int| is_first_index(s, c, i) {
        Some(choose|i: int| is_first_index(s, c, i))
    } else {
        None
    }
}

pub proof fn lemma_first_index_unique(s: Seq<char>, c: char, i: int)
    requires
        is_first_index(s, c, i),
    ensures
        first_index_of(s, c) == Some(i),
{
    let k = choose|k: int| is_first_index(s, c, k);
    if k < i {
        assert(s[k] != c);
    } else if k > i {
        assert(s[i] != c);
    }
}

/// The key and namespace of a raw dev key: split at the first `:`; the key
/// must not be empty, the namespace may be.
pub open spec fn dev_key_parts(raw: Seq<char>) -> Option<(Seq<char>, Seq<char>)> {
    match first_index_of(raw, ':') {
        Some(i) => if i > 0 {
            Some((raw.take(i), raw.skip(i + 1)))
        } else {
            None
        },
        None => None,
    }
}

pub open spec fn dev_key_form_message() -> Seq<char> {
    "dev key must be in 'key:namespace' form"@
}

impl DevKeyAuth {
    pub fn parse(raw: &str) -> (r: Result<Self, ConfigError>)
        ensures
            match r {
                Ok(auth) => dev_key_parts(raw@) == Some((auth.key@, auth.namespace@)),
                Err(e) => dev_key_parts(raw@) is None && e.message@ == dev_key_form_message(),
            },
    {
        let cs = chars_of(raw);
        let n = cs.len();
        let mut i: usize = 0;
        while i < n && cs[i] != ':'
            invariant
                cs@ == raw@,
                n == cs.len(),
                i <= n,
                forall|j: int| 0 <= j < i ==> raw@[j] != ':',
            decreases n - i,
        {
            i = i + 1;
        }
        if i == n || i == 0 {
            proof {
                if i == 0 && n > 0 {
                    lemma_first_index_unique(raw@, ':', 0);
                } else {
                    assert(!exists|k: int| is_first_index(raw@, ':', k));
                }
            }
            return Err(ConfigError { message: owned("dev key must be in 'key:namespace' form") });
        }
        proof {
            lemma_first_index_unique(raw@, ':', i as int);
        }
        let mut key = String::new();
        let mut j: usize = 0;
        while j < i
            invariant
                cs@ == raw@,
                j <= i < n == cs.len(),
                key@ == raw@.take(j as int),
            decreases i - j,
        {
            push_char(&mut key, cs[j]);
            proof {
                assert(raw@.take(j + 1) =~= raw@.take(j as int).push(raw@[j as int]));
            }
            j = j + 1;
        }
        let mut namespace = String::new();
        let mut k: usize = i + 1;
        while k < n
            invariant
                cs@ == raw@,
                i < k <= n == cs.len(),
                namespace@ == raw@.subrange(i + 1, k as int),
            decreases n - k,
        {
            push_char(&mut namespace, cs[k]);
            proof {
                assert(raw@.subrange(i + 1, k + 1) =~= raw@.subrange(i + 1, k as int).push(
                    raw@[k as int],
                ));
            }
            k = k + 1;
        }
        proof {
            assert(raw@.subrange(i + 1, n as int) =~= raw@.skip(i + 1));
        }
        Ok(DevKeyAuth { key, namespace })
    }
}

/// A dev key written `key:namespace` reads back as that key and namespace,
/// whenever the key is non-empty and holds no `:`.
pub proof fn law_dev_key_round_trip(key: Seq<char>, namespace: Seq<char>)
    requires
        key.len() > 0,
        forall|j: int| 0 <= j < key.len() ==> key[j] != ':',
    ensures
        dev_key_parts(key + seq![':'] + namespace) == Some((key, namespace)),
{
    let raw = key + seq![':'] + namespace;
    assert(raw[key.len() as int] == ':');
    assert forall|j: int| 0 <= j < key.len() implies raw[j] != ':' by {
        assert(raw[j] == key[j]);
    }
    lemma_first_index_unique(raw, ':', key.len() as int);
    assert(raw.take(key.len() as int) =~= key);
    assert(raw.skip(key.len() + 1int) =~= namespace);
}

/// The credential a client signs its requests with.
#[derive(Debug, Clone, PartialEq)]
pub enum Credential {
    ApiKey(ApiKeyAuth),
    DevKey(DevKeyAuth),
}

/// The mathematical value of a [`Credential`].
pub enum CredentialV {
    ApiKey(Seq<char>),
    DevKey(Seq<char>, Seq<char>),
}

impl View for Credential {
    type V = CredentialV;

    open spec fn view(&self) -> CredentialV {
        match self {
            Credential::ApiKey(a) => CredentialV::ApiKey(a.key@),
            Credential::DevKey(d) => CredentialV::DevKey(d.key@, d.namespace@),
        }
    }
}

impl CredentialV {
    pub open spec fn key(self) -> Seq<char> {
        match self {
            CredentialV::ApiKey(k) => k,
            CredentialV::DevKey(k, _) => k,
        }
    }

    /// Dev keys pin the namespace they name.
    pub open spec fn pinned_namespace(self) -> Option<Seq<char>> {
        match self {
            CredentialV::ApiKey(_) => None,
            CredentialV::DevKey(_, ns) => Some(ns),
        }
    }
}

impl Credential {
    pub fn pinned_namespace(&self) -> (r: Option<&String>)
        ensures
            match r {
                Some(ns) => self@.pinned_namespace() == Some(ns@),
                None => self@.pinned_namespace() is None,
            },
    {
        match self {
            Credential::ApiKey(_) => None,
            Credential::DevKey(d) => Some(&d.namespace),
        }
    }

    /// The `Authorization` header value: `Bearer <key>`.
    pub fn authorization(&self) -> (r: String)
        ensures
            r@ == "Bearer "@ + self@.key(),
    {
        match self {
            Credential::ApiKey(a) => concat("Bearer ", a.key.as_str()),
            Credential::DevKey(d) => concat("Bearer ", d.key.as_str()),
        }
    }
}

/// Values of the `INFOLANG_*` environment variables (`None` when unset or
/// not valid Unicode).
#[derive(Debug, Clone, Default, PartialEq)]
pub struct EnvVars {
    pub api_key: Option<String>,
    pub dev_key: Option<String>,
    pub base_url: Option<String>,
    pub namespace: Option<String>,
    pub workspace: Option<String>,
    pub workspace_id: Option<String>,
}

/// A variable that is set to a non-empty value.
pub open spec fn set_non_empty(v: Option<Seq<char>>) -> Option<Seq<char>> {
    match v {
        Some(s) => if s.len() > 0 {
            Some(s)
        } else {
            None
        },
        None => None,
    }
}

pub open spec fn no_credentials_message() -> Seq<char> {
    "no credentials: pass an api key, dev_key, or set INFOLANG_API_KEY"@
}

/// The credential a raw dev key gives, or the error message.
pub open spec fn dev_key_outcome(raw: Seq<char>) -> Result<CredentialV, Seq<char>> {
    match dev_key_parts(raw) {
        Some((k, ns)) => Ok(CredentialV::DevKey(k, ns)),
        None => Err(dev_key_form_message()),
    }
}

/// Credential resolution: explicit API key, explicit dev key,
/// `INFOLANG_API_KEY`, `INFOLANG_DEV_KEY`, in that order; empty variables
/// count as unset.
pub open spec fn resolved_auth(
    api_key: Option<Seq<char>>,
    dev_key: Option<Seq<char>>,
    env_api_key: Option<Seq<char>>,
    env_dev_key: Option<Seq<char>>,
) -> Result<CredentialV, Seq<char>> {
    if api_key is Some {
        Ok(CredentialV::ApiKey(api_key->0))
    } else if dev_key is Some {
        dev_key_outcome(dev_key->0)
    } else if set_non_empty(env_api_key) is Some {
        Ok(CredentialV::ApiKey(env_api_key->0))
    } else if set_non_empty(env_dev_key) is Some {
        dev_key_outcome(env_dev_key->0)
    } else {
        Err(no_credentials_message())
    }
}

pub open spec fn auth_outcome(r: Result<Credential, ConfigError>) -> Result<CredentialV, Seq<char>> {
    match r {
        Ok(c) => Ok(c@),
        Err(e) => Err(e.message@),
    }
}

fn dev_credential(raw: &str) -> (r: Result<Credential, ConfigError>)
    ensures
        auth_outcome(r) == dev_key_outcome(raw@),
{
    match DevKeyAuth::parse(raw) {
        Ok(d) => Ok(Credential::DevKey(d)),
        Err(e) => Err(e),
    }
}

fn is_set(v: &Option<String>) -> (r: bool)
    ensures
        r == (set_non_empty(opt_view(*v)) is Some),
{
    match v {
        Some(s) => !s.as_str().is_empty(),
        None => false,
    }
}

/// Picks the credential (see [`resolved_auth`]).
pub fn resolve_auth(api_key: Option<String>, dev_key: Option<String>, env: &EnvVars) -> (r: Result<
    Credential,
    ConfigError,
>)
    ensures
        auth_outcome(r) == resolved_auth(
            opt_view(api_key),
            opt_view(dev_key),
            opt_view(env.api_key),
            opt_view(env.dev_key),
        ),
{
    if let Some(key) = api_key {
        return Ok(Credential::ApiKey(ApiKeyAuth::new(key.as_str())));
    }
    if let Some(raw) = dev_key {
        return dev_credential(raw.as_str());
    }
    if is_set(&env.api_key) {
        if let Some(key) = &env.api_key {
            return Ok(Credential::ApiKey(ApiKeyAuth::new(key.as_str())));
        }
    }
    if is_set(&env.dev_key) {
        if let Some(raw) = &env.dev_key {
            return dev_credential(raw.as_str());
        }
    }
    Err(ConfigError { message: owned("no credentials: pass an api key, dev_key, or set INFOLANG_API_KEY") })
}

/// Base URL resolution: explicit value, then a non-empty `INFOLANG_BASE_URL`,
/// then the managed gateway. Credentials play no part.
pub open spec fn resolved_base_url(base_url: Option<Seq<char>>, env_base_url: Option<Seq<char>>) -> Seq<char> {
    if base_url is Some {
        base_url->0
    } else if set_non_empty(env_base_url) is Some {
        env_base_url->0
    } else {
        CLOUD_BASE_URL@
    }
}

pub fn resolve_base_url(base_url: Option<String>, env_base_url: &Option<String>) -> (r: String)
    ensures
        r@ == resolved_base_url(opt_view(base_url), opt_view(*env_base_url)),
{
    if let Some(url) = base_url {
        return url;
    }
    if is_set(env_base_url) {
        if let Some(url) = env_base_url {
            return url.clone();
        }
    }
    owned(CLOUD_BASE_URL)
}

/// Namespace resolution: explicit value, then the namespace a dev key pins,
/// then `INFOLANG_NAMESPACE` (empty when unset).
pub open spec fn resolved_namespace(
    namespace: Option<Seq<char>>,
    credential: CredentialV,
    env_namespace: Option<Seq<char>>,
) -> Seq<char> {
    if namespace is Some {
        namespace->0
    } else if credential.pinned_namespace() is Some {
        credential.pinned_namespace()->0
    } else if env_namespace is Some {
        env_namespace->0
    } else {
        Seq::empty()
    }
}

pub fn resolve_namespace(
    namespace: Option<String>,
    credential: &Credential,
    env_namespace: &Option<String>,
) -> (r: String)
    ensures
        r@ == resolved_namespace(opt_view(namespace), credential@, opt_view(*env_namespace)),
{
    if let Some(ns) = namespace {
        return ns;
    }
    if let Some(ns) = credential.pinned_namespace() {
        return ns.clone();
    }
    match env_namespace {
        Some(ns) => ns.clone(),
        None => String::new(),
    }
}

/// Workspace resolution: explicit value (even empty), then a non-empty
/// `INFOLANG_WORKSPACE`, then a non-empty `INFOLANG_WORKSPACE_ID`.
pub open spec fn resolved_workspace(
    workspace: Option<Seq<char>>,
    env_workspace: Option<Seq<char>>,
    env_workspace_id: Option<Seq<char>>,
) -> Option<Seq<char>> {
    if workspace is Some {
        workspace
    } else if set_non_empty(env_workspace) is Some {
        env_workspace
    } else {
        set_non_empty(env_workspace_id)
    }
}

pub fn resolve_workspace(
    workspace: Option<String>,
    env_workspace: &Option<String>,
    env_workspace_id: &Option<String>,
) -> (r: Option<String>)
    ensures
        opt_view(r) == resolved_workspace(
            opt_view(workspace),
            opt_view(*env_workspace),
            opt_view(*env_workspace_id),
        ),
{
    if workspace.is_some() {
        return workspace;
    }
    if is_set(env_workspace) {
        return env_workspace.clone();
    }
    if is_set(env_workspace_id) {
        return env_workspace_id.clone();
    }
    None
}

/// A dev key pins its namespace unless a namespace is given explicitly.
pub proof fn law_dev_key_pins_namespace(raw: Seq<char>, env_namespace: Option<Seq<char>>)
    requires
        dev_key_parts(raw) is Some,
    ensures
        dev_key_parts(raw) matches Some((key, namespace)) && dev_key_outcome(raw) == Ok::<
            CredentialV,
            Seq<char>,
        >(CredentialV::DevKey(key, namespace)) && resolved_namespace(
            None,
            CredentialV::DevKey(key, namespace),
            env_namespace,
        ) == namespace,
{
}

/// A credential given to the builder always wins over the environment: a
/// given API key is used as it is; otherwise a given dev key is read as
/// `key:namespace` (or its form error is reported), whatever
/// `INFOLANG_API_KEY` and `INFOLANG_DEV_KEY` hold. Only with neither given
/// does a non-empty `INFOLANG_API_KEY` apply, and it beats `INFOLANG_DEV_KEY`.
pub proof fn law_explicit_credential_wins(
    api_key: Option<Seq<char>>,
    dev_key: Option<Seq<char>>,
    env_api_key: Option<Seq<char>>,
    env_dev_key: Option<Seq<char>>,
)
    ensures
        api_key is Some ==> resolved_auth(api_key, dev_key, env_api_key, env_dev_key) == Ok::<
            CredentialV,
            Seq<char>,
        >(CredentialV::ApiKey(api_key->0)),
        api_key is None && dev_key is Some ==> resolved_auth(
            api_key,
            dev_key,
            env_api_key,
            env_dev_key,
        ) == match dev_key_parts(dev_key->0) {
            Some((key, namespace)) => Ok::<CredentialV, Seq<char>>(
                CredentialV::DevKey(key, namespace),
            ),
            None => Err::<CredentialV, Seq<char>>(dev_key_form_message()),
        },
        api_key is None && dev_key is Some ==> resolved_auth(
            api_key,
            dev_key,
            env_api_key,
            env_dev_key,
        ) == resolved_auth(api_key, dev_key, None, None),
        api_key is None && dev_key is None && env_api_key is Some && (env_api_key->0).len() > 0
            ==> resolved_auth(api_key, dev_key, env_api_key, env_dev_key) == Ok::<
            CredentialV,
            Seq<char>,
        >(CredentialV::ApiKey(env_api_key->0)),
{
}

} // verus!
