//! Resource scopes and abilities, as authorization tokens name them.
//!
//! A scope is written `hypha://<node>/<resource type>`; an ability is one of
//! `hypha/execute`, `hypha/store`, `hypha/sense` and `hypha/admin`.

use vstd::prelude::*;
use vstd::string::{StrSliceExecFns, StringExecFns};
use url::Url;

verus! {

#[verifier::external_type_specification]
#[verifier::external_body]
pub struct ExUrl(Url);

/// The scheme of the URL.
pub uninterp spec fn scheme_of(url: Url) -> Seq<char>;

/// The host of the URL, if it has one.
pub uninterp spec fn host_of(url: Url) -> Option<Seq<char>>;

/// The path of the URL.
pub uninterp spec fn path_of(url: Url) -> Seq<char>;

/// Trusted: `url::Url::scheme`. The text is the scheme of the URL.
#[verifier::external_body]
fn url_scheme(url: &Url) -> (scheme: String)
    ensures
        scheme@ == scheme_of(*url),
{
    url.scheme().to_string()
}

/// Trusted: `url::Url::host_str`. The text is the host of the URL, and
/// missing where the URL has none.
#[verifier::external_body]
fn url_host(url: &Url) -> (host: Option<String>)
    ensures
        match host {
            Some(text) => host_of(*url) == Some(text@),
            None => host_of(*url).is_none(),
        },
{
    match url.host_str() {
        Some(host) => Some(host.to_string()),
        None => None,
    }
}

/// Trusted: `url::Url::path`. The text is the path of the URL.
#[verifier::external_body]
fn url_path(url: &Url) -> (path: String)
    ensures
        path@ == path_of(*url),
{
    url.path().to_string()
}

/// The resources of one kind at one node.
#[derive(Debug)]
pub struct HyphaScope {
    pub origin_node: String,
    pub resource_type: String,
}

impl Clone for HyphaScope {
    fn clone(&self) -> (r: HyphaScope)
        ensures
            r.origin_node@ == self.origin_node@,
            r.resource_type@ == self.resource_type@,
    {
        HyphaScope {
            origin_node: self.origin_node.clone(),
            resource_type: self.resource_type.clone(),
        }
    }
}

impl PartialEq for HyphaScope {
    fn eq(&self, other: &HyphaScope) -> (r: bool) {
        self.origin_node == other.origin_node && self.resource_type == other.resource_type
    }
}

impl vstd::std_specs::cmp::PartialEqSpecImpl for HyphaScope {
    open spec fn obeys_eq_spec() -> bool {
        true
    }

    open spec fn eq_spec(&self, other: &HyphaScope) -> bool {
        self.origin_node@ == other.origin_node@ && self.resource_type@ == other.resource_type@
    }
}

impl Eq for HyphaScope {

}

/// Why a URL names no scope.
#[derive(Debug, Clone, Copy, PartialEq, Eq, Structural)]
pub enum ScopeError {
    /// The scheme is not `hypha`.
    InvalidScheme,
    /// The URL has no host.
    MissingHost,
}

/// The text of a string that may be missing.
pub open spec fn text_of(text: Option<String>) -> Option<Seq<char>> {
    match text {
        Some(t) => Some(t@),
        None => None,
    }
}

/// The text without the slashes it begins with.
pub open spec fn without_leading_slashes(text: Seq<char>) -> Seq<char>
    decreases text.len(),
{
    if text.len() > 0 && text[0] == '/' {
        without_leading_slashes(text.drop_first())
    } else {
        text
    }
}

/// Computes [`without_leading_slashes`].
pub fn trim_leading_slashes(text: &str) -> (trimmed: String)
    ensures
        trimmed@ == without_leading_slashes(text@),
{
    let n: usize = text.unicode_len();
    let mut k: usize = 0;
    proof {
        assert(text@.skip(0) =~= text@);
    }
    while k < n && text.get_char(k) == '/'
        invariant
            k <= n,
            n == text@.len(),
            without_leading_slashes(text@.skip(k as int)) == without_leading_slashes(text@),
        decreases n - k,
    {
        proof {
            assert(text@.skip(k as int).drop_first() =~= text@.skip(k + 1));
        }
        k += 1;
    }
    proof {
        assert(text@.subrange(k as int, n as int) =~= text@.skip(k as int));
    }
    String::from_str(text.substring_char(k, n))
}

impl HyphaScope {
    /// The scope that the parts of a URL name: the scheme must be `hypha`
    /// and a host must be there; the host is the node and the path without
    /// the slashes it begins with the resource type.
    pub open spec fn named_by(scheme: Seq<char>, host: Option<Seq<char>>, path: Seq<char>)
        -> Result<(Seq<char>, Seq<char>), ScopeError> {
        if scheme != "hypha"@ {
            Err(ScopeError::InvalidScheme)
        } else {
            match host {
                None => Err(ScopeError::MissingHost),
                Some(node) => Ok((node, without_leading_slashes(path))),
            }
        }
    }

    /// Whether this scope covers `other`: it does where both name the same
    /// node and resource type.
    pub fn contains(&self, other: &HyphaScope) -> (covers: bool)
        ensures
            covers == (self.origin_node@ == other.origin_node@ && self.resource_type@
                == other.resource_type@),
    {
        self.origin_node == other.origin_node && self.resource_type == other.resource_type
    }

    /// The scope written as a URL.
    pub fn to_uri(&self) -> (uri: String)
        ensures
            uri@ == "hypha://"@ + self.origin_node@ + "/"@ + self.resource_type@,
    {
        let mut uri = String::from_str("hypha://");
        uri.append(self.origin_node.as_str());
        uri.append("/");
        uri.append(self.resource_type.as_str());
        uri
    }

    /// The scope that the parts of a URL name.
    pub fn from_parts(scheme: &str, host: Option<String>, path: &str) -> (scope: Result<
        HyphaScope,
        ScopeError,
    >)
        ensures
            match scope {
                Ok(s) => Self::named_by(
                    scheme@,
                    text_of(host),
                    path@,
                ) == Ok::<(Seq<char>, Seq<char>), ScopeError>((s.origin_node@, s.resource_type@)),
                Err(e) => Self::named_by(
                    scheme@,
                    text_of(host),
                    path@,
                ) == Err::<(Seq<char>, Seq<char>), ScopeError>(e),
            },
    {
        if scheme.to_owned() != String::from_str("hypha") {
            return Err(ScopeError::InvalidScheme);
        }
        match host {
            None => Err(ScopeError::MissingHost),
            Some(node) => Ok(
                HyphaScope { origin_node: node, resource_type: trim_leading_slashes(path) },
            ),
        }
    }

    /// The scope that a URL names, by its scheme, host and path.
    pub open spec fn named_by_url(url: Url) -> Result<(Seq<char>, Seq<char>), ScopeError> {
        Self::named_by(scheme_of(url), host_of(url), path_of(url))
    }

    /// The scope that a URL names, by its scheme, host and path.
    pub fn try_from(value: Url) -> (scope: Result<HyphaScope, ScopeError>)
        ensures
            match scope {
                Ok(s) => Self::named_by_url(value) == Ok::<(Seq<char>, Seq<char>), ScopeError>(
                    (s.origin_node@, s.resource_type@),
                ),
                Err(e) => Self::named_by_url(value) == Err::<(Seq<char>, Seq<char>), ScopeError>(
                    e,
                ),
            },
    {
        let scheme = url_scheme(&value);
        let host = url_host(&value);
        let path = url_path(&value);
        assert(text_of(host) == host_of(value));
        Self::from_parts(scheme.as_str(), host, path.as_str())
    }
}

/// What a token may allow.
#[derive(Debug, Clone, Copy, PartialEq, Eq, Structural, PartialOrd, Ord)]
pub enum HyphaAbility {
    /// Run computations.
    Execute,
    /// Store data.
    Store,
    /// Read sensors.
    Sense,
    /// Everything.
    Admin,
}

impl HyphaAbility {
    /// The ability that a text names, if it names one.
    pub open spec fn named_by(text: Seq<char>) -> Option<HyphaAbility> {
        if text == "hypha/execute"@ {
            Some(HyphaAbility::Execute)
        } else if text == "hypha/store"@ {
            Some(HyphaAbility::Store)
        } else if text == "hypha/sense"@ {
            Some(HyphaAbility::Sense)
        } else if text == "hypha/admin"@ {
            Some(HyphaAbility::Admin)
        } else {
            None
        }
    }

    /// The name of the ability.
    pub open spec fn name(self) -> Seq<char> {
        match self {
            HyphaAbility::Execute => "hypha/execute"@,
            HyphaAbility::Store => "hypha/store"@,
            HyphaAbility::Sense => "hypha/sense"@,
            HyphaAbility::Admin => "hypha/admin"@,
        }
    }

    /// The ability written out.
    pub fn to_name(&self) -> (name: String)
        ensures
            name@ == self.name(),
    {
        match self {
            HyphaAbility::Execute => String::from_str("hypha/execute"),
            HyphaAbility::Store => String::from_str("hypha/store"),
            HyphaAbility::Sense => String::from_str("hypha/sense"),
            HyphaAbility::Admin => String::from_str("hypha/admin"),
        }
    }

    /// The ability that `value` names; a text that names none comes back
    /// as the error.
    pub fn try_from(value: String) -> (ability: Result<HyphaAbility, String>)
        ensures
            match ability {
                Ok(a) => Self::named_by(value@) == Some(a),
                Err(text) => Self::named_by(value@).is_none() && text@ == value@,
            },
    {
        if value == String::from_str("hypha/execute") {
            Ok(HyphaAbility::Execute)
        } else if value == String::from_str("hypha/store") {
            Ok(HyphaAbility::Store)
        } else if value == String::from_str("hypha/sense") {
            Ok(HyphaAbility::Sense)
        } else if value == String::from_str("hypha/admin") {
            Ok(HyphaAbility::Admin)
        } else {
            Err(value)
        }
    }
}

/// How tokens are read: which scope a URL names and which ability a text.
pub struct HyphaSemantics;

impl HyphaSemantics {
    /// The scope that a URL names, if it names one.
    pub fn parse_scope(&self, uri: &Url) -> (scope: Option<HyphaScope>)
        ensures
            match scope {
                Some(s) => HyphaScope::named_by_url(*uri) == Ok::<
                    (Seq<char>, Seq<char>),
                    ScopeError,
                >((s.origin_node@, s.resource_type@)),
                None => HyphaScope::named_by_url(*uri).is_err(),
            },
    {
        let scheme = url_scheme(uri);
        let host = url_host(uri);
        let path = url_path(uri);
        assert(text_of(host) == host_of(*uri));
        match HyphaScope::from_parts(scheme.as_str(), host, path.as_str()) {
            Ok(scope) => Some(scope),
            Err(_) => None,
        }
    }

    /// The ability that a text names, if it names one.
    pub fn parse_action(&self, ability: &str) -> (action: Option<HyphaAbility>)
        ensures
            action == HyphaAbility::named_by(ability@),
    {
        match HyphaAbility::try_from(ability.to_owned()) {
            Ok(action) => Some(action),
            Err(_) => None,
        }
    }
}

} // verus!
