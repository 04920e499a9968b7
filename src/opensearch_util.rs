use vstd::prelude::*;
use vstd::string::*;
use opensearch::auth::Credentials;
use opensearch::cert::CertificateValidation;
use opensearch::http::transport::{BuildError, SingleNodeConnectionPool, TransportBuilder};
use opensearch::http::Url;
use opensearch::OpenSearch;

verus! {

#[verifier::external_type_specification]
#[verifier::external_body]
pub struct ExOpenSearch(OpenSearch);

#[verifier::external_type_specification]
#[verifier::external_body]
pub struct ExUrl(Url);

#[verifier::external_type_specification]
#[verifier::external_body]
pub struct ExBuildError(BuildError);

/// Whether the text is a URL that the client accepts.
pub uninterp spec fn url_accepts(s: Seq<char>) -> bool;

/// Relies on Url::parse (the url crate, as opensearch re-exports it): whether
/// a text parses depends on the text alone.
#[verifier::external_body]
fn parse_url(s: &str) -> (r: Option<Url>)
    ensures
        r is Some == url_accepts(s@),
{
    Url::parse(s).ok()
}

/// Relies on opensearch's TransportBuilder (over a SingleNodeConnectionPool,
/// with basic credentials and certificate validation switched off) and on
/// OpenSearch::new. Building makes no request; it may still fail.
#[verifier::external_body]
fn build_client(url: Url, username: &str, password: &str) -> (r: Result<OpenSearch, BuildError>) {
    TransportBuilder::new(SingleNodeConnectionPool::new(url))
        .auth(Credentials::Basic(username.to_string(), password.to_string()))
        .cert_validation(CertificateValidation::None)
        .build()
        .map(OpenSearch::new)
}

/// Why no client could be made.
#[derive(Clone, Copy, Debug, PartialEq, Eq, Structural)]
pub enum ConnectError {
    /// The cluster URL does not parse.
    InvalidUrl,
    /// The HTTP transport could not be built.
    ConnectionError,
}

/// Where a cluster is and how to log in to it.
pub struct ClusterConfig {
    pub url: String,
    pub username: String,
    pub password: String,
}

impl Default for ClusterConfig {
    /// A local cluster with the stock credentials.
    fn default() -> (r: Self)
        ensures
            r.url@ == "https://localhost:9200"@,
            r.username@ == "admin"@,
            r.password@ == "admin"@,
    {
        ClusterConfig {
            url: String::from_str("https://localhost:9200"),
            username: String::from_str("admin"),
            password: String::from_str("admin"),
        }
    }
}

/// A client for the cluster at `cluster_url`, logging in with the given
/// credentials and not validating certificates. Nothing is sent: an
/// unreachable cluster shows on the first request.
pub fn get_client(cluster_url: &str, username: &str, password: &str) -> (r: Result<OpenSearch, ConnectError>)
    ensures
        r matches Err(ConnectError::InvalidUrl) <==> !url_accepts(cluster_url@),
{
    let url = match parse_url(cluster_url) {
        Some(u) => u,
        None => return Err(ConnectError::InvalidUrl),
    };
    match build_client(url, username, password) {
        Ok(c) => Ok(c),
        Err(_) => Err(ConnectError::ConnectionError),
    }
}

/// A client for a local cluster with the stock credentials.
pub fn get_local_client() -> (r: Result<OpenSearch, ConnectError>)
    ensures
        r matches Err(ConnectError::InvalidUrl) <==> !url_accepts("https://localhost:9200"@),
{
    let config = ClusterConfig::default();
    get_client(config.url.as_str(), config.username.as_str(), config.password.as_str())
}

} // verus!
