//! The document model: three named-entity collections, an optional
//! active-context pointer, and opaque passthrough fields.

use std::collections::HashMap;
use vstd::prelude::*;

verus! {

/// Opaque preference values carried through a load-merge-write cycle
/// unchanged.  Relies on `serde_yaml::Value` only as a container for
/// unrecognized document entries; nothing in the library reads one.
#[verifier::external_type_specification]
#[verifier::external_body]
pub struct ExYamlValue(serde_yaml::Value);

/// Connection descriptor of a cluster.  The merge logic never reads its
/// fields; it is moved and replaced as an atomic unit.
pub struct ClusterInfo {
    pub server: String,
    pub certificate_authority_data: Option<String>,
    pub certificate_authority: Option<String>,
    pub insecure_skip_tls_verify: Option<bool>,
}

/// A cluster entry: a unique name plus its connection descriptor.
pub struct NamedCluster {
    pub name: String,
    pub cluster: ClusterInfo,
}

/// A context's payload: references to a cluster and a user by name, and
/// an optional namespace.  The references are by name, not by ownership;
/// several contexts may share one cluster or user.
pub struct ContextInfo {
    pub cluster: String,
    pub user: String,
    pub namespace: Option<String>,
}

/// A context entry: a unique name plus its payload.
pub struct NamedContext {
    pub name: String,
    pub context: ContextInfo,
}

/// Credential material of a user.  All fields are optional; the merge
/// logic never reads them.
pub struct UserInfo {
    pub client_certificate_data: Option<String>,
    pub client_key_data: Option<String>,
    pub client_certificate: Option<String>,
    pub client_key: Option<String>,
    pub token: Option<String>,
    pub username: Option<String>,
    pub password: Option<String>,
}

/// A user entry: a unique name plus its credential material.
pub struct NamedUser {
    pub name: String,
    pub user: UserInfo,
}

/// A kubeconfig document.  Within each collection, names are unique;
/// the invariant is enforced by classification before any mutation, not
/// by the type itself.  `preferences` is passthrough: the library never
/// reads or writes it.
pub struct KubeConfig {
    pub api_version: String,
    pub kind: String,
    pub clusters: Vec<NamedCluster>,
    pub contexts: Vec<NamedContext>,
    pub users: Vec<NamedUser>,
    pub current_context: Option<String>,
    pub preferences: Option<HashMap<String, serde_yaml::Value>>,
}

/// Builds an empty document: no entities, no active context, an empty
/// preferences map, and the fixed version and kind tags.
pub fn create_empty_kubeconfig() -> (r: KubeConfig)
    ensures
        r.api_version@ == "v1"@,
        r.kind@ == "Config"@,
        r.clusters@ == Seq::<NamedCluster>::empty(),
        r.contexts@ == Seq::<NamedContext>::empty(),
        r.users@ == Seq::<NamedUser>::empty(),
        r.current_context is None,
        (r.preferences matches Some(m) && m@ == Map::<String, serde_yaml::Value>::empty()),
{
    KubeConfig {
        api_version: String::from_str("v1"),
        kind: String::from_str("Config"),
        clusters: Vec::new(),
        contexts: Vec::new(),
        users: Vec::new(),
        current_context: None,
        preferences: Some(HashMap::new()),
    }
}

} // verus!
