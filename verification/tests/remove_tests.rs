use std::collections::HashMap;

use kconf::model::{
    ClusterInfo, ContextInfo, KubeConfig, NamedCluster, NamedContext, NamedUser, UserInfo,
};
use kconf::remove::remove_context;

fn create_test_kubeconfig(name: &str) -> KubeConfig {
    let preferences: HashMap<String, serde_yaml::Value> = HashMap::new();
    KubeConfig {
        api_version: "v1".to_string(),
        kind: "Config".to_string(),
        clusters: vec![NamedCluster {
            name: format!("{}-cluster", name),
            cluster: ClusterInfo {
                server: format!("https://{}.example.com:6443", name),
                certificate_authority_data: Some("dGVzdC1jYS1kYXRh".to_string()),
                certificate_authority: None,
                insecure_skip_tls_verify: None,
            },
        }],
        contexts: vec![NamedContext {
            name: format!("{}-context", name),
            context: ContextInfo {
                cluster: format!("{}-cluster", name),
                user: format!("{}-user", name),
                namespace: None,
            },
        }],
        users: vec![NamedUser {
            name: format!("{}-user", name),
            user: UserInfo {
                client_certificate_data: Some("dGVzdC1jZXJ0LWRhdGE=".to_string()),
                client_key_data: Some("dGVzdC1rZXktZGF0YQ==".to_string()),
                client_certificate: None,
                client_key: None,
                token: None,
                username: None,
                password: None,
            },
        }],
        current_context: Some(format!("{}-context", name)),
        preferences: Some(preferences),
    }
}

#[test]
fn test_remove_context() {
    let mut config = create_test_kubeconfig("test");
    assert_eq!(config.contexts.len(), 1);
    assert_eq!(config.clusters.len(), 1);
    assert_eq!(config.users.len(), 1);
    assert_eq!(config.current_context, Some("test-context".to_string()));

    let removed = remove_context(&mut config, "test-context");
    assert_eq!(removed, 3); // context + cluster + user
    assert_eq!(config.contexts.len(), 0);
    assert_eq!(config.clusters.len(), 0);
    assert_eq!(config.users.len(), 0);
    assert_eq!(config.current_context, None);
}

#[test]
fn test_remove_context_not_found() {
    let mut config = create_test_kubeconfig("test");
    let removed = remove_context(&mut config, "nonexistent-context");
    assert_eq!(removed, 0);
    assert_eq!(config.contexts.len(), 1);
    assert_eq!(config.clusters.len(), 1);
    assert_eq!(config.users.len(), 1);
}

#[test]
fn test_remove_context_preserves_shared_cluster() {
    let mut config = create_test_kubeconfig("test");
    // Add a second context that shares the same cluster
    config.contexts.push(NamedContext {
        name: "other-context".to_string(),
        context: ContextInfo {
            cluster: "test-cluster".to_string(),
            user: "other-user".to_string(),
            namespace: None,
        },
    });
    config.users.push(NamedUser {
        name: "other-user".to_string(),
        user: UserInfo {
            client_certificate_data: None,
            client_key_data: None,
            client_certificate: None,
            client_key: None,
            token: Some("other-token".to_string()),
            username: None,
            password: None,
        },
    });

    let removed = remove_context(&mut config, "test-context");
    // Should remove context + user, but NOT the shared cluster
    assert_eq!(removed, 2);
    assert_eq!(config.contexts.len(), 1);
    assert_eq!(config.clusters.len(), 1); // cluster preserved
    assert_eq!(config.users.len(), 1); // only other-user remains
    assert_eq!(config.contexts[0].name, "other-context");
}
