use std::collections::HashMap;

use kconf::classify::filter_duplicates;
use kconf::merge::merge_kubeconfigs;
use kconf::model::{
    create_empty_kubeconfig, ClusterInfo, ContextInfo, KubeConfig, NamedCluster, NamedContext,
    NamedUser, UserInfo,
};

fn create_test_kubeconfig(name: &str) -> KubeConfig {
    let preferences: HashMap<String, serde_yaml::Value> = HashMap::new();
    KubeConfig {
        api_version: "v1".to_string(),
        kind: "Config".to_string(),
        clusters: vec![NamedCluster {
            name: format!("{}-cluster", name),
            cluster: ClusterInfo {
                server: format!("https://{}.example.com:6443", name),
                certificate_authority_data: Some("dGVzdC1jYS1kYXRh".to_string()),
                certificate_authority: None,
                insecure_skip_tls_verify: None,
            },
        }],
        contexts: vec![NamedContext {
            name: format!("{}-context", name),
            context: ContextInfo {
                cluster: format!("{}-cluster", name),
                user: format!("{}-user", name),
                namespace: None,
            },
        }],
        users: vec![NamedUser {
            name: format!("{}-user", name),
            user: UserInfo {
                client_certificate_data: Some("dGVzdC1jZXJ0LWRhdGE=".to_string()),
                client_key_data: Some("dGVzdC1rZXktZGF0YQ==".to_string()),
                client_certificate: None,
                client_key: None,
                token: None,
                username: None,
                password: None,
            },
        }],
        current_context: Some(format!("{}-context", name)),
        preferences: Some(preferences),
    }
}

#[test]
fn test_merge_kubeconfigs() {
    let mut dest = create_empty_kubeconfig();
    let source = create_test_kubeconfig("test1");
    let source_ctx = source.current_context.clone();

    let merge_result = filter_duplicates(&dest, source, false);
    merge_kubeconfigs(&mut dest, merge_result, source_ctx);

    assert_eq!(dest.clusters.len(), 1);
    assert_eq!(dest.contexts.len(), 1);
    assert_eq!(dest.users.len(), 1);
    assert_eq!(dest.clusters[0].name, "test1-cluster");
}

#[test]
fn test_filter_duplicates_no_duplicates() {
    let dest = create_test_kubeconfig("dest");
    let source = create_test_kubeconfig("source");

    let result = filter_duplicates(&dest, source, false);
    assert_eq!(result.clusters_to_add.len(), 1);
    assert_eq!(result.skipped_clusters.len(), 0);
}

#[test]
fn test_filter_duplicates_with_duplicates() {
    let dest = create_test_kubeconfig("test");
    let source = create_test_kubeconfig("test");

    let result = filter_duplicates(&dest, source, false);
    assert_eq!(result.clusters_to_add.len(), 0);
    assert_eq!(result.skipped_clusters.len(), 1);
    assert_eq!(result.skipped_clusters[0], "test-cluster");
}

#[test]
fn test_merge_multiple_configs() {
    let mut dest = create_empty_kubeconfig();
    let source1 = create_test_kubeconfig("cluster1");
    let source2 = create_test_kubeconfig("cluster2");
    let ctx1 = source1.current_context.clone();
    let ctx2 = source2.current_context.clone();

    let merge_result1 = filter_duplicates(&dest, source1, false);
    merge_kubeconfigs(&mut dest, merge_result1, ctx1);

    let merge_result2 = filter_duplicates(&dest, source2, false);
    merge_kubeconfigs(&mut dest, merge_result2, ctx2);

    assert_eq!(dest.clusters.len(), 2);
    assert_eq!(dest.contexts.len(), 2);
    assert_eq!(dest.users.len(), 2);
}

#[test]
fn test_skip_duplicates_and_merge_new() {
    let mut dest = create_test_kubeconfig("existing");

    // Create a source with one existing and one new cluster
    let mut source = create_test_kubeconfig("existing");
    let new_cluster = NamedCluster {
        name: "new-cluster".to_string(),
        cluster: ClusterInfo {
            server: "https://new.example.com:6443".to_string(),
            certificate_authority_data: Some("bmV3LWNh".to_string()),
            certificate_authority: None,
            insecure_skip_tls_verify: None,
        },
    };
    let new_context = NamedContext {
        name: "new-context".to_string(),
        context: ContextInfo {
            cluster: "new-cluster".to_string(),
            user: "new-user".to_string(),
            namespace: None,
        },
    };
    let new_user = NamedUser {
        name: "new-user".to_string(),
        user: UserInfo {
            client_certificate_data: None,
            client_key_data: None,
            client_certificate: None,
            client_key: None,
            token: Some("new-token".to_string()),
            username: None,
            password: None,
        },
    };
    source.clusters.push(new_cluster);
    source.contexts.push(new_context);
    source.users.push(new_user);

    let merge_result = filter_duplicates(&dest, source, false);

    // Should skip the existing ones
    assert_eq!(merge_result.skipped_clusters.len(), 1);
    assert_eq!(merge_result.skipped_contexts.len(), 1);
    assert_eq!(merge_result.skipped_users.len(), 1);

    // Should add the new ones
    assert_eq!(merge_result.clusters_to_add.len(), 1);
    assert_eq!(merge_result.contexts_to_add.len(), 1);
    assert_eq!(merge_result.users_to_add.len(), 1);

    let (added, _updated, skipped) = merge_kubeconfigs(&mut dest, merge_result, None);
    assert_eq!(added, 3);
    assert_eq!(skipped, 3);

    // Dest should now have 2 of each
    assert_eq!(dest.clusters.len(), 2);
    assert_eq!(dest.contexts.len(), 2);
    assert_eq!(dest.users.len(), 2);
}

#[test]
fn test_update_duplicates() {
    let mut dest = create_test_kubeconfig("test");
    // Source has same names but different server URL
    let mut source = create_test_kubeconfig("test");
    source.clusters[0].cluster.server = "https://updated.example.com:6443".to_string();
    source.users[0].user.token = Some("updated-token".to_string());

    let merge_result = filter_duplicates(&dest, source, true);

    // With update=true, duplicates go to update lists, not skip lists
    assert_eq!(merge_result.clusters_to_update.len(), 1);
    assert_eq!(merge_result.contexts_to_update.len(), 1);
    assert_eq!(merge_result.users_to_update.len(), 1);
    assert_eq!(merge_result.skipped_clusters.len(), 0);
    assert_eq!(merge_result.clusters_to_add.len(), 0);

    let (added, updated, skipped) = merge_kubeconfigs(&mut dest, merge_result, None);
    assert_eq!(added, 0);
    assert_eq!(updated, 3);
    assert_eq!(skipped, 0);

    // Dest should still have 1 of each, but with updated values
    assert_eq!(dest.clusters.len(), 1);
    assert_eq!(
        dest.clusters[0].cluster.server,
        "https://updated.example.com:6443"
    );
    assert_eq!(dest.users[0].user.token, Some("updated-token".to_string()));
}
