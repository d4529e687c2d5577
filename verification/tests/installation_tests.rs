use mistletoe::cluster::{
    after_call, after_list, apply_policy, delete_propagation, resolve, split_api_version,
    ApiTarget, ClusterError, DiscoveredKind, Propagation, ResourceHead, Scope, Stage, Step,
    TypeMeta,
};
use mistletoe::installation::{
    install_labels, InstallRef, InstallResources, ManifestError, TIED_TO_INSTALL_NAME_KEY,
    TIED_TO_INSTALL_VERSION_KEY,
};
use mistletoe::installer::{install, set_install_label};

const DEPLOYMENT: &str = "---\napiVersion: apps/v1\nkind: Deployment\nmetadata:\n  name: my-nginx\n";
const SERVICE: &str = "---\napiVersion: v1\nkind: Service\nmetadata:\n  name: my-nginx\n";

fn label_of(resource: &serde_yaml::Mapping, key: &str) -> Option<String> {
    resource
        .get("metadata")?
        .as_mapping()?
        .get("labels")?
        .as_mapping()?
        .get(key)?
        .as_str()
        .map(|s| s.to_string())
}

#[test]
fn label_keys_are_the_exact_literals() {
    assert_eq!(TIED_TO_INSTALL_NAME_KEY, "mistletoe.dev/tied-to-install-name");
    assert_eq!(TIED_TO_INSTALL_VERSION_KEY, "mistletoe.dev/tied-to-install-version");
    assert_eq!(
        install_labels("demo", 12),
        vec![
            ("mistletoe.dev/tied-to-install-name".to_string(), "demo".to_string()),
            ("mistletoe.dev/tied-to-install-version".to_string(), "v12".to_string()),
        ]
    );
    assert_eq!(install_labels("demo", 0)[1].1, "v0");
    assert_eq!(install_labels("demo", 4294967295)[1].1, "v4294967295");
}

#[test]
fn selector_names_name_and_version() {
    let by_name = InstallRef { name: "demo".to_string(), version: None };
    assert_eq!(by_name.label_selector(), "mistletoe.dev/tied-to-install-name=demo");
    let by_both = InstallRef { name: "demo".to_string(), version: Some(3) };
    assert_eq!(
        by_both.label_selector(),
        "mistletoe.dev/tied-to-install-name=demo,mistletoe.dev/tied-to-install-version=v3"
    );
}

#[test]
fn concatenated_documents_are_labelled() {
    let yaml = format!("{}\n---\n{}", DEPLOYMENT, SERVICE);
    let resources = InstallResources::from_str(&yaml).unwrap();
    assert_eq!(resources.resources.len(), 2);
    let labelled = resources.label_resources_with("my-nginx", 0).unwrap();
    for resource in &labelled.resources {
        assert_eq!(label_of(resource, TIED_TO_INSTALL_NAME_KEY).unwrap(), "my-nginx");
        assert_eq!(label_of(resource, TIED_TO_INSTALL_VERSION_KEY).unwrap(), "v0");
    }
    assert_eq!(
        labelled.to_string().unwrap(),
        "apiVersion: apps/v1\nkind: Deployment\nmetadata:\n  name: my-nginx\n  labels:\n    mistletoe.dev/tied-to-install-name: my-nginx\n    mistletoe.dev/tied-to-install-version: v0\n\n---\napiVersion: v1\nkind: Service\nmetadata:\n  name: my-nginx\n  labels:\n    mistletoe.dev/tied-to-install-name: my-nginx\n    mistletoe.dev/tied-to-install-version: v0\n"
    );
}

#[test]
fn labels_that_are_there_are_overwritten_in_place() {
    let yaml = "metadata:\n  labels:\n    mistletoe.dev/tied-to-install-version: v7\n    app: x\n    mistletoe.dev/tied-to-install-name: other\n  name: n\nkind: K\n";
    let out = set_install_label("demo", yaml).unwrap();
    assert_eq!(
        out,
        "metadata:\n  labels:\n    mistletoe.dev/tied-to-install-version: v0\n    app: x\n    mistletoe.dev/tied-to-install-name: demo\n  name: n\nkind: K\n"
    );
}

#[test]
fn metadata_is_made_where_it_is_missing() {
    let out = set_install_label("demo", "kind: K\n").unwrap();
    assert_eq!(
        out,
        "kind: K\nmetadata:\n  labels:\n    mistletoe.dev/tied-to-install-name: demo\n    mistletoe.dev/tied-to-install-version: v0\n"
    );
}

#[test]
fn sequence_of_mappings_is_a_list_of_resources() {
    let resources = install("- kind: A\n- kind: B\n").unwrap();
    assert_eq!(resources.resources.len(), 2);
    assert_eq!(resources.to_string().unwrap(), "kind: A\n\n---\nkind: B\n");
}

#[test]
fn misformatted_documents_are_rejected() {
    match install("just text") {
        Err(e @ ManifestError::DocumentNotMapping) => {
            assert_eq!(e.message(), "misformatted YAML, expected documents of YAML Mappings")
        }
        other => panic!("unexpected {:?}", other.map(|_| ())),
    }
    match install("- kind: A\n- 3\n") {
        Err(e @ ManifestError::ItemNotMapping) => {
            assert_eq!(e.message(), "misformatted YAML, expected Mapping at base of document")
        }
        other => panic!("unexpected {:?}", other.map(|_| ())),
    }
    assert!(matches!(install("a: [b"), Err(ManifestError::Parse(_))));
    assert!(matches!(
        set_install_label("demo", "metadata: 3\n"),
        Err(ManifestError::MetadataNotMapping)
    ));
    assert!(matches!(
        set_install_label("demo", "metadata:\n  labels: [a]\n"),
        Err(ManifestError::LabelsNotMapping)
    ));
}

#[test]
fn empty_stream_holds_no_resources() {
    assert_eq!(install("").unwrap().resources.len(), 0);
    assert_eq!(set_install_label("demo", "").unwrap(), "");
}

fn kind(group: &str, version: &str, kind: &str, scope: Scope, operations: &[&str]) -> DiscoveredKind {
    DiscoveredKind {
        group: group.to_string(),
        version: version.to_string(),
        kind: kind.to_string(),
        scope,
        operations: operations.iter().map(|s| s.to_string()).collect(),
    }
}

fn kinds() -> Vec<DiscoveredKind> {
    vec![
        kind("", "v1", "Namespace", Scope::Cluster, &["get", "list", "delete"]),
        kind("", "v1", "Binding", Scope::Namespaced, &["create"]),
        kind("apps", "v1", "Deployment", Scope::Namespaced, &["list", "patch"]),
        kind("", "v1", "Service", Scope::Namespaced, &["list"]),
    ]
}

fn head(api_version: &str, kind: &str, name: Option<&str>, namespace: Option<&str>) -> ResourceHead {
    ResourceHead {
        types: Some(TypeMeta { api_version: api_version.to_string(), kind: kind.to_string() }),
        name: name.map(|s| s.to_string()),
        generate_name: None,
        namespace: namespace.map(|s| s.to_string()),
    }
}

#[test]
fn api_version_is_split_at_the_first_slash() {
    assert_eq!(split_api_version("apps/v1"), ("apps".to_string(), "v1".to_string()));
    assert_eq!(split_api_version("v1"), (String::new(), "v1".to_string()));
    assert_eq!(split_api_version("a/b/c"), ("a".to_string(), "b/c".to_string()));
    assert_eq!(split_api_version(""), (String::new(), String::new()));
}

#[test]
fn kinds_are_resolved_by_group_version_and_kind() {
    let kinds = kinds();
    let types = TypeMeta { api_version: "apps/v1".to_string(), kind: "Deployment".to_string() };
    assert_eq!(resolve(&kinds, &types), Some(2));
    let types = TypeMeta { api_version: "v1".to_string(), kind: "Service".to_string() };
    assert_eq!(resolve(&kinds, &types), Some(3));
    let types = TypeMeta { api_version: "apps/v2".to_string(), kind: "Deployment".to_string() };
    assert_eq!(resolve(&kinds, &types), None);
    assert!(kinds[0].supports_operation("list"));
    assert!(!kinds[1].supports_operation("list"));
}

#[test]
fn list_requests_cover_every_listable_kind() {
    let install = InstallRef { name: "demo".to_string(), version: None };
    let namespaces = vec!["default".to_string(), "kube-system".to_string()];
    let queries = install.get_resources(&kinds(), &namespaces);
    let seen: Vec<(usize, Option<String>)> =
        queries.iter().map(|q| (q.kind, q.namespace.clone())).collect();
    assert_eq!(
        seen,
        vec![
            (0, None),
            (2, Some("default".to_string())),
            (2, Some("kube-system".to_string())),
            (3, Some("default".to_string())),
            (3, Some("kube-system".to_string())),
        ]
    );
    for q in &queries {
        assert_eq!(q.selector, "mistletoe.dev/tied-to-install-name=demo");
    }
}

#[test]
fn manifests_are_applied_in_their_order() {
    let yaml = "apiVersion: apps/v1\nkind: Deployment\nmetadata:\n  name: web\n  namespace: prod\n---\napiVersion: v1\nkind: Namespace\nmetadata:\n  name: prod\n---\napiVersion: unknown/v1\nkind: Thing\nmetadata:\n  name: t\n---\napiVersion: v1\nkind: Service\nmetadata:\n  generateName: svc-\n";
    let resources = InstallResources::from_str(yaml).unwrap();
    let install = InstallRef { name: "demo".to_string(), version: Some(0) };
    let plan = install.apply_resources(&resources, &kinds());
    assert!(plan.failure.is_none());
    assert_eq!(plan.calls.len(), 3);
    assert_eq!((plan.calls[0].resource, plan.calls[0].kind), (0, 2));
    assert!(matches!(&plan.calls[0].target, ApiTarget::Namespaced(ns) if ns == "prod"));
    assert_eq!(plan.calls[0].name, "web");
    assert_eq!((plan.calls[1].resource, plan.calls[1].kind), (1, 0));
    assert!(matches!(plan.calls[1].target, ApiTarget::Cluster));
    assert_eq!((plan.calls[2].resource, plan.calls[2].kind), (3, 3));
    assert!(matches!(plan.calls[2].target, ApiTarget::DefaultNamespace));
    assert_eq!(plan.calls[2].name, "svc-");
}

#[test]
fn manifest_without_type_stops_the_install() {
    let yaml = "apiVersion: v1\nkind: Namespace\nmetadata:\n  name: a\n---\nmetadata:\n  name: untyped\n---\napiVersion: v1\nkind: Namespace\nmetadata:\n  name: b\n";
    let resources = InstallResources::from_str(yaml).unwrap();
    let install = InstallRef { name: "demo".to_string(), version: Some(0) };
    let plan = install.apply_resources(&resources, &kinds());
    assert_eq!(plan.calls.len(), 1);
    assert_eq!(plan.failure, Some(1));
}

#[test]
fn untyped_and_unknown_resources_are_passed_over_on_delete() {
    let found = vec![
        head("apps/v1", "Deployment", Some("web"), Some("prod")),
        ResourceHead { types: None, name: Some("x".to_string()), generate_name: None, namespace: None },
        head("unknown/v1", "Thing", Some("t"), None),
        head("v1", "Namespace", Some("prod"), Some("ignored")),
    ];
    let install = InstallRef { name: "demo".to_string(), version: None };
    let plan = install.delete_resources(&found, &kinds());
    assert!(plan.failure.is_none());
    let seen: Vec<(usize, String)> = plan.calls.iter().map(|c| (c.resource, c.name.clone())).collect();
    assert_eq!(seen, vec![(0, "web".to_string()), (3, "prod".to_string())]);
    assert!(matches!(plan.calls[1].target, ApiTarget::Cluster));
}

#[test]
fn head_of_a_manifest() {
    let resources = InstallResources::from_str("apiVersion: v1\nkind: Pod\nmetadata:\n  name: p\n  namespace: n\n").unwrap();
    let head = ResourceHead::of_manifest(&resources.resources[0]);
    let types = head.types.clone().unwrap();
    assert_eq!((types.api_version.as_str(), types.kind.as_str()), ("v1", "Pod"));
    assert_eq!(head.name_any(), "p");
    assert_eq!(head.namespace, Some("n".to_string()));
    let resources = InstallResources::from_str("kind: Pod\n").unwrap();
    assert!(ResourceHead::of_manifest(&resources.resources[0]).types.is_none());
}

#[test]
fn failed_list_is_passed_over_and_other_failures_stop() {
    for stage in [Stage::Discovery, Stage::Namespaces, Stage::List, Stage::Fetch, Stage::Apply, Stage::Delete] {
        assert!(matches!(after_call(stage, None), Step::GoOn));
    }
    assert!(matches!(after_call(Stage::List, Some("forbidden".to_string())), Step::GoOn));
    for stage in [Stage::Discovery, Stage::Namespaces, Stage::Fetch, Stage::Apply, Stage::Delete] {
        match after_call(stage, Some("refused".to_string())) {
            Step::Stop(e @ ClusterError::Call(_, _)) => {
                assert_eq!(e.message(), "refused");
                assert!(matches!(e, ClusterError::Call(at, _) if at == stage));
            }
            other => panic!("unexpected {:?}", other),
        }
    }
}

#[test]
fn listed_resources_are_fetched_by_name() {
    let listed = Some(vec![
        head("v1", "Pod", Some("a"), Some("n")),
        ResourceHead { types: None, name: None, generate_name: Some("gen-".to_string()), namespace: None },
        ResourceHead { types: None, name: None, generate_name: None, namespace: None },
    ]);
    assert_eq!(after_list(&listed), vec!["a".to_string(), "gen-".to_string(), String::new()]);
    assert!(after_list(&None).is_empty());
}

#[test]
fn manifests_are_applied_as_mistctl_and_deleted_in_the_foreground() {
    let policy = apply_policy();
    assert_eq!(policy.field_manager, "mistctl");
    assert!(policy.force);
    assert_eq!(delete_propagation(), Propagation::Foreground);
    assert_eq!(
        ClusterError::MissingTypeMeta("Ok(\"kind: K\\n\")".to_string()).message(),
        "could not determine TypeMeta for Ok(\"kind: K\\n\")"
    );
}

#[test]
fn deleted_resources_are_those_with_a_call() {
    let found = vec![
        head("apps/v1", "Deployment", Some("web"), Some("prod")),
        ResourceHead { types: None, name: Some("x".to_string()), generate_name: None, namespace: None },
        head("v1", "Namespace", Some("prod"), None),
    ];
    let install = InstallRef { name: "demo".to_string(), version: None };
    let plan = install.delete_resources(&found, &kinds());
    assert_eq!(plan.resources(), vec![0, 2]);
}

#[test]
fn head_of_a_manifest_takes_texts_only() {
    let resources = InstallResources::from_str("apiVersion: 1\nkind: Pod\nmetadata:\n  name: 3\n").unwrap();
    let head = ResourceHead::of_manifest(&resources.resources[0]);
    assert!(head.types.is_none());
    assert!(head.name.is_none());
}
