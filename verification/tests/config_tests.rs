use mistletoe::config::{ConfigLayout, GitRemoteLayout, RegistryLayout, RemoteLayout};
use mistletoe::mistletoe_core::MistOutput;

#[test]
fn test_output_ok() {
    let ok_case_value = "---\napiVersion: v1\nkind: Namespace\nmetadata:\n  name: my-namespace\n";

    let ok_case = MistOutput::Rendered(ok_case_value.into());

    let expected_ok_case = "type: Ok\nvalue: |\n  ---\n  apiVersion: v1\n  kind: Namespace\n  metadata:\n    name: my-namespace\n";

    assert_eq!(expected_ok_case.to_owned(), ok_case.serialize().unwrap());
}

#[test]
fn test_output_err() {
    let err_case_value = "failure message";

    let err_case = MistOutput::Failed(err_case_value.into());

    let expected_err_case = "type: Err\nvalue: failure message\n";

    assert_eq!(expected_err_case.to_owned(), err_case.serialize().unwrap());
}

#[test]
fn earliest_output_is_read_back() {
    let out = MistOutput::Failed("failure message".to_string());
    assert_eq!(MistOutput::deserialize(&out.serialize().unwrap()).unwrap(), out);
    let out = MistOutput::Rendered("a: b\n".to_string());
    assert_eq!(MistOutput::deserialize(&out.serialize().unwrap()).unwrap(), out);
    assert!(MistOutput::deserialize("type: Maybe\nvalue: x\n").is_err());
    assert!(MistOutput::deserialize("type: Ok\n").is_err());
}

const CONFIG: &str = "apiVersion: mistletoe.dev/v1alpha1\nkind: MistletoeConfig\nspec:\n  registries:\n  - name: mistletoe\n    defaultRemote: default\n    remotes:\n    - name: default\n      git:\n        url: https://github.com/example/registry.git\n";

#[test]
fn config_is_read_and_written() {
    let config = ConfigLayout::from_str(CONFIG).unwrap();
    assert_eq!(config.spec.registries.len(), 1);
    let registry = &config.spec.registries[0];
    assert_eq!(registry.name, "mistletoe");
    assert_eq!(registry.default_remote, "default");
    assert_eq!(
        registry.remotes,
        vec![RemoteLayout::Git {
            name: "default".to_string(),
            git: GitRemoteLayout { url: "https://github.com/example/registry.git".to_string() },
        }]
    );
    assert_eq!(config.to_yaml().unwrap(), CONFIG);
}

#[test]
fn version_and_kind_of_a_config_may_be_left_out() {
    let config = ConfigLayout::from_str("spec:\n  registries: []\n").unwrap();
    assert_eq!(config.api_version, "mistletoe.dev/v1alpha1");
    assert_eq!(config.kind, "MistletoeConfig");
    assert_eq!(
        ConfigLayout::new().to_yaml().unwrap(),
        "apiVersion: mistletoe.dev/v1alpha1\nkind: MistletoeConfig\nspec:\n  registries: []\n"
    );
}

#[test]
fn unknown_remote_is_refused() {
    let text = "spec:\n  registries:\n  - name: r\n    defaultRemote: d\n    remotes:\n    - name: d\n      http:\n        url: u\n";
    assert!(ConfigLayout::from_str(text).is_err());
    assert!(ConfigLayout::from_str("spec: {}\n").is_err());
    assert!(ConfigLayout::from_str("kind: [a]\nspec:\n  registries: []\n").is_err());
    assert_eq!(ConfigLayout::from_str("kind: 3\nspec:\n  registries: []\n").unwrap().kind, "3");
    assert!(ConfigLayout::from_str("spec:\n  registries:\n  - name: r\n").is_err());
}

#[test]
fn registry_is_added_and_written() {
    let mut config = ConfigLayout::new();
    config.spec.registries.push(RegistryLayout {
        name: "mine".to_string(),
        default_remote: "default".to_string(),
        remotes: vec![RemoteLayout::Git {
            name: "default".to_string(),
            git: GitRemoteLayout { url: "git@host:repo.git".to_string() },
        }],
    });
    let text = config.to_yaml().unwrap();
    let back = ConfigLayout::from_str(&text).unwrap();
    assert_eq!(back.spec.registries, config.spec.registries);
}
