use mistletoe::instance::{LocateError, MistPackageRef};
use mistletoe::loader::PackageRef;
use mistletoe::reference::RefError;
use mistletoe::config::{ConfigLayout, GitRemoteLayout, RegistryLayout, RemoteLayout};
use mistletoe::registry::{process_registries, RegistryError, Remote};

fn remote_parts(r: MistPackageRef) -> (String, String, String) {
    match r {
        MistPackageRef::Remote { registry, package, version } => (registry, package, version),
        other => panic!("unexpected {:?}", other),
    }
}

#[test]
fn local_reference_with_slash() {
    match MistPackageRef::parse("/tmp/pkg.wasm", '/') {
        Ok(MistPackageRef::Local(p)) => assert_eq!(p, "/tmp/pkg.wasm"),
        other => panic!("unexpected {:?}", other),
    }
}

#[test]
fn local_reference_with_dot_or_separator() {
    assert!(matches!(MistPackageRef::parse("./pkg.wasm", '/'), Ok(MistPackageRef::Local(_))));
    assert!(matches!(MistPackageRef::parse("../a:b:c", '/'), Ok(MistPackageRef::Local(_))));
    assert!(matches!(MistPackageRef::parse("\\pkg.wasm", '\\'), Ok(MistPackageRef::Local(_))));
    assert!(matches!(PackageRef::parse(".hidden", '/'), Ok(PackageRef::Local(_))));
}

#[test]
fn missing_version_is_rejected() {
    let r = MistPackageRef::parse("foo", '/');
    assert_eq!(r.unwrap_err(), RefError::MissingVersion);
    assert_eq!(
        RefError::MissingVersion.message(),
        "version must always be specified, in the form `<package>:<version>`"
    );
    assert_eq!(MistPackageRef::parse("", '/').unwrap_err(), RefError::MissingVersion);
}

#[test]
fn more_than_one_colon_is_rejected() {
    let r = MistPackageRef::parse("foo:1:2", '/');
    assert_eq!(r.unwrap_err(), RefError::ExtraColons(2));
    assert_eq!(RefError::ExtraColons(2).message(), "expected only one ':', found 2");
    assert_eq!(PackageRef::parse("a/b:1:2:3", '/').unwrap_err(), RefError::ExtraColons(3));
    assert_eq!(RefError::ExtraColons(12).message(), "expected only one ':', found 12");
}

#[test]
fn remote_reference_is_split() {
    let r = MistPackageRef::parse("mistletoe/examples/nginx:1.2.3", '/').unwrap();
    assert_eq!(
        remote_parts(r),
        ("mistletoe".to_string(), "examples/nginx".to_string(), "1.2.3".to_string())
    );
}

#[test]
fn empty_and_dot_segments_are_passed_over() {
    let r = MistPackageRef::parse("reg//a/./b/:v", '/').unwrap();
    assert_eq!(remote_parts(r), ("reg".to_string(), "a/b".to_string(), "v".to_string()));
}

#[test]
fn reference_needs_registry_and_package() {
    assert_eq!(MistPackageRef::parse("nginx:1.0", '/').unwrap_err(), RefError::MissingPackage);
    assert_eq!(MistPackageRef::parse(":1.0", '/').unwrap_err(), RefError::MissingRegistry);
    assert_eq!(MistPackageRef::parse("reg/:1.0", '/').unwrap_err(), RefError::MissingPackage);
}

#[test]
fn empty_version_is_rejected() {
    assert_eq!(MistPackageRef::parse("reg/pkg:", '/').unwrap_err(), RefError::EmptyVersion);
    assert_eq!(PackageRef::parse("a/b:", '/').unwrap_err(), RefError::EmptyVersion);
    assert_eq!(MistPackageRef::from_str("reg/pkg:").unwrap_err(), RefError::EmptyVersion);
    assert_eq!(
        RefError::EmptyVersion.message(),
        "version must not be empty, in the form `<package>:<version>`"
    );
    assert_eq!(MistPackageRef::parse("reg:", '/').unwrap_err(), RefError::MissingPackage);
}

#[test]
fn from_str_takes_the_separator_of_the_platform() {
    assert!(matches!(MistPackageRef::from_str("/abs"), Ok(MistPackageRef::Local(_))));
    assert!(matches!(PackageRef::from_str("reg/pkg:1"), Ok(PackageRef::Remote { .. })));
    match MistPackageRef::from_str("reg/pkg:1.0") {
        Ok(MistPackageRef::Remote { registry, package, version }) => {
            assert_eq!((registry.as_str(), package.as_str(), version.as_str()), ("reg", "pkg", "1.0"))
        }
        other => panic!("unexpected {:?}", other),
    }
    assert_eq!(PackageRef::from_str("foo:1:2").unwrap_err(), RefError::ExtraColons(2));
}

fn config() -> ConfigLayout {
    let mut config = ConfigLayout::new();
    config.spec.registries.push(RegistryLayout {
        name: "first".to_string(),
        default_remote: "default".to_string(),
        remotes: vec![
            RemoteLayout::Git {
                name: "mirror".to_string(),
                git: GitRemoteLayout { url: "https://mirror.example/first.git".to_string() },
            },
            RemoteLayout::Git {
                name: "default".to_string(),
                git: GitRemoteLayout { url: "https://example/first.git".to_string() },
            },
        ],
    });
    config.spec.registries.push(RegistryLayout {
        name: "broken".to_string(),
        default_remote: "gone".to_string(),
        remotes: vec![],
    });
    config.spec.registries.push(RegistryLayout {
        name: "last".to_string(),
        default_remote: "default".to_string(),
        remotes: vec![RemoteLayout::Git {
            name: "default".to_string(),
            git: GitRemoteLayout { url: "https://example/last.git".to_string() },
        }],
    });
    config
}

#[test]
fn new_config_names_version_and_kind() {
    let config = ConfigLayout::new();
    assert_eq!(config.api_version, "mistletoe.dev/v1alpha1");
    assert_eq!(config.kind, "MistletoeConfig");
    assert!(config.spec.registries.is_empty());
}

#[test]
fn lookups_find_the_first_of_a_name() {
    let mut config = config();
    assert!(config.spec.lookup_registry("nowhere").is_none());
    let first = config.spec.lookup_registry("first").unwrap();
    assert_eq!(first.lookup_remote("mirror").unwrap().url(), "https://mirror.example/first.git");
    assert_eq!(first.lookup_default_remote().unwrap().url(), "https://example/first.git");
    assert!(first.lookup_remote("other").is_none());
    assert!(config.spec.lookup_registry("broken").unwrap().lookup_default_remote().is_none());

    config.spec.lookup_registry_mut("last").unwrap().default_remote = "changed".to_string();
    assert_eq!(config.spec.registries[2].default_remote, "changed");
    assert!(config.spec.lookup_registry_mut("nowhere").is_none());
    let first = config.spec.lookup_registry_mut("first").unwrap();
    *first.lookup_remote_mut("mirror").unwrap() = RemoteLayout::Git {
        name: "mirror".to_string(),
        git: GitRemoteLayout { url: "https://other".to_string() },
    };
    assert_eq!(first.remotes[0].url(), "https://other");
    *first.lookup_default_remote_mut().unwrap() = RemoteLayout::Git {
        name: "default".to_string(),
        git: GitRemoteLayout { url: "https://third".to_string() },
    };
    assert_eq!(first.remotes[1].url(), "https://third");
    assert_eq!(first.remotes[1].name(), "default");
}

#[test]
fn default_remote_of_a_registry() {
    let config = config();
    let remote = Remote::default_for_name("first", &config).unwrap();
    assert_eq!(remote.registry_name, "first");
    assert_eq!(remote.url(), "https://example/first.git");
    match Remote::default_for_name("nowhere", &config) {
        Err(e @ RegistryError::RegistryNotFound(_)) => {
            assert_eq!(e.message(), "could not find registry with the name \"nowhere\"")
        }
        other => panic!("unexpected {:?}", other),
    }
    match Remote::default_for_name("broken", &config) {
        Err(e @ RegistryError::DefaultRemoteMissing(_, _)) => assert_eq!(
            e.message(),
            "registry \"broken\" did not have a remote by the default name \"gone\""
        ),
        other => panic!("unexpected {:?}", other),
    }
}

#[test]
fn package_lies_below_its_registry() {
    let remote = Remote::new(
        "first".to_string(),
        RemoteLayout::Git { name: "default".to_string(), git: GitRemoteLayout { url: "u".to_string() } },
    );
    assert_eq!(remote.get_local_registry_path("/home/me/.mistletoe/registries", '/'), "/home/me/.mistletoe/registries/first");
    assert_eq!(
        remote.lookup_package("/home/me/.mistletoe/registries", "foo/bar", "1.2.3", '/').unwrap(),
        "/home/me/.mistletoe/registries/first/foo/bar/bar-1.2.3.mist-pack.wasm"
    );
    assert!(remote.lookup_package("/r", "foo/..", "1", '/').is_none());
    assert!(remote.lookup_package("/r", "", "1", '/').is_none());
}

#[test]
fn reference_is_located() {
    let config = config();
    let local = MistPackageRef::parse("./pkg.wasm", '/').unwrap();
    let found = local.locate(&config, "/r", '/').unwrap();
    assert_eq!(found.path, "./pkg.wasm");
    assert!(found.remote.is_none());

    let remote = MistPackageRef::parse("first/foo/bar:2", '/').unwrap();
    let found = remote.locate(&config, "/r", '/').unwrap();
    assert_eq!(found.path, "/r/first/foo/bar/bar-2.mist-pack.wasm");
    assert_eq!(found.remote.unwrap().url(), "https://example/first.git");

    let unknown = MistPackageRef::parse("nowhere/foo:2", '/').unwrap();
    assert!(matches!(unknown.locate(&config, "/r", '/'), Err(LocateError::Registry(_))));
    let odd = MistPackageRef::parse("first/..:2", '/').unwrap();
    match odd.locate(&config, "/r", '/') {
        Err(e @ LocateError::PackageNotFound(_)) => {
            assert_eq!(e.message(), "could not find package at ..")
        }
        other => panic!("unexpected {:?}", other),
    }
}

#[test]
fn registries_are_cleaned_and_fetched_in_order() {
    let config = config();
    let found = vec!["stale".to_string(), "first".to_string(), "old".to_string(), "last".to_string()];
    let plan = process_registries(&found, &config);
    assert_eq!(plan.remove, vec!["stale".to_string(), "old".to_string()]);
    assert_eq!(plan.sync.len(), 1);
    assert_eq!(plan.sync[0].registry_name, "first");
    assert!(matches!(plan.failure, Some(RegistryError::DefaultRemoteMissing(_, _))));

    let mut config = config;
    config.spec.registries.remove(1);
    let plan = process_registries(&found, &config);
    assert_eq!(plan.sync.len(), 2);
    assert_eq!(plan.sync[1].url(), "https://example/last.git");
    assert!(plan.failure.is_none());
}
