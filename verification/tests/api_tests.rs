use indexmap::IndexMap;
use mistletoe::api::misthuskresult;
use mistletoe::api::mistinput::{assemble_input, MistHuskInput, MistInput};
use mistletoe::text::{trim, white_space};
use mistletoe::api::mistpackage::{MistHuskPackage, MistPackage};
use mistletoe::api::mistresult::{deserialize_result, serialize_result, MistError, MistOutput};

const NAMESPACE_FILE: &str = "apiVersion: v1\nkind: Namespace\nmetadata:\n  name: my-namespace\n";

#[test]
fn test_mistresult_ok() {
    let expected_yaml = "apiVersion: mistletoe.dev/v1alpha1\nkind: MistResult\ndata:\n  result: Ok\n  message: 'warning: nothing went wrong'\n  files:\n    namespace.yaml: |\n      apiVersion: v1\n      kind: Namespace\n      metadata:\n        name: my-namespace\n";

    let mistoutput = MistOutput::new()
        .with_message("warning: nothing went wrong".to_string())
        .with_file("namespace.yaml".to_string(), NAMESPACE_FILE.to_string());

    let yaml = serialize_result(&Ok(mistoutput.clone())).unwrap();
    assert_eq!(expected_yaml, yaml);

    let mistresult_parsed = deserialize_result(&yaml).unwrap().unwrap();
    assert_eq!(mistoutput, mistresult_parsed);
}

#[test]
fn test_mistresult_err() {
    let expected_yaml: &str = "apiVersion: mistletoe.dev/v1alpha1\nkind: MistResult\ndata:\n  result: Err\n  message: 'error: something went wrong'\n";

    let err_string = "error: something went wrong";
    let yaml = serialize_result(&Err(MistError::new(err_string.to_string()))).unwrap();
    assert_eq!(expected_yaml, yaml);

    let mistresult_parsed = deserialize_result(&yaml).unwrap();
    assert_eq!(err_string, mistresult_parsed.err().unwrap().message());
}

#[test]
fn test_misthuskresult_ok() {
    let expected_yaml = "apiVersion: mistletoe.dev/v1alpha1\nkind: MistHuskResult\ndata:\n  result: Ok\n  message: 'warning: nothing went wrong'\n  files:\n    namespace.yaml: |\n      apiVersion: v1\n      kind: Namespace\n      metadata:\n        name: my-namespace\n";

    let misthuskoutput = misthuskresult::MistHuskOutput::new()
        .with_message("warning: nothing went wrong".to_string())
        .with_file("namespace.yaml".to_string(), NAMESPACE_FILE.to_string());

    let yaml = misthuskresult::serialize_result(&Ok(misthuskoutput.clone())).unwrap();
    assert_eq!(expected_yaml, yaml);

    let misthuskresult_parsed = misthuskresult::deserialize_result(&yaml).unwrap();
    assert_eq!(misthuskoutput, misthuskresult_parsed.unwrap());
}

#[test]
fn test_misthuskresult_err() {
    let expected_yaml: &str = "apiVersion: mistletoe.dev/v1alpha1\nkind: MistHuskResult\ndata:\n  result: Err\n  message: 'error: something went wrong'\n";

    let err_string = "error: something went wrong";
    let yaml =
        misthuskresult::serialize_result(&Err(MistError::new(err_string.to_string()))).unwrap();
    assert_eq!(expected_yaml, yaml);

    let misthuskresult_parsed = misthuskresult::deserialize_result(&yaml).unwrap();
    assert_eq!(err_string, misthuskresult_parsed.err().unwrap().message());
}

#[test]
fn test_mistinput() {
    let expected_yaml = "apiVersion: mistletoe.dev/v1alpha1\nkind: MistInput\ndata:\n  name: my-nginx\n  namespace: my-namespace\n";

    let mut data = serde_yaml::Mapping::new();
    data.insert("name".into(), "my-nginx".into());
    data.insert("namespace".into(), "my-namespace".into());

    let mistinput = MistInput { data };

    let yaml = mistinput.serialize().unwrap();
    assert_eq!(expected_yaml, yaml);

    let mistinput_parsed = MistInput::deserialize(&yaml).unwrap();
    assert_eq!(mistinput, mistinput_parsed);
}

#[test]
fn test_misthuskinput() {
    let expected_yaml = "apiVersion: mistletoe.dev/v1alpha1\nkind: MistHuskInput\ndata:\n  name: my-nginx\n  namespace: my-namespace\n";

    let mut data = serde_yaml::Mapping::new();
    data.insert("name".into(), "my-nginx".into());
    data.insert("namespace".into(), "my-namespace".into());

    let misthuskinput = MistHuskInput { data };

    let yaml = misthuskinput.serialize().unwrap();
    assert_eq!(expected_yaml, yaml);

    let misthuskinput_parsed = MistHuskInput::deserialize(&yaml).unwrap();
    assert_eq!(misthuskinput, misthuskinput_parsed);
}

#[test]
fn test_misthuskpackage() {
    let expected_yaml = "apiVersion: mistletoe.dev/v1alpha1\nkind: MistHuskPackage\nmetadata:\n  name: example-nginx\n  labels:\n    mistletoe.dev/group: mistletoe-examples\nspec:\n  functions:\n    generate: __mistletoe_generate\n    alloc: __mistletoe_alloc\n    dealloc: __mistletoe_dealloc\n";

    let mut labels = IndexMap::new();
    labels.insert("mistletoe.dev/group".to_string(), "mistletoe-examples".to_string());

    let misthuskpackage = MistHuskPackage {
        name: "example-nginx".to_string(),
        labels: Some(labels),

        function_generate: Some("__mistletoe_generate".to_string()),
        function_alloc: Some("__mistletoe_alloc".to_string()),
        function_dealloc: Some("__mistletoe_dealloc".to_string()),
    };

    let yaml = misthuskpackage.serialize().unwrap();
    assert_eq!(expected_yaml, yaml, "left:\n{expected_yaml}\nright:\n{expected_yaml}");

    let misthuskpackage_parsed = MistHuskPackage::deserialize(&yaml).unwrap();
    assert_eq!(misthuskpackage, misthuskpackage_parsed);
}

#[test]
fn package_document_round_trip_keeps_label_order() {
    let mut labels = IndexMap::new();
    labels.insert("zeta".to_string(), "1".to_string());
    labels.insert("alpha".to_string(), "2".to_string());
    labels.insert("mid".to_string(), "3".to_string());
    let package = MistPackage { name: "example-nginx".to_string(), labels: Some(labels) };

    let yaml = package.serialize().unwrap();
    assert_eq!(
        yaml,
        "apiVersion: mistletoe.dev/v1alpha1\nkind: MistPackage\nmetadata:\n  name: example-nginx\n  labels:\n    zeta: '1'\n    alpha: '2'\n    mid: '3'\n"
    );
    let parsed = MistPackage::deserialize(&yaml).unwrap();
    assert_eq!(parsed.name, "example-nginx");
    let keys: Vec<String> = parsed.labels.unwrap().keys().cloned().collect();
    assert_eq!(keys, vec!["zeta".to_string(), "alpha".to_string(), "mid".to_string()]);
}

#[test]
fn package_without_labels_round_trips() {
    let package = MistPackage { name: "bare".to_string(), labels: None };
    let yaml = package.serialize().unwrap();
    assert_eq!(yaml, "apiVersion: mistletoe.dev/v1alpha1\nkind: MistPackage\nmetadata:\n  name: bare\n");
    assert_eq!(MistPackage::deserialize(&yaml).unwrap(), package);
}

#[test]
fn package_without_name_is_malformed() {
    let r = MistPackage::deserialize("apiVersion: v\nkind: MistPackage\nmetadata:\n  labels: {}\n");
    assert!(r.is_err());
}

#[test]
fn result_round_trip_keeps_file_order() {
    let out = MistOutput::new()
        .with_file("z.yaml".to_string(), "z".to_string())
        .with_file("a.yaml".to_string(), "a".to_string())
        .with_file("m.yaml".to_string(), "m".to_string());
    let yaml = serialize_result(&Ok(out.clone())).unwrap();
    let parsed = deserialize_result(&yaml).unwrap().unwrap();
    let paths: Vec<String> = parsed.get_files().keys().cloned().collect();
    assert_eq!(paths, vec!["z.yaml".to_string(), "a.yaml".to_string(), "m.yaml".to_string()]);
    assert_eq!(serialize_result(&Ok(parsed)).unwrap(), yaml);
}

#[test]
fn add_file_replaces_in_place() {
    let mut out = MistOutput::new();
    out.add_file("a".to_string(), "1".to_string());
    out.add_file("b".to_string(), "2".to_string());
    out.add_file("a".to_string(), "3".to_string());
    let files = out.file_list();
    assert_eq!(files, vec![("a".to_string(), "3".to_string()), ("b".to_string(), "2".to_string())]);
}

#[test]
fn empty_message_is_written_and_empty_files_are_not() {
    let out = MistOutput::new().with_message(String::new());
    let yaml = serialize_result(&Ok(out.clone())).unwrap();
    assert_eq!(
        yaml,
        "apiVersion: mistletoe.dev/v1alpha1\nkind: MistResult\ndata:\n  result: Ok\n  message: ''\n"
    );
    let parsed = deserialize_result(&yaml).unwrap().unwrap();
    assert_eq!(parsed.get_message(), &Some(String::new()));
    assert!(parsed.get_files().is_empty());
}

#[test]
fn unknown_result_tag_is_a_failure_of_the_package() {
    let yaml = "apiVersion: mistletoe.dev/v1alpha1\nkind: MistResult\ndata:\n  result: Maybe\n";
    let parsed = deserialize_result(yaml).unwrap();
    assert_eq!(
        parsed.err().unwrap().message(),
        "module result format error: `data.result` must either be \"Ok\" or \"Err\", found Maybe"
    );
}

#[test]
fn err_without_message_gets_the_fixed_message() {
    let yaml = "apiVersion: mistletoe.dev/v1alpha1\nkind: MistResult\ndata:\n  result: Err\n";
    let parsed = deserialize_result(yaml).unwrap();
    assert_eq!(parsed.err().unwrap().message(), "module failed without a message");
}

#[test]
fn result_without_data_is_malformed() {
    assert!(deserialize_result("apiVersion: v\nkind: MistResult\n").is_err());
    assert!(deserialize_result("- a\n- b\n").is_err());
    assert!(deserialize_result("a: [unclosed").is_err());
}

#[test]
fn assembled_input_merges_in_order() {
    let input = assemble_input(
        Some("name: from-file\nnamespace: my-namespace\nreplicas: 1\n"),
        Some("replicas: 3, extra: yes"),
        "my-nginx",
    )
    .unwrap();
    let yaml = input.serialize().unwrap();
    assert_eq!(
        yaml,
        "apiVersion: mistletoe.dev/v1alpha1\nkind: MistInput\ndata:\n  name: my-nginx\n  namespace: my-namespace\n  replicas: 3\n  extra: yes\n"
    );
}

#[test]
fn assembled_input_without_sources_holds_the_name() {
    let input = assemble_input(None, None, "demo").unwrap();
    assert_eq!(
        input.serialize().unwrap(),
        "apiVersion: mistletoe.dev/v1alpha1\nkind: MistInput\ndata:\n  name: demo\n"
    );
}

#[test]
fn assembled_input_rejects_a_list_file() {
    assert!(assemble_input(Some("- a\n"), None, "demo").is_err());
    assert!(assemble_input(None, Some("a: [b"), "demo").is_err());
}

#[test]
fn headers_become_the_description_of_a_package() {
    let headers = "\n  name: namespace-example\n  labels:\n    mistletoe.dev/group: mistletoe-examples\n";
    let package = MistPackage::from_headers(headers).unwrap();
    assert_eq!(
        package.serialize().unwrap(),
        "apiVersion: mistletoe.dev/v1alpha1\nkind: MistPackage\nmetadata:\n  name: namespace-example\n  labels:\n    mistletoe.dev/group: mistletoe-examples\n"
    );
    assert!(MistPackage::from_headers("labels: {}\n").is_err());
    assert_eq!(MistPackage::from_headers("name: bare\n").unwrap().labels, None);
}

#[test]
fn test_mistpackage() {
    // The writer ends every document with a line break.
    let expected_yaml = "apiVersion: mistletoe.dev/v1alpha1\nkind: MistPackage\nmetadata:\n  name: example-nginx\n  labels:\n    mistletoe.dev/group: mistletoe-examples\n";

    let mut labels = IndexMap::new();
    labels.insert("mistletoe.dev/group".to_string(), "mistletoe-examples".to_string());

    let mistpackage = MistPackage {
        name: "example-nginx".to_string(),
        labels: Some(labels),
    };

    let yaml = mistpackage.serialize().unwrap();
    assert_eq!(expected_yaml, yaml, "left:\n{expected_yaml}\nright:\n{expected_yaml}");

    let mistpackage_parsed = MistPackage::deserialize(&yaml).unwrap();
    assert_eq!(mistpackage, mistpackage_parsed);
}

#[test]
fn scalars_are_read_as_texts() {
    let yaml = "apiVersion: mistletoe.dev/v1alpha1\nkind: MistResult\ndata:\n  result: Ok\n  message: 42\n  files:\n    1: true\n    b.yaml: 1.5\n";
    let parsed = deserialize_result(yaml).unwrap().unwrap();
    assert_eq!(parsed.get_message(), &Some("42".to_string()));
    assert_eq!(
        parsed.file_list(),
        vec![("1".to_string(), "true".to_string()), ("b.yaml".to_string(), "1.5".to_string())]
    );

    let package = MistPackage::deserialize(
        "apiVersion: v1alpha1\nkind: MistPackage\nmetadata:\n  name: 7\n  labels:\n    version: 1.0\n",
    )
    .unwrap();
    assert_eq!(package.name, "7");
    assert_eq!(package.labels.unwrap().get("version").unwrap(), "1.0");

    assert!(deserialize_result("apiVersion: v\nkind: k\ndata:\n  result: Ok\n  message: [a]\n").is_err());
    assert!(deserialize_result("apiVersion: v\nkind: k\ndata:\n  result: Ok\n  files:\n    a: {b: c}\n").is_err());
}

#[test]
fn key_that_comes_twice_as_text_keeps_its_place() {
    let yaml = "apiVersion: v\nkind: k\ndata:\n  result: Ok\n  files:\n    1: first\n    other: x\n    '1': second\n";
    let parsed = deserialize_result(yaml).unwrap().unwrap();
    assert_eq!(
        parsed.file_list(),
        vec![("1".to_string(), "second".to_string()), ("other".to_string(), "x".to_string())]
    );
}

#[test]
fn trimming_is_that_of_the_standard_library() {
    let samples = [
        "",
        " ",
        "a",
        "  a b \t\r\n",
        "\u{0085}\u{00A0}\u{1680}x\u{2000}\u{200A}\u{2028}\u{2029}\u{202F}\u{205F}\u{3000}",
        "\u{200B}zero width is kept\u{200B}",
        "\u{180E}mongolian vowel separator is kept ",
        "\u{000B}\u{000C}inner  space\u{001F}",
        "\n\n---\napiVersion: v1\n",
    ];
    for sample in samples {
        assert_eq!(trim(sample), sample.trim(), "{:?}", sample);
    }
    for code in 0..0x3100u32 {
        if let Some(c) = char::from_u32(code) {
            assert_eq!(white_space(c), c.is_whitespace(), "{:?}", c);
        }
    }
}

#[test]
fn values_with_keys_that_are_no_texts_are_carried() {
    let input = assemble_input(Some("1: file\nname: n\n"), Some("2: set, 1: again"), "demo").unwrap();
    assert_eq!(
        input.serialize().unwrap(),
        "apiVersion: mistletoe.dev/v1alpha1\nkind: MistInput\ndata:\n  1: again\n  name: demo\n  2: set\n"
    );
}
