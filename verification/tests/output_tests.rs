use mistletoe::api::mistresult::{MistError, MistOutput, MistResult};
use mistletoe::cluster::{ResourceHead, TypeMeta};
use mistletoe::outputs::{
    output_deleted, output_resources, output_result, parse_inspect_mode, parse_output_mode,
    Emission, InspectMode, McOutputDir, McOutputList, McOutputRaw, McOutputYaml, OutputError,
    OutputMode,
};

const DEPLOYMENT: &str = "---\napiVersion: apps/v1\nkind: Deployment\nmetadata:\n  name: my-nginx\n";
const SERVICE: &str = "---\napiVersion: v1\nkind: Service\nmetadata:\n  name: my-nginx\n";

fn rendered() -> MistResult {
    Ok(MistOutput::new()
        .with_file("deployment.yaml".to_string(), DEPLOYMENT.to_string())
        .with_file("service.yaml".to_string(), SERVICE.to_string()))
}

fn printed(result: &MistResult, mode: &OutputMode, process: bool) -> Result<String, OutputError> {
    match output_result(result, mode, "my-nginx", process, '/').outcome {
        Ok(Emission::Print(text)) => Ok(text),
        Ok(other) => panic!("unexpected {:?}", other),
        Err(e) => Err(e),
    }
}

#[test]
fn generate_prints_concatenated_yaml() {
    let text = printed(&rendered(), &OutputMode::Yaml, false).unwrap();
    assert_eq!(text, format!("{}\n---\n{}", DEPLOYMENT, SERVICE));
    assert_eq!((&rendered()).mc_output_yaml().unwrap(), text);
}

#[test]
fn guest_reported_error_is_surfaced() {
    let failed: MistResult = Err(MistError::new("bad namespace".to_string()));
    for mode in [OutputMode::Yaml, OutputMode::Raw, OutputMode::Dir("out".to_string())] {
        let rendering = output_result(&failed, &mode, "x", false, '/');
        assert!(rendering.message.is_none());
        match rendering.outcome {
            Err(e @ OutputError::Package(_)) => assert_eq!(e.message(), "bad namespace"),
            other => panic!("unexpected {:?}", other),
        }
    }
}

#[test]
fn generate_with_process_adds_install_labels() {
    let text = printed(&rendered(), &OutputMode::Yaml, true).unwrap();
    let documents: Vec<&str> = text.split("\n---\n").collect();
    assert_eq!(documents.len(), 2);
    for document in documents {
        let value: serde_yaml::Value = serde_yaml::from_str(document).unwrap();
        let labels = value.get("metadata").unwrap().get("labels").unwrap();
        assert_eq!(labels.get("mistletoe.dev/tied-to-install-name").unwrap().as_str(), Some("my-nginx"));
        assert_eq!(labels.get("mistletoe.dev/tied-to-install-version").unwrap().as_str(), Some("v0"));
    }
    assert_eq!(
        (&rendered()).mc_output_processed_yaml("my-nginx".to_string(), None).unwrap(),
        text
    );
    let versioned = (&rendered()).mc_output_processed_yaml("my-nginx".to_string(), Some(4)).unwrap();
    assert!(versioned.contains("mistletoe.dev/tied-to-install-version: v4"));
}

#[test]
fn process_is_rejected_with_raw() {
    let failed: MistResult = Err(MistError::new("bad namespace".to_string()));
    for result in [rendered(), failed] {
        match output_result(&result, &OutputMode::Raw, "x", true, '/').outcome {
            Err(e @ OutputError::ProcessWithRaw) => {
                assert_eq!(e.message(), "cannot specify -r/--process flag with -o/--output raw")
            }
            other => panic!("unexpected {:?}", other),
        }
    }
}

#[test]
fn raw_output_is_the_result_document() {
    let result: MistResult = Ok(MistOutput::new().with_file("a".to_string(), "b".to_string()));
    let text = printed(&result, &OutputMode::Raw, false).unwrap();
    assert_eq!(
        text,
        "apiVersion: mistletoe.dev/v1alpha1\nkind: MistResult\ndata:\n  result: Ok\n  files:\n    a: b"
    );
    assert_eq!((&result).mc_output_raw().unwrap(), text);
}

#[test]
fn message_is_shown_before_anything_else() {
    let result: MistResult = Ok(MistOutput::new().with_message("careful".to_string()));
    let rendering = output_result(&result, &OutputMode::Raw, "x", true, '/');
    assert_eq!(rendering.message, Some("careful".to_string()));
    assert!(rendering.outcome.is_err());
    let rendering = output_result(&result, &OutputMode::Yaml, "x", false, '/');
    assert_eq!(rendering.message, Some("careful".to_string()));
    assert!(matches!(rendering.outcome, Ok(Emission::Print(t)) if t.is_empty()));
}

#[test]
fn directory_takes_the_files_in_their_order() {
    match output_result(&rendered(), &OutputMode::Dir("out/dir".to_string()), "x", false, '/').outcome {
        Ok(Emission::Write(files)) => assert_eq!(
            files,
            vec![
                ("out/dir/deployment.yaml".to_string(), DEPLOYMENT.to_string()),
                ("out/dir/service.yaml".to_string(), SERVICE.to_string()),
            ]
        ),
        other => panic!("unexpected {:?}", other),
    }
    assert_eq!((&rendered()).mc_output_dir("o", '/').unwrap()[0].0, "o/deployment.yaml");
}

#[test]
fn output_mode_is_read_from_the_command_line() {
    assert!(matches!(parse_output_mode(None), Ok(OutputMode::Yaml)));
    assert!(matches!(parse_output_mode(Some("yaml")), Ok(OutputMode::Yaml)));
    assert!(matches!(parse_output_mode(Some("raw")), Ok(OutputMode::Raw)));
    assert!(matches!(parse_output_mode(Some("dir=out/x")), Ok(OutputMode::Dir(p)) if p == "out/x"));
    assert!(matches!(parse_output_mode(Some("dir=")), Ok(OutputMode::Dir(p)) if p.is_empty()));
    match parse_output_mode(Some("json")) {
        Err(e) => assert_eq!(e.message(), "Unexpected output type: json"),
        other => panic!("unexpected {:?}", other),
    }
    assert_eq!(parse_inspect_mode(None).unwrap(), InspectMode::List);
    assert_eq!(parse_inspect_mode(Some("list")).unwrap(), InspectMode::List);
    assert_eq!(parse_inspect_mode(Some("yaml")).unwrap(), InspectMode::Yaml);
    assert!(parse_inspect_mode(Some("raw")).is_err());
}

fn head(api_version: &str, kind: &str, name: Option<&str>, namespace: Option<&str>) -> ResourceHead {
    ResourceHead {
        types: Some(TypeMeta { api_version: api_version.to_string(), kind: kind.to_string() }),
        name: name.map(|s| s.to_string()),
        generate_name: None,
        namespace: namespace.map(|s| s.to_string()),
    }
}

#[test]
fn resources_are_listed_one_per_line() {
    let resources = vec![
        head("apps/v1", "Deployment", Some("web"), Some("prod")),
        head("v1", "Namespace", Some("prod"), None),
        head("v1", "Pod", None, Some("prod")),
    ];
    let text = (&resources).mc_output_list().unwrap();
    assert_eq!(
        text,
        "deployment.v1/web (in namespace prod)\nnamespace/prod (not namespaced)\npod/<unknown name> (in namespace prod)"
    );
    assert_eq!(output_resources(&resources, &vec![], InspectMode::List, "demo").unwrap(), text);
    let documents = vec!["a: 1\n".to_string(), "b: 2\n".to_string()];
    assert_eq!(
        output_resources(&resources, &documents, InspectMode::Yaml, "demo").unwrap(),
        "a: 1\n\n---\nb: 2\n"
    );
    assert_eq!((&documents).mc_output_yaml().unwrap(), "a: 1\n\n---\nb: 2\n");
}

#[test]
fn resource_without_type_cannot_be_listed() {
    let resources = vec![ResourceHead { types: None, name: None, generate_name: None, namespace: None }];
    match (&resources).mc_output_list() {
        Err(e @ OutputError::NoTypeInformation) => {
            assert_eq!(e.message(), "resource has no type information")
        }
        other => panic!("unexpected {:?}", other),
    }
}

#[test]
fn uninstall_reports_what_it_deleted() {
    let resources = vec![
        head("apps/v1", "Deployment", Some("web"), Some("prod")),
        head("v1", "Service", Some("web"), Some("prod")),
    ];
    assert_eq!(
        output_deleted(&resources, "demo").unwrap(),
        "deleted deployment.v1/web (in namespace prod)\ndeleted service/web (in namespace prod)"
    );
    for r in [output_deleted(&vec![], "demo"), output_resources(&vec![], &vec![], InspectMode::List, "demo")] {
        match r {
            Err(e @ OutputError::NoResources(_)) => {
                assert_eq!(e.message(), "no resources found for installation name \"demo\"")
            }
            other => panic!("unexpected {:?}", other),
        }
    }
}

#[test]
fn files_of_a_result_are_listed() {
    let result = rendered();
    assert_eq!(
        (&result).mc_output_list().unwrap(),
        "deployment.v1/my-nginx (not namespaced)\nservice/my-nginx (not namespaced)"
    );
}
