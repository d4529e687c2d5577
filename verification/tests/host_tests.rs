use mistletoe::guest::HostError;
use mistletoe::husk::MistHuskModule;
use mistletoe::instance::{interpret_payload, MistPackageInstance, MistPackageRef, PolicyError};
use mistletoe::loader::{load, PackageRef};

fn escaped(bytes: &[u8]) -> String {
    let mut out = String::new();
    for b in bytes {
        out.push_str(&format!("\\{:02x}", b));
    }
    out
}

fn word(n: usize) -> Vec<u8> {
    (n as u32).to_le_bytes().to_vec()
}

/// A package that keeps count of the buffers it has handed out and not got back. Its output
/// is `prefix`, then the input where `echo`, then `suffix`; the byte at `digit_at` of the
/// output is the digit of the count of buffers that earlier runs left behind.
fn shim(
    info: &str,
    prefix: &[u8],
    digit_at: Option<usize>,
    echo: bool,
    suffix: &[u8],
    names: (&str, &str, &str),
) -> Vec<u8> {
    let mut descriptor = word(16);
    descriptor.extend(word(info.len()));
    let p = prefix.len();
    let s = suffix.len();
    let patch = match digit_at {
        Some(at) => format!(
            "(i32.store8 (i32.add (local.get $out) (i32.const {at})) (i32.add (i32.const 48) (i32.sub (global.get $live) (i32.const 1))))"
        ),
        None => String::new(),
    };
    let copied = if echo { "(local.get $len)" } else { "(i32.const 0)" };
    let wat = format!(
        r#"(module
  (memory (export "memory") 2)
  (global $live (mut i32) (i32.const 0))
  (global $next (mut i32) (i32.const 8192))
  (data (i32.const 0) "{descriptor}")
  (data (i32.const 16) "{info}")
  (data (i32.const 2048) "{prefix}")
  (data (i32.const 4096) "{suffix}")
  (func (export "__mistletoe_info") (result i32) (i32.const 0))
  (func (export "{alloc}") (param $len i32) (result i32) (local $p i32)
    (local.set $p (global.get $next))
    (global.set $next (i32.add (global.get $next) (local.get $len)))
    (global.set $live (i32.add (global.get $live) (i32.const 1)))
    (local.get $p))
  (func (export "{dealloc}") (param i32 i32)
    (global.set $live (i32.sub (global.get $live) (i32.const 1))))
  (func (export "{generate}") (param $ptr i32) (param $len i32) (result i32)
    (local $out i32) (local $desc i32) (local $i i32) (local $n i32)
    (local.set $out (global.get $next))
    (local.set $n {copied})
    (local.set $i (i32.const 0))
    (block $a (loop $b
      (br_if $a (i32.ge_u (local.get $i) (i32.const {p})))
      (i32.store8 (i32.add (local.get $out) (local.get $i))
        (i32.load8_u (i32.add (i32.const 2048) (local.get $i))))
      (local.set $i (i32.add (local.get $i) (i32.const 1)))
      (br $b)))
    {patch}
    (local.set $i (i32.const 0))
    (block $c (loop $d
      (br_if $c (i32.ge_u (local.get $i) (local.get $n)))
      (i32.store8 (i32.add (local.get $out) (i32.add (i32.const {p}) (local.get $i)))
        (i32.load8_u (i32.add (local.get $ptr) (local.get $i))))
      (local.set $i (i32.add (local.get $i) (i32.const 1)))
      (br $d)))
    (local.set $i (i32.const 0))
    (block $e (loop $f
      (br_if $e (i32.ge_u (local.get $i) (i32.const {s})))
      (i32.store8
        (i32.add (local.get $out) (i32.add (i32.add (i32.const {p}) (local.get $n)) (local.get $i)))
        (i32.load8_u (i32.add (i32.const 4096) (local.get $i))))
      (local.set $i (i32.add (local.get $i) (i32.const 1)))
      (br $f)))
    (local.set $desc (i32.add (local.get $out) (i32.add (i32.const {ps}) (local.get $n))))
    (i32.store (local.get $desc) (local.get $out))
    (i32.store (i32.add (local.get $desc) (i32.const 4)) (i32.add (i32.const {ps}) (local.get $n)))
    (global.set $next (i32.add (local.get $desc) (i32.const 8)))
    (global.set $live (i32.add (global.get $live) (i32.const 2)))
    (local.get $desc)))
"#,
        descriptor = escaped(&descriptor),
        info = escaped(info.as_bytes()),
        prefix = escaped(prefix),
        suffix = escaped(suffix),
        alloc = names.1,
        dealloc = names.2,
        generate = names.0,
        p = p,
        s = s,
        ps = p + s,
        patch = patch,
        copied = copied,
    );
    wat.into_bytes()
}

const FIXED: (&str, &str, &str) = ("__mistletoe_generate", "__mistletoe_alloc", "__mistletoe_dealloc");

const INFO: &str = "apiVersion: mistletoe.dev/v1alpha1\nkind: MistPackage\nmetadata:\n  name: shim\n  labels:\n    mistletoe.dev/group: mistletoe-examples\n";

const OK_PREFIX: &str = "apiVersion: mistletoe.dev/v1alpha1\nkind: MistResult\ndata:\n  result: Ok\n  message: live0\n  files:\n    echo.yaml: '";

fn counting_guest() -> Vec<u8> {
    let digit_at = OK_PREFIX.find("live0").unwrap() + 4;
    shim(INFO, OK_PREFIX.as_bytes(), Some(digit_at), true, b"'\n", FIXED)
}

#[test]
fn info_is_read_when_the_package_is_loaded() {
    let instance = MistPackageInstance::init(true, &counting_guest()).unwrap();
    assert!(instance.is_local());
    let info = instance.info().unwrap();
    assert_eq!(info.name, "shim");
    let labels = info.labels.unwrap();
    assert_eq!(labels.get("mistletoe.dev/group").unwrap(), "mistletoe-examples");
    assert_eq!(instance.info().unwrap().name, "shim");
}

#[test]
fn generate_hands_the_input_over_and_reads_the_result() {
    let mut instance = MistPackageInstance::init(true, &counting_guest()).unwrap();
    let out = instance.generate("name: my-nginx").unwrap().unwrap();
    assert_eq!(out.get_message(), &Some("live0".to_string()));
    assert_eq!(out.get_files().get("echo.yaml").unwrap(), "name: my-nginx");
}

#[test]
fn generate_leaves_no_buffer_behind() {
    let mut instance = MistPackageInstance::init(true, &counting_guest()).unwrap();
    for round in 0..5 {
        let out = instance.generate("x").unwrap().unwrap();
        assert_eq!(out.get_message(), &Some("live0".to_string()), "round {}", round);
    }
}

#[test]
fn guest_reported_error_is_a_result() {
    let payload = "apiVersion: mistletoe.dev/v1alpha1\nkind: MistResult\ndata:\n  result: Err\n  message: bad namespace\n";
    let guest = shim(INFO, payload.as_bytes(), None, false, b"", FIXED);
    let mut instance = MistPackageInstance::init(true, &guest).unwrap();
    let result = instance.generate("name: x").unwrap();
    assert_eq!(result.err().unwrap().message(), "bad namespace");
    let again = instance.generate("name: x").unwrap();
    assert_eq!(again.err().unwrap().message(), "bad namespace");
}

#[test]
fn buffers_are_released_when_the_payload_is_no_result() {
    // The first byte of the payload is the digit of the buffers left behind.
    let guest = shim(INFO, b"0 is no document of a result", Some(0), false, b"", FIXED);
    let mut instance = MistPackageInstance::init(true, &guest).unwrap();
    for _ in 0..3 {
        match instance.generate("x") {
            Err(HostError::InvalidEnvelope(payload, _)) => {
                assert_eq!(payload, "0 is no document of a result")
            }
            other => panic!("unexpected {:?}", other.map(|_| ())),
        }
    }
}

#[test]
fn payload_that_is_no_utf8_is_kept_in_the_error() {
    let guest = shim(INFO, &[0xff, 0xfe, 0x41], None, false, b"", FIXED);
    let mut instance = MistPackageInstance::init(true, &guest).unwrap();
    match instance.generate("x") {
        Err(HostError::InvalidUtf8(bytes)) => assert_eq!(bytes, vec![0xff, 0xfe, 0x41]),
        other => panic!("unexpected {:?}", other.map(|_| ())),
    }
}

#[test]
fn renamed_functions_are_called_under_their_names() {
    let info = "apiVersion: mistletoe.dev/v1alpha1\nkind: MistPackage\nmetadata:\n  name: renamed\nspec:\n  functions:\n    generate: render\n    alloc: take\n    dealloc: give\n";
    let digit_at = OK_PREFIX.find("live0").unwrap() + 4;
    let guest = shim(info, OK_PREFIX.as_bytes(), Some(digit_at), true, b"'\n", ("render", "take", "give"));
    let mut instance = MistPackageInstance::init(false, &guest).unwrap();
    assert!(!instance.is_local());
    let out = instance.generate("a: b").unwrap().unwrap();
    assert_eq!(out.get_files().get("echo.yaml").unwrap(), "a: b");
    let out = instance.generate("a: b").unwrap().unwrap();
    assert_eq!(out.get_message(), &Some("live0".to_string()));
}

#[test]
fn missing_export_is_an_error() {
    let guest = shim(INFO, OK_PREFIX.as_bytes(), None, true, b"'\n", ("other", "__mistletoe_alloc", "__mistletoe_dealloc"));
    let mut instance = MistPackageInstance::init(true, &guest).unwrap();
    match instance.generate("x") {
        Err(HostError::Export(_)) => {}
        other => panic!("unexpected {:?}", other.map(|_| ())),
    }
}

#[test]
fn artifact_that_is_no_module_is_not_loaded() {
    match MistPackageInstance::init(true, b"this is no module") {
        Err(HostError::Load(_)) => {}
        other => panic!("unexpected {:?}", other.map(|_| ())),
    }
}

#[test]
fn descriptor_outside_the_memory_is_an_error() {
    let wat = r#"(module
  (memory (export "memory") 1)
  (func (export "__mistletoe_info") (result i32) (i32.const 70000)))"#;
    match MistPackageInstance::init(true, wat.as_bytes()) {
        Err(HostError::Memory(_)) => {}
        other => panic!("unexpected {:?}", other.map(|_| ())),
    }
}

#[test]
fn provenance_follows_the_reference() {
    let local = MistPackageRef::parse("./pkg.wasm", '/').unwrap();
    let remote = MistPackageRef::parse("reg/pkg:1.0", '/').unwrap();
    assert!(MistPackageInstance::load(&local, &counting_guest()).unwrap().is_local());
    assert!(!MistPackageInstance::load(&remote, &counting_guest()).unwrap().is_local());
    let remote = PackageRef::parse("reg/pkg:1.0", '/').unwrap();
    assert!(!load(&remote, &counting_guest()).unwrap().is_local());
}

#[test]
fn husk_module_hands_the_text_back() {
    let info = "apiVersion: mistletoe.dev/v1alpha1\nkind: MistHuskPackage\nmetadata:\n  name: husk\nspec:\n  functions:\n    generate: render\n";
    let guest = shim(info, b"out0:", Some(3), true, b"!", ("render", "__mistletoe_alloc", "__mistletoe_dealloc"));
    let mut module = MistHuskModule::from_file(&guest).unwrap();
    assert_eq!(module.generate("abc").unwrap(), "out0:abc!");
    assert_eq!(module.generate("de").unwrap(), "out0:de!");
}

#[test]
fn payload_is_interpreted_as_utf8_yaml() {
    let text = "apiVersion: mistletoe.dev/v1alpha1\nkind: MistResult\ndata:\n  result: Ok\n  files:\n    a: b\n";
    let out = interpret_payload(text.as_bytes().to_vec()).unwrap().unwrap();
    assert_eq!(out.get_files().get("a").unwrap(), "b");
    assert!(matches!(interpret_payload(vec![0xc3, 0x28]), Err(HostError::InvalidUtf8(_))));
}

#[test]
fn package_of_a_registry_may_not_load_a_local_file() {
    let local = MistPackageRef::parse("./pkg.wasm", '/').unwrap();
    let remote = MistPackageRef::parse("reg/pkg:1.0", '/').unwrap();
    let from_registry = MistPackageInstance::init(false, &counting_guest()).unwrap();
    let from_disk = MistPackageInstance::init(true, &counting_guest()).unwrap();
    assert_eq!(from_registry.may_load(&local), Err(PolicyError::LocalModule));
    assert_eq!(
        PolicyError::LocalModule.message(),
        "engine is not permitted to load local module"
    );
    assert_eq!(from_registry.may_load(&remote), Ok(()));
    assert_eq!(from_disk.may_load(&local), Ok(()));
    assert_eq!(from_disk.may_load(&remote), Ok(()));
}
