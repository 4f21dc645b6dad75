use delta_core::capability::abi::CapabilityGrants;
use delta_core::capability::host::CapabilityHost;
use delta_core::extension_manifest::{
    default_parameters, register_manifest, ExtensionRunner, WorkerEntry, WorkerManifest, WorkerManifestLoadReport,
    CAPABILITY_WORKER_MANIFEST_FILENAME, EXTENSIONS_DIRNAME,
};
use delta_core::json::Json;
use delta_core::strmap::StrMap;

fn entry(capability_id: &str, tool_name: &str, program: &str, persistent: bool) -> WorkerEntry {
    WorkerEntry {
        capability_id: capability_id.to_string(),
        tool_name: tool_name.to_string(),
        description: tool_name.to_string(),
        parameters: default_parameters(),
        metadata: Json::Object(Vec::new()),
        grants: CapabilityGrants::read_only(),
        workspace_write: false,
        program: program.to_string(),
        arguments: vec!["-m".to_string(), "test".to_string()],
        environment: StrMap::new(),
        enabled: true,
        persistent,
        process_key: None,
    }
}

fn manifest(source: &str, workers: Vec<WorkerEntry>) -> WorkerManifest {
    WorkerManifest { version: 1, source: source.to_string(), workers }
}

fn manifest_path(directory: &str) -> String {
    format!("{EXTENSIONS_DIRNAME}/{directory}/{CAPABILITY_WORKER_MANIFEST_FILENAME}")
}

#[test]
fn missing_extension_directory_is_foundation_only_state() {
    let host: CapabilityHost<ExtensionRunner> = CapabilityHost::new();
    let report = WorkerManifestLoadReport::default();
    assert_eq!(report.registered, 0);
    assert!(report.errors.is_empty());
    assert!(host.registry.get("test_good").is_none());
}

#[test]
fn rejects_relative_worker_program_without_blocking_other_extensions() {
    let mut host: CapabilityHost<ExtensionRunner> = CapabilityHost::new();
    let mut report = WorkerManifestLoadReport::default();

    let bad = manifest("bad", vec![entry("test.bad", "test_bad", "python", false)]);
    let outcome = register_manifest(&mut host, bad, "bad", &vec![false], |r| r);
    report.record(&manifest_path("bad"), outcome);

    let good = manifest("good", vec![entry("test.good", "test_good", "/usr/bin/worker", false)]);
    let outcome = register_manifest(&mut host, good, "good", &vec![true], |r| r);
    report.record(&manifest_path("good"), outcome);

    assert_eq!(report.registered, 1);
    assert_eq!(report.errors.len(), 1);
    assert!(report.errors[0].contains("absolute path"));
    assert!(report.errors[0].starts_with(&manifest_path("bad")));
    assert!(host.registry.get("test_good").is_some());
    assert!(host.registry.get("test_bad").is_none());
}

#[test]
fn source_must_match_extension_directory() {
    let mut host: CapabilityHost<ExtensionRunner> = CapabilityHost::new();
    let mut report = WorkerManifestLoadReport::default();
    let outcome = register_manifest(&mut host, manifest("other", Vec::new()), "actual", &Vec::new(), |r| r);
    report.record(&manifest_path("actual"), outcome);
    assert_eq!(report.registered, 0);
    assert_eq!(report.errors.len(), 1);
    assert!(report.errors[0].contains("does not match extension directory"));
}

#[test]
fn unsupported_manifest_version_is_refused() {
    let mut host: CapabilityHost<ExtensionRunner> = CapabilityHost::new();
    let mut m = manifest("x", Vec::new());
    m.version = 2;
    let outcome = register_manifest(&mut host, m, "x", &Vec::new(), |r| r);
    assert_eq!(outcome.err().as_deref(), Some("unsupported capability worker manifest version: 2"));
}

#[test]
fn disabled_workers_are_skipped_and_persistent_workers_share_a_process() {
    let mut host: CapabilityHost<ExtensionRunner> = CapabilityHost::new();
    let mut off = entry("test.off", "test_off", "/bin/off", false);
    off.enabled = false;
    let one = entry("test.one", "test_one", "/bin/shared", true);
    let two = entry("test.two", "test_two", "/bin/shared", true);
    let outcome = register_manifest(&mut host, manifest("ext", vec![off, one, two]), "ext", &vec![true, true], |r| r);
    assert_eq!(outcome, Ok(2));
    assert!(host.registry.get("test_off").is_none());
    let first = host.registry.get("test_one").unwrap();
    let second = host.registry.get("test_two").unwrap();
    match (&first.runner, &second.runner) {
        (
            ExtensionRunner::Persistent { key: k1, fresh: f1, .. },
            ExtensionRunner::Persistent { key: k2, fresh: f2, .. },
        ) => {
            assert_eq!(k1, k2);
            assert!(*f1);
            assert!(!*f2);
        },
        _ => panic!("persistent runners expected"),
    }
}
