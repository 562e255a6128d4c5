use io_thread_controller::backends::fake::{
    build_fake_backend, default_managed, default_thread_count, default_vcpu_count, vm_id,
    FakeBackend, FakeClient, FakeConfig, StateFile, VmFile,
};
use io_thread_controller::backends::BackendClientError;
use io_thread_controller::config::ConfigError;
use io_thread_controller::double::Double;

fn vm_file() -> VmFile {
    VmFile {
        thread_count: default_thread_count(),
        vcpu_count: default_vcpu_count(),
        per_thread_util: Double::from_bits(0.25f64.to_bits()),
        managed: default_managed(),
        fail_snapshot: false,
        read_io_count: 3,
        write_io_count: 4,
        other_io_count: 5,
    }
}

fn backend() -> FakeBackend {
    FakeBackend::from_config_dir(Some(Ok(FakeConfig {
        state_dir: "/state".to_string(),
    })))
    .unwrap()
}

fn client(path: &str) -> FakeClient {
    FakeClient {
        vm_path: path.to_string(),
        calls_path: "/state/calls.jsonl".to_string(),
        managed: true,
    }
}

#[test]
fn defaults_of_a_vm_file() {
    assert_eq!(default_thread_count(), 1);
    assert_eq!(default_vcpu_count(), 1);
    assert!(default_managed());
}

#[test]
fn absent_configuration_discovers_nothing() {
    let backend = FakeBackend::from_config_dir(None).unwrap();
    assert_eq!(backend.name(), "fake");
    assert!(backend.watch_paths().is_empty());
    let files = vec![StateFile {
        name: "vm-a.json".to_string(),
        content: Ok(vm_file()),
    }];
    assert!(backend.discover(&files).is_empty());
}

#[test]
fn unusable_configuration_is_an_error() {
    let failed = || Some(Err(ConfigError::SerdeJson("unknown field".to_string())));
    assert!(matches!(
        FakeBackend::from_config_dir(failed()),
        Err(ConfigError::SerdeJson(_))
    ));
    let error = build_fake_backend(failed()).unwrap_err();
    assert!(matches!(error, BackendClientError::Config(_)));
    assert_eq!(error.message(), "unknown field");
    assert!(build_fake_backend(None).is_ok());
    assert_eq!(FakeConfig::path("/etc/backends"), "/etc/backends/fake.json");
    assert_eq!(FakeConfig::path("conf/"), "conf/fake.json");
}

#[test]
fn discovery_takes_readable_vm_files() {
    let unreadable = |name: &str| StateFile {
        name: name.to_string(),
        content: Err(BackendClientError::Json("eof".to_string())),
    };
    let readable = |name: &str, managed: bool| StateFile {
        name: name.to_string(),
        content: Ok(VmFile {
            managed,
            ..vm_file()
        }),
    };
    let files = vec![
        readable("vm-b.json", true),
        unreadable("calls.jsonl"),
        unreadable("vm-c.json"),
        readable("vm-a.json", false),
        readable(".json", true),
        readable("vm-a.lock", true),
    ];
    let found = backend().discover(&files);
    let ids: Vec<&str> = found.iter().map(|vm| vm.instance.id.as_str()).collect();
    assert_eq!(ids, vec!["vm-b", "vm-a"]);
    assert!(found.iter().all(|vm| vm.instance.pid == 0));
    assert!(found.iter().all(|vm| !vm.instance.status.alive));
    assert_eq!(found[0].client.vm_path, "/state/vm-b.json");
    assert_eq!(found[0].client.calls_path, "/state/calls.jsonl");
    assert!(found[0].client.initial_pool_is_managed(1, 1));
    assert!(!found[1].client.initial_pool_is_managed(1, 1));
    assert_eq!(backend().watch_paths(), vec!["/state".to_string()]);
}

#[test]
fn file_names_tell_vms() {
    assert_eq!(vm_id("vm-a.json"), Some("vm-a".to_string()));
    assert_eq!(vm_id("a.b.json"), Some("a.b".to_string()));
    assert_eq!(vm_id(".json"), None);
    assert_eq!(vm_id("json"), None);
    assert_eq!(vm_id("vm-a.json.tmp"), None);
    assert_eq!(vm_id("vm-a.JSON"), None);
    assert_eq!(vm_id(""), None);
}

#[test]
fn sibling_files_of_a_vm_file() {
    let client = client("/state/vm-a.json");
    assert_eq!(client.lock_path(), "/state/vm-a.lock");
    assert_eq!(client.staging_path(), "/state/vm-a.json.tmp");
}

#[test]
fn snapshot_shows_the_file() {
    let client = client("/state/vm-a.json");
    let snapshot = client.get_thread_pool_snapshot(&vm_file()).unwrap();
    assert_eq!(snapshot.thread_count, 1);
    assert_eq!(snapshot.vcpu_count, 1);
    let perf = snapshot.perf.unwrap();
    assert_eq!(
        (perf.read_io_count, perf.write_io_count, perf.other_io_count),
        (3, 4, 5)
    );
    assert_eq!((perf.read_bytes_total, perf.write_bytes_total), (0, 0));
    assert_eq!(perf.total_io_count(), 12);
    assert_eq!(
        snapshot.per_thread_util,
        Some(Double::from_bits(0.25f64.to_bits()))
    );
    let broken = VmFile {
        fail_snapshot: true,
        ..vm_file()
    };
    let error = client.get_thread_pool_snapshot(&broken).unwrap_err();
    assert!(matches!(error, BackendClientError::InvalidState(_)));
    assert_eq!(
        error.message(),
        "fake snapshot failed for /state/vm-a.json"
    );
}

#[test]
fn set_thread_count_changes_only_the_count() {
    let client = client("/state/vm-a.json");
    let after = client.set_thread_count(vm_file(), 7);
    assert_eq!(
        after,
        VmFile {
            thread_count: 7,
            ..vm_file()
        }
    );
    let snapshot = client.get_thread_pool_snapshot(&after).unwrap();
    assert_eq!(snapshot.thread_count, 7);
}

#[test]
fn calls_are_recorded_as_json_lines() {
    assert_eq!(
        client("/state/vm-a.json").call_line(7),
        "{\"threads\":7,\"vm\":\"vm-a\"}\n"
    );
    assert_eq!(
        client("/state/sub/a\"b.json").call_line(u32::MAX),
        "{\"threads\":4294967295,\"vm\":\"a\\\"b\"}\n"
    );
    let value: serde_json::Value =
        serde_json::from_str(&client("vm-z.json").call_line(2)).unwrap();
    assert_eq!(value["vm"], "vm-z");
    assert_eq!(value["threads"], 2);
}

#[test]
fn client_errors_speak_for_themselves() {
    for error in [
        BackendClientError::Transport("x".to_string()),
        BackendClientError::InvalidState("x".to_string()),
        BackendClientError::Io("x".to_string()),
        BackendClientError::Json("x".to_string()),
    ] {
        assert_eq!(error.message(), "x");
    }
}
