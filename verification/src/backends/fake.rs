//! File-backed backend for component tests.
//!
//! Each VM is one JSON file in `state_dir`. The test harness updates that file;
//! every snapshot re-reads it. Setting a worker count writes the new count back and
//! appends the target to `calls.jsonl`. A sibling `.lock` file serialises those
//! read-modify-writes with the harness.
use vstd::prelude::*;

use crate::backends::BackendClientError;
use crate::config::ConfigError;
use crate::double::Double;
use crate::instance::{Instance, InstancePerfSample, ThreadPoolSnapshot};
use crate::paths::{base_name, base_name_of, join, joined};
use crate::text::{law_suffix_comes_off_where_it_stands, strip_suffix, without_suffix};

verus! {

/// The name under which the backend is registered.
pub fn backend_name() -> (name: &'static str)
    ensures
        name@ == "fake"@,
{
    "fake"
}

/// `<backend_config_dir>/fake.json`.
#[derive(Debug)]
pub struct FakeConfig {
    /// Directory of `<vm-id>.json` files and `calls.jsonl`.
    pub state_dir: String,
}

impl FakeConfig {
    /// The file that holds the configuration.
    pub fn path(dir: &str) -> (path: String)
        ensures
            path@ == joined(dir@, "fake.json"@),
    {
        join(dir, "fake.json")
    }

    /// Take in what reading the file gave, nothing where the file does not exist. An
    /// absent file discovers nothing.
    pub fn from_dir(file: Option<Result<FakeConfig, ConfigError>>) -> (r: Result<
        Option<FakeConfig>,
        ConfigError,
    >)
        ensures
            file is None ==> r == Ok::<Option<FakeConfig>, ConfigError>(None),
            file matches Some(Ok(cfg)) ==> r == Ok::<Option<FakeConfig>, ConfigError>(Some(cfg)),
            file matches Some(Err(error)) ==> r == Err::<Option<FakeConfig>, ConfigError>(error),
    {
        match file {
            None => Ok(None),
            Some(Ok(cfg)) => Ok(Some(cfg)),
            Some(Err(error)) => Err(error),
        }
    }
}

/// One component-test VM, as stored on disk.
#[derive(Debug, Clone, Copy, PartialEq, Eq, Structural)]
pub struct VmFile {
    pub thread_count: u32,
    pub vcpu_count: u32,
    pub per_thread_util: Double,
    /// First-snapshot ownership. `true` lets the controller scale the VM.
    pub managed: bool,
    pub fail_snapshot: bool,
    pub read_io_count: u64,
    pub write_io_count: u64,
    pub other_io_count: u64,
}

impl VmFile {
    /// The worker pool that the file describes.
    pub open spec fn pool(self) -> ThreadPoolSnapshot {
        ThreadPoolSnapshot {
            thread_count: self.thread_count,
            vcpu_count: self.vcpu_count,
            perf: Some(
                InstancePerfSample {
                    read_io_count: self.read_io_count,
                    write_io_count: self.write_io_count,
                    other_io_count: self.other_io_count,
                    read_bytes_total: 0,
                    write_bytes_total: 0,
                },
            ),
            per_thread_util: Some(self.per_thread_util),
        }
    }

    /// The file after its worker count was set.
    pub open spec fn resized(self, count: u32) -> VmFile {
        VmFile { thread_count: count, ..self }
    }
}

/// Value of `thread_count` that a VM file leaves out.
pub fn default_thread_count() -> (r: u32)
    ensures
        r == 1,
{
    1
}

/// Value of `vcpu_count` that a VM file leaves out.
pub fn default_vcpu_count() -> (r: u32)
    ensures
        r == 1,
{
    1
}

/// Value of `managed` that a VM file leaves out.
pub fn default_managed() -> (r: bool)
    ensures
        r,
{
    true
}

/// The VM that a file name stands for: what is before a final `.json`, where there
/// is something before it.
pub open spec fn vm_of(file_name: Seq<char>) -> Option<Seq<char>> {
    match without_suffix(file_name, ".json"@) {
        Some(id) => if id.len() > 0 {
            Some(id)
        } else {
            None
        },
        None => None,
    }
}

/// The VM that a directory entry stands for, if it is a VM file.
pub fn vm_id(file_name: &str) -> (id: Option<String>)
    ensures
        id is Some <==> vm_of(file_name@) is Some,
        id matches Some(id) ==> vm_of(file_name@) == Some(id@),
{
    match strip_suffix(file_name, ".json") {
        Some(id) => if id.as_str().is_empty() {
            None
        } else {
            Some(id)
        },
        None => None,
    }
}

/// One entry of the state directory: its name, and what reading it as a VM file
/// gave.
#[derive(Debug)]
pub struct StateFile {
    pub name: String,
    pub content: Result<VmFile, BackendClientError>,
}

/// A VM that was found, with the client that drives it.
#[derive(Debug)]
pub struct FoundVm {
    /// The VM, before its first refresh.
    pub instance: Instance,
    /// Its client.
    pub client: FakeClient,
}

impl FoundVm {
    /// This is the VM that `file`, in `state_dir`, stands for.
    pub open spec fn stands_for(self, state_dir: Seq<char>, file: StateFile) -> bool {
        &&& vm_of(file.name@) == Some(self.instance.id@)
        &&& self.instance.pid == 0
        &&& self.instance.status.unrefreshed()
        &&& self.client.vm_path@ == joined(state_dir, file.name@)
        &&& self.client.calls_path@ == joined(state_dir, "calls.jsonl"@)
        &&& file.content is Ok
        &&& self.client.managed == file.content->Ok_0.managed
    }
}

/// Whether a directory entry is a VM that can be driven.
pub open spec fn usable(file: StateFile) -> bool {
    vm_of(file.name@) is Some && file.content is Ok
}

/// The usable ones among directory entries.
pub open spec fn usable_files(files: Seq<StateFile>) -> Seq<StateFile>
    decreases files.len(),
{
    if files.len() == 0 {
        Seq::empty()
    } else if usable(files.last()) {
        usable_files(files.drop_last()).push(files.last())
    } else {
        usable_files(files.drop_last())
    }
}

/// Fleet adapter that discovers JSON VM files.
#[derive(Debug)]
pub struct FakeBackend {
    cfg: Option<FakeConfig>,
}

/// Build the backend for the registry; a configuration that cannot be used is
/// reported as a client error.
pub fn build_fake_backend(file: Option<Result<FakeConfig, ConfigError>>) -> (r: Result<
    FakeBackend,
    BackendClientError,
>)
    ensures
        r is Err <==> file matches Some(Err(_)),
        file matches Some(Err(error)) ==> r->Err_0 == BackendClientError::Config(error),
        file is None ==> r->Ok_0.watched() is None,
        file matches Some(Ok(cfg)) ==> r->Ok_0.watched() == Some(cfg.state_dir@),
{
    match FakeBackend::from_config_dir(file) {
        Ok(backend) => Ok(backend),
        Err(error) => Err(BackendClientError::Config(error)),
    }
}

impl FakeBackend {
    /// The directory whose VM files are discovered.
    pub closed spec fn watched(&self) -> Option<Seq<char>> {
        match self.cfg {
            Some(cfg) => Some(cfg.state_dir@),
            None => None,
        }
    }

    /// Build from what reading `<dir>/fake.json` gave, or an empty inventory when it
    /// is absent.
    pub fn from_config_dir(file: Option<Result<FakeConfig, ConfigError>>) -> (r: Result<
        FakeBackend,
        ConfigError,
    >)
        ensures
            r is Err <==> file matches Some(Err(_)),
            file matches Some(Err(error)) ==> r->Err_0 == error,
            file is None ==> r->Ok_0.watched() is None,
            file matches Some(Ok(cfg)) ==> r->Ok_0.watched() == Some(cfg.state_dir@),
    {
        match FakeConfig::from_dir(file) {
            Ok(cfg) => Ok(FakeBackend { cfg }),
            Err(error) => Err(error),
        }
    }

    /// The name under which the backend is registered.
    pub fn name(&self) -> (name: &'static str)
        ensures
            name@ == "fake"@,
    {
        backend_name()
    }

    /// Find the VMs among the entries of the state directory. An entry that is no VM
    /// file, or that cannot be read as one, is skipped; without a state directory
    /// there are none.
    pub fn discover(&self, files: &Vec<StateFile>) -> (found: Vec<FoundVm>)
        ensures
            self.watched() is None ==> found@.len() == 0,
            self.watched() matches Some(dir) ==> {
                &&& found@.len() == usable_files(files@).len()
                &&& forall|i: int|
                    0 <= i < found@.len() ==> (#[trigger] found@[i]).stands_for(
                        dir,
                        usable_files(files@)[i],
                    )
                &&& forall|i: int|
                    0 <= i < found@.len() && !usable_files(files@)[i].name@.contains('/')
                        ==> (#[trigger] found@[i]).client.wf()
            },
    {
        let mut found: Vec<FoundVm> = Vec::new();
        let cfg = match &self.cfg {
            Some(cfg) => cfg,
            None => {
                return found;
            },
        };
        let ghost all = files@;
        let mut i: usize = 0;
        assert(all.take(0) == Seq::<StateFile>::empty());
        while i < files.len()
            invariant
                i <= all.len(),
                files@ == all,
                found@.len() == usable_files(all.take(i as int)).len(),
                forall|j: int|
                    0 <= j < found@.len() ==> (#[trigger] found@[j]).stands_for(
                        cfg.state_dir@,
                        usable_files(all.take(i as int))[j],
                    ),
                forall|j: int|
                    0 <= j < found@.len() && !usable_files(all.take(i as int))[j].name@.contains(
                        '/',
                    ) ==> (#[trigger] found@[j]).client.wf(),
            decreases all.len() - i,
        {
            proof {
                assert(all.take(i + 1).drop_last() == all.take(i as int));
                assert(all.take(i + 1).last() == all[i as int]);
            }
            let file = &files[i];
            if let Some(id) = vm_id(file.name.as_str()) {
                if let Ok(vm) = &file.content {
                    let client = FakeClient {
                        vm_path: join(cfg.state_dir.as_str(), file.name.as_str()),
                        calls_path: join(cfg.state_dir.as_str(), "calls.jsonl"),
                        managed: vm.managed,
                    };
                    proof {
                        if !file.name@.contains('/') {
                            lemma_joined_client(cfg.state_dir@, file.name@);
                        }
                    }
                    found.push(FoundVm { instance: Instance::new(id, 0), client });
                }
            }
            i += 1;
        }
        assert(all.take(all.len() as int) == all);
        found
    }

    /// The directories whose changes call for a new discovery.
    pub fn watch_paths(&self) -> (paths: Vec<String>)
        ensures
            self.watched() is None ==> paths@.len() == 0,
            self.watched() matches Some(dir) ==> paths@.len() == 1 && paths@[0]@ == dir,
    {
        let mut paths: Vec<String> = Vec::new();
        if let Some(cfg) = &self.cfg {
            paths.push(cfg.state_dir.clone());
        }
        paths
    }
}

proof fn lemma_joined_client(dir: Seq<char>, name: Seq<char>)
    requires
        vm_of(name) is Some,
        !name.contains('/'),
    ensures
        vm_of(base_name(joined(dir, name))) is Some,
        base_name(joined(dir, name)) == name,
{
    crate::paths::lemma_base_name_of_joined(dir, name);
}

/// Per-VM client.
#[derive(Debug)]
pub struct FakeClient {
    /// The VM file.
    pub vm_path: String,
    /// The file that records the calls.
    pub calls_path: String,
    /// Whether the controller may scale the VM.
    pub managed: bool,
}

/// The compact JSON text of an object with one text field and one number field.
pub uninterp spec fn json_pair_text(
    text_key: Seq<char>,
    text: Seq<char>,
    number_key: Seq<char>,
    number: u32,
) -> Seq<char>;

/// `serde_json` renders an object of one text and one number field, built with
/// `serde_json::Map::insert`, through the `Display` of `serde_json::Value`. The text
/// depends on the two keys and the two values alone. What it looks like is not
/// stated.
#[verifier::external_body]
fn json_pair(text_key: &str, text: &str, number_key: &str, number: u32) -> (json: String)
    ensures
        json@ == json_pair_text(text_key@, text@, number_key@, number),
{
    let mut fields = serde_json::Map::new();
    fields.insert(text_key.to_string(), serde_json::Value::from(text));
    fields.insert(number_key.to_string(), serde_json::Value::from(number));
    serde_json::Value::Object(fields).to_string()
}

/// End a record with a newline.
pub fn as_line(record: String) -> (line: String)
    ensures
        line@ == record@.push('\n'),
{
    let mut line: String = record;
    line.push('\n');
    line
}

impl FakeClient {
    /// The path ends in the name of a VM file.
    pub open spec fn wf(&self) -> bool {
        vm_of(base_name(self.vm_path@)) is Some
    }

    /// The VM that the client drives.
    pub open spec fn vm(&self) -> Seq<char> {
        vm_of(base_name(self.vm_path@))->0
    }

    /// The path of the VM file without its `.json`.
    pub open spec fn stem(&self) -> Seq<char> {
        without_suffix(self.vm_path@, ".json"@)->0
    }

    fn stem_text(&self) -> (stem: String)
        requires
            self.wf(),
        ensures
            stem@ == self.stem(),
            self.vm_path@ == self.stem() + ".json"@,
    {
        proof {
            crate::paths::lemma_suffix_of_base_name(self.vm_path@, ".json"@);
        }
        match strip_suffix(self.vm_path.as_str(), ".json") {
            Some(stem) => stem,
            None => String::new(),
        }
    }

    /// The sibling file that serialises access to the VM file.
    pub fn lock_path(&self) -> (path: String)
        requires
            self.wf(),
        ensures
            path@ == self.stem() + ".lock"@,
            self.vm_path@ == self.stem() + ".json"@,
    {
        self.stem_text().concat(".lock")
    }

    /// The sibling file in which new content is prepared before it replaces the VM
    /// file.
    pub fn staging_path(&self) -> (path: String)
        requires
            self.wf(),
        ensures
            path@ == self.stem() + ".json.tmp"@,
            self.vm_path@ == self.stem() + ".json"@,
    {
        self.stem_text().concat(".json.tmp")
    }

    /// Answer a request for a new worker count, given the VM file: the content that
    /// replaces it.
    pub fn set_thread_count(&self, vm: VmFile, count: u32) -> (after: VmFile)
        ensures
            after == vm.resized(count),
    {
        let mut after = vm;
        after.thread_count = count;
        after
    }

    /// The line that records a request for a new worker count.
    pub fn call_line(&self, count: u32) -> (line: String)
        requires
            self.wf(),
        ensures
            line@ == json_pair_text("vm"@, self.vm(), "threads"@, count).push('\n'),
    {
        let vm: String = match vm_id(base_name_of(self.vm_path.as_str()).as_str()) {
            Some(id) => id,
            None => String::new(),
        };
        as_line(json_pair("vm", vm.as_str(), "threads", count))
    }

    /// Answer a request for a snapshot, given the VM file.
    pub fn get_thread_pool_snapshot(&self, vm: &VmFile) -> (r: Result<
        ThreadPoolSnapshot,
        BackendClientError,
    >)
        ensures
            r is Err <==> vm.fail_snapshot,
            r matches Err(error) ==> error is InvalidState && error->InvalidState_0@
                == "fake snapshot failed for "@ + self.vm_path@,
            r matches Ok(snapshot) ==> snapshot == vm.pool(),
    {
        if vm.fail_snapshot {
            return Err(
                BackendClientError::InvalidState(
                    "fake snapshot failed for ".to_owned().concat(self.vm_path.as_str()),
                ),
            );
        }
        Ok(
            ThreadPoolSnapshot {
                thread_count: vm.thread_count,
                vcpu_count: vm.vcpu_count,
                perf: Some(
                    InstancePerfSample {
                        read_io_count: vm.read_io_count,
                        write_io_count: vm.write_io_count,
                        other_io_count: vm.other_io_count,
                        read_bytes_total: 0,
                        write_bytes_total: 0,
                    },
                ),
                per_thread_util: Some(vm.per_thread_util),
            },
        )
    }

    /// Whether the pool counts as managed when it is first seen, whatever its size.
    pub fn initial_pool_is_managed(&self, _thread_count: u32, _vcpu_count: u32) -> (r: bool)
        ensures
            r == self.managed,
    {
        self.managed
    }
}

/// A snapshot after a new worker count shows that count, and everything else as
/// before; a VM that answered before still answers.
pub proof fn law_snapshot_shows_the_count_that_was_set(vm: VmFile, count: u32)
    ensures
        vm.resized(count).pool() == (ThreadPoolSnapshot { thread_count: count, ..vm.pool() }),
        vm.resized(count).fail_snapshot == vm.fail_snapshot,
        vm.resized(count).managed == vm.managed,
{
}

/// Which file names stand for VMs: something followed by `.json`, and that something is
/// the VM.
pub proof fn law_vm_file_is_the_vm_with_its_ending(file_name: Seq<char>, id: Seq<char>)
    ensures
        vm_of(file_name) == Some(id) <==> id.len() > 0 && file_name == id + ".json"@,
{
    law_suffix_comes_off_where_it_stands(file_name, ".json"@, id);
    if let Some(stem) = without_suffix(file_name, ".json"@) {
        law_suffix_comes_off_where_it_stands(file_name, ".json"@, stem);
    }
}

/// Discovery takes every entry that is a VM file and can be read, in its order, and no
/// other: one that is neither hides none of the rest.
pub proof fn law_discovery_takes_the_usable_entries(files: Seq<StateFile>)
    ensures
        usable_files(files) == files.filter(
            |file: StateFile| vm_of(file.name@) is Some && file.content is Ok,
        ),
    decreases files.len(),
{
    reveal(Seq::filter);
    if files.len() > 0 {
        law_discovery_takes_the_usable_entries(files.drop_last());
    }
}

/// One more entry: a VM file that can be read is taken behind those before it, anything
/// else is passed over.
pub proof fn law_one_more_entry(files: Seq<StateFile>, file: StateFile)
    ensures
        usable_files(Seq::<StateFile>::empty()).len() == 0,
        usable_files(files.push(file)) == if vm_of(file.name@) is Some && file.content is Ok {
            usable_files(files).push(file)
        } else {
            usable_files(files)
        },
{
    assert(files.push(file).drop_last() == files);
    assert(files.push(file).last() == file);
}

/// A VM that was found has the name that its file has before `.json`, no process, and
/// nothing known of it yet; its client works on that file and records its calls beside
/// it, and takes it as managed as the file says.
pub proof fn law_found_vm_is_that_of_its_file(
    found: FoundVm,
    state_dir: Seq<char>,
    file: StateFile,
)
    requires
        found.stands_for(state_dir, file),
    ensures
        file.name@ == found.instance.id@ + ".json"@,
        found.instance.id@.len() > 0,
        found.instance.pid == 0,
        found.instance.status.thread_count == 0,
        !found.instance.status.alive,
        found.instance.status.ownership_classification is None,
        found.client.vm_path@ == joined(state_dir, found.instance.id@ + ".json"@),
        found.client.calls_path@ == joined(state_dir, "calls.jsonl"@),
        file.content matches Ok(vm) && found.client.managed == vm.managed,
{
    law_vm_file_is_the_vm_with_its_ending(file.name@, found.instance.id@);
}

/// The client of a file drives the VM that the file is named after.
pub proof fn law_client_drives_the_vm_of_its_file(client: FakeClient)
    requires
        client.wf(),
    ensures
        base_name(client.vm_path@) == client.vm() + ".json"@,
        client.vm_path@ == client.stem() + ".json"@,
{
    law_vm_file_is_the_vm_with_its_ending(base_name(client.vm_path@), client.vm());
    crate::paths::lemma_suffix_of_base_name(client.vm_path@, ".json"@);
}

/// A snapshot shows what the file holds, field by field; a file has no byte counts.
pub proof fn law_snapshot_shows_the_file(vm: VmFile)
    ensures
        vm.pool().thread_count == vm.thread_count,
        vm.pool().vcpu_count == vm.vcpu_count,
        vm.pool().per_thread_util == Some(vm.per_thread_util),
        vm.pool().perf matches Some(perf) && perf.read_io_count == vm.read_io_count
            && perf.write_io_count == vm.write_io_count && perf.other_io_count
            == vm.other_io_count && perf.read_bytes_total == 0 && perf.write_bytes_total == 0,
{
}

} // verus!
