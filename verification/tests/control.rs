use std::cell::RefCell;

use io_thread_controller::mockfs::callback::Playlist;
use io_thread_controller::mockfs::control::{invalid_args, Control, ControlError};
use io_thread_controller::mockfs::filesystem::MockFs;
use io_thread_controller::mockfs::tree::ROOT;

type Mounted = RefCell<MockFs<Playlist>>;

fn mount(control: &mut Control<Mounted>, path: &str) -> Result<(), ControlError> {
    let path = control.begin_mount(path)?;
    control.mount(path, Ok(RefCell::new(MockFs::new())))
}

fn register_static(
    control: &Control<Mounted>,
    mount: &str,
    path: &str,
    content: &[u8],
) -> Result<(), ControlError> {
    control
        .mounted_handle(mount)?
        .borrow_mut()
        .register_static_bytes(path, content.to_vec())
        .map_err(invalid_args)
}

fn read(control: &Control<Mounted>, mount: &str, name: &str) -> Option<Vec<u8>> {
    let mut fs = control.mounted_handle(mount).ok()?.borrow_mut();
    let ino = fs.lookup(ROOT, Some(name)).ok()?.ino;
    let fh = fs.open(ino).ok()?;
    let content = fs.read(ino, fh, 0, 4096).ok();
    fs.release(fh);
    content
}

fn complaint(error: ControlError) -> String {
    match error {
        ControlError::InvalidArgs(text) => text,
        ControlError::Failed(text) => panic!("{text}"),
    }
}

#[test]
fn register_static_over_dbus() {
    let mut control = Control::new();
    mount(&mut control, "/mnt/x").unwrap();
    register_static(&control, "/mnt/x", "/test", b"hello").unwrap();
    assert_eq!(read(&control, "/mnt/x", "test").unwrap(), b"hello");
}

#[test]
fn ping_is_available() {
    let control: Control<Mounted> = Control::new();
    assert_eq!(control.ping(), "ok");
}

#[test]
fn register_sequence_over_dbus() {
    let mut control = Control::new();
    mount(&mut control, "/mnt/x").unwrap();
    control
        .mounted_handle("/mnt/x")
        .unwrap()
        .borrow_mut()
        .register_sequence_bytes("/test", vec![b"a".to_vec(), b"b".to_vec()])
        .unwrap();
    assert_eq!(read(&control, "/mnt/x", "test").unwrap(), b"a");
    assert_eq!(read(&control, "/mnt/x", "test").unwrap(), b"b");
    assert_eq!(read(&control, "/mnt/x", "test").unwrap(), b"");
}

#[test]
fn invalid_path_returns_invalid_args() {
    let mut control = Control::new();
    mount(&mut control, "/mnt/x").unwrap();
    let error = register_static(&control, "/mnt/x", "relative/path", b"oops").unwrap_err();
    let text = complaint(error);
    assert!(text.contains("invalid path"), "unexpected error: {text}");
    assert!(read(&control, "/mnt/x", "relative").is_none());
}

#[test]
fn register_twice_updates_content() {
    let mut control = Control::new();
    mount(&mut control, "/mnt/x").unwrap();
    register_static(&control, "/mnt/x", "/test", b"first").unwrap();
    register_static(&control, "/mnt/x", "/test", b"second").unwrap();
    assert_eq!(read(&control, "/mnt/x", "test").unwrap(), b"second");
}

#[test]
fn concurrent_mounts_are_independent() {
    let mut control = Control::new();
    mount(&mut control, "/mnt/a").unwrap();
    mount(&mut control, "/mnt/b").unwrap();
    register_static(&control, "/mnt/a", "/stat", b"from-a").unwrap();
    register_static(&control, "/mnt/b", "/stat", b"from-b").unwrap();
    assert_eq!(read(&control, "/mnt/a", "stat").unwrap(), b"from-a");
    assert_eq!(read(&control, "/mnt/b", "stat").unwrap(), b"from-b");

    let text = complaint(mount(&mut control, "/mnt/a").unwrap_err());
    assert!(text.contains("already mounted"), "unexpected error: {text}");

    control.unmount("/mnt/a").unwrap();
    assert!(read(&control, "/mnt/a", "stat").is_none());
    assert_eq!(read(&control, "/mnt/b", "stat").unwrap(), b"from-b");
}

#[test]
fn mounts_are_found_by_every_spelling() {
    let mut control = Control::new();
    mount(&mut control, "/mnt//a/").unwrap();
    assert!(control.mounted_handle("/mnt/./a").is_ok());
    assert_eq!(
        complaint(mount(&mut control, "//mnt/a").unwrap_err()),
        "already mounted: /mnt/a"
    );
    assert_eq!(
        complaint(control.mounted_handle("/mnt/b/").err().unwrap()),
        "not mounted: /mnt/b"
    );
    assert_eq!(
        complaint(control.unmount("/mnt/b").err().unwrap()),
        "not mounted: /mnt/b"
    );
    assert_eq!(
        complaint(control.unmount("/").err().unwrap()),
        "invalid path '/': refusing to mount the filesystem root"
    );
    assert_eq!(
        complaint(mount(&mut control, "mnt").unwrap_err()),
        "invalid path 'mnt': path must be absolute"
    );
    assert!(control.unmount("/mnt/a/").is_ok());
    assert!(control.unmount("/mnt/a").is_err());
    mount(&mut control, "/mnt/a").unwrap();
}

#[test]
fn failed_mount_leaves_no_trace() {
    let mut control: Control<Mounted> = Control::new();
    let path = control.begin_mount("/mnt/a").unwrap();
    assert_eq!(path, "/mnt/a");
    let error = control.mount(path, Err("no fuse".to_string())).unwrap_err();
    assert!(matches!(error, ControlError::Failed(text) if text == "no fuse"));
    assert!(control.mounted_handle("/mnt/a").is_err());
}
