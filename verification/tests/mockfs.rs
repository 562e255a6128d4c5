use io_thread_controller::mockfs::callback::{Callback, Playlist};
use io_thread_controller::mockfs::filesystem::{Errno, MockFs};
use io_thread_controller::mockfs::inner::{FileAttr, FileType};
use io_thread_controller::mockfs::registration::{
    normalize_mount_path, validate_registration_path,
};
use io_thread_controller::mockfs::tree::ROOT;

fn always(text: &str) -> Playlist {
    Playlist::Always(text.as_bytes().to_vec())
}

fn sequence(values: &[&str]) -> Playlist {
    Playlist::Sequence {
        values: values.iter().map(|v| v.as_bytes().to_vec()).collect(),
        next: 0,
    }
}

/// Look a path up from the root, as the kernel does.
fn stat<C: Callback>(fs: &MockFs<C>, path: &str) -> Result<FileAttr, Errno> {
    let mut attr = fs.getattr(ROOT)?;
    for name in path.split('/').filter(|name| !name.is_empty()) {
        attr = fs.lookup(attr.ino, Some(name))?;
    }
    Ok(attr)
}

fn present<C: Callback>(fs: &MockFs<C>, path: &str) -> bool {
    stat(fs, path).is_ok()
}

/// An open file with a position.
struct File {
    ino: u64,
    fh: u64,
    position: u64,
}

impl File {
    fn open<C: Callback>(fs: &mut MockFs<C>, path: &str) -> Result<File, Errno> {
        let ino = stat(fs, path)?.ino;
        let fh = fs.open(ino)?;
        Ok(File {
            ino,
            fh,
            position: 0,
        })
    }

    fn read<C: Callback>(&mut self, fs: &mut MockFs<C>, size: u32) -> Result<Vec<u8>, Errno> {
        let data = fs.read(self.ino, self.fh, self.position, size)?;
        self.position += data.len() as u64;
        Ok(data)
    }

    fn seek(&mut self, position: u64) {
        self.position = position;
    }

    fn read_to_end<C: Callback>(&mut self, fs: &mut MockFs<C>) -> Result<Vec<u8>, Errno> {
        let mut all = Vec::new();
        loop {
            let data = self.read(fs, 4096)?;
            if data.is_empty() {
                return Ok(all);
            }
            all.extend(data);
        }
    }
}

fn read<C: Callback>(fs: &mut MockFs<C>, path: &str) -> Result<Vec<u8>, Errno> {
    let mut file = File::open(fs, path)?;
    let all = file.read_to_end(fs)?;
    fs.release(file.fh);
    Ok(all)
}

/// A source that counts its contents.
struct Counter(u64);

impl Callback for Counter {
    fn generate(&mut self) -> Vec<u8> {
        let content = self.0.to_le_bytes().to_vec();
        self.0 += 1;
        content
    }
}

#[test]
fn register_creates_file() {
    let mut fs = MockFs::new();
    assert!(!present(&fs, "test"));
    fs.register_iterator("/test", always("hello"));
    assert!(present(&fs, "test"));
}

#[test]
fn register_static_sets_content() {
    let mut fs = MockFs::new();
    fs.register_iterator("/test", always("hello"));
    assert_eq!(read(&mut fs, "/test").unwrap(), b"hello");
    assert_eq!(read(&mut fs, "/test").unwrap(), b"hello");
}

#[test]
fn register_iterator_advances_then_ends() {
    let mut fs = MockFs::new();
    fs.register_iterator("/test", sequence(&["a", "b"]));
    assert_eq!(read(&mut fs, "/test").unwrap(), b"a");
    assert_eq!(read(&mut fs, "/test").unwrap(), b"b");
    assert_eq!(read(&mut fs, "/test").unwrap(), b"");
}

#[test]
fn directories_created_and_detected() {
    let mut fs = MockFs::new();
    fs.register_iterator("/a/b/c", always("hello"));
    let kind = |path: &str| stat(&fs, path).unwrap().kind;
    assert!(present(&fs, "/a"));
    assert_eq!(kind("/a"), FileType::Directory);
    assert!(present(&fs, "/a/b"));
    assert_eq!(kind("/a/b"), FileType::Directory);
    assert!(present(&fs, "/a/b/c"));
    assert_eq!(kind("/a/b/c"), FileType::RegularFile);
}

#[test]
fn read_buflen_respected() {
    let mut fs = MockFs::new();
    fs.register_iterator("/test", always("0123456789"));
    let mut file = File::open(&mut fs, "/test").unwrap();
    let buf = file.read(&mut fs, 3).unwrap();
    assert_eq!(buf.len(), 3);
    assert_eq!(buf, b"012");
}

#[test]
fn read_offset_respected() {
    let mut fs = MockFs::new();
    fs.register_iterator("/test", always("0123456789"));
    let mut file = File::open(&mut fs, "/test").unwrap();
    file.seek(2);
    let buf = file.read(&mut fs, 3).unwrap();
    assert_eq!(buf.len(), 3);
    assert_eq!(buf, b"234");
}

#[test]
fn read_handles_eof() {
    let mut fs = MockFs::new();
    fs.register_iterator("/test", always("0123456789"));
    let mut file = File::open(&mut fs, "/test").unwrap();
    let buf = file.read(&mut fs, 100).unwrap();
    assert_eq!(buf.len(), 10);
    assert_eq!(buf, b"0123456789");
}

#[test]
fn read_unstable() {
    let mut fs = MockFs::new();
    fs.register_iterator("/test", sequence(&["a", "b"]));
    let mut file = File::open(&mut fs, "/test").unwrap();
    assert_eq!(file.read(&mut fs, 1).unwrap(), b"a");
    file.seek(0);
    assert_eq!(file.read(&mut fs, 1).unwrap(), b"b");
}

#[test]
fn read_unstable_with_multiple_handles() {
    let mut fs = MockFs::new();
    fs.register_iterator("/test", sequence(&["a", "b"]));
    let mut file_a = File::open(&mut fs, "/test").unwrap();
    let mut file_b = File::open(&mut fs, "/test").unwrap();
    assert_eq!(file_a.read(&mut fs, 1).unwrap(), b"a");
    assert_eq!(file_b.read(&mut fs, 1).unwrap(), b"b");
    file_a.seek(0);
    assert_eq!(file_a.read(&mut fs, 1).unwrap().len(), 0);
}

#[test]
fn read_chunked() {
    let mut fs = MockFs::new();
    fs.register_iterator("/test", sequence(&["ab", "cd"]));
    let mut file = File::open(&mut fs, "/test").unwrap();
    assert_eq!(file.read(&mut fs, 1).unwrap(), b"a");
    assert_eq!(file.read(&mut fs, 1).unwrap(), b"b");
    assert_eq!(file.read(&mut fs, 1).unwrap().len(), 0);
    file.seek(0);
    assert_eq!(file.read(&mut fs, 1).unwrap(), b"c");
    assert_eq!(file.read(&mut fs, 1).unwrap(), b"d");
}

#[test]
fn read_to_end_is_consistent() {
    let mut fs = MockFs::new();
    fs.register_iterator("/test", always("ab"));
    let mut file = File::open(&mut fs, "/test").unwrap();
    let contents = file.read_to_end(&mut fs).unwrap();
    assert_eq!(contents.len(), 2);
    assert_eq!(contents, b"ab");
}

#[test]
fn file_not_found_doesnt_crash() {
    let mut fs = MockFs::new();
    fs.register_iterator("/test", always("hello"));
    assert!(!present(&fs, "/fake"));
    assert_eq!(
        File::open(&mut fs, "/fake").err().unwrap(),
        Errno::NoEnt
    );
    assert_eq!(read(&mut fs, "/test").unwrap(), b"hello");
}

#[test]
fn register_conflicting_paths_file_first() {
    let mut fs = MockFs::new();
    fs.register_iterator("/a", always("hello from a"));
    fs.register_iterator("/a/b", always("hello from b"));
    assert_eq!(read(&mut fs, "/a").unwrap(), b"hello from a");
    assert_eq!(read(&mut fs, "/a/b").unwrap_err(), Errno::NotDir);
    assert_eq!(stat(&fs, "/a").unwrap().kind, FileType::RegularFile);
}

#[test]
fn register_conflicting_paths_dir_first() {
    let mut fs = MockFs::new();
    fs.register_iterator("/a/b", always("hello from b"));
    fs.register_iterator("/a", always("hello from a"));
    assert_eq!(read(&mut fs, "/a").unwrap(), b"hello from a");
    assert_eq!(read(&mut fs, "/a/b").unwrap_err(), Errno::NotDir);
    assert_eq!(stat(&fs, "/a").unwrap().kind, FileType::RegularFile);
}

#[test]
fn register_conflicting_paths_early_open_file_first() {
    let mut fs = MockFs::new();
    fs.register_iterator("/a", always("hello from a"));
    let mut file_a = File::open(&mut fs, "/a").unwrap();
    fs.register_iterator("/a/b", always("hello from b"));
    assert_eq!(file_a.read(&mut fs, 20).unwrap(), b"hello from a");
    assert_eq!(read(&mut fs, "/a/b").unwrap_err(), Errno::NotDir);
}

#[test]
fn register_conflicting_paths_early_open_dir_first() {
    let mut fs = MockFs::new();
    fs.register_iterator("/a/b", always("hello from b"));
    let mut file_b = File::open(&mut fs, "/a/b").unwrap();
    fs.register_iterator("/a", always("hello from a"));
    assert_eq!(read(&mut fs, "/a").unwrap(), b"hello from a");
    assert_eq!(file_b.read(&mut fs, 20).unwrap(), b"hello from b");
}

#[test]
fn register_twice() {
    let mut fs = MockFs::new();
    fs.register_iterator("/test", always("first"));
    fs.register_iterator("/test", always("second"));
    assert_eq!(read(&mut fs, "/test").unwrap(), b"second");
}

#[test]
fn stress_test_reads_should_be_independent() {
    let mut fs = MockFs::new();
    fs.register_callback("/test", Counter(1));
    for i in 0..10_000u64 {
        let bytes = read(&mut fs, "/test").unwrap();
        assert_eq!(bytes.len(), 8);
        let buf: [u8; 8] = bytes.try_into().unwrap();
        assert_eq!(u64::from_le_bytes(buf), i + 1);
    }
}

#[test]
fn concurrent_access_is_ok() {
    let mut fs = MockFs::new();
    fs.register_callback("/test", Counter(1));
    let mut prev = [0u64; 10];
    for _ in 0..1_000 {
        // Ten readers, each step of one between those of the others.
        let mut files: Vec<File> = (0..10)
            .map(|_| File::open(&mut fs, "/test").unwrap())
            .collect();
        let first: Vec<Vec<u8>> = files
            .iter_mut()
            .map(|file| file.read(&mut fs, 4).unwrap())
            .collect();
        let second: Vec<Vec<u8>> = files
            .iter_mut()
            .map(|file| file.read(&mut fs, 4096).unwrap())
            .collect();
        for (reader, (head, tail)) in first.into_iter().zip(second).enumerate() {
            let mut bytes = head;
            bytes.extend(tail);
            let buf: [u8; 8] = bytes.as_slice().try_into().unwrap();
            let val = u64::from_le_bytes(buf);
            assert!(val > prev[reader]);
            prev[reader] = val;
            fs.release(files[reader].fh);
        }
    }
}

#[test]
fn attributes_of_files_and_directories() {
    let mut fs = MockFs::new();
    fs.register_iterator("/d/f", always("x"));
    let dir = stat(&fs, "/d").unwrap();
    assert_eq!((dir.perm, dir.nlink, dir.size, dir.ino), (0o755, 2, 0, 2));
    let file = stat(&fs, "/d/f").unwrap();
    assert_eq!((file.perm, file.nlink, file.size, file.ino), (0o444, 1, 0, 3));
    assert_eq!((file.blocks, file.blksize), (1, 4096));
    assert_eq!((file.uid, file.gid, file.rdev, file.flags), (0, 0, 0, 0));
    assert_eq!(stat(&fs, "/").unwrap().kind, FileType::Directory);
    assert_eq!(fs.getattr(99), Err(Errno::NoEnt));
    assert_eq!(fs.lookup(dir.ino, None), Err(Errno::NoEnt));
    assert_eq!(fs.lookup(file.ino, Some("x")), Err(Errno::NotDir));
}

#[test]
fn attributes_do_not_consume_a_sequence() {
    let mut fs = MockFs::new();
    fs.register_iterator("/test", sequence(&["a"]));
    let mut file = File::open(&mut fs, "/test").unwrap();
    assert!(present(&fs, "/test"));
    assert!(present(&fs, "/test"));
    assert_eq!(file.read(&mut fs, 9).unwrap(), b"a");
}

#[test]
fn read_in_the_middle_generates_once() {
    let mut fs = MockFs::new();
    fs.register_iterator("/test", sequence(&["abcd", "efgh"]));
    let mut file = File::open(&mut fs, "/test").unwrap();
    file.seek(2);
    assert_eq!(file.read(&mut fs, 1).unwrap(), b"c");
    assert_eq!(file.read(&mut fs, 9).unwrap(), b"d");
    file.seek(0);
    assert_eq!(file.read(&mut fs, 9).unwrap(), b"efgh");
    file.seek(100);
    assert_eq!(file.read(&mut fs, 9).unwrap(), b"");
}

#[test]
fn closed_and_foreign_handles_are_refused() {
    let mut fs = MockFs::new();
    fs.register_iterator("/d/f", always("x"));
    let dir = stat(&fs, "/d").unwrap().ino;
    let file = stat(&fs, "/d/f").unwrap().ino;
    assert_eq!(fs.open(dir), Err(Errno::NoEnt));
    assert_eq!(fs.opendir(file), Err(Errno::NotDir));
    let fh = fs.open(file).unwrap();
    assert_eq!(fs.read(dir, fh, 0, 1), Err(Errno::NoEnt));
    assert_eq!(fs.read(file, fh + 1, 0, 1), Err(Errno::NoEnt));
    fs.release(fh);
    assert_eq!(fs.read(file, fh, 0, 1), Err(Errno::NoEnt));
    let dh = fs.opendir(dir).unwrap();
    assert!(matches!(fs.readdir(file, dh, 0), Err(Errno::NotDir)));
    fs.releasedir(dh);
    assert!(matches!(fs.readdir(dir, dh, 0), Err(Errno::NoEnt)));
}

fn listing<C: Callback>(
    fs: &mut MockFs<C>,
    path: &str,
    offset: u64,
) -> Vec<(u64, u64, FileType, String)> {
    let ino = stat(fs, path).unwrap().ino;
    let fh = fs.opendir(ino).unwrap();
    let entries = fs.readdir(ino, fh, offset).unwrap();
    fs.releasedir(fh);
    entries
        .into_iter()
        .map(|e| (e.ino, e.next, e.kind, e.name))
        .collect()
}

#[test]
fn listings_stand_in_inode_order() {
    let mut fs = MockFs::new();
    fs.register_iterator("/d/z", always("x"));
    fs.register_iterator("/e", always("x"));
    fs.register_iterator("/d/a/deep", always("x"));
    let dir = FileType::Directory;
    let file = FileType::RegularFile;
    assert_eq!(
        listing(&mut fs, "/", 0),
        vec![
            (1, 1, dir, ".".to_string()),
            (2, 2, dir, "d".to_string()),
            (4, 3, file, "e".to_string()),
        ]
    );
    assert_eq!(
        listing(&mut fs, "/d", 0),
        vec![
            (1, 1, dir, "..".to_string()),
            (2, 2, dir, ".".to_string()),
            (3, 3, file, "z".to_string()),
            (5, 4, dir, "a".to_string()),
        ]
    );
    assert_eq!(
        listing(&mut fs, "/d", 3),
        vec![(5, 4, dir, "a".to_string())]
    );
    assert!(listing(&mut fs, "/d", 4).is_empty());
    assert!(listing(&mut fs, "/d", 40).is_empty());
}

#[test]
fn open_directory_keeps_its_listing() {
    let mut fs = MockFs::new();
    fs.register_iterator("/d/a", sequence(&["x"]));
    let ino = stat(&fs, "/d").unwrap().ino;
    let names = |fs: &MockFs<Playlist>, fh: u64| -> Vec<String> {
        let entries = fs.readdir(ino, fh, 0).unwrap();
        entries.into_iter().map(|entry| entry.name).collect()
    };
    let early = fs.opendir(ino).unwrap();
    fs.register_iterator("/d/b", always("y"));
    let late = fs.opendir(ino).unwrap();
    assert_ne!(early, late);
    assert_eq!(names(&fs, early), vec!["..", ".", "a"]);
    assert_eq!(names(&fs, late), vec!["..", ".", "a", "b"]);
    // Listing took nothing from the sequence.
    assert_eq!(read(&mut fs, "/d/a").unwrap(), b"x");
}

#[test]
fn odd_spellings_register_the_same_path() {
    let mut fs = MockFs::new();
    fs.register_static_bytes("//a/./b/", b"one".to_vec()).unwrap();
    assert_eq!(read(&mut fs, "/a/b").unwrap(), b"one");
    fs.register_static_bytes("/a/b", b"two".to_vec()).unwrap();
    assert_eq!(read(&mut fs, "/a/b").unwrap(), b"two");
    // Climbing segments are passed over where nothing checks the path.
    fs.register_iterator("/a/../b", always("three"));
    assert_eq!(read(&mut fs, "/a/b").unwrap(), b"three");
}

#[test]
fn registration_paths_are_checked() {
    let complaint = |path: &str| validate_registration_path(path).unwrap_err().message;
    assert_eq!(
        complaint("relative/path"),
        "invalid path 'relative/path': path must be absolute"
    );
    assert_eq!(complaint(""), "invalid path '': path must be absolute");
    assert_eq!(
        complaint("./test"),
        "invalid path './test': path must be absolute"
    );
    assert_eq!(
        complaint("/a/../b"),
        "invalid path '/a/../b': path may only contain normal segments"
    );
    for path in ["/", "/a", "/a/./b", "//a//b/", "/..a", "/a..", "/..."] {
        assert!(validate_registration_path(path).is_ok(), "{path}");
    }
    let mut fs = MockFs::new();
    let error = fs
        .register_sequence_bytes("oops", vec![b"x".to_vec()])
        .unwrap_err();
    assert_eq!(
        error.message,
        "invalid path 'oops': path must be absolute"
    );
    assert!(!present(&fs, "/oops"));
}

#[test]
fn mount_paths_have_one_spelling() {
    for (path, spelling) in [
        ("/a", "/a"),
        ("/a/", "/a"),
        ("//a/./b//", "/a/b"),
        ("/./a", "/a"),
    ] {
        assert_eq!(normalize_mount_path(path).unwrap(), spelling);
        assert_eq!(normalize_mount_path(spelling).unwrap(), spelling);
    }
    let complaint = |path: &str| normalize_mount_path(path).unwrap_err().message;
    assert_eq!(complaint("a"), "invalid path 'a': path must be absolute");
    assert_eq!(
        complaint("/a/.."),
        "invalid path '/a/..': path may only contain normal segments"
    );
    for path in ["/", "//", "/.", "/./"] {
        assert_eq!(
            complaint(path),
            format!("invalid path '{path}': refusing to mount the filesystem root")
        );
    }
}

#[test]
fn root_registered_as_a_file_stays_a_directory() {
    let mut fs = MockFs::new();
    fs.register_static_bytes("/", b"root".to_vec()).unwrap();
    assert_eq!(stat(&fs, "/").unwrap().kind, FileType::Directory);
    let fh = fs.open(ROOT).unwrap();
    assert_eq!(fs.read(ROOT, fh, 0, 9).unwrap(), b"root");
}
