use meshcore::errno::Errno;
use meshcore::tmpfs::DeviceNode;
use meshcore::tmpfs::TmpFs;
use meshcore::tmpfs::FILE_MODE_IFBLK;
use meshcore::tmpfs::FILE_MODE_IFIFO;
use meshcore::tmpfs::FILE_MODE_IFLNK;
use meshcore::tmpfs::FILE_MODE_IFREG;

#[test]
fn test_tmpfs() {
    let mut fs = TmpFs::new();
    let root = fs.root();
    let usr = fs.create_dir(root, b"usr").unwrap();
    let _etc = fs.create_dir(root, b"etc").unwrap();
    let _usr_bin = fs.create_dir(usr, b"bin").unwrap();
    let mut names = fs.copy_child_names(root);
    names.sort();
    assert!(names.iter().eq([b"etc", b"usr"].iter()));
}

#[test]
fn mkdir_counts_links() {
    let mut fs = TmpFs::new();
    let root = fs.root();
    assert_eq!(fs.nodes[root].link_count, 1);
    let a = fs.create_dir(root, b"a").unwrap();
    assert_eq!(fs.nodes[root].link_count, 2);
    assert_eq!(fs.nodes[a].link_count, 1);
    let _b = fs.create_dir(root, b"b").unwrap();
    assert_eq!(fs.nodes[root].link_count, 3);
}

#[test]
fn duplicate_names_are_refused() {
    let mut fs = TmpFs::new();
    let root = fs.root();
    fs.create_dir(root, b"twice").unwrap();
    assert_eq!(fs.create_dir(root, b"twice"), Err(Errno::EEXIST));
}

#[test]
fn mknod_supports_files_pipes_and_devices_only() {
    let mut fs = TmpFs::new();
    let root = fs.root();
    assert!(fs.mknod(root, b"file", FILE_MODE_IFREG).is_ok());
    assert!(fs.mknod(root, b"fifo", FILE_MODE_IFIFO).is_ok());
    assert!(fs.mknod(root, b"disk", FILE_MODE_IFBLK).is_ok());
    assert_eq!(fs.mknod(root, b"link", FILE_MODE_IFLNK), Err(Errno::EACCES));
}

#[test]
fn device_nodes_cannot_be_opened() {
    let mut fs = TmpFs::new();
    let root = fs.root();
    let dev = fs.mknod(root, b"dev", FILE_MODE_IFBLK).unwrap();
    assert_eq!(fs.open(dev), Err(Errno::ENOSYS));
    assert_eq!(fs.open(root), Ok(()));
    let d = DeviceNode;
    assert_eq!(d.open(), Err(Errno::ENOSYS));
}

#[test]
fn unlink_adjusts_link_counts() {
    let mut fs = TmpFs::new();
    let root = fs.root();
    let sub = fs.create_dir(root, b"sub").unwrap();
    assert_eq!(fs.nodes[root].link_count, 2);
    assert_eq!(fs.unlink(root, b"missing"), Err(Errno::ENOENT));
    fs.unlink(root, b"sub").unwrap();
    assert_eq!(fs.nodes[root].link_count, 1);
    assert_eq!(fs.nodes[sub].link_count, 0);
    assert_eq!(fs.copy_child_names(root).len(), 0);
}

#[test]
fn symlinks_record_their_target() {
    let mut fs = TmpFs::new();
    let root = fs.root();
    let link = fs.create_symlink(root, b"here", b"/somewhere/else");
    assert_eq!(fs.nodes[link].mode, FILE_MODE_IFLNK);
    match &fs.nodes[link].ops {
        meshcore::tmpfs::NodeOps::Symlink { target } => {
            assert_eq!(target.as_slice(), b"/somewhere/else");
        }
        other => panic!("unexpected node operations: {:?}", other),
    }
}

#[test]
fn lookup_through_node_ops_reports_enoent() {
    let fs = TmpFs::new();
    assert_eq!(fs.lookup(0, b"anything"), Err(Errno::ENOENT));
}
