use axfs_ramfs::content::FileContent;
use axfs_ramfs::node::{FileAttr, FileNode, Metadata};

fn node_with(bytes: &[u8]) -> FileNode {
    let mut n = FileNode::new();
    assert_eq!(n.write_at(0, bytes), bytes.len());
    n
}

fn contents(n: &FileNode) -> Vec<u8> {
    let size = n.get_attr().size as usize;
    let mut buf = vec![0xAAu8; size];
    assert_eq!(n.read_at(0, &mut buf), size);
    buf
}

#[test]
fn new_node_reports_zero_attributes() {
    let n = FileNode::new();
    assert_eq!(n.get_attr(), FileAttr { size: 0, blocks: 0, atime: 0, mtime: 0 });
}

#[test]
fn write_then_read_with_longer_buffer() {
    let mut n = FileNode::new();
    assert_eq!(n.write_at(0, &[1, 2, 3]), 3);
    let mut buf = [0u8; 5];
    assert_eq!(n.read_at(0, &mut buf), 3);
    assert_eq!(&buf[0..3], &[1, 2, 3]);
}

#[test]
fn write_past_end_zero_fills_gap() {
    let mut n = node_with(&[1, 2, 3]);
    assert_eq!(n.write_at(5, &[9, 9]), 2);
    assert_eq!(contents(&n), vec![1, 2, 3, 0, 0, 9, 9]);
    assert_eq!(n.get_attr().size, 7);
}

#[test]
fn truncate_shrinks() {
    let mut n = node_with(&[1, 2, 3, 0, 0, 9, 9]);
    n.truncate(2);
    assert_eq!(contents(&n), vec![1, 2]);
    assert_eq!(n.get_attr().size, 2);
}

#[test]
fn truncate_grows_with_zeros() {
    let mut n = node_with(&[1, 2]);
    n.truncate(5);
    assert_eq!(contents(&n), vec![1, 2, 0, 0, 0]);
    assert_eq!(n.get_attr().size, 5);
}

#[test]
fn set_mtime_leaves_atime() {
    let mut n = FileNode::new();
    n.set_atime(7);
    n.set_mtime(42);
    let a = n.get_attr();
    assert_eq!(a.mtime, 42);
    assert_eq!(a.atime, 7);
}

#[test]
fn set_atime_leaves_mtime() {
    let mut n = FileNode::new();
    n.set_mtime(9);
    n.set_atime(3);
    let a = n.get_attr();
    assert_eq!(a.atime, 3);
    assert_eq!(a.mtime, 9);
}

#[test]
fn times_may_go_backwards() {
    let mut n = FileNode::new();
    n.set_atime(100);
    n.set_atime(1);
    assert_eq!(n.get_attr().atime, 1);
}

#[test]
fn overwrite_inside_reads_back() {
    let mut n = node_with(&[0, 1, 2, 3, 4, 5, 6, 7]);
    assert_eq!(n.write_at(2, &[20, 30, 40]), 3);
    let mut buf = [0u8; 3];
    assert_eq!(n.read_at(2, &mut buf), 3);
    assert_eq!(buf, [20, 30, 40]);
    assert_eq!(contents(&n), vec![0, 1, 20, 30, 40, 5, 6, 7]);
}

#[test]
fn read_past_end_leaves_buffer() {
    let n = node_with(&[1, 2, 3]);
    let mut buf = [5u8; 4];
    assert_eq!(n.read_at(3, &mut buf), 0);
    assert_eq!(buf, [5, 5, 5, 5]);
    assert_eq!(n.read_at(1000, &mut buf), 0);
    assert_eq!(buf, [5, 5, 5, 5]);
    assert_eq!(n.read_at(u64::MAX, &mut buf), 0);
    assert_eq!(buf, [5, 5, 5, 5]);
}

#[test]
fn read_straddling_end_is_clamped() {
    let n = node_with(&[1, 2, 3, 4]);
    let mut buf = [8u8; 5];
    assert_eq!(n.read_at(2, &mut buf), 2);
    assert_eq!(buf, [3, 4, 8, 8, 8]);
}

#[test]
fn read_into_empty_buffer() {
    let n = node_with(&[1, 2, 3]);
    let mut buf: [u8; 0] = [];
    assert_eq!(n.read_at(1, &mut buf), 0);
}

#[test]
fn empty_write_is_noop() {
    let mut n = node_with(&[1, 2]);
    assert_eq!(n.write_at(1, &[]), 0);
    assert_eq!(contents(&n), vec![1, 2]);
}

#[test]
fn empty_write_past_end_is_noop() {
    let mut n = node_with(&[1, 2]);
    assert_eq!(n.write_at(4, &[]), 0);
    assert_eq!(contents(&n), vec![1, 2]);
    assert_eq!(n.get_attr().size, 2);
}

#[test]
fn truncate_twice_same_as_once() {
    let mut a = node_with(&[1, 2, 3, 4]);
    let mut b = node_with(&[1, 2, 3, 4]);
    a.truncate(6);
    b.truncate(6);
    b.truncate(6);
    assert_eq!(contents(&a), contents(&b));
    a.truncate(1);
    b.truncate(1);
    b.truncate(1);
    assert_eq!(contents(&a), contents(&b));
}

#[test]
fn truncate_to_current_length_is_noop() {
    let mut n = node_with(&[4, 5, 6]);
    n.truncate(3);
    assert_eq!(contents(&n), vec![4, 5, 6]);
}

#[test]
fn truncate_to_zero() {
    let mut n = node_with(&[4, 5, 6]);
    n.truncate(0);
    assert_eq!(n.get_attr().size, 0);
    let mut buf = [1u8; 2];
    assert_eq!(n.read_at(0, &mut buf), 0);
    assert_eq!(buf, [1, 1]);
}

#[test]
fn truncate_then_size_matches() {
    let mut n = node_with(&[1, 2, 3]);
    for size in [0u64, 1, 3, 10, 2] {
        n.truncate(size);
        assert_eq!(n.get_attr().size, size);
    }
}

#[test]
fn content_operations_keep_times() {
    let mut n = FileNode::new();
    n.set_atime(11);
    n.set_mtime(22);
    n.write_at(3, &[1]);
    n.truncate(1);
    let mut buf = [0u8; 1];
    n.read_at(0, &mut buf);
    let a = n.get_attr();
    assert_eq!((a.atime, a.mtime, a.blocks), (11, 22, 0));
}

#[test]
fn file_content_alone() {
    let mut c = FileContent::new();
    assert_eq!(c.len(), 0);
    assert_eq!(c.write_at(2, &[7]), 1);
    assert_eq!(c.len(), 3);
    let mut buf = [9u8; 3];
    assert_eq!(c.read_at(0, &mut buf), 3);
    assert_eq!(buf, [0, 0, 7]);
    c.truncate(1);
    assert_eq!(c.len(), 1);
}

#[test]
fn metadata_starts_at_zero() {
    let m = Metadata::new();
    assert_eq!((m.atime, m.mtime), (0, 0));
}

#[test]
fn metadata_setters_touch_one_time() {
    let mut m = Metadata::new();
    m.set_atime(5);
    assert_eq!((m.atime, m.mtime), (5, 0));
    m.set_mtime(8);
    assert_eq!((m.atime, m.mtime), (5, 8));
}
