use blockdedup::dedup::{
    dedup_precheck, interpret_primitive, prepare_dedup, BlockDedupError, BlockLocation,
    DedupOutcome, DedupStatus, OpenOutcome,
};

fn loc(path: &str, offset: u64, length: usize) -> BlockLocation {
    BlockLocation { path: String::from(path), offset, length }
}

#[test]
fn self_pair_is_rejected_before_any_open() {
    let a = loc("/x", 4096, 4096);
    let b = loc("/x", 4096, 4096);
    match dedup_precheck(&a, &b) {
        Err(BlockDedupError::SameBlock { block }) => assert_eq!(block, a),
        _ => panic!("a self-pair must be rejected as SameBlock"),
    }
}

#[test]
fn distinct_pair_passes_precheck() {
    let a = loc("/x", 0, 4096);
    let b = loc("/x", 4096, 4096);
    assert!(dedup_precheck(&a, &b).is_ok());
}

#[test]
fn self_pair_is_rejected_again_after_open() {
    let a = loc("/x", 0, 4096);
    let b = loc("/x", 0, 4096);
    let r = prepare_dedup(
        &a,
        &b,
        OpenOutcome::Opened { fd: 3, ino: 7 },
        OpenOutcome::Opened { fd: 4, ino: 7 },
    );
    assert!(matches!(r, Err(BlockDedupError::SameBlock { .. })));
}

#[test]
fn shared_storage_is_reported_not_submitted() {
    let a = loc("/first", 8192, 4096);
    let b = loc("/second", 8192, 4096);
    let r = prepare_dedup(
        &a,
        &b,
        OpenOutcome::Opened { fd: 3, ino: 7 },
        OpenOutcome::Opened { fd: 4, ino: 7 },
    );
    match r {
        Err(BlockDedupError::SameExtent { path1, path2, ino, offset, length }) => {
            assert_eq!(path1, String::from("/first"));
            assert_eq!(path2, String::from("/second"));
            assert_eq!(ino, 7);
            assert_eq!(offset, 8192);
            assert_eq!(length, 4096);
        }
        _ => panic!("identical storage must be reported as SameExtent"),
    }
}

#[test]
fn same_inode_different_offsets_still_submits() {
    let a = loc("/x", 0, 4096);
    let b = loc("/x", 4096, 4096);
    let r = prepare_dedup(
        &a,
        &b,
        OpenOutcome::Opened { fd: 3, ino: 7 },
        OpenOutcome::Opened { fd: 4, ino: 7 },
    );
    let q = r.expect("two ranges of one file may still be merged");
    assert_eq!(q.src_fd, 3);
    assert_eq!(q.src_offset, 0);
    assert_eq!(q.src_length, 4096);
    assert_eq!(q.dst_fd, 4);
    assert_eq!(q.dst_offset, 4096);
}

#[test]
fn failed_opens_become_file_errors() {
    let a = loc("/gone", 0, 4096);
    let b = loc("/still", 0, 8192);
    let r = prepare_dedup(
        &a,
        &b,
        OpenOutcome::Failed { message: String::from("no such file") },
        OpenOutcome::Opened { fd: 4, ino: 9 },
    );
    match r {
        Err(BlockDedupError::FileErrors(e1, e2)) => {
            assert_eq!(e1, Some(String::from("no such file")));
            assert_eq!(e2, None);
        }
        _ => panic!("a failed reopen must surface as FileErrors"),
    }
}

#[test]
fn both_opens_failing_carry_both_messages() {
    let a = loc("/a", 0, 16);
    let b = loc("/b", 0, 16);
    let r = prepare_dedup(
        &a,
        &b,
        OpenOutcome::Failed { message: String::from("denied") },
        OpenOutcome::Failed { message: String::from("gone") },
    );
    match r {
        Err(BlockDedupError::FileErrors(e1, e2)) => {
            assert_eq!(e1, Some(String::from("denied")));
            assert_eq!(e2, Some(String::from("gone")));
        }
        _ => panic!("two failed reopens must surface as FileErrors"),
    }
}

#[test]
fn valid_pair_yields_the_submitted_request() {
    let a = loc("/donor", 4096, 4096);
    let b = loc("/dup", 12288, 4096);
    let r = prepare_dedup(
        &a,
        &b,
        OpenOutcome::Opened { fd: 10, ino: 100 },
        OpenOutcome::Opened { fd: 11, ino: 200 },
    );
    let q = r.expect("a distinct, reachable pair must be submitted");
    assert_eq!(q.src_fd, 10);
    assert_eq!(q.src_offset, 4096);
    assert_eq!(q.src_length, 4096);
    assert_eq!(q.dst_fd, 11);
    assert_eq!(q.dst_offset, 12288);
}

#[test]
fn identical_ranges_count_as_deduplicated() {
    let r = interpret_primitive(Ok(DedupStatus::Same));
    assert_eq!(r.unwrap(), DedupOutcome::Deduplicated);
}

#[test]
fn hash_collision_surfaces_as_not_identical_never_success() {
    let r = interpret_primitive(Ok(DedupStatus::Differs));
    match r {
        Ok(outcome) => {
            assert_eq!(outcome, DedupOutcome::NotIdentical);
            assert_ne!(outcome, DedupOutcome::Deduplicated);
        }
        Err(_) => panic!("a verified difference is an outcome, not a failure"),
    }
}

#[test]
fn primitive_failure_is_wrapped_with_its_reason() {
    let r = interpret_primitive(Err(String::from("ioctl returned 95")));
    match r {
        Err(BlockDedupError::DedupInternal(reason)) => {
            assert_eq!(reason, String::from("ioctl returned 95"));
        }
        _ => panic!("a primitive failure must surface as DedupInternal"),
    }
}
