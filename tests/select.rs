use starry_wait::select::{
    check_select_args, count_ready, prepare_select, select_outcome, timeval_to_nanos, Candidate,
    FdSet, KernelFdSet, TimeVal, FD_SETSIZE,
};
use starry_wait::{SysError, POLLERR, POLLIN, POLLOUT};

fn set_of(fds: &[usize]) -> KernelFdSet {
    let mut s = KernelFdSet::zeroed();
    for &fd in fds {
        s.set(fd);
    }
    s
}

fn members(s: &KernelFdSet) -> Vec<usize> {
    (0..FD_SETSIZE).filter(|&fd| s.is_set(fd)).collect()
}

#[test]
fn fd_set_layout() {
    let s = set_of(&[0, 65, 1023]);
    assert_eq!(s.fds_bits.len(), 16);
    assert_eq!(s.fds_bits[0], 1);
    assert_eq!(s.fds_bits[1], 2);
    assert_eq!(s.fds_bits[15], 1 << 63);
    assert_eq!(members(&s), vec![0, 65, 1023]);
    assert!(members(&KernelFdSet::zeroed()).is_empty());
}

#[test]
fn bitmap_keeps_only_bits_below_bound() {
    let user = set_of(&[1, 5]);
    let b = FdSet::new(3, Some(&user));
    assert!(b.contains(1));
    assert!(!b.contains(5));
    assert!(!b.contains(0));
    let none = FdSet::new(1024, None);
    assert!(!none.contains(1));
}

#[test]
fn argument_checks() {
    assert_eq!(check_select_args(1024, None), Ok(()));
    assert_eq!(check_select_args(1025, None), Err(SysError::InvalidInput));
    assert_eq!(check_select_args(4, Some(8)), Ok(()));
    assert_eq!(check_select_args(4, Some(16)), Err(SysError::InvalidInput));
    assert_eq!(prepare_select(1025, None, None, None, &vec![]), Err(SysError::InvalidInput));
}

#[test]
fn timeval_conversion() {
    assert_eq!(timeval_to_nanos(&TimeVal { tv_sec: 0, tv_usec: 50_000 }), Ok(50_000_000));
    assert_eq!(timeval_to_nanos(&TimeVal { tv_sec: 2, tv_usec: 1 }), Ok(2_000_001_000));
    assert_eq!(timeval_to_nanos(&TimeVal { tv_sec: -1, tv_usec: 0 }), Err(SysError::InvalidInput));
    assert_eq!(
        timeval_to_nanos(&TimeVal { tv_sec: 0, tv_usec: 1_000_000 }),
        Err(SysError::InvalidInput)
    );
}

#[test]
fn candidates_merge_interest() {
    let r = set_of(&[2, 3]);
    let w = set_of(&[3]);
    let e = set_of(&[0]);
    let c = prepare_select(4, Some(&r), Some(&w), Some(&e), &vec![true; 4]).unwrap();
    assert_eq!(
        c,
        vec![
            Candidate { fd: 0, interest: POLLERR },
            Candidate { fd: 2, interest: POLLIN },
            Candidate { fd: 3, interest: POLLIN | POLLOUT },
        ]
    );
}

#[test]
fn only_writable_descriptor_is_reported() {
    let mut r = KernelFdSet::zeroed();
    let mut w = set_of(&[1, 2]);
    let mut e = KernelFdSet::zeroed();
    let c = prepare_select(4, Some(&r), Some(&w), Some(&e), &vec![true, true, true, true]).unwrap();
    assert_eq!(c.len(), 2);
    // Descriptor 1 reports nothing, descriptor 2 is writable.
    let revents = vec![0, POLLOUT];
    let ready = count_ready(&c, &revents);
    assert_eq!(ready, 1);
    let out = select_outcome(&c, &revents, ready);
    assert_eq!(out.count, 1);
    r = out.read;
    w = out.write;
    e = out.except;
    assert_eq!(members(&w), vec![2]);
    assert!(members(&r).is_empty());
    assert!(members(&e).is_empty());
}

#[test]
fn timeout_clears_all_sets() {
    let r = set_of(&[0]);
    let w = set_of(&[1]);
    let e = set_of(&[0, 1]);
    let c = prepare_select(2, Some(&r), Some(&w), Some(&e), &vec![true, true]).unwrap();
    let revents = vec![POLLOUT, POLLIN];
    assert_eq!(count_ready(&c, &revents), 0);
    let out = select_outcome(&c, &revents, 0);
    assert_eq!(out.count, 0);
    assert!(members(&out.read).is_empty());
    assert!(members(&out.write).is_empty());
    assert!(members(&out.except).is_empty());
}

#[test]
fn descriptor_at_bound_is_ignored() {
    // Descriptor 5 is open and would be ready, but lies at or above nfds.
    let r = set_of(&[1, 5]);
    let c = prepare_select(5, Some(&r), None, None, &vec![true; 8]).unwrap();
    assert_eq!(c, vec![Candidate { fd: 1, interest: POLLIN }]);
    let revents = vec![POLLIN];
    let out = select_outcome(&c, &revents, count_ready(&c, &revents));
    assert_eq!(out.count, 1);
    assert_eq!(members(&out.read), vec![1]);
    // A closed descriptor above the bound does not fail the call either.
    assert!(prepare_select(5, Some(&r), None, None, &vec![true, true]).is_ok());
}

#[test]
fn closed_descriptor_fails_the_wait() {
    let w = set_of(&[1, 3]);
    let open = vec![true, true, true, false];
    assert_eq!(
        prepare_select(4, None, Some(&w), None, &open),
        Err(SysError::BadFileDescriptor)
    );
    let e = set_of(&[9]);
    assert_eq!(
        prepare_select(10, None, None, Some(&e), &open),
        Err(SysError::BadFileDescriptor)
    );
}

#[test]
fn every_met_event_is_set() {
    let r = set_of(&[4]);
    let w = set_of(&[4, 6]);
    let e = set_of(&[6]);
    let c = prepare_select(7, Some(&r), Some(&w), Some(&e), &vec![true; 7]).unwrap();
    let revents = vec![POLLIN | POLLOUT, POLLERR | POLLIN];
    let ready = count_ready(&c, &revents);
    assert_eq!(ready, 2);
    let out = select_outcome(&c, &revents, ready);
    assert_eq!(out.count, 2);
    assert_eq!(members(&out.read), vec![4]);
    assert_eq!(members(&out.write), vec![4]);
    assert_eq!(members(&out.except), vec![6]);
}
