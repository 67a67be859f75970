use errno_no_std::{errno, errno_raw, set_errno, set_errno_raw, CustomErrno, Errno};

#[test]
fn errno_after_set_errno() {
    let mut store = CustomErrno { code: 0 };
    for e in [0, 1, -1, 13, i32::MAX, i32::MIN] {
        set_errno(&mut store, Errno(e));
        assert_eq!(errno(&store), Errno(e));
    }
}

#[test]
fn raw_code_round_trip() {
    let mut store = CustomErrno { code: 7 };
    set_errno_raw(&mut store, 22);
    assert_eq!(errno_raw(&store), 22);
    assert_eq!(store.code, 22);
}

#[test]
fn errno_wraps_the_stored_code() {
    let store = CustomErrno { code: -42 };
    assert_eq!(errno(&store), Errno(-42));
    assert_eq!(errno_raw(&store), -42);
}
