use rdiff::capi::{rs_strerror, rs_version, RsResult, VERSION};

#[test]
pub fn test_versions_consistent() {
    // I can't work out how to automatically store a static CString, but
    // let's at least check they're in sync, and that ours has a nul.
    assert_eq!(VERSION.as_bytes()[VERSION.len() - 1], 0);
    let their_v = rdiff::VERSION;
    let l = their_v.len();
    assert_eq!(VERSION.len(), l + 1);
    assert_eq!(VERSION[0..l], their_v.to_string());

    // It should also be consistent with the package's version.
    assert_eq!(their_v, "0.0.0");
}

#[test]
pub fn version_is_a_c_string() {
    assert_eq!(rs_version(), "0.0.0\0");
    assert_eq!(rs_version(), VERSION);
}

#[test]
pub fn message_of_each_result() {
    assert_eq!(rs_strerror(RsResult::Done), "OK\0");
    for r in [
        RsResult::Blocked,
        RsResult::Running,
        RsResult::TestSkipped,
        RsResult::IoError,
        RsResult::SyntaxError,
        RsResult::MemError,
        RsResult::InputEnded,
        RsResult::BadMagic,
        RsResult::Unimplemented,
        RsResult::Corrupt,
        RsResult::InternalError,
        RsResult::ParamErorr,
    ] {
        assert_eq!(rs_strerror(r), "unexplained problem\0");
    }
}

#[test]
pub fn code_of_each_result() {
    assert_eq!(RsResult::Done.code(), 0);
    assert_eq!(RsResult::Blocked.code(), 1);
    assert_eq!(RsResult::Running.code(), 2);
    assert_eq!(RsResult::TestSkipped.code(), 77);
    assert_eq!(RsResult::IoError.code(), 100);
    assert_eq!(RsResult::SyntaxError.code(), 101);
    assert_eq!(RsResult::MemError.code(), 102);
    assert_eq!(RsResult::InputEnded.code(), 103);
    assert_eq!(RsResult::BadMagic.code(), 104);
    assert_eq!(RsResult::Unimplemented.code(), 105);
    assert_eq!(RsResult::Corrupt.code(), 106);
    assert_eq!(RsResult::InternalError.code(), 107);
    assert_eq!(RsResult::ParamErorr.code(), 108);
}
