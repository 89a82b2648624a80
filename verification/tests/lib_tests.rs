use ham_dos::QemuExitCode;

#[test]
fn trivial_assertion() {
    assert_eq!(1, 1);
}

#[test]
fn exit_code_values() {
    assert_eq!(QemuExitCode::Success.code(), 0x10);
    assert_eq!(QemuExitCode::Failed.code(), 0x11);
}
