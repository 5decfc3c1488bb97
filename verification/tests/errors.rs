use claspr::error::Error;

#[test]
fn opencl_error_text_names_the_code() {
    assert_eq!(Error::OpenCl(-5).message(), "OpenCL error: CL_OUT_OF_RESOURCES");
    assert_eq!(
        Error::OpenCl(-5).message(),
        format!("OpenCL error: {}", opencl3::error_codes::ClError(-5))
    );
    assert_eq!(
        Error::OpenCl(0).message(),
        format!("OpenCL error: {}", opencl3::error_codes::error_text(0))
    );
}

#[test]
fn every_error_has_its_text() {
    assert_eq!(
        Error::Build { log: "line 1".to_string() }.message(),
        "program build failed:\nline 1"
    );
    assert_eq!(
        Error::LengthMismatch { src: 10, dst: 4096 }.message(),
        "length mismatch: src has 10 elements, dst has 4096"
    );
    assert_eq!(
        Error::LengthMismatch { src: 0, dst: usize::MAX }.message(),
        format!("length mismatch: src has 0 elements, dst has {}", usize::MAX)
    );
    assert_eq!(
        Error::NotSupported("images").message(),
        "not supported on this device: images"
    );
    assert_eq!(
        Error::SvmNotAvailable.message(),
        "SVM (shared virtual memory) not available on this device"
    );
    assert_eq!(
        Error::ProfilingDisabled.message(),
        "queue does not have CL_QUEUE_PROFILING_ENABLE (build the Context with .profiling(true))"
    );
    assert_eq!(Error::Io("no such file".to_string()).message(), "I/O: no such file");
    assert_eq!(Error::InvalidArgument("width").message(), "invalid argument: width");
    assert_eq!(
        Error::HostPanic("boom".to_string()).message(),
        "host closure panicked: boom"
    );
    assert_eq!(
        Error::SlotUnbound("A").message(),
        "eager graph: slot `A` is unbound — bind it with `g.bind(Tag(value))` before sync (or a previous Checkout is still holding its buffer)"
    );
    assert_eq!(
        Error::SlotConflict("A").message(),
        "eager graph: slot `A` is already bound to a different value; use `mutate_bind` to change it"
    );
    assert_eq!(
        Error::SlotCheckedOut("A").message(),
        "eager graph: slot `A` is currently checked out; drop the Checkout (or call into_inner) before re-binding"
    );
    assert!(Error::SlotSevered("Abc").message().contains("`Abc`"));
    assert!(Error::SlotNoSuchTag("Abc").message().contains("`Abc`"));
}

#[test]
fn only_outside_errors_have_a_source() {
    assert!(Error::OpenCl(-1).has_source());
    assert!(Error::Io("x".to_string()).has_source());
    assert!(!Error::SvmNotAvailable.has_source());
    assert!(!Error::HostPanic("x".to_string()).has_source());
}
