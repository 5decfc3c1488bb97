//! The error type of the library and its display text.

use crate::text::{decimal, joined, push_decimal};
use vstd::prelude::*;
use vstd::string::*;

verus! {

/// The name that OpenCL gives to a status code, such as `CL_OUT_OF_RESOURCES`.
pub uninterp spec fn cl_error_name(code: i32) -> Seq<char>;

/// `opencl3::error_codes::error_text` maps a status code to a fixed name. The
/// text depends on the code alone.
pub assume_specification[ opencl3::error_codes::error_text ](error_code: i32) -> (text: &'static str)
    ensures
        text@ == cl_error_name(error_code),
;

/// Everything that can go wrong in the library.
#[derive(Debug)]
#[non_exhaustive]
pub enum Error {
    /// A status code that OpenCL returned.
    OpenCl(i32),
    /// A program did not build; the compiler's log.
    Build { log: String },
    /// Two operands of a transfer differ in length.
    LengthMismatch { src: usize, dst: usize },
    /// The device, or the way an op was used, does not support the request.
    NotSupported(&'static str),
    /// The device has no shared virtual memory.
    SvmNotAvailable,
    /// The queue was created without profiling.
    ProfilingDisabled,
    /// Reading or writing a file failed; the text of the cause.
    Io(String),
    /// An argument is outside the accepted range.
    InvalidArgument(&'static str),
    /// A host closure panicked; the panic's text.
    HostPanic(String),
    /// A slot has no value to lend; the tag's name.
    SlotUnbound(&'static str),
    /// A set-once bind met a different value; the tag's name.
    SlotConflict(&'static str),
    /// A bind met a slot whose buffer is lent out; the tag's name.
    SlotCheckedOut(&'static str),
    /// A set-once bind met a slot whose value was taken for good; the tag's name.
    SlotSevered(&'static str),
    /// No slot of the graph carries the tag; the tag's name.
    SlotNoSuchTag(&'static str),
}

/// The result type of the library's fallible operations.
pub type OpResult<T> = core::result::Result<T, Error>;

/// The text that describes `e`.
pub open spec fn error_message(e: Error) -> Seq<char> {
    match e {
        Error::OpenCl(code) => "OpenCL error: "@ + cl_error_name(code) + ""@,
        Error::Build { log } => "program build failed:\n"@ + log@ + ""@,
        Error::LengthMismatch { src, dst } => "length mismatch: src has "@ + decimal(src as nat)
            + " elements, dst has "@ + decimal(dst as nat),
        Error::NotSupported(what) => "not supported on this device: "@ + what@ + ""@,
        Error::SvmNotAvailable => "SVM (shared virtual memory) not available on this device"@,
        Error::ProfilingDisabled =>
            "queue does not have CL_QUEUE_PROFILING_ENABLE (build the Context with .profiling(true))"@,
        Error::Io(e) => "I/O: "@ + e@ + ""@,
        Error::InvalidArgument(what) => "invalid argument: "@ + what@ + ""@,
        Error::HostPanic(msg) => "host closure panicked: "@ + msg@ + ""@,
        Error::SlotUnbound(tag) => "eager graph: slot `"@ + tag@
            + "` is unbound — bind it with `g.bind(Tag(value))` before sync (or a previous Checkout is still holding its buffer)"@,
        Error::SlotConflict(tag) => "eager graph: slot `"@ + tag@
            + "` is already bound to a different value; use `mutate_bind` to change it"@,
        Error::SlotCheckedOut(tag) => "eager graph: slot `"@ + tag@
            + "` is currently checked out; drop the Checkout (or call into_inner) before re-binding"@,
        Error::SlotSevered(tag) => "eager graph: slot `"@ + tag@
            + "` was bound and its value was taken; use `mutate_bind` to provide a new one"@,
        Error::SlotNoSuchTag(tag) => "eager graph: no slot of the graph carries the tag `"@ + tag@
            + "`"@,
    }
}

impl Error {
    /// The text that describes the error.
    pub fn message(&self) -> (r: String)
        ensures
            r@ == error_message(*self),
    {
        match self {
            Error::OpenCl(code) => joined(
                "OpenCL error: ",
                opencl3::error_codes::error_text(*code),
                "",
            ),
            Error::Build { log } => joined("program build failed:\n", log.as_str(), ""),
            Error::LengthMismatch { src, dst } => {
                let mut s = String::new();
                s.append("length mismatch: src has ");
                assert(s@ =~= "length mismatch: src has "@);
                push_decimal(&mut s, *src);
                s.append(" elements, dst has ");
                push_decimal(&mut s, *dst);
                s
            },
            Error::NotSupported(what) => joined("not supported on this device: ", what, ""),
            Error::SvmNotAvailable => "SVM (shared virtual memory) not available on this device".to_owned(),
            Error::ProfilingDisabled =>
                "queue does not have CL_QUEUE_PROFILING_ENABLE (build the Context with .profiling(true))".to_owned(),
            Error::Io(e) => joined("I/O: ", e.as_str(), ""),
            Error::InvalidArgument(what) => joined("invalid argument: ", what, ""),
            Error::HostPanic(msg) => joined("host closure panicked: ", msg.as_str(), ""),
            Error::SlotUnbound(tag) => joined(
                "eager graph: slot `",
                tag,
                "` is unbound — bind it with `g.bind(Tag(value))` before sync (or a previous Checkout is still holding its buffer)",
            ),
            Error::SlotConflict(tag) => joined(
                "eager graph: slot `",
                tag,
                "` is already bound to a different value; use `mutate_bind` to change it",
            ),
            Error::SlotCheckedOut(tag) => joined(
                "eager graph: slot `",
                tag,
                "` is currently checked out; drop the Checkout (or call into_inner) before re-binding",
            ),
            Error::SlotSevered(tag) => joined(
                "eager graph: slot `",
                tag,
                "` was bound and its value was taken; use `mutate_bind` to provide a new one",
            ),
            Error::SlotNoSuchTag(tag) => joined(
                "eager graph: no slot of the graph carries the tag `",
                tag,
                "`",
            ),
        }
    }

    /// Whether another error stands behind this one: an OpenCL status or an
    /// I/O failure.
    pub fn has_source(&self) -> (r: bool)
        ensures
            r == (*self is OpenCl || *self is Io),
    {
        matches!(self, Error::OpenCl(_) | Error::Io(_))
    }
}

/// An error about a slot names the slot's tag and says what to do about it.
pub proof fn law_slot_errors_name_their_tag(tag: &'static str)
    ensures
        error_message(Error::SlotUnbound(tag)) == "eager graph: slot `"@ + tag@
            + "` is unbound — bind it with `g.bind(Tag(value))` before sync (or a previous Checkout is still holding its buffer)"@,
        error_message(Error::SlotConflict(tag)) == "eager graph: slot `"@ + tag@
            + "` is already bound to a different value; use `mutate_bind` to change it"@,
        error_message(Error::SlotCheckedOut(tag)) == "eager graph: slot `"@ + tag@
            + "` is currently checked out; drop the Checkout (or call into_inner) before re-binding"@,
        error_message(Error::SlotSevered(tag)) == "eager graph: slot `"@ + tag@
            + "` was bound and its value was taken; use `mutate_bind` to provide a new one"@,
        error_message(Error::SlotNoSuchTag(tag)) == "eager graph: no slot of the graph carries the tag `"@ + tag@ + "`"@,
{
}

/// An error with a cause says what failed, and then the cause as it is.
pub proof fn law_messages_end_with_their_cause(code: i32, text: String, what: &'static str)
    ensures
        error_message(Error::OpenCl(code)) == "OpenCL error: "@ + cl_error_name(code),
        error_message(Error::Build { log: text }) == "program build failed:\n"@ + text@,
        error_message(Error::NotSupported(what)) == "not supported on this device: "@ + what@,
        error_message(Error::Io(text)) == "I/O: "@ + text@,
        error_message(Error::InvalidArgument(what)) == "invalid argument: "@ + what@,
        error_message(Error::HostPanic(text)) == "host closure panicked: "@ + text@,
{
    reveal_strlit("");
    assert(""@ =~= Seq::empty());
    assert(error_message(Error::OpenCl(code)) =~= "OpenCL error: "@ + cl_error_name(code));
    assert(error_message(Error::Build { log: text }) =~= "program build failed:\n"@ + text@);
    assert(error_message(Error::NotSupported(what)) =~= "not supported on this device: "@ + what@);
    assert(error_message(Error::Io(text)) =~= "I/O: "@ + text@);
    assert(error_message(Error::InvalidArgument(what)) =~= "invalid argument: "@ + what@);
    assert(error_message(Error::HostPanic(text)) =~= "host closure panicked: "@ + text@);
}

} // verus!
