//! Errors of the system's control interface.

use vstd::prelude::*;
use vstd::string::*;

verus! {

/// The error of the `sysctl` crate, taken as it comes: nothing is known of
/// what is in it.
#[verifier::external_type_specification]
#[verifier::external_body]
pub struct ExSysctlError(sysctl::SysctlError);

/// The text shown for an error of the control interface that has no name.
pub open spec fn unknown_error() -> Seq<char> {
    "Unknown SysCtl error"@
}

/// `failure::Fail::name` on an error of the control interface. The error has
/// the trait through its blanket impl for std errors, which keeps the
/// method's default: no name.
#[verifier::external_body]
fn error_name(e: &sysctl::SysctlError) -> (name: Option<&str>)
    ensures
        name is None,
{
    failure::Fail::name(e)
}

/// An error of the control interface, kept as its text.
#[derive(Debug)]
pub struct CtlErrorWrapper {
    message: String,
}

impl CtlErrorWrapper {
    /// The text of the error.
    pub closed spec fn spec_message(&self) -> Seq<char> {
        self.message@
    }

    /// Keeps the name of `e` as the text, or a fixed text where it has none.
    pub fn new(e: sysctl::SysctlError) -> (w: Self)
        ensures
            w.spec_message() == unknown_error(),
    {
        let message = match error_name(&e) {
            Some(name) => String::from_str(name),
            None => String::from_str("Unknown SysCtl error"),
        };
        CtlErrorWrapper { message }
    }

    /// The text of the error.
    pub fn message(&self) -> (m: &String)
        ensures
            m@ == self.spec_message(),
    {
        &self.message
    }

    /// The text of the error as it is shown to the user.
    pub fn to_string(&self) -> (s: String)
        ensures
            s@ == self.spec_message(),
    {
        self.message.clone()
    }
}

/// What went wrong while the counters were taken.
#[derive(Debug)]
pub enum Error {
    /// The clock could not be read; `source` says why.
    Time { message: String, source: String },
    GetMetrics { message: String },
    CtlError { message: String },
}

impl From<CtlErrorWrapper> for Error {
    fn from(e: CtlErrorWrapper) -> (r: Error)
        ensures
            r matches Error::CtlError { message } && message@ == e.spec_message(),
    {
        Error::CtlError { message: e.message }
    }
}

impl vstd::std_specs::convert::FromSpecImpl<CtlErrorWrapper> for Error {
    open spec fn obeys_from_spec() -> bool {
        true
    }

    closed spec fn from_spec(e: CtlErrorWrapper) -> Error {
        Error::CtlError { message: e.message }
    }
}

/// An error of this module whose kind is not shown.
#[derive(Debug)]
pub struct PubTime(pub Error);

} // verus!
