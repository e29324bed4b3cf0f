//! What can stop a resolution.

use vstd::prelude::*;
use vstd::string::StringExecFns;

verus! {

/// The root cause of an error.
#[derive(Clone, Copy, Debug, PartialEq, Eq, Structural)]
pub enum ErrorKind {
    /// No branch of the resolution found a file.
    NotFound,
    /// An exports or imports map was asked and has no entry for the subpath,
    /// or no condition of the entry applies.
    PackagePathNotExported,
    /// An exports or imports map gave a target that may not be used.
    InvalidSpecifier,
    /// The manifest of a directory could not be parsed.
    ManifestParse,
    /// The resolution re-entered itself more often than the options allow.
    RecursionLimit,
    /// The probe of a path failed otherwise than by finding nothing, or a
    /// manifest could not be read.
    Io,
    /// The resolver has not been told yet what stands at a path.
    EntryUnknown,
    /// The resolver has not been told yet whether a directory has a manifest.
    ManifestUnknown,
}

/// A root cause and what it is about: a path, a directory or a subpath.
#[derive(Debug)]
pub struct Fault {
    pub kind: ErrorKind,
    pub subject: String,
}

/// A fault as plain text.
pub ghost struct FaultView {
    pub kind: ErrorKind,
    pub subject: Seq<char>,
}

impl View for Fault {
    type V = FaultView;

    open spec fn view(&self) -> FaultView {
        FaultView { kind: self.kind, subject: self.subject@ }
    }
}

impl Fault {
    pub fn new(kind: ErrorKind, subject: &str) -> (f: Fault)
        ensures
            f@ == (FaultView { kind, subject: subject@ }),
    {
        Fault { kind, subject: subject.to_owned() }
    }

    /// A copy of the fault.
    pub fn duplicate(&self) -> (f: Fault)
        ensures
            f@ == self@,
    {
        Fault { kind: self.kind, subject: self.subject.clone() }
    }
}

/// An error of `Resolver::resolve`: the root cause, with the request and the
/// directory it was made from.
#[derive(Debug)]
pub struct ResolverError {
    pub kind: ErrorKind,
    pub subject: String,
    pub request: String,
    pub base: String,
}

/// An error as plain text.
pub ghost struct ErrorView {
    pub kind: ErrorKind,
    pub subject: Seq<char>,
    pub request: Seq<char>,
    pub base: Seq<char>,
}

impl View for ResolverError {
    type V = ErrorView;

    open spec fn view(&self) -> ErrorView {
        ErrorView {
            kind: self.kind,
            subject: self.subject@,
            request: self.request@,
            base: self.base@,
        }
    }
}

/// The name of a root cause.
pub open spec fn kind_name(kind: ErrorKind) -> Seq<char> {
    match kind {
        ErrorKind::NotFound => "NotFound"@,
        ErrorKind::PackagePathNotExported => "PackagePathNotExported"@,
        ErrorKind::InvalidSpecifier => "InvalidSpecifier"@,
        ErrorKind::ManifestParse => "ManifestParse"@,
        ErrorKind::RecursionLimit => "RecursionLimit"@,
        ErrorKind::Io => "Io"@,
        ErrorKind::EntryUnknown => "EntryUnknown"@,
        ErrorKind::ManifestUnknown => "ManifestUnknown"@,
    }
}

/// The message of an error: the root cause and what it is about, the
/// request, and the directory the request was made from.
pub open spec fn message_of(e: ErrorView) -> Seq<char> {
    kind_name(e.kind) + ": "@ + e.subject + " (request '"@ + e.request + "' in '"@ + e.base
        + "')"@
}

impl ErrorKind {
    /// The name of the root cause.
    pub fn name(&self) -> (r: &'static str)
        ensures
            r@ == kind_name(*self),
    {
        match self {
            ErrorKind::NotFound => "NotFound",
            ErrorKind::PackagePathNotExported => "PackagePathNotExported",
            ErrorKind::InvalidSpecifier => "InvalidSpecifier",
            ErrorKind::ManifestParse => "ManifestParse",
            ErrorKind::RecursionLimit => "RecursionLimit",
            ErrorKind::Io => "Io",
            ErrorKind::EntryUnknown => "EntryUnknown",
            ErrorKind::ManifestUnknown => "ManifestUnknown",
        }
    }
}

impl ResolverError {
    /// The error as one line of text.
    pub fn message(&self) -> (r: String)
        ensures
            r@ == message_of(self@),
    {
        let mut s = self.kind.name().to_owned();
        s.append(": ");
        s.append(self.subject.as_str());
        s.append(" (request '");
        s.append(self.request.as_str());
        s.append("' in '");
        s.append(self.base.as_str());
        s.append("')");
        s
    }

    /// Whether the error asks for more knowledge of the file system: what
    /// stands at the path `subject`, or what manifest the directory
    /// `subject` has.
    pub fn is_question(&self) -> (r: bool)
        ensures
            r == (self.kind == ErrorKind::EntryUnknown || self.kind == ErrorKind::ManifestUnknown),
    {
        self.kind == ErrorKind::EntryUnknown || self.kind == ErrorKind::ManifestUnknown
    }
}

} // verus!
