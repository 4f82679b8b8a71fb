use vstd::prelude::*;
use vstd::string::StringExecFns;

verus! {

/// Failure of a registration or of an expansion.  Every failure is reported
/// to the caller of the top-level operation; expansion aborts on the first
/// one and yields no partial output.
#[derive(Debug)]
pub enum Error {
    /// A referenced symbol has no replacement rule.
    UnknownSymbol(String),
    /// A symbol transitively depends on itself.
    CyclicDependency(String),
    /// More than one gender marker stands in a single variant.
    MultipleGenderMarkers(String),
    /// A symbol whose gender agreement markup needs resolves to no gender.
    MissingGenderSource(String),
    /// A bulk table could not be parsed.
    MalformedInput(String),
    /// An expansion nested deeper than the engine's fixed depth limit.
    DepthExceeded,
}

/// Model of an [`Error`], over character sequences.
pub enum ErrorModel {
    UnknownSymbol(Seq<char>),
    CyclicDependency(Seq<char>),
    MultipleGenderMarkers(Seq<char>),
    MissingGenderSource(Seq<char>),
    MalformedInput(Seq<char>),
    DepthExceeded,
}

impl View for Error {
    type V = ErrorModel;

    open spec fn view(&self) -> ErrorModel {
        match self {
            Error::UnknownSymbol(s) => ErrorModel::UnknownSymbol(s@),
            Error::CyclicDependency(s) => ErrorModel::CyclicDependency(s@),
            Error::MultipleGenderMarkers(s) => ErrorModel::MultipleGenderMarkers(s@),
            Error::MissingGenderSource(s) => ErrorModel::MissingGenderSource(s@),
            Error::MalformedInput(s) => ErrorModel::MalformedInput(s@),
            Error::DepthExceeded => ErrorModel::DepthExceeded,
        }
    }
}

impl Error {
    /// A short description of the failure, naming the symbol involved.
    pub fn describe(&self) -> String {
        match self {
            Error::UnknownSymbol(s) => {
                let mut m = String::new();
                m.append("could not find symbol ");
                m.append(s.as_str());
                m.append(" in generator");
                m
            },
            Error::CyclicDependency(s) => {
                let mut m = String::new();
                m.append("cyclic dependency: '");
                m.append(s.as_str());
                m.append("' depends on itself");
                m
            },
            Error::MultipleGenderMarkers(s) => {
                let mut m = String::new();
                m.append("multiple genders in expression '");
                m.append(s.as_str());
                m.append("'");
                m
            },
            Error::MissingGenderSource(s) => {
                let mut m = String::new();
                m.append("a gender must be specified by ");
                m.append(s.as_str());
                m.append(" but it does not specify one");
                m
            },
            Error::MalformedInput(s) => {
                let mut m = String::new();
                m.append("could not parse the table: ");
                m.append(s.as_str());
                m
            },
            Error::DepthExceeded => {
                let mut m = String::new();
                m.append("expansion nested deeper than the depth limit");
                m
            },
        }
    }
}

} // verus!
