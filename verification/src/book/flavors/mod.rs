use crate::failure::{Failure, FailureView};
use crate::strmap::StrMap;
use crate::text::{copy_str, lowercase, str_eq, to_lowercase};
use vstd::prelude::*;

pub mod nerve;
pub mod openai;
pub mod rigging;

verus! {

/// The tool schemas in which a catalog can be shown.
#[derive(Debug, Clone, Copy, PartialEq, Eq, Structural)]
pub enum Flavor {
    /// The function-calling schema.
    OpenAI,
    /// The action-group schema.
    Nerve,
    /// The tool-framework schema.
    Rigging,
}

impl Default for Flavor {
    /// The function-calling schema.
    fn default() -> (r: Self)
        ensures
            r == Flavor::OpenAI,
    {
        Flavor::OpenAI
    }
}

impl Flavor {
    /// The flavor that goes by the lower-case name `lower`.
    pub open spec fn named(lower: Seq<char>) -> Option<Flavor> {
        if lower == "openai"@ {
            Some(Flavor::OpenAI)
        } else if lower == "nerve"@ {
            Some(Flavor::Nerve)
        } else if lower == "rigging"@ {
            Some(Flavor::Rigging)
        } else {
            None
        }
    }

    /// The flavor that goes by the lower-case name `lower`.
    pub fn from_lowercase(lower: &str) -> (r: Option<Flavor>)
        ensures
            r == Self::named(lower@),
    {
        if str_eq(lower, "openai") {
            Some(Flavor::OpenAI)
        } else if str_eq(lower, "nerve") {
            Some(Flavor::Nerve)
        } else if str_eq(lower, "rigging") {
            Some(Flavor::Rigging)
        } else {
            None
        }
    }

    /// The flavor of the name `s`, in whatever case it is written.
    pub fn from_string(s: &str) -> (r: Result<Flavor, Failure>)
        ensures
            match Self::named(lowercase(s@)) {
                Some(flavor) => r == Ok::<Flavor, Failure>(flavor),
                None => r matches Err(e) && e@ == (FailureView::UnknownFlavor { name: s@ }),
            },
    {
        let lower = to_lowercase(s);
        match Self::from_lowercase(lower.as_str()) {
            Some(flavor) => Ok(flavor),
            None => Err(Failure::UnknownFlavor { name: copy_str(s) }),
        }
    }

    /// The flavor that the query of a request asks for under `flavor`; the default
    /// where it asks for none.
    pub fn from_map_or_default(query: &StrMap<String>) -> (r: Result<Flavor, Failure>)
        ensures
            match query.lookup("flavor"@) {
                None => r == Ok::<Flavor, Failure>(Flavor::OpenAI),
                Some(name) => match Self::named(lowercase(name@)) {
                    Some(flavor) => r == Ok::<Flavor, Failure>(flavor),
                    None => r matches Err(e) && e@ == (FailureView::UnknownFlavor { name: name@ }),
                },
            },
    {
        match query.get("flavor") {
            None => Ok(Flavor::default()),
            Some(name) => Self::from_string(name.as_str()),
        }
    }

    /// Whether this is the function-calling schema.
    pub fn is_openai(&self) -> (r: bool)
        ensures
            r == (*self == Flavor::OpenAI),
    {
        matches!(self, Flavor::OpenAI)
    }

    /// Whether this is the action-group schema.
    pub fn is_nerve(&self) -> (r: bool)
        ensures
            r == (*self == Flavor::Nerve),
    {
        matches!(self, Flavor::Nerve)
    }

    /// Whether this is the tool-framework schema.
    pub fn is_rigging(&self) -> (r: bool)
        ensures
            r == (*self == Flavor::Rigging),
    {
        matches!(self, Flavor::Rigging)
    }
}

} // verus!
