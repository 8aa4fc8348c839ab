use crate::book::{Container, Function, Page};
use crate::failure::{Failure, FailureView};
use crate::runtime::cmd::{parse_argv, Argv};
use crate::runtime::CommandLine;
use crate::text::{chars_of, copy_str, find_from, index_from, string_of_range};
use vstd::prelude::*;
use vstd::string::StringExecFns;

verus! {

/// Takes a pair `KEY=value` apart at its first `=`.
pub open spec fn key_value(s: Seq<char>) -> Option<(Seq<char>, Seq<char>)> {
    let at = index_from(s, '=', 0);
    if at < s.len() {
        Some((s.take(at), s.skip(at + 1)))
    } else {
        None
    }
}

/// Takes a pair `KEY=value` apart at its first `=`; it fails where there is none.
pub fn parse_key_val(s: &str) -> (r: Result<(String, String), Failure>)
    ensures
        match key_value(s@) {
            Some((key, value)) => r matches Ok(pair) && pair.0@ == key && pair.1@ == value,
            None => r matches Err(e) && e@ == (FailureView::BadKeyValue { text: s@ }),
        },
{
    let chars = chars_of(s);
    let at = find_from(&chars, '=', 0);
    if at >= chars.len() {
        return Err(Failure::BadKeyValue { text: copy_str(s) });
    }
    let key = string_of_range(&chars, 0, at);
    let value = string_of_range(&chars, at + 1, chars.len());
    proof {
        assert(chars@.subrange(0, at as int) =~= chars@.take(at as int));
        assert(chars@.subrange(at + 1, chars@.len() as int) =~= chars@.skip(at + 1));
    }
    Ok((key, value))
}

/// What makes a page, or a function of it, unfit for use.
#[derive(Debug, PartialEq, Eq)]
pub enum Invalid {
    /// The page holds no function.
    NoFunctions,
    /// The page has no name.
    EmptyPageName,
    /// The page has no categories.
    NoCategories,
    /// A function has no name.
    EmptyFunctionName,
    /// The function has no description.
    EmptyDescription { function: String },
    /// The function has no parameters.
    NoParameters { function: String },
    /// The function has no command line for this machine, or one that names no
    /// application.
    CommandLine { function: String, failure: Failure },
    /// The application of the function is not found on this machine, and the function
    /// has no container.
    NotInPath { function: String },
}

/// What is wrong with `page` as a whole, if anything: that it holds no function, has no
/// name or has no categories, in this order.
pub open spec fn page_fault(page: Page) -> Option<Invalid> {
    if page.functions.keys().len() == 0 {
        Some(Invalid::NoFunctions)
    } else if page.name@.len() == 0 {
        Some(Invalid::EmptyPageName)
    } else if page.categories@.len() == 0 {
        Some(Invalid::NoCategories)
    } else {
        None
    }
}

/// Checks `page` as a whole.
pub fn validate_page(page: &Page) -> (r: Result<(), Invalid>)
    ensures
        match page_fault(*page) {
            Some(fault) => r == Err::<(), Invalid>(fault),
            None => r is Ok,
        },
{
    if page.functions.is_empty() {
        Err(Invalid::NoFunctions)
    } else if page.name.as_str().is_empty() {
        Err(Invalid::EmptyPageName)
    } else if page.categories.len() == 0 {
        Err(Invalid::NoCategories)
    } else {
        Ok(())
    }
}

/// Which of its faults a function that goes by `name` is reported with, of those that
/// show without a look at this machine: no name, no description, no parameters, no
/// command line for `os`, or a command line that names no application, in this order.
pub open spec fn function_fault(name: Seq<char>, function: Function, os: Seq<char>) -> Option<
    Seq<char>,
> {
    if name.len() == 0 {
        Some("function name is empty"@)
    } else if function.description@.len() == 0 {
        Some("function description is empty"@)
    } else if function.parameters.keys().len() == 0 {
        Some("function parameters are empty"@)
    } else {
        match function.execution.command_line(os) {
            Err(e) => Some(e.message()),
            Ok(argv) => match parse_argv(argv) {
                Err(e) => Some(e.message()),
                Ok(_) => None,
            },
        }
    }
}

/// The container that a function has to be tried in, once it is known whether its
/// application is found on this machine: its own where the application is not found or
/// where it is forced, none else. Without a container an application that is not found
/// is a fault.
pub open spec fn container_to_try(function: Function, app_in_path: bool) -> Result<
    Option<Container>,
    (),
> {
    if !app_in_path {
        match function.container {
            Some(c) => Ok(Some(c)),
            None => Err(()),
        }
    } else if function.forces_container() {
        Ok(function.container)
    } else {
        Ok(None)
    }
}

/// The container that the function `name` has to be tried in.
pub fn required_container<'a>(name: &str, function: &'a Function, app_in_path: bool) -> (r: Result<
    Option<&'a Container>,
    Invalid,
>)
    ensures
        match container_to_try(*function, app_in_path) {
            Err(_) => r matches Err(Invalid::NotInPath { function: f }) && f@ == name@,
            Ok(Some(c)) => r matches Ok(Some(found)) && *found == c,
            Ok(None) => r matches Ok(None),
        },
{
    match &function.container {
        Some(c) => {
            if !app_in_path || c.force {
                Ok(Some(c))
            } else {
                Ok(None)
            }
        },
        None => {
            if !app_in_path {
                Err(Invalid::NotInPath { function: copy_str(name) })
            } else {
                Ok(None)
            }
        },
    }
}

/// Checks the function `name` for use on this machine, whose operating system is `os`,
/// and gives the container that it has to be tried in, if any. The application is
/// looked up on this machine.
pub fn validate<'a>(name: &str, function: &'a Function, os: &str) -> (r: Result<
    Option<&'a Container>,
    Invalid,
>)
    ensures
        match r {
            Ok(to_try) => function_fault(name@, *function, os@) is None && exists|app_in_path: bool|
                #[trigger] container_to_try(*function, app_in_path) == Ok::<Option<Container>, ()>(
                    match to_try {
                        Some(c) => Some(*c),
                        None => None,
                    },
                ),
            Err(Invalid::EmptyFunctionName) => name@.len() == 0,
            Err(Invalid::EmptyDescription { function: f }) => f@ == name@ && function_fault(
                name@,
                *function,
                os@,
            ) == Some("function description is empty"@),
            Err(Invalid::NoParameters { function: f }) => f@ == name@ && function_fault(
                name@,
                *function,
                os@,
            ) == Some("function parameters are empty"@),
            Err(Invalid::CommandLine { function: f, failure }) => f@ == name@ && function_fault(
                name@,
                *function,
                os@,
            ) == Some(failure@.message()),
            Err(Invalid::NotInPath { function: f }) => f@ == name@ && function_fault(
                name@,
                *function,
                os@,
            ) is None && function.container is None,
            Err(_) => false,
        },
{
    if name.is_empty() {
        return Err(Invalid::EmptyFunctionName);
    }
    if function.description.as_str().is_empty() {
        return Err(Invalid::EmptyDescription { function: copy_str(name) });
    }
    if function.parameters.is_empty() {
        return Err(Invalid::NoParameters { function: copy_str(name) });
    }
    let cmdline = match function.execution.get_command_line(os) {
        Ok(cmdline) => cmdline,
        Err(failure) => {
            return Err(Invalid::CommandLine { function: copy_str(name), failure });
        },
    };
    let cmdline = match CommandLine::from_vec(&cmdline) {
        Ok(cmdline) => cmdline,
        Err(failure) => {
            return Err(Invalid::CommandLine { function: copy_str(name), failure });
        },
    };
    let r = required_container(name, function, cmdline.app_in_path);
    proof {
        if let Ok(to_try) = r {
            assert(container_to_try(*function, cmdline.app_in_path) == Ok::<
                Option<Container>,
                (),
            >(
                match to_try {
                    Some(c) => Some(*c),
                    None => None,
                },
            ));
        }
    }
    r
}

/// The two sides of a volume binding `host:guest`: what stands before its first `:` and
/// what stands behind it; the whole for both where it holds no `:`.
pub open spec fn volume_sides(volume: Seq<char>) -> (Seq<char>, Seq<char>) {
    let at = index_from(volume, ':', 0);
    if at < volume.len() {
        (volume.take(at), volume.skip(at + 1))
    } else {
        (volume, volume)
    }
}

/// The two sides of a volume binding.
pub fn split_volume(volume: &str) -> (r: (String, String))
    ensures
        r.0@ == volume_sides(volume@).0,
        r.1@ == volume_sides(volume@).1,
{
    let chars = chars_of(volume);
    let at = find_from(&chars, ':', 0);
    if at >= chars.len() {
        return (copy_str(volume), copy_str(volume));
    }
    let host = string_of_range(&chars, 0, at);
    let guest = string_of_range(&chars, at + 1, chars.len());
    proof {
        assert(chars@.subrange(0, at as int) =~= chars@.take(at as int));
        assert(chars@.subrange(at + 1, chars@.len() as int) =~= chars@.skip(at + 1));
    }
    (host, guest)
}

impl Invalid {
    /// The sentence that tells the user what is wrong.
    pub open spec fn message(self) -> Seq<char> {
        match self {
            Invalid::NoFunctions => "no functions found"@,
            Invalid::EmptyPageName => "page name is empty"@,
            Invalid::NoCategories => "page categories are empty"@,
            Invalid::EmptyFunctionName => "function name is empty"@,
            Invalid::EmptyDescription { function } => "function description is empty for "@
                + function@,
            Invalid::NoParameters { function } => "function "@ + function@
                + " parameters are empty"@,
            Invalid::CommandLine { function, failure } => "error in command line for function "@
                + function@ + ": "@ + failure@.message(),
            Invalid::NotInPath { function } => "binary for function "@ + function@
                + " not in $PATH and container not specified"@,
        }
    }

    /// The sentence that tells the user what is wrong.
    pub fn to_string(&self) -> (s: String)
        ensures
            s@ == self.message(),
    {
        match self {
            Invalid::NoFunctions => String::from_str("no functions found"),
            Invalid::EmptyPageName => String::from_str("page name is empty"),
            Invalid::NoCategories => String::from_str("page categories are empty"),
            Invalid::EmptyFunctionName => String::from_str("function name is empty"),
            Invalid::EmptyDescription { function } => {
                let mut s = String::from_str("function description is empty for ");
                s.append(function.as_str());
                s
            },
            Invalid::NoParameters { function } => {
                let mut s = String::from_str("function ");
                s.append(function.as_str());
                s.append(" parameters are empty");
                s
            },
            Invalid::CommandLine { function, failure } => {
                let mut s = String::from_str("error in command line for function ");
                s.append(function.as_str());
                s.append(": ");
                s.append(failure.to_string().as_str());
                s
            },
            Invalid::NotInPath { function } => {
                let mut s = String::from_str("binary for function ");
                s.append(function.as_str());
                s.append(" not in $PATH and container not specified");
                s
            },
        }
    }
}

} // verus!
