use super::placeholder::{gains_from, law_overlay_from_environment, recorded, render, rendered};
use super::{Function, Page};
use crate::failure::{Failure, FailureView};
use crate::runtime::cmd::{parse_argv, Argv};
use crate::runtime::CommandLine;
use crate::strmap::{text_map, StrMap};
use crate::text::{after_last, chars_of, copy_str, copy_strings, find_last, string_of_range, texts};
use vstd::string::StringExecFns;
use vstd::prelude::*;

verus! {

/// How a function would be run on this machine.
#[derive(Debug)]
pub enum ExecutionFlavor {
    /// By the shell of this name.
    Shell(String),
    /// With `sudo`.
    Sudo,
    /// In a container of this image.
    Docker(String),
    /// Not at all, for this reason.
    Error(String),
}

impl ExecutionFlavor {
    /// The flavor of a function that the shell `shell` runs.
    pub fn shell(shell: String) -> (r: Self)
        ensures
            r == ExecutionFlavor::Shell(shell),
    {
        ExecutionFlavor::Shell(shell)
    }

    /// The flavor of a function that runs with `sudo`.
    pub fn sudo() -> (r: Self)
        ensures
            r == ExecutionFlavor::Sudo,
    {
        ExecutionFlavor::Sudo
    }

    /// The flavor of a function that runs in a container of `image`.
    pub fn docker(image: String) -> (r: Self)
        ensures
            r == ExecutionFlavor::Docker(image),
    {
        ExecutionFlavor::Docker(image)
    }

    /// The flavor of a function that cannot run, and why.
    pub fn error(message: String) -> (r: Self)
        ensures
            r == ExecutionFlavor::Error(message),
    {
        ExecutionFlavor::Error(message)
    }

    /// What is shown of the flavor.
    pub open spec fn shown(&self) -> Seq<char> {
        match *self {
            ExecutionFlavor::Shell(shell) => shell@,
            ExecutionFlavor::Sudo => "sudo"@,
            ExecutionFlavor::Docker(image) => "docker "@ + image@,
            ExecutionFlavor::Error(message) => message@,
        }
    }

    /// What is shown of the flavor.
    pub fn to_string(&self) -> (s: String)
        ensures
            s@ == self.shown(),
    {
        match self {
            ExecutionFlavor::Shell(shell) => shell.clone(),
            ExecutionFlavor::Sudo => String::from_str("sudo"),
            ExecutionFlavor::Docker(image) => {
                let mut s = String::from_str("docker ");
                s.append(image.as_str());
                s
            },
            ExecutionFlavor::Error(message) => message.clone(),
        }
    }

    /// The name of the shell that the variable `SHELL` holds: what stands behind its
    /// last `/`; `unknown` where the variable is not set.
    pub open spec fn shell_name(variable: Option<Seq<char>>) -> Seq<char> {
        match variable {
            Some(path) => after_last(path, '/'),
            None => "unknown"@,
        }
    }

    /// The name of the shell that the variable `SHELL` holds.
    pub fn get_shell_name(variable: Option<&str>) -> (r: String)
        ensures
            r@ == Self::shell_name(
                match variable {
                    Some(path) => Some(path@),
                    None => None,
                },
            ),
    {
        match variable {
            Some(path) => {
                let chars = chars_of(path);
                assert(chars@.take(chars@.len() as int) == chars@);
                let from = match find_last(&chars, chars.len(), '/') {
                    Some(i) => i + 1,
                    None => 0,
                };
                proof {
                    crate::text::lemma_last_index_of(chars@, '/');
                    assert(chars@.subrange(from as int, chars@.len() as int) == chars@.skip(
                        from as int,
                    ));
                }
                string_of_range(&chars, from, chars.len())
            },
            None => String::from_str("unknown"),
        }
    }

    /// Whether `flavor` says how `function` is run, given that its command line asks for
    /// `sudo` or not and that its application is found or not: in a container of its
    /// image where it has a container and that is forced, or the command asks for `sudo`,
    /// or the application is not found; else with `sudo` where the command asks for it;
    /// else not at all where the application is not found; else by the shell `shell`.
    pub open spec fn is_flavor_of(
        function: Function,
        sudo: bool,
        app_in_path: bool,
        shell: Seq<char>,
        flavor: ExecutionFlavor,
    ) -> bool {
        match function.container {
            Some(container) if container.force || sudo || !app_in_path => {
                flavor matches ExecutionFlavor::Docker(image) && image@
                    == container.source.image_name()
            },
            _ => if sudo {
                flavor == ExecutionFlavor::Sudo
            } else if !app_in_path {
                flavor matches ExecutionFlavor::Error(message) && message@ == "app not in $PATH"@
            } else {
                flavor matches ExecutionFlavor::Shell(name) && name@ == shell
            },
        }
    }

    /// How `function` is run once its command line is known to ask for `sudo` or not
    /// and its application to be found or not. `shell` is the shell of this machine.
    pub fn for_command(function: &Function, sudo: bool, app_in_path: bool, shell: String) -> (r:
        ExecutionFlavor)
        ensures
            Self::is_flavor_of(*function, sudo, app_in_path, shell@, r),
    {
        match &function.container {
            Some(container) => {
                if container.force || sudo || !app_in_path {
                    return ExecutionFlavor::docker(copy_str(container.source.image()));
                }
            },
            None => {},
        }
        if sudo {
            ExecutionFlavor::sudo()
        } else if !app_in_path {
            ExecutionFlavor::error(String::from_str("app not in $PATH"))
        } else {
            ExecutionFlavor::shell(shell)
        }
    }

    /// How `function` is run on this machine, whose operating system is `os` and whose
    /// variable `SHELL` holds `shell_variable`. A function whose container is forced
    /// runs in it, whatever its command line. For any other the application and the
    /// shell are looked up on this machine; it fails where the function has no command
    /// line for `os` or one that names no application.
    pub fn for_function(function: &Function, os: &str, shell_variable: Option<&str>) -> (r: Result<
        ExecutionFlavor,
        Failure,
    >)
        ensures
            match r {
                Ok(flavor) => if function.forces_container() {
                    Self::is_flavor_of(*function, false, true, Seq::empty(), flavor)
                } else {
                    &&& function.execution.command_line(os@) matches Ok(argv)
                    &&& parse_argv(argv) matches Ok(parsed)
                    &&& exists|app_in_path: bool, shell: Seq<char>|
                        Self::is_flavor_of(*function, parsed.sudo, app_in_path, shell, flavor)
                },
                Err(e) => !function.forces_container() && match function.execution.command_line(
                    os@,
                ) {
                    Err(unsupported) => e@ == unsupported,
                    Ok(argv) => parse_argv(argv) == Err::<Argv, FailureView>(e@),
                },
            },
    {
        match &function.container {
            Some(container) => {
                if container.force {
                    return Ok(ExecutionFlavor::docker(copy_str(container.source.image())));
                }
            },
            None => {},
        }
        let raw_parts = match function.execution.get_command_line(os) {
            Ok(raw_parts) => raw_parts,
            Err(e) => {
                return Err(e);
            },
        };
        let cmdline = match CommandLine::from_vec(&raw_parts) {
            Ok(cmdline) => cmdline,
            Err(e) => {
                return Err(e);
            },
        };
        let shell_name = Self::get_shell_name(shell_variable);
        let shell = match crate::runtime::cmd::find_executable(shell_name.as_str()) {
            Ok(path) => path,
            Err(_) => shell_name,
        };
        let flavor = Self::for_command(function, cmdline.sudo, cmdline.app_in_path, shell);
        Ok(flavor)
    }
}

/// How a function says what it runs.
#[derive(Debug)]
pub enum ExecutionContext {
    /// One command line for every operating system.
    CommandLine(Vec<String>),
    /// A command line for each operating system, by its name.
    PlatformSpecific(StrMap<Vec<String>>),
}

impl ExecutionContext {
    /// The command line for the operating system `os`.
    pub open spec fn command_line(&self, os: Seq<char>) -> Result<Seq<Seq<char>>, FailureView> {
        match *self {
            ExecutionContext::CommandLine(argv) => Ok(texts(argv@)),
            ExecutionContext::PlatformSpecific(platforms) => match platforms.lookup(os) {
                Some(argv) => Ok(texts(argv@)),
                None => Err(FailureView::PlatformUnsupported { os }),
            },
        }
    }

    /// The command line for the operating system `os`, by the name that Rust gives it.
    pub fn get_command_line(&self, os: &str) -> (r: Result<Vec<String>, Failure>)
        ensures
            match r {
                Ok(argv) => self.command_line(os@) == Ok::<Seq<Seq<char>>, FailureView>(
                    texts(argv@),
                ),
                Err(e) => self.command_line(os@) == Err::<Seq<Seq<char>>, FailureView>(e@),
            },
    {
        match self {
            ExecutionContext::CommandLine(argv) => Ok(copy_strings(argv)),
            ExecutionContext::PlatformSpecific(platforms) => match platforms.get(os) {
                Some(argv) => Ok(copy_strings(argv)),
                None => Err(Failure::PlatformUnsupported { os: copy_str(os) }),
            },
        }
    }
}

/// The tokens of `argv` from position `k` on, each with its placeholders replaced; the
/// first token that fails makes the whole fail.
pub open spec fn resolved_tokens(
    argv: Seq<Seq<char>>,
    k: int,
    arguments: Map<Seq<char>, Seq<char>>,
    environment: Map<Seq<char>, Seq<char>>,
) -> Result<Seq<Seq<char>>, FailureView>
    decreases argv.len() - k,
{
    if !(0 <= k < argv.len()) {
        Ok(Seq::empty())
    } else {
        match rendered(argv[k], 0, arguments, environment) {
            Err(e) => Err(e),
            Ok(token) => match resolved_tokens(argv, k + 1, arguments, environment) {
                Err(e) => Err(e),
                Ok(rest) => Ok(seq![token] + rest),
            },
        }
    }
}

/// `overlay` with the environment variables that the placeholders of the tokens of
/// `argv` from position `k` on name and that are set.
pub open spec fn captured(
    argv: Seq<Seq<char>>,
    k: int,
    environment: Map<Seq<char>, Seq<char>>,
    overlay: Map<Seq<char>, Seq<char>>,
) -> Map<Seq<char>, Seq<char>>
    decreases argv.len() - k,
{
    if !(0 <= k < argv.len()) {
        overlay
    } else {
        captured(argv, k + 1, environment, recorded(argv[k], 0, environment, overlay))
    }
}

/// A command line with its placeholders replaced, and what they took from the
/// environment.
pub struct Resolved {
    pub tokens: Vec<String>,
    pub env: StrMap<String>,
}

/// Replaces the placeholders in each token of `argv` by the arguments and by the
/// variables of the environment.
pub fn resolve_tokens(
    argv: &Vec<String>,
    arguments: &StrMap<String>,
    environment: &StrMap<String>,
) -> (r: Result<Resolved, Failure>)
    ensures
        match r {
            Ok(done) => {
                &&& resolved_tokens(texts(argv@), 0, text_map(*arguments), text_map(*environment))
                    == Ok::<Seq<Seq<char>>, FailureView>(texts(done.tokens@))
                &&& text_map(done.env) == captured(
                    texts(argv@),
                    0,
                    text_map(*environment),
                    Map::empty(),
                )
            },
            Err(e) => resolved_tokens(texts(argv@), 0, text_map(*arguments), text_map(*environment))
                == Err::<Seq<Seq<char>>, FailureView>(e@),
        },
{
    let ghost args = text_map(*arguments);
    let ghost vars = text_map(*environment);
    let ghost all = texts(argv@);
    let mut tokens: Vec<String> = Vec::new();
    let mut env: StrMap<String> = StrMap::new();
    assert(text_map(env) =~= Map::empty());
    let mut k: usize = 0;
    while k < argv.len()
        invariant
            k <= argv.len(),
            all == texts(argv@),
            args == text_map(*arguments),
            vars == text_map(*environment),
            resolved_tokens(all, 0, args, vars) == match resolved_tokens(all, k as int, args, vars) {
                Ok(rest) => Ok::<Seq<Seq<char>>, FailureView>(texts(tokens@) + rest),
                Err(e) => Err(e),
            },
            captured(all, 0, vars, Map::empty()) == captured(all, k as int, vars, text_map(env)),
        decreases argv.len() - k,
    {
        match render(argv[k].as_str(), arguments, environment, &mut env) {
            Err(e) => {
                return Err(e);
            },
            Ok(token) => {
                proof {
                    if let Ok(rest) = resolved_tokens(all, k + 1, args, vars) {
                        assert(texts(tokens@.push(token)) + rest =~= texts(tokens@) + (seq![token@]
                            + rest));
                    }
                }
                tokens.push(token);
                k += 1;
            },
        }
    }
    assert(texts(tokens@) + Seq::<Seq<char>>::empty() =~= texts(tokens@));
    Ok(Resolved { tokens, env })
}

/// A function of the catalog, with the page that holds it and the path of that page.
#[derive(Debug)]
pub struct FunctionRef<'a> {
    pub name: String,
    pub path: &'a str,
    pub page: &'a Page,
    pub function: &'a Function,
}

impl Function {
    /// Whether the function has a container and asks to run in it in any case.
    pub open spec fn forces_container(&self) -> bool {
        self.container matches Some(container) && container.force
    }

    /// Whether the parameter at position `i` is required and `provided` has no argument
    /// for it.
    pub open spec fn lacks(&self, provided: StrMap<String>, i: int) -> bool {
        self.parameters.values()[i].required && !provided.has(self.parameters.keys()[i])
    }

    /// The first parameter from position `from` on that is required and not provided.
    pub open spec fn first_lacking(&self, provided: StrMap<String>, from: int) -> Option<int>
        decreases self.parameters.keys().len() - from,
    {
        if !(0 <= from < self.parameters.keys().len()) {
            None
        } else if self.lacks(provided, from) {
            Some(from)
        } else {
            self.first_lacking(provided, from + 1)
        }
    }

    /// The first argument of `provided` from position `from` on that names no parameter.
    pub open spec fn first_unknown(&self, provided: StrMap<String>, from: int) -> Option<int>
        decreases provided.keys().len() - from,
    {
        if !(0 <= from < provided.keys().len()) {
            None
        } else if !self.parameters.has(provided.keys()[from]) {
            Some(from)
        } else {
            self.first_unknown(provided, from + 1)
        }
    }

    /// Whether `provided` fits the parameters: every required parameter has an
    /// argument, and every argument names a parameter. Of several faults the one that
    /// is reported is a missing argument before an unknown one, and the first by name.
    pub open spec fn validation(&self, name: Seq<char>, provided: StrMap<String>) -> Result<
        (),
        FailureView,
    > {
        match self.first_lacking(provided, 0) {
            Some(i) => Err(
                FailureView::MissingArgument { name: self.parameters.keys()[i], function: name },
            ),
            None => match self.first_unknown(provided, 0) {
                Some(i) => Err(
                    FailureView::UnknownArgument { name: provided.keys()[i], function: name },
                ),
                None => Ok(()),
            },
        }
    }

    /// Whether `c` is the command line of a call with `arguments`: what `prepared`
    /// gives, with the application as it was found on this machine, or as it is named
    /// where it was not found.
    pub open spec fn resolves_to(
        &self,
        arguments: Map<Seq<char>, Seq<char>>,
        environment: Map<Seq<char>, Seq<char>>,
        os: Seq<char>,
        c: CommandLine,
    ) -> bool {
        &&& self.prepared(arguments, environment, os) matches Ok((parsed, overlay))
        &&& c.sudo == parsed.sudo
        &&& texts(c.args@) == parsed.args
        &&& text_map(c.env) == overlay
        &&& !c.app_in_path ==> c.app@ == parsed.app
    }

    /// The command line for `os` with its placeholders replaced and taken apart, and
    /// the environment overlay that goes with it.
    pub open spec fn prepared(
        &self,
        arguments: Map<Seq<char>, Seq<char>>,
        environment: Map<Seq<char>, Seq<char>>,
        os: Seq<char>,
    ) -> Result<(Argv, Map<Seq<char>, Seq<char>>), FailureView> {
        match self.execution.command_line(os) {
            Err(e) => Err(e),
            Ok(argv) => match resolved_tokens(argv, 0, arguments, environment) {
                Err(e) => Err(e),
                Ok(tokens) => match parse_argv(tokens) {
                    Err(e) => Err(e),
                    Ok(parsed) => Ok((parsed, captured(argv, 0, environment, Map::empty()))),
                },
            },
        }
    }
}

impl<'a> FunctionRef<'a> {
    /// Checks the arguments of a call against the parameters of the function.
    pub fn validate_arguments(&self, provided_arguments: &StrMap<String>) -> (r: Result<
        (),
        Failure,
    >)
        ensures
            match r {
                Ok(()) => self.function.validation(self.name@, *provided_arguments) is Ok,
                Err(e) => self.function.validation(self.name@, *provided_arguments) == Err::<
                    (),
                    FailureView,
                >(e@),
            },
    {
        let parameters = &self.function.parameters;
        let mut i: usize = 0;
        while i < parameters.len()
            invariant
                i <= parameters.keys().len(),
                parameters == &self.function.parameters,
                self.function.first_lacking(*provided_arguments, 0) == self.function.first_lacking(
                    *provided_arguments,
                    i as int,
                ),
            decreases parameters.keys().len() - i,
        {
            let name = parameters.key_at(i);
            if parameters.value_at(i).required && !provided_arguments.contains_key(name) {
                return Err(
                    Failure::MissingArgument {
                        name: copy_str(name),
                        function: self.name.clone(),
                    },
                );
            }
            i += 1;
        }
        let mut j: usize = 0;
        while j < provided_arguments.len()
            invariant
                j <= provided_arguments.keys().len(),
                parameters == &self.function.parameters,
                self.function.first_lacking(*provided_arguments, 0) is None,
                self.function.first_unknown(*provided_arguments, 0) == self.function.first_unknown(
                    *provided_arguments,
                    j as int,
                ),
            decreases provided_arguments.keys().len() - j,
        {
            let name = provided_arguments.key_at(j);
            if !parameters.contains_key(name) {
                return Err(
                    Failure::UnknownArgument {
                        name: copy_str(name),
                        function: self.name.clone(),
                    },
                );
            }
            j += 1;
        }
        Ok(())
    }

    /// The command line of a call: the function's command line for `os`, with each
    /// placeholder replaced by its argument or by its variable of `environment`, taken
    /// apart, and with the application looked up on this machine.
    pub fn resolve_command_line(
        &self,
        arguments: &StrMap<String>,
        environment: &StrMap<String>,
        os: &str,
    ) -> (r: Result<CommandLine, Failure>)
        ensures
            match r {
                Ok(c) => self.function.resolves_to(
                    text_map(*arguments),
                    text_map(*environment),
                    os@,
                    c,
                ),
                Err(e) => self.function.prepared(text_map(*arguments), text_map(*environment), os@)
                    == Err::<(Argv, Map<Seq<char>, Seq<char>>), FailureView>(e@),
            },
    {
        let argv = match self.function.execution.get_command_line(os) {
            Ok(argv) => argv,
            Err(e) => {
                return Err(e);
            },
        };
        let resolved = match resolve_tokens(&argv, arguments, environment) {
            Ok(resolved) => resolved,
            Err(e) => {
                return Err(e);
            },
        };
        CommandLine::from_vec_with_env(&resolved.tokens, resolved.env)
    }
}

/// A command line that resolves has as many tokens as before, and each is its token
/// with the placeholders replaced.
pub proof fn law_each_token_is_rendered(
    argv: Seq<Seq<char>>,
    k: int,
    arguments: Map<Seq<char>, Seq<char>>,
    environment: Map<Seq<char>, Seq<char>>,
)
    requires
        0 <= k <= argv.len(),
        resolved_tokens(argv, k, arguments, environment) is Ok,
    ensures
        resolved_tokens(argv, k, arguments, environment)->Ok_0.len() == argv.len() - k,
        forall|j: int|
            0 <= j < argv.len() - k ==> rendered(argv[k + j], 0, arguments, environment) == Ok::<
                Seq<char>,
                FailureView,
            >(#[trigger] resolved_tokens(argv, k, arguments, environment)->Ok_0[j]),
    decreases argv.len() - k,
{
    if k < argv.len() {
        law_each_token_is_rendered(argv, k + 1, arguments, environment);
        let tokens = resolved_tokens(argv, k, arguments, environment)->Ok_0;
        let rest = resolved_tokens(argv, k + 1, arguments, environment)->Ok_0;
        assert forall|j: int| 0 <= j < argv.len() - k implies rendered(
            argv[k + j],
            0,
            arguments,
            environment,
        ) == Ok::<Seq<char>, FailureView>(#[trigger] tokens[j]) by {
            if j > 0 {
                assert(tokens[j] == rest[j - 1]);
            }
        }
    }
}

/// The overlay of a command line holds nothing but variables of the environment, each
/// with the value that it has there.
pub proof fn law_overlay_is_part_of_environment(
    argv: Seq<Seq<char>>,
    k: int,
    environment: Map<Seq<char>, Seq<char>>,
    overlay: Map<Seq<char>, Seq<char>>,
)
    ensures
        gains_from(overlay, captured(argv, k, environment, overlay), environment),
    decreases argv.len() - k,
{
    if 0 <= k < argv.len() {
        let next = recorded(argv[k], 0, environment, overlay);
        law_overlay_from_environment(argv[k], 0, environment, overlay);
        law_overlay_is_part_of_environment(argv, k + 1, environment, next);
        let after = captured(argv, k + 1, environment, next);
        assert(after == captured(argv, k, environment, overlay));
        assert forall|name: Seq<char>| overlay.contains_key(name) implies #[trigger] after.contains_key(
            name,
        ) by {
            assert(next.contains_key(name));
        }
        assert forall|name: Seq<char>| #[trigger] after.contains_key(name) implies ({
            ||| environment.contains_key(name) && after[name] == environment[name]
            ||| overlay.contains_key(name) && after[name] == overlay[name]
        }) by {
            if !(environment.contains_key(name) && after[name] == environment[name]) {
                assert(next.contains_key(name) && after[name] == next[name]);
            }
        }
    }
}

} // verus!
