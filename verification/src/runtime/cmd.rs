use crate::failure::{Failure, FailureView};
use crate::strmap::{text_map, StrMap};
use crate::text::{
    copy_strings_from, decimal, decimal_string, join, joined, opt_text, replace_all, replaced, str_eq,
    texts,
};
use vstd::string::StringExecFns;
use vstd::prelude::*;

verus! {

/// The failure that `which::which` reports.
#[verifier::external_type_specification]
#[verifier::external_body]
pub struct ExWhichError(which::Error);

/// `which::which` looks for an executable file: at the path, if `name` is one, else
/// under `name` in each directory of `PATH`. What it finds depends on the environment
/// and on what is on disk, so nothing is claimed of the result.
#[verifier::external_body]
pub(crate) fn find_executable(name: &str) -> (found: Result<String, which::Error>) {
    match which::which(name) {
        Ok(path) => Ok(path.to_string_lossy().to_string()),
        Err(e) => Err(e),
    }
}

/// A command line after its arguments were resolved: what is run, and how.
#[derive(Debug)]
pub struct CommandLine {
    /// Whether the command asks for `sudo`.
    pub sudo: bool,
    /// The application: its absolute path where it was found, else its name as given.
    pub app: String,
    /// Whether the application was found on this machine.
    pub app_in_path: bool,
    /// The arguments of the application.
    pub args: Vec<String>,
    /// The environment overlay: the variables that the placeholders took from the
    /// environment.
    pub env: StrMap<String>,
}

/// A command line taken apart.
pub struct Argv {
    pub sudo: bool,
    pub app: Seq<char>,
    pub args: Seq<Seq<char>>,
}

/// Takes a command line apart: a leading `sudo` sets the flag, the next token is the
/// application, the others are its arguments. It fails where there is no token, and
/// where no token or an empty one stands in the application's place.
pub open spec fn parse_argv(argv: Seq<Seq<char>>) -> Result<Argv, FailureView> {
    if argv.len() == 0 {
        Err(FailureView::EmptyArgv)
    } else {
        let sudo = argv[0] == "sudo"@;
        let rest = if sudo {
            argv.skip(1)
        } else {
            argv
        };
        if rest.len() == 0 || rest[0].len() == 0 {
            Err(FailureView::NoApplication)
        } else {
            Ok(Argv { sudo, app: rest[0], args: rest.skip(1) })
        }
    }
}

impl CommandLine {
    /// Whether the command line is what `parse_argv` makes of `argv`, with the
    /// application resolved to `found` and with the overlay `env`.
    pub open spec fn is_built_from(
        &self,
        argv: Seq<Seq<char>>,
        found: Option<Seq<char>>,
        env: Map<Seq<char>, Seq<char>>,
    ) -> bool {
        &&& parse_argv(argv) matches Ok(parsed)
        &&& self.sudo == parsed.sudo
        &&& texts(self.args@) == parsed.args
        &&& self.app_in_path == found.is_some()
        &&& self.app@ == match found {
            Some(path) => path,
            None => parsed.app,
        }
        &&& text_map(self.env) == env
    }

    /// The command line of `vec`, with the application resolved to `found`, which is
    /// what the search for it gave.
    pub fn from_lookup(vec: &Vec<String>, found: Option<String>, env: StrMap<String>) -> (r: Result<
        CommandLine,
        Failure,
    >)
        ensures
            match r {
                Ok(c) => c.is_built_from(texts(vec@), opt_text(found), text_map(env)) && c.env
                    == env,
                Err(e) => parse_argv(texts(vec@)) == Err::<Argv, FailureView>(e@),
            },
    {
        match Self::application_index(vec) {
            Err(e) => Err(e),
            Ok(at) => {
                let app_in_path = found.is_some();
                let app = match found {
                    Some(path) => path,
                    None => vec[at].clone(),
                };
                let args = copy_strings_from(vec, at + 1);
                assert(texts(vec@).skip(at as int).skip(1) =~= texts(vec@).skip(at + 1));
                assert(texts(vec@).skip(0) =~= texts(vec@));
                Ok(CommandLine { sudo: at == 1, app, app_in_path, args, env })
            },
        }
    }

    /// The position of the application in `vec`.
    fn application_index(vec: &Vec<String>) -> (r: Result<usize, Failure>)
        ensures
            match r {
                Ok(at) => {
                    &&& parse_argv(texts(vec@)) matches Ok(parsed)
                    &&& at < vec.len()
                    &&& at == (if parsed.sudo { 1int } else { 0 })
                    &&& parsed.app == vec@[at as int]@
                },
                Err(e) => parse_argv(texts(vec@)) == Err::<Argv, FailureView>(e@),
            },
    {
        if vec.len() == 0 {
            return Err(Failure::EmptyArgv);
        }
        let at: usize = if str_eq(vec[0].as_str(), "sudo") { 1 } else { 0 };
        if at >= vec.len() || vec[at].as_str().is_empty() {
            return Err(Failure::NoApplication);
        }
        Ok(at)
    }

    /// The command line of `vec`. The application is looked up on this machine: where
    /// it is found, `app` is its path and `app_in_path` is set.
    pub fn from_vec(vec: &Vec<String>) -> (r: Result<CommandLine, Failure>)
        ensures
            match r {
                Ok(c) => exists|found: Option<Seq<char>>|
                    c.is_built_from(texts(vec@), found, Map::empty()),
                Err(e) => parse_argv(texts(vec@)) == Err::<Argv, FailureView>(e@),
            },
    {
        let env = StrMap::new();
        assert(text_map(env) =~= Map::empty());
        Self::from_vec_with_env(vec, env)
    }

    /// The command line of `vec` with the environment overlay `env`.
    pub fn from_vec_with_env(vec: &Vec<String>, env: StrMap<String>) -> (r: Result<
        CommandLine,
        Failure,
    >)
        ensures
            match r {
                Ok(c) => c.env == env && exists|found: Option<Seq<char>>|
                    c.is_built_from(texts(vec@), found, text_map(env)),
                Err(e) => parse_argv(texts(vec@)) == Err::<Argv, FailureView>(e@),
            },
    {
        match Self::application_index(vec) {
            Err(e) => Err(e),
            Ok(at) => {
                let found = match find_executable(vec[at].as_str()) {
                    Ok(path) => Some(path),
                    Err(_) => None,
                };
                let ghost found_view = opt_text(found);
                let r = Self::from_lookup(vec, found, env);
                assert(r matches Ok(c) && c.is_built_from(texts(vec@), found_view, text_map(env)));
                r
            },
        }
    }
}

/// The placeholder that stands for the variable `key` in an argument: `${`, the name of
/// the variable and `}`.
pub open spec fn variable_pattern(key: Seq<char>) -> Seq<char> {
    "${"@ + key + "}"@
}

/// `arg` with the placeholders of the first `k` variables of `env`, one variable after
/// the other, replaced by their values.
pub open spec fn interpolated(arg: Seq<char>, env: StrMap<String>, k: int) -> Seq<char>
    decreases k,
{
    if k <= 0 || k > env.keys().len() {
        arg
    } else {
        replaced(
            interpolated(arg, env, k - 1),
            0,
            variable_pattern(env.keys()[k - 1]),
            env.values()[k - 1]@,
        )
    }
}

/// The lines of the first `k` variables of `env`: for each its name, `=`, its value and
/// a line feed.
pub open spec fn env_lines(env: StrMap<String>, k: int) -> Seq<char>
    decreases k,
{
    if k <= 0 || k > env.keys().len() {
        Seq::empty()
    } else {
        env_lines(env, k - 1) + env.keys()[k - 1] + "="@ + env.values()[k - 1]@ + "\n"@
    }
}

/// What a command has put out, as its caller sees it: the exit code if it is not zero,
/// the standard output and the standard error, the last marked as an error if the exit
/// code is not zero; each only if it is not empty.
pub open spec fn output_parts(exit_code: int, stdout: Seq<char>, stderr: Seq<char>) -> Seq<
    Seq<char>,
> {
    (if exit_code != 0 {
        seq!["EXIT CODE: "@ + decimal(exit_code)]
    } else {
        Seq::empty()
    }) + (if stdout.len() > 0 {
        seq![stdout]
    } else {
        Seq::empty()
    }) + (if stderr.len() == 0 {
        Seq::empty()
    } else if exit_code == 0 {
        seq![stderr]
    } else {
        seq!["ERROR: "@ + stderr]
    })
}

/// What a command has put out, as its caller sees it: the parts of `output_parts`, with
/// a line feed between them.
pub fn collect_output(exit_code: i64, stdout: &str, stderr: &str) -> (content: String)
    ensures
        content@ == joined(
            output_parts(exit_code as int, stdout@, stderr@),
            "\n"@,
            output_parts(exit_code as int, stdout@, stderr@).len() as int,
        ),
{
    let mut parts: Vec<String> = Vec::new();
    assert(texts(parts@) =~= Seq::<Seq<char>>::empty());
    if exit_code != 0 {
        let mut line = String::from_str("EXIT CODE: ");
        line.append(decimal_string(exit_code).as_str());
        parts.push(line);
        assert(texts(parts@) =~= seq!["EXIT CODE: "@ + decimal(exit_code as int)]);
    }
    let ghost first = texts(parts@);
    if !stdout.is_empty() {
        let part = String::from_str(stdout);
        parts.push(part);
        assert(texts(parts@) =~= first + seq![stdout@]);
    } else {
        assert(texts(parts@) =~= first + Seq::<Seq<char>>::empty());
    }
    let ghost second = texts(parts@);
    if !stderr.is_empty() {
        if exit_code == 0 {
            parts.push(String::from_str(stderr));
            assert(texts(parts@) =~= second + seq![stderr@]);
        } else {
            let mut line = String::from_str("ERROR: ");
            line.append(stderr);
            parts.push(line);
            assert(texts(parts@) =~= second + seq!["ERROR: "@ + stderr@]);
        }
    } else {
        assert(texts(parts@) =~= second + Seq::<Seq<char>>::empty());
    }
    join(&parts, "\n")
}

impl CommandLine {
    /// The command as one line: `sudo` where it is asked for, the application and the
    /// arguments, with a blank between them.
    pub open spec fn shown(&self) -> Seq<char> {
        let words = seq![self.app@] + texts(self.args@);
        (if self.sudo {
            "sudo "@
        } else {
            Seq::empty()
        }) + joined(words, " "@, words.len() as int)
    }

    /// The command as one line.
    pub fn to_string(&self) -> (s: String)
        ensures
            s@ == self.shown(),
    {
        let ghost words = seq![self.app@] + texts(self.args@);
        let mut command = String::new();
        if self.sudo {
            command.append("sudo ");
        }
        let ghost prefix = command@;
        command.append(self.app.as_str());
        let mut k: usize = 0;
        while k < self.args.len()
            invariant
                k <= self.args.len(),
                words == seq![self.app@] + texts(self.args@),
                command@ == prefix + joined(words, " "@, k + 1),
            decreases self.args.len() - k,
        {
            command.append(" ");
            command.append(self.args[k].as_str());
            proof {
                assert(words[k + 1] == self.args@[k as int]@);
                assert(command@ =~= prefix + (joined(words, " "@, k + 1) + " "@ + words[k + 1]));
            }
            k += 1;
        }
        command
    }

    /// The arguments with the placeholders of the overlay replaced: each `${NAME}` of a
    /// variable of the overlay gives way to its value; any other is left as it stands.
    pub fn get_env_interpolated_args(&self) -> (args: Vec<String>)
        ensures
            args@.len() == self.args@.len(),
            forall|i: int|
                0 <= i < args@.len() ==> (#[trigger] args@[i])@ == interpolated(
                    self.args@[i]@,
                    self.env,
                    self.env.keys().len() as int,
                ),
    {
        let mut args: Vec<String> = Vec::new();
        let n = self.env.len();
        let mut i: usize = 0;
        while i < self.args.len()
            invariant
                i <= self.args.len(),
                n == self.env.keys().len(),
                n == self.env.values().len(),
                args@.len() == i,
                forall|j: int|
                    0 <= j < i ==> (#[trigger] args@[j])@ == interpolated(
                        self.args@[j]@,
                        self.env,
                        n as int,
                    ),
            decreases self.args.len() - i,
        {
            let mut result = self.args[i].clone();
            let mut k: usize = 0;
            while k < n
                invariant
                    k <= n,
                    n == self.env.keys().len(),
                    n == self.env.values().len(),
                    i < self.args.len(),
                    result@ == interpolated(self.args@[i as int]@, self.env, k as int),
                decreases n - k,
            {
                let mut pattern = String::from_str("${");
                pattern.append(self.env.key_at(k));
                pattern.append("}");
                result = replace_all(
                    result.as_str(),
                    pattern.as_str(),
                    self.env.value_at(k).as_str(),
                );
                k += 1;
            }
            args.push(result);
            i += 1;
        }
        args
    }

    /// What the file of environment variables for a container holds: one line for each
    /// variable of the overlay; nothing where the overlay is empty.
    pub fn env_file_contents(&self) -> (r: Option<String>)
        ensures
            match r {
                Some(contents) => self.env.keys().len() > 0 && contents@ == env_lines(
                    self.env,
                    self.env.keys().len() as int,
                ),
                None => self.env.keys().len() == 0,
            },
    {
        let n = self.env.len();
        if n == 0 {
            return None;
        }
        let mut contents = String::new();
        let mut k: usize = 0;
        while k < n
            invariant
                k <= n,
                n == self.env.keys().len(),
                n == self.env.values().len(),
                contents@ == env_lines(self.env, k as int),
            decreases n - k,
        {
            contents.append(self.env.key_at(k));
            contents.append("=");
            contents.append(self.env.value_at(k).as_str());
            contents.append("\n");
            k += 1;
        }
        Some(contents)
    }
}

} // verus!
