use crate::failure::{Failure, FailureView};
use crate::runtime::cmd::find_executable;
use crate::runtime::{CommandLine, ContainerSource};
use crate::strmap::{lemma_rank_behind_all, StrMap};
use crate::text::{
    contains, contains_text, copy_str, lemma_take_next, lemma_texts_push, lex_lt, opt_text,
    push_strings, replace_all, replaced, texts,
};
use crate::strmap::text_map;
use paths::{
    lemma_without_empty, accepts, categories_of, file_stem, get_categories, get_file_stem, get_parent_dir, get_relative,
    is_candidate, parent_dir, relative_to,
};
use vstd::prelude::*;
use vstd::string::StringExecFns;

pub mod flavors;
pub mod paths;
pub mod placeholder;
pub mod runtime;
pub mod templates;

verus! {

/// A named, typed and described input of a function. Its name is its key in the
/// function's parameters.
#[derive(Debug)]
pub struct Parameter {
    /// The type, handed on to the tool schemas as it stands.
    pub param_type: String,
    pub description: String,
    /// Whether a call has to give the argument.
    pub required: bool,
    pub examples: Option<Vec<String>>,
}

/// Whether a parameter is required where the page does not say.
pub fn default_required() -> (r: bool)
    ensures
        r,
{
    true
}

/// The container in which a function runs.
#[derive(Debug)]
pub struct Container {
    pub source: ContainerSource,
    /// More arguments for the runtime.
    pub args: Option<Vec<String>>,
    /// Volume bindings.
    pub volumes: Option<Vec<String>>,
    /// Run in the container even where the host could run the command.
    pub force: bool,
    /// Hand the application's name to the container as its first argument.
    pub preserve_app: bool,
    pub platform: Option<String>,
}

/// Each text of `parts` with `prefix` before it.
pub open spec fn prefixed(prefix: Seq<char>, parts: Seq<Seq<char>>) -> Seq<Seq<char>> {
    parts.map_values(|part: Seq<char>| prefix + part)
}

/// The strings of `o`, if any, as sequences of characters; none where there is no list.
pub open spec fn listed(o: Option<Vec<String>>) -> Seq<Seq<char>> {
    match o {
        Some(list) => texts(list@),
        None => Seq::empty(),
    }
}

impl Container {
    /// The arguments with which the runtime runs a command in the container: `run` and
    /// `--rm`, the file of environment variables if there is one, each volume behind
    /// `-v`, the container's own arguments, the image, the application if it is kept,
    /// and the arguments of the command.
    pub open spec fn wrapped_args(
        &self,
        app: Seq<char>,
        args: Seq<Seq<char>>,
        env_file: Option<Seq<char>>,
    ) -> Seq<Seq<char>> {
        seq!["run"@, "--rm"@] + (match env_file {
            Some(path) => seq!["--env-file="@ + path],
            None => Seq::empty(),
        }) + prefixed("-v"@, listed(self.volumes)) + listed(self.args) + seq![
            self.source.image_name(),
        ] + (if self.preserve_app {
            seq![app]
        } else {
            Seq::empty()
        }) + args
    }

    /// Whether `wrapped` runs `cmdline` in the container: by the runtime at
    /// `runtime_path`, with the arguments of `wrapped_args`, where the file at
    /// `env_file` holds the environment overlay of `cmdline`.
    pub open spec fn wraps(
        &self,
        cmdline: CommandLine,
        runtime_path: Seq<char>,
        env_file: Option<Seq<char>>,
        wrapped: CommandLine,
    ) -> bool {
        &&& !wrapped.sudo
        &&& wrapped.app@ == runtime_path
        &&& wrapped.app_in_path
        &&& wrapped.env.keys().len() == 0
        &&& texts(wrapped.args@) == self.wrapped_args(
            cmdline.app@,
            texts(cmdline.args@),
            if cmdline.env.keys().len() > 0 {
                env_file
            } else {
                None
            },
        )
    }

    /// The command that runs `cmdline` in the container, by the runtime at
    /// `runtime_path`. Where `cmdline` has an environment overlay, `env_file` is the
    /// path of the file that holds its lines; without such a file it fails.
    pub fn wrap_with(&self, cmdline: CommandLine, runtime_path: String, env_file: Option<String>) -> (r:
        Result<CommandLine, Failure>)
        ensures
            match r {
                Ok(wrapped) => {
                    &&& cmdline.env.keys().len() > 0 ==> env_file is Some
                    &&& self.wraps(cmdline, runtime_path@, opt_text(env_file), wrapped)
                },
                Err(e) => cmdline.env.keys().len() > 0 && env_file is None && e@
                    == FailureView::EnvFileMissing,
            },
    {
        let ghost app = cmdline.app@;
        let ghost rest = texts(cmdline.args@);
        let mut args: Vec<String> = Vec::new();
        args.push(String::from_str("run"));
        args.push(String::from_str("--rm"));
        assert(texts(args@) =~= seq!["run"@, "--rm"@]);
        let ghost used = if cmdline.env.keys().len() > 0 {
            opt_text(env_file)
        } else {
            None
        };
        if !cmdline.env.is_empty() {
            match env_file {
                Some(path) => {
                    let mut arg = String::from_str("--env-file=");
                    arg.append(path.as_str());
                    args.push(arg);
                    assert(texts(args@) =~= seq!["run"@, "--rm"@] + seq!["--env-file="@ + path@]);
                },
                None => {
                    return Err(Failure::EnvFileMissing);
                },
            }
        } else {
            assert(texts(args@) =~= seq!["run"@, "--rm"@] + Seq::<Seq<char>>::empty());
        }
        let ghost head = texts(args@);
        match &self.volumes {
            Some(volumes) => {
                let mut k: usize = 0;
                assert(head + prefixed("-v"@, texts(volumes@)).take(0) =~= head);
                while k < volumes.len()
                    invariant
                        k <= volumes.len(),
                        texts(args@) == head + prefixed("-v"@, texts(volumes@)).take(k as int),
                    decreases volumes.len() - k,
                {
                    let mut arg = String::from_str("-v");
                    arg.append(volumes[k].as_str());
                    proof {
                        let all = prefixed("-v"@, texts(volumes@));
                        assert(all[k as int] == "-v"@ + volumes@[k as int]@);
                        lemma_texts_push(args@, arg);
                        lemma_take_next(head, all, k as int);
                    }
                    args.push(arg);
                    k += 1;
                }
                assert(prefixed("-v"@, texts(volumes@)).take(volumes@.len() as int) =~= prefixed(
                    "-v"@,
                    texts(volumes@),
                ));
            },
            None => {
                assert(texts(args@) =~= head + prefixed("-v"@, Seq::<Seq<char>>::empty()));
            },
        }
        let ghost with_volumes = texts(args@);
        match &self.args {
            Some(more) => {
                push_strings(&mut args, more);
            },
            None => {
                assert(texts(args@) =~= with_volumes + Seq::<Seq<char>>::empty());
            },
        }
        let ghost with_args = texts(args@);
        let image = copy_str(self.source.image());
        assert(texts(args@.push(image)) =~= with_args + seq![self.source.image_name()]);
        args.push(image);
        let ghost with_image = texts(args@);
        if self.preserve_app {
            let kept = cmdline.app.clone();
            assert(texts(args@.push(kept)) =~= with_image + seq![app]);
            args.push(kept);
        } else {
            assert(texts(args@) =~= with_image + Seq::<Seq<char>>::empty());
        }
        let ghost with_app = texts(args@);
        push_strings(&mut args, &cmdline.args);
        Ok(
            CommandLine {
                sudo: false,
                app: runtime_path,
                app_in_path: true,
                args,
                env: StrMap::new(),
            },
        )
    }

    /// The command that makes the image of the container ready, for `sh`.
    pub fn resolve(&self, runtime: &str) -> (argv: Vec<String>)
        ensures
            texts(argv@) == seq![
                "sh"@,
                "-c"@,
                self.source.resolve_line(runtime@, opt_text(self.platform)),
            ],
    {
        self.source.resolve(runtime, self.platform.clone())
    }

    /// The command that runs `cmdline` in the container, by the runtime `runtime`, which
    /// is looked up on this machine: it fails where the runtime is not found, and else
    /// as `wrap_with` does.
    pub fn wrap(&self, cmdline: CommandLine, runtime: &str, env_file: Option<String>) -> (r: Result<
        CommandLine,
        Failure,
    >)
        ensures
            match r {
                Ok(wrapped) => {
                    &&& cmdline.env.keys().len() > 0 ==> env_file is Some
                    &&& exists|runtime_path: Seq<char>|
                        self.wraps(cmdline, runtime_path, opt_text(env_file), wrapped)
                },
                Err(e) => e@ == (FailureView::RuntimeNotFound { runtime: runtime@ }) || (
                cmdline.env.keys().len() > 0 && env_file is None && e@
                    == FailureView::EnvFileMissing),
            },
    {
        match find_executable(runtime) {
            Ok(runtime_path) => {
                let ghost path = runtime_path@;
                let r = self.wrap_with(cmdline, runtime_path, env_file);
                assert(r matches Ok(wrapped) ==> self.wraps(
                    cmdline,
                    path,
                    opt_text(env_file),
                    wrapped,
                ));
                r
            },
            Err(_) => Err(Failure::RuntimeNotFound { runtime: copy_str(runtime) }),
        }
    }
}

/// Whether a flag is not set.
pub fn is_false(b: &bool) -> (r: bool)
    ensures
        r == !*b,
{
    !(*b)
}

/// Whether a container is forced where the page does not say.
pub fn default_force() -> (r: bool)
    ensures
        !r,
{
    false
}

/// Whether the application's name is kept where the page does not say.
pub fn default_preserve_app() -> (r: bool)
    ensures
        !r,
{
    false
}

/// A named command template with its parameters.
#[derive(Debug)]
pub struct Function {
    pub description: String,
    pub parameters: StrMap<Parameter>,
    pub container: Option<Container>,
    pub execution: runtime::ExecutionContext,
}

/// A group of functions, as one file describes it.
#[derive(Debug)]
pub struct Page {
    pub name: String,
    pub description: Option<String>,
    pub functions: StrMap<Function>,
    /// The segments of the path under which the page is filed.
    pub categories: Vec<String>,
}

/// The name that a page gives to a function whose own name is taken: the page's name,
/// `_` and the function's name.
pub open spec fn page_scoped(page_name: Seq<char>, name: Seq<char>) -> Seq<char> {
    page_name + "_"@ + name
}

/// The name under which a function enters a catalog that holds the names `seen`: its
/// own where that is free, else the one that its page gives it where that is free.
pub open spec fn entered_name(seen: Set<Seq<char>>, page_name: Seq<char>, name: Seq<char>) -> Option<
    Seq<char>,
> {
    if !seen.contains(name) {
        Some(name)
    } else if !seen.contains(page_scoped(page_name, name)) {
        Some(page_scoped(page_name, name))
    } else {
        None
    }
}

/// The names under which the functions `names`, from position `k` on and one after the
/// other, enter a catalog that holds the names `seen`; or the first name that cannot
/// enter.
pub open spec fn entered_names(
    names: Seq<Seq<char>>,
    k: int,
    page_name: Seq<char>,
    seen: Set<Seq<char>>,
) -> Result<Seq<Seq<char>>, Seq<char>>
    decreases names.len() - k,
{
    if !(0 <= k < names.len()) {
        Ok(Seq::empty())
    } else {
        match entered_name(seen, page_name, names[k]) {
            None => Err(names[k]),
            Some(name) => match entered_names(names, k + 1, page_name, seen.insert(name)) {
                Err(e) => Err(e),
                Ok(rest) => Ok(seq![name] + rest),
            },
        }
    }
}

/// The names that enter are as many as the functions, new to the catalog, and no two
/// of them are the same.
pub proof fn lemma_entered_names(
    names: Seq<Seq<char>>,
    k: int,
    page_name: Seq<char>,
    seen: Set<Seq<char>>,
)
    requires
        0 <= k <= names.len(),
    ensures
        entered_names(names, k, page_name, seen) matches Ok(entered) ==> {
            &&& entered.len() == names.len() - k
            &&& forall|a: int| 0 <= a < entered.len() ==> !seen.contains(#[trigger] entered[a])
            &&& forall|a: int, b: int|
                0 <= a < b < entered.len() ==> #[trigger] entered[a] != #[trigger] entered[b]
            &&& forall|a: int|
                0 <= a < entered.len() ==> #[trigger] entered[a] == names[k + a] || entered[a]
                    == page_scoped(page_name, names[k + a])
        },
    decreases names.len() - k,
{
    if k < names.len() {
        if let Some(name) = entered_name(seen, page_name, names[k]) {
            lemma_entered_names(names, k + 1, page_name, seen.insert(name));
            if let Ok(rest) = entered_names(names, k + 1, page_name, seen.insert(name)) {
                let entered = seq![name] + rest;
                assert forall|a: int| 0 <= a < entered.len() implies !seen.contains(
                    #[trigger] entered[a],
                ) by {
                    if a > 0 {
                        assert(entered[a] == rest[a - 1]);
                    }
                }
                assert forall|a: int, b: int| 0 <= a < b < entered.len() implies #[trigger] entered[a]
                    != #[trigger] entered[b] by {
                    assert(entered[b] == rest[b - 1]);
                    if a > 0 {
                        assert(entered[a] == rest[a - 1]);
                    }
                }
                assert forall|a: int| 0 <= a < entered.len() implies #[trigger] entered[a]
                    == names[k + a] || entered[a] == page_scoped(page_name, names[k + a]) by {
                    if a > 0 {
                        assert(entered[a] == rest[a - 1]);
                    }
                }
            }
        }
    }
}

/// Whether `renamed` holds the functions of `original`, each under the name of the same
/// position in `entered`.
pub open spec fn is_renaming(
    original: StrMap<Function>,
    entered: Seq<Seq<char>>,
    renamed: StrMap<Function>,
) -> bool {
    &&& renamed.wf()
    &&& renamed.keys().len() == entered.len()
    &&& renamed.map().dom() == entered.to_set()
    &&& forall|a: int|
        0 <= a < entered.len() ==> renamed.map()[#[trigger] entered[a]] == original.values()[a]
}

/// Lets the functions of a page enter the catalog, whose names so far are `seen`: each
/// under the name that `entered_names` gives it. The page is the one at `path`.
pub fn enter_functions(
    functions: StrMap<Function>,
    page_name: &str,
    path: &str,
    seen: &mut StrMap<()>,
) -> (r: Result<StrMap<Function>, Failure>)
    ensures
        match entered_names(functions.keys(), 0, page_name@, old(seen).map().dom()) {
            Err(name) => r matches Err(e) && e@ == (FailureView::DuplicateFunction {
                name,
                path: path@,
            }),
            Ok(entered) => {
                &&& r matches Ok(renamed)
                &&& is_renaming(functions, entered, renamed)
                &&& final(seen).map().dom() == old(seen).map().dom().union(entered.to_set())
            },
        },
{
    let ghost names = functions.keys();
    let ghost values = functions.values();
    let ghost seen0 = seen.map().dom();
    let mut entries = functions.into_entries();
    let mut renamed: StrMap<Function> = StrMap::new();
    let ghost mut done: Seq<Seq<char>> = Seq::empty();
    let ghost mut k: int = 0;
    let ghost all = entries@;
    assert(seen0.union(done.to_set()) =~= seen0);
    assert(renamed.map().dom() =~= done.to_set());
    while entries.len() > 0
        invariant
            names == functions.keys(),
            values == functions.values(),
            seen0 == old(seen).map().dom(),
            0 <= k <= all.len(),
            all.len() == names.len(),
            all.len() == values.len(),
            forall|i: int|
                0 <= i < all.len() ==> (#[trigger] all[i]).0@ == names[i] && all[i].1 == values[i],
            entries@ == all.skip(k),
            done.len() == k,
            entered_names(names, 0, page_name@, seen0) == match entered_names(
                names,
                k,
                page_name@,
                seen.map().dom(),
            ) {
                Ok(rest) => Ok::<Seq<Seq<char>>, Seq<char>>(done + rest),
                Err(e) => Err(e),
            },
            seen.map().dom() == seen0.union(done.to_set()),
            renamed.wf(),
            renamed.keys().len() == k,
            renamed.map().dom() == done.to_set(),
            forall|a: int| 0 <= a < k ==> renamed.map()[#[trigger] done[a]] == values[a],
        decreases entries.len(),
    {
        let (name, function) = entries.remove(0);
        assert(name@ == names[k] && function == values[k]) by {
            assert(all.skip(k)[0] == all[k]);
        }
        let entered: String = if !seen.contains_key(name.as_str()) {
            name
        } else {
            let mut scoped = copy_str(page_name);
            scoped.append("_");
            scoped.append(name.as_str());
            if seen.contains_key(scoped.as_str()) {
                return Err(Failure::DuplicateFunction { name, path: copy_str(path) });
            }
            scoped
        };
        assert(entered_name(seen.map().dom(), page_name@, names[k]) == Some(entered@));
        proof {
            let before = seen.map().dom();
            assert(!before.contains(entered@));
            assert(!done.to_set().contains(entered@));
            assert(!renamed.has(entered@));
            if let Ok(rest) = entered_names(names, k + 1, page_name@, before.insert(entered@)) {
                assert(done.push(entered@) + rest =~= done + (seq![entered@] + rest));
            }
            assert(done.push(entered@).to_set() =~= done.to_set().insert(entered@)) by {
                let pushed = done.push(entered@);
                assert forall|x: Seq<char>| pushed.to_set().contains(x) implies done.to_set().insert(
                    entered@,
                ).contains(x) by {
                    let i = pushed.index_of(x);
                    if i < done.len() {
                        assert(done[i] == x);
                    }
                }
                assert forall|x: Seq<char>| done.to_set().insert(entered@).contains(
                    x,
                ) implies pushed.to_set().contains(x) by {
                    if x == entered@ {
                        assert(pushed[done.len() as int] == x);
                    } else {
                        let i = done.index_of(x);
                        assert(pushed[i] == x);
                    }
                }
            }
            assert(seen0.union(done.push(entered@).to_set()) =~= before.insert(entered@));
            assert forall|a: int| 0 <= a < k implies done[a] != entered@ by {
                assert(done.to_set().contains(done[a]));
            }
        }
        seen.insert(entered.clone(), ());
        renamed.insert(entered, function);
        proof {
            assert(all.skip(k).remove(0) =~= all.skip(k + 1));
            done = done.push(entered@);
            k = k + 1;
        }
    }
    proof {
        assert(done + Seq::<Seq<char>>::empty() =~= done);
    }
    Ok(renamed)
}

/// The paths of `found` from position `k` on that are taken for pages of the catalog at
/// `root`.
pub open spec fn candidates(
    root: Seq<char>,
    found: Seq<Seq<char>>,
    filter: Option<Seq<char>>,
    k: int,
) -> Seq<Seq<char>>
    decreases found.len() - k,
{
    if !(0 <= k < found.len()) {
        Seq::empty()
    } else if is_candidate(root, found[k], filter) {
        seq![found[k]] + candidates(root, found, filter, k + 1)
    } else {
        candidates(root, found, filter, k + 1)
    }
}

/// The files, of those that were found under the catalog at `root`, that are taken for
/// its pages, in the order in which they were found: those that are not hidden and that
/// pass `filter`.
pub fn select_candidates(root: &str, found: &Vec<String>, filter: Option<&str>) -> (selected: Vec<
    String,
>)
    ensures
        texts(selected@) == candidates(
            root@,
            texts(found@),
            match filter {
                Some(wanted) => Some(wanted@),
                None => None,
            },
            0,
        ),
{
    let ghost wanted = match filter {
        Some(wanted) => Some(wanted@),
        None => None,
    };
    let ghost all = texts(found@);
    let mut selected: Vec<String> = Vec::new();
    let mut k: usize = 0;
    assert(texts(selected@) =~= Seq::<Seq<char>>::empty());
    while k < found.len()
        invariant
            k <= found.len(),
            all == texts(found@),
            wanted == match filter {
                Some(wanted) => Some(wanted@),
                None => None,
            },
            candidates(root@, all, wanted, 0) == texts(selected@) + candidates(
                root@,
                all,
                wanted,
                k as int,
            ),
        decreases found.len() - k,
    {
        assert(all[k as int] == found@[k as int]@);
        if accepts(root, found[k].as_str(), filter) {
            let path = found[k].clone();
            proof {
                lemma_texts_push(selected@, path);
                let rest = candidates(root@, all, wanted, k + 1);
                assert(texts(selected@).push(path@) + rest =~= texts(selected@) + (seq![path@]
                    + rest));
            }
            selected.push(path);
        }
        k += 1;
    }
    assert(texts(selected@) + Seq::<Seq<char>>::empty() =~= texts(selected@));
    selected
}

/// Why the command line of `function` cannot be run on the operating system `os`, if it
/// cannot: there is none for `os`, or it holds no token.
pub open spec fn unrunnable(function: Function, os: Seq<char>) -> Option<FailureView> {
    match function.execution.command_line(os) {
        Err(e) => Some(e),
        Ok(argv) => if argv.len() == 0 {
            Some(FailureView::EmptyArgv)
        } else {
            None
        },
    }
}

/// The first reason, from position `k` on and in the order of the names, why one of
/// `functions` cannot be run on `os`.
pub open spec fn first_unrunnable(functions: StrMap<Function>, os: Seq<char>, k: int) -> Option<
    FailureView,
>
    decreases functions.values().len() - k,
{
    if !(0 <= k < functions.values().len()) {
        None
    } else {
        match unrunnable(functions.values()[k], os) {
            Some(e) => Some(e),
            None => first_unrunnable(functions, os, k + 1),
        }
    }
}

/// Makes sure that each of `functions` has a command line for `os` that holds a token.
pub fn check_runnable(functions: &StrMap<Function>, os: &str) -> (r: Result<(), Failure>)
    ensures
        match first_unrunnable(*functions, os@, 0) {
            Some(e) => r matches Err(failure) && failure@ == e,
            None => r is Ok,
        },
{
    let n = functions.len();
    let mut k: usize = 0;
    while k < n
        invariant
            k <= n,
            n == functions.values().len(),
            n == functions.keys().len(),
            first_unrunnable(*functions, os@, 0) == first_unrunnable(*functions, os@, k as int),
        decreases n - k,
    {
        match functions.value_at(k).execution.get_command_line(os) {
            Err(e) => {
                return Err(e);
            },
            Ok(argv) => {
                if argv.len() == 0 {
                    return Err(Failure::EmptyArgv);
                }
                assert(texts(argv@).len() == argv@.len());
            },
        }
        k += 1;
    }
    Ok(())
}

impl Page {
    /// The text of a page file as it is parsed: each `${cwd}` gives way to the directory
    /// that holds the file, which is at `path`.
    pub fn preprocess(path: &str, text: &str) -> (r: String)
        ensures
            r@ == replaced(text@, 0, "${cwd}"@, parent_dir(path@)),
    {
        replace_all(text, "${cwd}", get_parent_dir(path).as_str())
    }

    /// The name of the page once it is loaded from the file at `path`: its own, or the
    /// name of the file without extension where it has none.
    pub open spec fn loaded_name(&self, path: Seq<char>) -> Seq<char> {
        if self.name@.len() == 0 {
            file_stem(path)
        } else {
            self.name@
        }
    }

    /// The categories of the page once it is loaded from the file at `path` under the
    /// catalog at `root`: its own, or those that its place gives it where it has none.
    /// There are none for a page without categories whose file is not under `root`.
    pub open spec fn loaded_categories(&self, root: Seq<char>, path: Seq<char>) -> Option<
        Seq<Seq<char>>,
    > {
        if self.categories@.len() > 0 {
            Some(texts(self.categories@))
        } else {
            match relative_to(root, path) {
                Some(relative) => Some(categories_of(relative)),
                None => None,
            }
        }
    }

    /// Why the page at `path` cannot enter a catalog at `root` that holds the names
    /// `seen`, on the operating system `os`, if it cannot: it gets no name or no
    /// categories, or one of its functions cannot be run on `os`, or one of them finds
    /// its names taken.
    pub open spec fn load_failure(
        &self,
        root: Seq<char>,
        path: Seq<char>,
        os: Seq<char>,
        seen: Set<Seq<char>>,
    ) -> Option<FailureView> {
        if self.loaded_name(path).len() == 0 || self.loaded_categories(root, path) is None {
            Some(FailureView::BadPagePath { path })
        } else if first_unrunnable(self.functions, os, 0) is Some {
            first_unrunnable(self.functions, os, 0)
        } else {
            match entered_names(self.functions.keys(), 0, self.loaded_name(path), seen) {
                Err(name) => Some(FailureView::DuplicateFunction { name, path }),
                Ok(_) => None,
            }
        }
    }

    /// The names that the catalog holds once the page has entered it.
    pub open spec fn seen_after(&self, path: Seq<char>, seen: Set<Seq<char>>) -> Set<Seq<char>> {
        match entered_names(self.functions.keys(), 0, self.loaded_name(path), seen) {
            Err(_) => seen,
            Ok(entered) => seen.union(entered.to_set()),
        }
    }

    /// Whether `loaded` is this page as it enters a catalog at `root` that holds the
    /// names `seen`: with its name and categories filled in, and with each function
    /// under the name that it enters with.
    pub open spec fn is_loaded_as(
        &self,
        loaded: Page,
        root: Seq<char>,
        path: Seq<char>,
        seen: Set<Seq<char>>,
    ) -> bool {
        &&& loaded.name@ == self.loaded_name(path)
        &&& loaded.description == self.description
        &&& Some(texts(loaded.categories@)) == self.loaded_categories(root, path)
        &&& entered_names(self.functions.keys(), 0, self.loaded_name(path), seen) matches Ok(
            entered,
        )
        &&& is_renaming(self.functions, entered, loaded.functions)
    }

    /// Lets the page that was read from the file at `path` enter the catalog at `root`,
    /// whose function names so far are `seen`, on the operating system `os`.
    pub fn load(self, root: &str, path: &str, os: &str, seen: &mut StrMap<()>) -> (r: Result<
        Page,
        Failure,
    >)
        ensures
            match self.load_failure(root@, path@, os@, old(seen).map().dom()) {
                Some(failure) => r matches Err(e) && e@ == failure,
                None => {
                    &&& r matches Ok(loaded)
                    &&& self.is_loaded_as(loaded, root@, path@, old(seen).map().dom())
                    &&& final(seen).map().dom() == self.seen_after(path@, old(seen).map().dom())
                },
            },
    {
        let name = if self.name.as_str().is_empty() {
            get_file_stem(path)
        } else {
            self.name
        };
        if name.as_str().is_empty() {
            return Err(Failure::BadPagePath { path: copy_str(path) });
        }
        let categories = if self.categories.len() > 0 {
            self.categories
        } else {
            match get_relative(root, path) {
                Some(relative) => get_categories(relative.as_str()),
                None => {
                    return Err(Failure::BadPagePath { path: copy_str(path) });
                },
            }
        };
        match check_runnable(&self.functions, os) {
            Ok(()) => {},
            Err(e) => {
                return Err(e);
            },
        }
        match enter_functions(self.functions, name.as_str(), path, seen) {
            Err(e) => Err(e),
            Ok(functions) => Ok(Page { name, description: self.description, functions, categories }),
        }
    }
}

/// The function names that a catalog holds before the page at position `i` enters it,
/// the pages entering in the order of their paths.
pub open spec fn seen_before(paths: Seq<Seq<char>>, pages: Seq<Page>, i: int) -> Set<Seq<char>>
    decreases i,
{
    if i <= 0 || i > pages.len() {
        Set::empty()
    } else {
        pages[i - 1].seen_after(paths[i - 1], seen_before(paths, pages, i - 1))
    }
}

/// Whether no function name stands in two of the pages.
pub open spec fn unique_names(pages: Seq<Page>) -> bool {
    forall|i: int, j: int, name: Seq<char>|
        0 <= i < pages.len() && 0 <= j < pages.len() && #[trigger] pages[i].functions.has(name)
            && #[trigger] pages[j].functions.has(name) ==> i == j
}

/// The catalog: the pages by the paths of their files, and in the order of those paths.
#[derive(Debug)]
pub struct Book {
    pages: StrMap<Page>,
}

impl Book {
    /// The pages of the catalog by their paths.
    pub closed spec fn content(&self) -> StrMap<Page> {
        self.pages
    }

    /// No path stands twice, and no function name stands twice: neither in one page nor
    /// in two.
    #[verifier::type_invariant]
    pub open spec fn wf(&self) -> bool {
        &&& self.content().wf()
        &&& forall|i: int|
            0 <= i < self.content().values().len() ==> (
            #[trigger] self.content().values()[i]).functions.wf()
        &&& unique_names(self.content().values())
    }

    /// The pages of the catalog by their paths.
    pub fn pages(&self) -> (r: &StrMap<Page>)
        ensures
            *r == self.content(),
            self.wf(),
    {
        proof {
            use_type_invariant(self);
        }
        &self.pages
    }

    /// The number of pages.
    pub fn size(&self) -> (n: usize)
        ensures
            n == self.content().keys().len(),
    {
        self.pages.len()
    }

    /// The catalog at the path `root`, made of `pages`, which were read from the files
    /// whose paths they stand under, for the operating system `os`. The pages enter in the order of
    /// their paths: each gets its name and its categories where it has none, and each of
    /// its functions the name that `entered_names` gives it. It fails where there is no
    /// page, and with the failure of the first page that cannot enter.
    pub fn from_path(root: &str, pages: StrMap<Page>, os: &str) -> (r: Result<Book, Failure>)
        ensures
            match r {
                Ok(book) => {
                    &&& book.wf()
                    &&& pages.keys().len() > 0
                    &&& book.content().keys() == pages.keys()
                    &&& book.content().values().len() == pages.values().len()
                    &&& forall|i: int|
                        0 <= i < pages.values().len() ==> (#[trigger] pages.values()[i]).is_loaded_as(
                            book.content().values()[i],
                            root@,
                            pages.keys()[i],
                            seen_before(pages.keys(), pages.values(), i),
                        ) && pages.values()[i].load_failure(
                            root@,
                            pages.keys()[i],
                            os@,
                            seen_before(pages.keys(), pages.values(), i),
                        ) is None
                },
                Err(e) => if pages.keys().len() == 0 {
                    e@ == (FailureView::NoPages { path: root@ })
                } else {
                    exists|i: int|
                        {
                            &&& 0 <= i < pages.values().len()
                            &&& (#[trigger] pages.values()[i]).load_failure(
                                root@,
                                pages.keys()[i],
                                os@,
                                seen_before(pages.keys(), pages.values(), i),
                            ) == Some(e@)
                            &&& forall|j: int|
                                0 <= j < i ==> (#[trigger] pages.values()[j]).load_failure(
                                    root@,
                                    pages.keys()[j],
                                    os@,
                                    seen_before(pages.keys(), pages.values(), j),
                                ) is None
                        }
                },
            },
    {
        if pages.is_empty() {
            return Err(Failure::NoPages { path: copy_str(root) });
        }
        let ghost paths = pages.keys();
        let ghost originals = pages.values();
        let mut entries = pages.into_entries();
        let ghost all = entries@;
        let mut loaded: StrMap<Page> = StrMap::new();
        let mut seen: StrMap<()> = StrMap::new();
        let ghost mut k: int = 0;
        assert(seen.map().dom() =~= Set::<Seq<char>>::empty());
        assert(paths.take(0) =~= loaded.keys());
        while entries.len() > 0
            invariant
                paths == pages.keys(),
                originals == pages.values(),
                crate::strmap::increasing(paths),
                0 <= k <= all.len(),
                all.len() == paths.len(),
                all.len() == originals.len(),
                all.len() > 0,
                forall|i: int|
                    0 <= i < all.len() ==> (#[trigger] all[i]).0@ == paths[i] && all[i].1
                        == originals[i],
                entries@ == all.skip(k),
                seen.map().dom() == seen_before(paths, originals, k),
                loaded.wf(),
                loaded.keys() == paths.take(k),
                loaded.values().len() == k,
                forall|i: int|
                    0 <= i < k ==> (#[trigger] originals[i]).is_loaded_as(
                        loaded.values()[i],
                        root@,
                        paths[i],
                        seen_before(paths, originals, i),
                    ) && first_unrunnable(originals[i].functions, os@, 0) is None,
                forall|i: int|
                    0 <= i < k ==> (#[trigger] originals[i]).load_failure(
                        root@,
                        paths[i],
                        os@,
                        seen_before(paths, originals, i),
                    ) is None,
                forall|i: int, name: Seq<char>|
                    0 <= i < k && #[trigger] loaded.values()[i].functions.has(name)
                        ==> seen.map().dom().contains(name),
                forall|i: int| 0 <= i < k ==> (#[trigger] loaded.values()[i]).functions.wf(),
                unique_names(loaded.values()),
            decreases entries.len(),
        {
            let (path, page) = entries.remove(0);
            assert(path@ == paths[k] && page == originals[k]) by {
                assert(all.skip(k)[0] == all[k]);
            }
            let ghost before = seen.map().dom();
            let ghost old_loaded = loaded.values();
            let page = match page.load(root, path.as_str(), os, &mut seen) {
                Ok(page) => page,
                Err(e) => {
                    return Err(e);
                },
            };
            proof {
                let entered = entered_names(
                    originals[k].functions.keys(),
                    0,
                    originals[k].loaded_name(paths[k]),
                    before,
                )->Ok_0;
                lemma_entered_names(
                    originals[k].functions.keys(),
                    0,
                    originals[k].loaded_name(paths[k]),
                    before,
                );
                assert forall|name: Seq<char>| page.functions.has(name) implies !before.contains(
                    name,
                ) && seen.map().dom().contains(name) by {
                    assert(page.functions.map().dom().contains(name));
                    assert(entered.to_set().contains(name));
                    let a = entered.index_of(name);
                    assert(entered[a] == name);
                }
                let held = paths.take(k);
                assert forall|i: int| 0 <= i < held.len() implies lex_lt(#[trigger] held[i], path@) by {
                    assert(lex_lt(paths[i], paths[k]));
                }
                lemma_rank_behind_all(held, path@);
                assert(held.insert(k, path@) =~= paths.take(k + 1));
                assert(all.skip(k).remove(0) =~= all.skip(k + 1));
            }
            loaded.insert(path, page);
            proof {
                assert(loaded.values() == old_loaded.insert(k, page));
                assert(loaded.values() =~= old_loaded.push(page));
                assert forall|i: int, j: int, name: Seq<char>|
                    0 <= i < loaded.values().len() && 0 <= j < loaded.values().len()
                        && #[trigger] loaded.values()[i].functions.has(name)
                        && #[trigger] loaded.values()[j].functions.has(name) implies i == j by {
                    if i < k && j < k {
                        assert(old_loaded[i].functions.has(name));
                        assert(old_loaded[j].functions.has(name));
                    } else if i < k {
                        assert(old_loaded[i].functions.has(name));
                    } else if j < k {
                        assert(old_loaded[j].functions.has(name));
                    }
                }
                assert forall|i: int, name: Seq<char>|
                    0 <= i < k + 1 && #[trigger] loaded.values()[i].functions.has(
                        name,
                    ) implies seen.map().dom().contains(name) by {
                    if i < k {
                        assert(old_loaded[i].functions.has(name));
                    }
                }
                k = k + 1;
            }
        }
        assert(paths.take(k) =~= paths);
        Ok(Book { pages: loaded })
    }
}

/// A tool schema: how a page is shown to an agent.
pub trait Projection: Sized {
    /// The number of records that show `page`.
    spec fn count(page: Page) -> nat;

    /// Whether `out` shows `page`.
    spec fn shows(page: Page, out: Seq<Self>) -> bool;

    /// The records that show `page`.
    fn from_page(page: &Page) -> (out: Vec<Self>)
        ensures
            out@.len() == Self::count(*page),
            Self::shows(*page, out@),
    ;
}

/// Whether the page at `path` passes `filter`: there is none, or it stands somewhere in
/// `path`.
pub open spec fn passes(path: Seq<char>, filter: Option<Seq<char>>) -> bool {
    filter matches Some(wanted) ==> contains_text(path, wanted)
}

/// Whether `out` shows the first `k` of `pages`, those that pass `filter`, one after the
/// other.
pub open spec fn shows_pages<T: Projection>(
    paths: Seq<Seq<char>>,
    pages: Seq<Page>,
    filter: Option<Seq<char>>,
    k: int,
    out: Seq<T>,
) -> bool
    decreases k,
{
    if k <= 0 || k > pages.len() {
        out.len() == 0
    } else if !passes(paths[k - 1], filter) {
        shows_pages(paths, pages, filter, k - 1, out)
    } else {
        let n = T::count(pages[k - 1]);
        &&& n <= out.len()
        &&& T::shows(pages[k - 1], out.skip(out.len() - n))
        &&& shows_pages(paths, pages, filter, k - 1, out.take(out.len() - n))
    }
}

impl Book {
    /// The position of the first page that holds a function `name`, from position `k`
    /// on; the number of pages where none does.
    pub open spec fn first_with(&self, name: Seq<char>, k: int) -> int
        decreases self.content().values().len() - k,
    {
        if !(0 <= k < self.content().values().len()) {
            k
        } else if self.content().values()[k].functions.has(name) {
            k
        } else {
            self.first_with(name, k + 1)
        }
    }

    /// The function that goes by `name` in the catalog, if there is one: that of the
    /// first page, in the order of the paths, that holds a function of that name.
    pub open spec fn function_named(&self, name: Seq<char>) -> Option<Function> {
        let i = self.first_with(name, 0);
        if 0 <= i < self.content().values().len() {
            self.content().values()[i].functions.lookup(name)
        } else {
            None
        }
    }

    /// The function `name`: the one of the first page, in the order of the paths, that
    /// holds a function of that name.
    pub fn get_function<'a>(&'a self, name: &str) -> (r: Result<runtime::FunctionRef<'a>, Failure>)
        ensures
            self.wf(),
            0 <= self.first_with(name@, 0) <= self.content().values().len(),
            match r {
                Ok(found) => {
                    let i = self.first_with(name@, 0);
                    &&& i < self.content().values().len()
                    &&& found.name@ == name@
                    &&& found.path@ == self.content().keys()[i]
                    &&& *found.page == self.content().values()[i]
                    &&& Some(*found.function) == self.content().values()[i].functions.lookup(name@)
                },
                Err(e) => {
                    &&& self.first_with(name@, 0) == self.content().values().len()
                    &&& e@ == (FailureView::UnknownFunction { name: name@ })
                },
            },
            match r {
                Ok(found) => self.function_named(name@) == Some(*found.function),
                Err(_) => self.function_named(name@) is None,
            },
    {
        proof {
            use_type_invariant(self);
        }
        let n = self.pages.len();
        let mut i: usize = 0;
        while i < n
            invariant
                i <= n,
                n == self.content().values().len(),
                n == self.content().keys().len(),
                self.pages == self.content(),
                self.wf(),
                self.first_with(name@, 0) == self.first_with(name@, i as int),
            decreases n - i,
        {
            let page = self.pages.value_at(i);
            match page.functions.get(name) {
                Some(function) => {
                    return Ok(
                        runtime::FunctionRef {
                            name: copy_str(name),
                            path: self.pages.key_at(i),
                            page,
                            function,
                        },
                    );
                },
                None => {},
            }
            i += 1;
        }
        Err(Failure::UnknownFunction { name: copy_str(name) })
    }

    /// The catalog as tools of the schema `T`: the records of each page that passes
    /// `filter`, in the order of the paths.
    pub fn as_tools<T: Projection>(&self, filter: Option<String>) -> (tools: Vec<T>)
        ensures
            shows_pages(
                self.content().keys(),
                self.content().values(),
                opt_text(filter),
                self.content().values().len() as int,
                tools@,
            ),
    {
        let ghost paths = self.content().keys();
        let ghost pages = self.content().values();
        let ghost wanted = opt_text(filter);
        let mut tools: Vec<T> = Vec::new();
        let n = self.pages.len();
        let mut i: usize = 0;
        while i < n
            invariant
                i <= n,
                n == pages.len(),
                n == paths.len(),
                self.pages == self.content(),
                paths == self.content().keys(),
                pages == self.content().values(),
                wanted == opt_text(filter),
                shows_pages(paths, pages, wanted, i as int, tools@),
            decreases n - i,
        {
            let selected = match &filter {
                Some(wanted) => contains(self.pages.key_at(i), wanted.as_str()),
                None => true,
            };
            if selected {
                let mut records = T::from_page(self.pages.value_at(i));
                let ghost before = tools@;
                let ghost added = records@;
                tools.append(&mut records);
                proof {
                    assert(tools@ == before + added);
                    assert(tools@.skip(tools@.len() - added.len()) =~= added);
                    assert(tools@.take(tools@.len() - added.len()) =~= before);
                }
            }
            i += 1;
        }
        tools
    }
}

/// No function name stands twice in a catalog: two places that hold the same name are
/// one place.
pub proof fn law_function_names_are_unique(book: Book, i: int, a: int, j: int, b: int)
    requires
        book.wf(),
        0 <= i < book.content().values().len(),
        0 <= j < book.content().values().len(),
        0 <= a < book.content().values()[i].functions.keys().len(),
        0 <= b < book.content().values()[j].functions.keys().len(),
        book.content().values()[i].functions.keys()[a] == book.content().values()[j].functions.keys()[b],
    ensures
        i == j,
        a == b,
{
    let pages = book.content().values();
    let name = pages[i].functions.keys()[a];
    assert(pages[i].functions.has(name));
    assert(pages[j].functions.has(name));
    assert(i == j);
    crate::strmap::lemma_increasing_distinct(pages[i].functions.keys(), a, b);
}

/// A page that has entered a catalog has a name, and none of its categories is empty,
/// if none of those that it came with was.
pub proof fn law_loaded_page_is_named_and_filed(
    page: Page,
    loaded: Page,
    root: Seq<char>,
    path: Seq<char>,
    os: Seq<char>,
    seen: Set<Seq<char>>,
)
    requires
        page.load_failure(root, path, os, seen) is None,
        page.is_loaded_as(loaded, root, path, seen),
        forall|k: int| 0 <= k < page.categories@.len() ==> (#[trigger] page.categories@[k])@.len() > 0,
    ensures
        loaded.name@.len() > 0,
        forall|k: int|
            0 <= k < loaded.categories@.len() ==> (#[trigger] loaded.categories@[k])@.len() > 0,
{
    let given = texts(loaded.categories@);
    assert(given.len() == loaded.categories@.len());
    assert(Some(given) == page.loaded_categories(root, path));
    if page.categories@.len() > 0 {
        let own = texts(page.categories@);
        assert(given == own);
        assert forall|k: int| 0 <= k < loaded.categories@.len() implies (
        #[trigger] loaded.categories@[k])@.len() > 0 by {
            assert(given[k] == loaded.categories@[k]@);
            assert(own[k] == page.categories@[k]@);
        }
    } else {
        let relative = relative_to(root, path)->0;
        lemma_without_empty(crate::text::split(parent_dir(relative), '/'), 0);
        assert(given == categories_of(relative));
        assert forall|k: int| 0 <= k < loaded.categories@.len() implies (
        #[trigger] loaded.categories@[k])@.len() > 0 by {
            assert(given[k] == loaded.categories@[k]@);
        }
    }
}

/// A function whose name is taken enters under the name that its page gives it, if
/// that one is free, and cannot enter if that one is taken too; a function whose name
/// is free keeps it.
pub proof fn law_taken_names_are_scoped(seen: Set<Seq<char>>, page_name: Seq<char>, name: Seq<char>)
    ensures
        !seen.contains(name) ==> entered_name(seen, page_name, name) == Some(name),
        seen.contains(name) && !seen.contains(page_name + "_"@ + name) ==> entered_name(
            seen,
            page_name,
            name,
        ) == Some(page_name + "_"@ + name),
        seen.contains(name) && seen.contains(page_name + "_"@ + name) ==> entered_name(
            seen,
            page_name,
            name,
        ) is None,
{
}

/// The files that are taken for pages are those of the files found that are not
/// hidden and pass the filter, and no others.
pub proof fn law_candidates_are_selected(
    root: Seq<char>,
    found: Seq<Seq<char>>,
    filter: Option<Seq<char>>,
    k: int,
)
    requires
        0 <= k <= found.len(),
    ensures
        forall|j: int|
            0 <= j < candidates(root, found, filter, k).len() ==> is_candidate(
                root,
                #[trigger] candidates(root, found, filter, k)[j],
                filter,
            ),
        forall|i: int|
            k <= i < found.len() && is_candidate(root, #[trigger] found[i], filter) ==> candidates(
                root,
                found,
                filter,
                k,
            ).contains(found[i]),
    decreases found.len() - k,
{
    if k < found.len() {
        law_candidates_are_selected(root, found, filter, k + 1);
        let rest = candidates(root, found, filter, k + 1);
        let all = candidates(root, found, filter, k);
        if is_candidate(root, found[k], filter) {
            assert(all == seq![found[k]] + rest);
            assert forall|j: int| 0 <= j < all.len() implies is_candidate(
                root,
                #[trigger] all[j],
                filter,
            ) by {
                if j > 0 {
                    assert(all[j] == rest[j - 1]);
                }
            }
            assert forall|i: int|
                k <= i < found.len() && is_candidate(
                    root,
                    #[trigger] found[i],
                    filter,
                ) implies all.contains(found[i]) by {
                if i == k {
                    assert(all[0] == found[k]);
                } else {
                    let at = rest.index_of(found[i]);
                    assert(all[at + 1] == found[i]);
                }
            }
        }
    }
}

} // verus!
