use crate::book::flavors::openai::{Call, CallResultMessage};
use crate::book::{Book, Container, Function};
use crate::failure::{Failure, FailureView};
use crate::strmap::{text_map, StrMap};
use crate::text::{copy_str, copy_strings, opt_text, str_eq, texts};
use vstd::prelude::*;
use vstd::string::StringExecFns;

pub mod cmd;
pub mod docker;
pub mod prompt;
pub mod ssh;

pub use cmd::CommandLine;
pub use docker::{get_container_runtime, ContainerSource};

verus! {

/// Where a command runs.
#[derive(Debug, Clone, Copy, PartialEq, Eq, Structural)]
pub enum Plan {
    /// Over the remote shell, as it stands.
    Remote,
    /// In the container of its function.
    Container,
    /// On this machine, as it stands.
    Local,
}

/// Where a command runs, by the first of these that holds: over the remote shell where
/// there is one that finds the application; in the container where that is forced; in
/// the container where the command asks for `sudo` and nobody is there to answer, or
/// where the application is not found on this machine; else on this machine. Without a
/// container there is no plan for a command that has to run in one.
pub open spec fn planned(
    sudo: bool,
    app_in_path: bool,
    container: Option<Container>,
    remote_has_app: Option<bool>,
    interactive: bool,
) -> Option<Plan> {
    if remote_has_app == Some(true) {
        Some(Plan::Remote)
    } else if container matches Some(c) && c.force {
        Some(Plan::Container)
    } else if (sudo && !interactive) || !app_in_path {
        if container is Some {
            Some(Plan::Container)
        } else {
            None
        }
    } else {
        Some(Plan::Local)
    }
}

/// Decides where `command` runs. `container` is the container of its function,
/// `remote_has_app` what the remote shell, if there is one, said of the application,
/// and `function` the name of the function, for the failure.
pub fn plan(
    command: &CommandLine,
    container: Option<&Container>,
    remote_has_app: Option<bool>,
    interactive: bool,
    function: &str,
) -> (r: Result<Plan, Failure>)
    ensures
        match planned(
            command.sudo,
            command.app_in_path,
            match container {
                Some(c) => Some(*c),
                None => None,
            },
            remote_has_app,
            interactive,
        ) {
            Some(p) => r == Ok::<Plan, Failure>(p),
            None => r matches Err(e) && e@ == (FailureView::ContainerRequired {
                function: function@,
            }),
        },
{
    match remote_has_app {
        Some(true) => {
            return Ok(Plan::Remote);
        },
        _ => {},
    }
    match container {
        Some(c) => {
            if c.force || (command.sudo && !interactive) || !command.app_in_path {
                Ok(Plan::Container)
            } else {
                Ok(Plan::Local)
            }
        },
        None => {
            if (command.sudo && !interactive) || !command.app_in_path {
                Err(Failure::ContainerRequired { function: copy_str(function) })
            } else {
                Ok(Plan::Local)
            }
        },
    }
}

/// Whether a task may begin its work: fewer than `max_running_tasks` are at work.
pub fn may_start(active_tasks: usize, max_running_tasks: usize) -> (r: bool)
    ensures
        r == (active_tasks < max_running_tasks),
{
    active_tasks < max_running_tasks
}

/// The number of tasks that may be at work at once: `workers`, or what the machine can
/// run in parallel where `workers` is zero.
pub fn max_running_tasks(workers: usize, available_parallelism: usize) -> (r: usize)
    ensures
        r == if workers == 0 {
            available_parallelism
        } else {
            workers
        },
{
    if workers == 0 {
        available_parallelism
    } else {
        workers
    }
}

/// The result of a call: the role `tool`, the mark of the call, and what came out.
pub fn call_result(call_id: Option<String>, content: String) -> (r: CallResultMessage)
    ensures
        r.role@ == "tool"@,
        r.call_id == call_id,
        r.content == content,
{
    CallResultMessage { role: String::from_str("tool"), call_id, content }
}

/// The result of a call that the user did not let run.
pub fn cancelled_result(call_id: Option<String>) -> (r: CallResultMessage)
    ensures
        r.role@ == "tool"@,
        r.call_id == call_id,
        r.content@ == "<command execution cancelled by user>"@,
{
    call_result(call_id, String::from_str("<command execution cancelled by user>"))
}

/// A call whose command line is resolved and which has not run yet.
#[derive(Debug)]
pub struct Pending {
    /// The mark of the call.
    pub id: Option<String>,
    /// The name of the function.
    pub function: String,
    /// The command as it will run.
    pub command: CommandLine,
}

/// How far a call has come.
#[derive(Debug)]
pub enum CallState {
    /// The remote shell is being asked whether it finds the application.
    Probing(Pending),
    /// The container is being made ready.
    Preparing(Pending),
    /// The user is being asked whether the command may run.
    Confirming { pending: Pending, remote: bool },
    /// The command is running.
    Running { id: Option<String> },
    /// The result is out.
    Done,
}

/// What has happened outside since the last action.
#[derive(Debug)]
pub enum Event {
    /// The remote shell has said whether it finds the application.
    RemoteProbed(bool),
    /// The image is there, made by the runtime `runtime`, and the file at `env_file`
    /// holds the environment, if a file was asked for.
    ContainerPrepared { runtime: String, env_file: Option<String> },
    /// The user has answered.
    Answered(String),
    /// The command has run and has put out this.
    Finished(String),
    /// What was to be done could not be done.
    Failed(Failure),
}

/// What is to be done outside next.
#[derive(Debug)]
pub enum Action {
    /// Ask the remote shell whether it finds `app`.
    ProbeRemote { app: String },
    /// Pull or build the image of the function, and write `env_file_contents`, if there
    /// are any, to a temporary file.
    PrepareContainer { env_file_contents: Option<String> },
    /// Ask the user with `prompt`.
    Ask { prompt: String },
    /// Run the command over the remote shell.
    ExecuteRemote { sudo: bool, app: String, args: Vec<String> },
    /// Run the command on this machine.
    ExecuteLocal { command: CommandLine },
    /// Hand the result to the caller.
    Reply { result: CallResultMessage },
}

/// Whether `state` and `action` let the command of `pending` run, over the remote shell
/// or on this machine.
pub open spec fn is_run(pending: Pending, remote: bool, state: CallState, action: Action) -> bool {
    &&& state == (CallState::Running { id: pending.id })
    &&& if remote {
        &&& action matches Action::ExecuteRemote { sudo, app, args }
        &&& sudo == pending.command.sudo
        &&& app@ == pending.command.app@
        &&& texts(args@) == texts(pending.command.args@)
    } else {
        action == (Action::ExecuteLocal { command: pending.command })
    }
}

/// Whether `state` and `action` are what follows once it is settled where the command
/// of `pending` runs: the question to the user where there is one to answer, else the
/// run.
pub open spec fn is_ready(
    pending: Pending,
    remote: bool,
    interactive: bool,
    state: CallState,
    action: Action,
) -> bool {
    if interactive {
        &&& state == (CallState::Confirming { pending, remote })
        &&& action matches Action::Ask { prompt }
        &&& prompt@ == ">> enter 'y' to proceed or any other key to cancel: "@
    } else {
        is_run(pending, remote, state, action)
    }
}

/// Whether `state` and `action` are what follows for `pending` once the remote shell
/// has answered, if there is one: by the plan, the way to the remote shell or to this
/// machine, or the making of the container.
pub open spec fn is_planned(
    pending: Pending,
    container: Option<Container>,
    remote_has_app: Option<bool>,
    interactive: bool,
    state: CallState,
    action: Action,
) -> bool {
    match planned(
        pending.command.sudo,
        pending.command.app_in_path,
        container,
        remote_has_app,
        interactive,
    ) {
        Some(Plan::Remote) => is_ready(pending, true, interactive, state, action),
        Some(Plan::Local) => is_ready(pending, false, interactive, state, action),
        Some(Plan::Container) => {
            &&& state == CallState::Preparing(pending)
            &&& action matches Action::PrepareContainer { env_file_contents }
            &&& match env_file_contents {
                Some(contents) => pending.command.env.keys().len() > 0 && contents@
                    == cmd::env_lines(
                    pending.command.env,
                    pending.command.env.keys().len() as int,
                ),
                None => pending.command.env.keys().len() == 0,
            }
        },
        None => false,
    }
}

fn run(pending: Pending, remote: bool) -> (r: (CallState, Action))
    ensures
        is_run(pending, remote, r.0, r.1),
{
    if remote {
        let action = Action::ExecuteRemote {
            sudo: pending.command.sudo,
            app: pending.command.app.clone(),
            args: copy_strings(&pending.command.args),
        };
        (CallState::Running { id: pending.id }, action)
    } else {
        (CallState::Running { id: pending.id }, Action::ExecuteLocal { command: pending.command })
    }
}

fn ready(pending: Pending, remote: bool, interactive: bool) -> (r: (CallState, Action))
    ensures
        is_ready(pending, remote, interactive, r.0, r.1),
{
    if interactive {
        let prompt = String::from_str(">> enter 'y' to proceed or any other key to cancel: ");
        (CallState::Confirming { pending, remote }, Action::Ask { prompt })
    } else {
        run(pending, remote)
    }
}

fn proceed(
    pending: Pending,
    container: Option<&Container>,
    remote_has_app: Option<bool>,
    interactive: bool,
) -> (r: Result<(CallState, Action), Failure>)
    ensures
        match r {
            Ok((state, action)) => is_planned(
                pending,
                match container {
                    Some(c) => Some(*c),
                    None => None,
                },
                remote_has_app,
                interactive,
                state,
                action,
            ),
            Err(e) => {
                &&& planned(
                    pending.command.sudo,
                    pending.command.app_in_path,
                    match container {
                        Some(c) => Some(*c),
                        None => None,
                    },
                    remote_has_app,
                    interactive,
                ) is None
                &&& e@ == (FailureView::ContainerRequired { function: pending.function@ })
            },
        },
{
    match plan(
        &pending.command,
        container,
        remote_has_app,
        interactive,
        pending.function.as_str(),
    ) {
        Err(e) => Err(e),
        Ok(Plan::Remote) => Ok(ready(pending, true, interactive)),
        Ok(Plan::Local) => Ok(ready(pending, false, interactive)),
        Ok(Plan::Container) => {
            let env_file_contents = pending.command.env_file_contents();
            Ok((CallState::Preparing(pending), Action::PrepareContainer { env_file_contents }))
        },
    }
}

/// The container of the function that goes by `name` in `book`, if it has one.
pub open spec fn container_of(book: Book, name: Seq<char>) -> Option<Container> {
    match book.function_named(name) {
        Some(function) => function.container,
        None => None,
    }
}

/// Whether `r` is the first step of `call`: its function is looked up in `book`, its
/// arguments are checked and put into the command line, and then the remote shell is
/// asked, if there is one, or the plan is made. Each of these may fail; the plan fails
/// only for a function without a container.
pub open spec fn is_first_step(
    book: Book,
    call: Call,
    environment: Map<Seq<char>, Seq<char>>,
    os: Seq<char>,
    remote: bool,
    interactive: bool,
    r: Result<(CallState, Action), Failure>,
) -> bool {
    let name = call.function.name@;
    match book.function_named(name) {
        None => r matches Err(e) && e@ == (FailureView::UnknownFunction { name }),
        Some(function) => match function.validation(name, call.function.arguments) {
            Err(invalid) => r matches Err(e) && e@ == invalid,
            Ok(_) => match function.prepared(
                text_map(call.function.arguments),
                environment,
                os,
            ) {
                Err(unresolved) => r matches Err(e) && e@ == unresolved,
                Ok(_) => match r {
                    Err(e) => !remote && function.container is None && e@
                        == (FailureView::ContainerRequired { function: name }),
                    Ok((state, action)) => exists|pending: Pending|
                        {
                            &&& pending.id == call.id
                            &&& pending.function@ == name
                            &&& #[trigger] function.resolves_to(
                                text_map(call.function.arguments),
                                environment,
                                os,
                                pending.command,
                            )
                            &&& if remote {
                                &&& state == CallState::Probing(pending)
                                &&& action matches Action::ProbeRemote { app }
                                &&& app@ == pending.command.app@
                            } else {
                                is_planned(
                                    pending,
                                    function.container,
                                    None,
                                    interactive,
                                    state,
                                    action,
                                )
                            }
                        },
                },
            },
        },
    }
}

/// Begins the work on `call`: resolves it against `book` and says what is to be done
/// outside first. `environment` is the environment of this process, `os` the name of
/// its operating system, and `remote` says whether a remote shell is at hand.
pub fn execute_call(
    book: &Book,
    call: Call,
    environment: &StrMap<String>,
    os: &str,
    remote: bool,
    interactive: bool,
) -> (r: Result<(CallState, Action), Failure>)
    ensures
        is_first_step(*book, call, text_map(*environment), os@, remote, interactive, r),
{
    let function = match book.get_function(call.function.name.as_str()) {
        Ok(function) => function,
        Err(e) => {
            return Err(e);
        },
    };
    match function.validate_arguments(&call.function.arguments) {
        Ok(()) => {},
        Err(e) => {
            return Err(e);
        },
    }
    let command = match function.resolve_command_line(&call.function.arguments, environment, os) {
        Ok(command) => command,
        Err(e) => {
            return Err(e);
        },
    };
    let pending = Pending { id: call.id, function: function.name, command };
    if remote {
        let app = pending.command.app.clone();
        Ok((CallState::Probing(pending), Action::ProbeRemote { app }))
    } else {
        let container = match &function.function.container {
            Some(c) => Some(c),
            None => None,
        };
        proceed(pending, container, None, interactive)
    }
}

/// Whether `r` is what follows from `state` once `event` has happened.
///
/// After the answer of the remote shell, the plan is made. After the container is
/// ready, the command is wrapped for it, and that is what will run. After the answer of
/// the user, the command runs where the answer is `y`, and else the call is over with
/// the result that says so. After the run, the call is over with what the command has
/// put out. Where what was to be done could not be done, the call fails with that. Any
/// other event is a failure.
pub open spec fn is_step(
    book: Book,
    state: CallState,
    event: Event,
    interactive: bool,
    r: Result<(CallState, Action), Failure>,
) -> bool {
    match (state, event) {
        (CallState::Probing(pending), Event::RemoteProbed(found)) => match r {
            Ok((next, action)) => is_planned(
                pending,
                container_of(book, pending.function@),
                Some(found),
                interactive,
                next,
                action,
            ),
            Err(e) => {
                &&& planned(
                    pending.command.sudo,
                    pending.command.app_in_path,
                    container_of(book, pending.function@),
                    Some(found),
                    interactive,
                ) is None
                &&& e@ == (FailureView::ContainerRequired { function: pending.function@ })
            },
        },
        (
            CallState::Preparing(pending),
            Event::ContainerPrepared { runtime, env_file },
        ) => match container_of(book, pending.function@) {
            None => r matches Err(e) && e@ == (FailureView::ContainerRequired {
                function: pending.function@,
            }),
            Some(container) => match r {
                Err(e) => e@ == (FailureView::RuntimeNotFound { runtime: runtime@ }) || (
                pending.command.env.keys().len() > 0 && env_file is None && e@
                    == FailureView::EnvFileMissing),
                Ok((next, action)) => (pending.command.env.keys().len() > 0 ==> env_file is Some)
                    && exists|wrapped: Pending, runtime_path: Seq<char>|
                    {
                        &&& wrapped.id == pending.id
                        &&& wrapped.function == pending.function
                        &&& #[trigger] container.wraps(
                            pending.command,
                            runtime_path,
                            opt_text(env_file),
                            wrapped.command,
                        )
                        &&& is_ready(wrapped, false, interactive, next, action)
                    },
            },
        },
        (CallState::Confirming { pending, remote }, Event::Answered(answer)) => {
            &&& r matches Ok((next, action))
            &&& if answer@ == "y"@ {
                is_run(pending, remote, next, action)
            } else {
                &&& next == CallState::Done
                &&& action matches Action::Reply { result }
                &&& result.role@ == "tool"@
                &&& result.call_id == pending.id
                &&& result.content@ == "<command execution cancelled by user>"@
            }
        },
        (CallState::Running { id }, Event::Finished(content)) => {
            &&& r matches Ok((next, action))
            &&& next == CallState::Done
            &&& action matches Action::Reply { result }
            &&& result.role@ == "tool"@
            &&& result.call_id == id
            &&& result.content == content
        },
        (_, Event::Failed(failure)) => r == Err::<(CallState, Action), Failure>(failure),
        _ => r matches Err(e) && e@ == FailureView::UnexpectedEvent,
    }
}

/// The container of the function `name` of `book`, if it has one.
fn find_container<'a>(book: &'a Book, name: &str) -> (r: Option<&'a Container>)
    ensures
        match r {
            Some(c) => container_of(*book, name@) == Some(*c),
            None => container_of(*book, name@) is None,
        },
{
    match book.get_function(name) {
        Ok(found) => match &found.function.container {
            Some(c) => Some(c),
            None => None,
        },
        Err(_) => None,
    }
}

/// Takes the call from `state` to its next state, once `event` has happened, and says
/// what is to be done outside next.
pub fn step(book: &Book, state: CallState, event: Event, interactive: bool) -> (r: Result<
    (CallState, Action),
    Failure,
>)
    ensures
        is_step(*book, state, event, interactive, r),
{
    match (state, event) {
        (CallState::Probing(pending), Event::RemoteProbed(found)) => {
            let container = find_container(book, pending.function.as_str());
            proceed(pending, container, Some(found), interactive)
        },
        (CallState::Preparing(pending), Event::ContainerPrepared { runtime, env_file }) => {
            let container = match find_container(book, pending.function.as_str()) {
                Some(container) => container,
                None => {
                    return Err(
                        Failure::ContainerRequired { function: pending.function },
                    );
                },
            };
            let Pending { id, function, command } = pending;
            match container.wrap(command, runtime.as_str(), env_file) {
                Err(e) => Err(e),
                Ok(wrapped) => {
                    let wrapped = Pending { id, function, command: wrapped };
                    let r = ready(wrapped, false, interactive);
                    proof {
                        let runtime_path = choose|runtime_path: Seq<char>|
                            container.wraps(
                                pending.command,
                                runtime_path,
                                opt_text(env_file),
                                wrapped.command,
                            );
                        assert(container.wraps(
                            pending.command,
                            runtime_path,
                            opt_text(env_file),
                            wrapped.command,
                        ));
                    }
                    Ok(r)
                },
            }
        },
        (CallState::Confirming { pending, remote }, Event::Answered(answer)) => {
            if str_eq(answer.as_str(), "y") {
                Ok(run(pending, remote))
            } else {
                Ok((CallState::Done, Action::Reply { result: cancelled_result(pending.id) }))
            }
        },
        (CallState::Running { id }, Event::Finished(content)) => {
            Ok((CallState::Done, Action::Reply { result: call_result(id, content) }))
        },
        (_, Event::Failed(failure)) => Err(failure),
        _ => Err(Failure::UnexpectedEvent),
    }
}

/// How the task of one call has ended.
#[derive(Debug)]
pub enum TaskOutcome {
    /// The call has come to its result or to its failure.
    Completed(Result<CallResultMessage, Failure>),
    /// The task was lost before it could say how the call went.
    Lost,
}

/// The results of the first `k` of `outcomes`, in their order and without the lost
/// ones; or the first failure among them.
pub open spec fn batch_results(outcomes: Seq<TaskOutcome>, k: int) -> Result<
    Seq<CallResultMessage>,
    Failure,
>
    decreases k,
{
    if k <= 0 || k > outcomes.len() {
        Ok(Seq::empty())
    } else {
        match batch_results(outcomes, k - 1) {
            Err(e) => Err(e),
            Ok(before) => match outcomes[k - 1] {
                TaskOutcome::Completed(Ok(result)) => Ok(before.push(result)),
                TaskOutcome::Completed(Err(e)) => Err(e),
                TaskOutcome::Lost => Ok(before),
            },
        }
    }
}

/// The result of a batch of calls, given how the task of each call has ended, in the
/// order of the calls: the results in that order, or the failure of the first call that
/// failed. A lost task leaves no result.
pub fn execute(outcomes: Vec<TaskOutcome>) -> (r: Result<Vec<CallResultMessage>, Failure>)
    ensures
        match batch_results(outcomes@, outcomes@.len() as int) {
            Ok(results) => r matches Ok(list) && list@ == results,
            Err(e) => r == Err::<Vec<CallResultMessage>, Failure>(e),
        },
{
    let ghost all = outcomes@;
    let mut rest = outcomes;
    let mut results: Vec<CallResultMessage> = Vec::new();
    let ghost mut k: int = 0;
    while rest.len() > 0
        invariant
            all == outcomes@,
            0 <= k <= all.len(),
            rest@ == all.skip(k),
            batch_results(all, k) == Ok::<Seq<CallResultMessage>, Failure>(results@),
        decreases rest.len(),
    {
        let outcome = rest.remove(0);
        proof {
            assert(all.skip(k)[0] == all[k]);
            assert(all.skip(k).remove(0) =~= all.skip(k + 1));
        }
        match outcome {
            TaskOutcome::Completed(Ok(result)) => {
                results.push(result);
            },
            TaskOutcome::Completed(Err(e)) => {
                proof {
                    lemma_batch_failure(all, k + 1, all.len() as int);
                }
                return Err(e);
            },
            TaskOutcome::Lost => {},
        }
        proof {
            k = k + 1;
        }
    }
    Ok(results)
}

/// A failure among the first `k` outcomes is the failure of any longer run of them.
pub proof fn lemma_batch_failure(outcomes: Seq<TaskOutcome>, k: int, n: int)
    requires
        0 <= k <= n <= outcomes.len(),
        batch_results(outcomes, k) is Err,
    ensures
        batch_results(outcomes, n) == batch_results(outcomes, k),
    decreases n - k,
{
    if k < n {
        lemma_batch_failure(outcomes, k, n - 1);
    }
}

/// Where every task has come to a result, the batch has a result for each outcome, in
/// their order.
pub proof fn lemma_batch_of_results(outcomes: Seq<TaskOutcome>, k: int)
    requires
        0 <= k <= outcomes.len(),
        forall|i: int| 0 <= i < outcomes.len() ==> #[trigger] outcomes[i] matches TaskOutcome::Completed(
            Ok(_),
        ),
    ensures
        batch_results(outcomes, k) matches Ok(results) && results.len() == k && forall|i: int|
            0 <= i < k ==> outcomes[i] == TaskOutcome::Completed(Ok(#[trigger] results[i])),
    decreases k,
{
    if k > 0 {
        lemma_batch_of_results(outcomes, k - 1);
    }
}

/// Whether `outcome` is a result that bears the mark of `call`.
pub open spec fn is_result_of(outcome: TaskOutcome, call: Call) -> bool {
    outcome matches TaskOutcome::Completed(Ok(result)) && result.call_id == call.id
}

/// A batch in which each call has come to its result has as many results as calls, and
/// the result at each position bears the mark of the call at that position.
pub proof fn law_batch_keeps_order(calls: Seq<Call>, outcomes: Seq<TaskOutcome>)
    requires
        outcomes.len() == calls.len(),
        forall|i: int| 0 <= i < calls.len() ==> is_result_of(#[trigger] outcomes[i], calls[i]),
    ensures
        batch_results(outcomes, outcomes.len() as int) matches Ok(results) && results.len()
            == calls.len() && forall|i: int|
            0 <= i < calls.len() ==> (#[trigger] results[i]).call_id == calls[i].id,
{
    assert forall|i: int| 0 <= i < outcomes.len() implies #[trigger] outcomes[i] matches TaskOutcome::Completed(
        Ok(_),
    ) by {
        assert(is_result_of(outcomes[i], calls[i]));
    }
    lemma_batch_of_results(outcomes, outcomes.len() as int);
    let results = batch_results(outcomes, outcomes.len() as int)->Ok_0;
    assert forall|i: int| 0 <= i < calls.len() implies (#[trigger] results[i]).call_id
        == calls[i].id by {
        assert(outcomes[i] == TaskOutcome::Completed(Ok(results[i])));
        assert(is_result_of(outcomes[i], calls[i]));
    }
}

} // verus!
