use crate::book::{Function, Page, Parameter, Projection};
use crate::strmap::{lemma_rank_behind_all, StrMap};
use crate::text::{copy_str, lex_lt};
use vstd::prelude::*;
use vstd::string::StringExecFns;

verus! {

/// One function of a page in the action-group schema.
#[derive(Debug)]
pub struct Action {
    pub name: String,
    pub description: String,
    /// The description of each argument, by its name.
    pub args: Option<StrMap<String>>,
    pub example_payload: Option<String>,
    /// The mark by which the action is found again: page, function and `@robopages`.
    pub tool: String,
}

/// One page of the catalog in the action-group schema.
#[derive(Debug)]
pub struct FunctionGroup {
    pub name: String,
    pub description: Option<String>,
    pub actions: Vec<Action>,
}

/// Whether `args` gives, for each of `parameters` and under its name, its description.
pub open spec fn describes_arguments(args: StrMap<String>, parameters: StrMap<Parameter>) -> bool {
    &&& args.keys() == parameters.keys()
    &&& args.values().len() == parameters.values().len()
    &&& forall|j: int|
        0 <= j < parameters.values().len() ==> (#[trigger] args.values()[j])@
            == parameters.values()[j].description@
}

/// The description of each of `parameters`, by its name.
pub fn argument_descriptions(parameters: &StrMap<Parameter>) -> (args: StrMap<String>)
    ensures
        describes_arguments(args, *parameters),
{
    let mut args: StrMap<String> = StrMap::new();
    let n = parameters.len();
    let mut j: usize = 0;
    while j < n
        invariant
            j <= n,
            n == parameters.keys().len(),
            n == parameters.values().len(),
            parameters.wf(),
            args.keys() == parameters.keys().take(j as int),
            args.values().len() == j,
            forall|i: int|
                0 <= i < j ==> (#[trigger] args.values()[i])@ == parameters.values()[i].description@,
        decreases n - j,
    {
        let name = parameters.key_at(j);
        let description = parameters.value_at(j).description.clone();
        proof {
            let before = parameters.keys().take(j as int);
            assert forall|i: int| 0 <= i < before.len() implies lex_lt(
                #[trigger] before[i],
                name@,
            ) by {
                assert(lex_lt(parameters.keys()[i], parameters.keys()[j as int]));
            }
            lemma_rank_behind_all(before, name@);
            assert(before.insert(j as int, name@) =~= parameters.keys().take(j + 1));
        }
        let ghost old_values = args.values();
        args.insert(copy_str(name), description);
        assert(args.values() == old_values.insert(j as int, description));
        j += 1;
    }
    assert(parameters.keys().take(n as int) == parameters.keys());
    args
}

impl Action {
    /// Whether this is the action of the function `function` that goes by `name` on the
    /// page `page`.
    pub open spec fn describes(&self, page: Seq<char>, name: Seq<char>, function: Function) -> bool {
        &&& self.name@ == name
        &&& self.description@ == function.description@
        &&& self.args matches Some(args)
        &&& describes_arguments(args, function.parameters)
        &&& self.example_payload is None
        &&& self.tool@ == page + "."@ + name + "@robopages"@
    }
}

/// The group of a page: its name and description, and one action for each function, in
/// the order of their names.
impl Projection for FunctionGroup {
    open spec fn count(page: Page) -> nat {
        1
    }

    open spec fn shows(page: Page, out: Seq<FunctionGroup>) -> bool {
        &&& out.len() == 1
        &&& out[0].name@ == page.name@
        &&& out[0].description == page.description
        &&& out[0].actions@.len() == page.functions.keys().len()
        &&& forall|i: int|
            0 <= i < out[0].actions@.len() ==> (#[trigger] out[0].actions@[i]).describes(
                page.name@,
                page.functions.keys()[i],
                page.functions.values()[i],
            )
    }

    fn from_page(page: &Page) -> (r: Vec<FunctionGroup>) {
        let mut actions: Vec<Action> = Vec::new();
        let n = page.functions.len();
        let mut i: usize = 0;
        while i < n
            invariant
                i <= n,
                n == page.functions.keys().len(),
                actions@.len() == i,
                forall|k: int|
                    0 <= k < i ==> (#[trigger] actions@[k]).describes(
                        page.name@,
                        page.functions.keys()[k],
                        page.functions.values()[k],
                    ),
            decreases n - i,
        {
            let name = page.functions.key_at(i);
            let function = page.functions.value_at(i);
            let mut tool = page.name.clone();
            tool.append(".");
            tool.append(name);
            tool.append("@robopages");
            actions.push(
                Action {
                    name: copy_str(name),
                    description: function.description.clone(),
                    args: Some(argument_descriptions(&function.parameters)),
                    example_payload: None,
                    tool,
                },
            );
            i += 1;
        }
        let mut groups: Vec<FunctionGroup> = Vec::new();
        groups.push(
            FunctionGroup { name: page.name.clone(), description: page.description.clone(), actions },
        );
        groups
    }
}

} // verus!
