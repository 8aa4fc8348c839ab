use crate::book::{Function as PageFunction, Page, Parameter as PageParameter, Projection};
use crate::strmap::{lemma_rank_behind_all, StrMap};
use crate::text::{copy_str, texts};
use vstd::prelude::*;
use vstd::string::StringExecFns;

verus! {

/// One function of the catalog in the function-calling schema.
#[derive(Debug)]
pub struct Tool {
    pub tool_type: String,
    pub function: Function,
}

#[derive(Debug)]
pub struct Function {
    pub name: String,
    pub description: String,
    pub parameters: Parameters,
}

#[derive(Debug)]
pub struct Parameters {
    pub params_type: String,
    pub properties: StrMap<Parameter>,
    pub required: Vec<String>,
}

#[derive(Debug)]
pub struct Parameter {
    pub param_type: String,
    pub description: String,
}

/// The names of the parameters from position `k` on that are required, in key order.
pub open spec fn required_names(parameters: StrMap<PageParameter>, k: int) -> Seq<Seq<char>>
    decreases parameters.keys().len() - k,
{
    if !(0 <= k < parameters.keys().len()) {
        Seq::empty()
    } else if parameters.values()[k].required {
        seq![parameters.keys()[k]] + required_names(parameters, k + 1)
    } else {
        required_names(parameters, k + 1)
    }
}

impl Parameters {
    /// Whether this is the record of `parameters`: an object with one property for each
    /// parameter, under its name and with its type and description, and with the names
    /// of the required ones.
    pub open spec fn describes(&self, parameters: StrMap<PageParameter>) -> bool {
        &&& self.params_type@ == "object"@
        &&& self.properties.keys() == parameters.keys()
        &&& self.properties.values().len() == parameters.values().len()
        &&& forall|j: int|
            0 <= j < parameters.values().len() ==> {
                &&& (#[trigger] self.properties.values()[j]).param_type@
                    == parameters.values()[j].param_type@
                &&& self.properties.values()[j].description@ == parameters.values()[j].description@
            }
        &&& texts(self.required@) == required_names(parameters, 0)
    }

    /// The record of `parameters`.
    pub fn of(parameters: &StrMap<PageParameter>) -> (r: Parameters)
        ensures
            r.describes(*parameters),
    {
        let mut properties: StrMap<Parameter> = StrMap::new();
        let mut required: Vec<String> = Vec::new();
        let n = parameters.len();
        let mut j: usize = 0;
        while j < n
            invariant
                j <= n,
                n == parameters.keys().len(),
                n == parameters.values().len(),
                parameters.wf(),
                properties.keys() == parameters.keys().take(j as int),
                properties.values().len() == j,
                forall|i: int|
                    0 <= i < j ==> {
                        &&& (#[trigger] properties.values()[i]).param_type@
                            == parameters.values()[i].param_type@
                        &&& properties.values()[i].description@
                            == parameters.values()[i].description@
                    },
                required_names(*parameters, 0) == texts(required@) + required_names(
                    *parameters,
                    j as int,
                ),
            decreases n - j,
        {
            let name = parameters.key_at(j);
            let parameter = parameters.value_at(j);
            let property = Parameter {
                param_type: parameter.param_type.clone(),
                description: parameter.description.clone(),
            };
            proof {
                let before = parameters.keys().take(j as int);
                assert forall|i: int| 0 <= i < before.len() implies crate::text::lex_lt(
                    #[trigger] before[i],
                    name@,
                ) by {
                    assert(crate::text::lex_lt(parameters.keys()[i], parameters.keys()[j as int]));
                }
                lemma_rank_behind_all(before, name@);
                assert(before.insert(j as int, name@) =~= parameters.keys().take(j + 1));
            }
            let ghost old_values = properties.values();
            properties.insert(copy_str(name), property);
            assert(properties.values() == old_values.insert(j as int, property));
            if parameter.required {
                let owned = copy_str(name);
                proof {
                    let rest = required_names(*parameters, j + 1);
                    assert(texts(required@.push(owned)) + rest =~= texts(required@) + (seq![name@]
                        + rest));
                }
                required.push(owned);
            }
            j += 1;
        }
        assert(parameters.keys().take(n as int) == parameters.keys());
        assert(texts(required@) + Seq::<Seq<char>>::empty() =~= texts(required@));
        Parameters { params_type: String::from_str("object"), properties, required }
    }
}

impl Tool {
    /// Whether this is the tool of the function `function` that goes by `name`.
    pub open spec fn describes(&self, name: Seq<char>, function: PageFunction) -> bool {
        &&& self.tool_type@ == "function"@
        &&& self.function.name@ == name
        &&& self.function.description@ == function.description@
        &&& self.function.parameters.describes(function.parameters)
    }
}

/// The tools of a page: one for each function, in the order of their names.
impl Projection for Tool {
    open spec fn count(page: Page) -> nat {
        page.functions.keys().len()
    }

    open spec fn shows(page: Page, out: Seq<Tool>) -> bool {
        &&& out.len() == page.functions.keys().len()
        &&& forall|i: int|
            0 <= i < out.len() ==> (#[trigger] out[i]).describes(
                page.functions.keys()[i],
                page.functions.values()[i],
            )
    }

    fn from_page(page: &Page) -> (r: Vec<Tool>) {
        let mut tools: Vec<Tool> = Vec::new();
        let n = page.functions.len();
        let mut i: usize = 0;
        while i < n
            invariant
                i <= n,
                n == page.functions.keys().len(),
                tools@.len() == i,
                forall|k: int|
                    0 <= k < i ==> (#[trigger] tools@[k]).describes(
                        page.functions.keys()[k],
                        page.functions.values()[k],
                    ),
            decreases n - i,
        {
            let function = page.functions.value_at(i);
            tools.push(
                Tool {
                    tool_type: String::from_str("function"),
                    function: Function {
                        name: copy_str(page.functions.key_at(i)),
                        description: function.description.clone(),
                        parameters: Parameters::of(&function.parameters),
                    },
                },
            );
            i += 1;
        }
        tools
    }
}

/// What a caller asks to run: a function by its name, with its arguments.
#[derive(Debug)]
pub struct FunctionCall {
    pub name: String,
    pub arguments: StrMap<String>,
}

/// A request to run a function.
#[derive(Debug)]
pub struct Call {
    /// The caller's own mark for the call, which the result hands back.
    pub id: Option<String>,
    pub call_type: String,
    pub function: FunctionCall,
}

/// The type of a call that names none.
pub fn default_call_type() -> (r: String)
    ensures
        r@ == "function"@,
{
    String::from_str("function")
}

/// The result of a call.
#[derive(Debug)]
pub struct CallResultMessage {
    pub role: String,
    /// The mark of the call that this is the result of.
    pub call_id: Option<String>,
    /// What the command put out.
    pub content: String,
}

/// The role of a result that names none.
pub fn default_result_message_role() -> (r: String)
    ensures
        r@ == "tool"@,
{
    String::from_str("tool")
}

} // verus!
