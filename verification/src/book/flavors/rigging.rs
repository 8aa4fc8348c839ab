use crate::book::{Function as PageFunction, Page, Parameter as PageParameter, Projection};
use crate::text::{copy_str, copy_strings, str_eq, texts};
use vstd::prelude::*;
use vstd::string::StringExecFns;

verus! {

/// One parameter of a function in the tool-framework schema.
#[derive(Debug)]
pub struct Parameter {
    pub name: String,
    pub param_type: String,
    pub description: String,
    pub examples: Vec<String>,
}

/// The name that the tool framework has for the type `s`: `str` for `string`, `s` itself
/// for any other.
pub open spec fn param_type_name(s: Seq<char>) -> Seq<char> {
    if s == "string"@ {
        "str"@
    } else {
        s
    }
}

/// The name that the tool framework has for the type `s`.
pub fn rigging_param_type(s: &str) -> (r: String)
    ensures
        r@ == param_type_name(s@),
{
    if str_eq(s, "string") {
        return String::from_str("str");
    }
    copy_str(s)
}

/// One function of a page in the tool-framework schema.
#[derive(Debug)]
pub struct Function {
    pub name: String,
    pub description: String,
    pub parameters: Vec<Parameter>,
}

/// One page of the catalog in the tool-framework schema.
#[derive(Debug)]
pub struct Tool {
    pub name: String,
    pub description: Option<String>,
    pub functions: Vec<Function>,
}

impl Parameter {
    /// Whether this is the record of the parameter `parameter` that goes by `name`.
    pub open spec fn describes(&self, name: Seq<char>, parameter: PageParameter) -> bool {
        &&& self.name@ == name
        &&& self.param_type@ == param_type_name(parameter.param_type@)
        &&& self.description@ == parameter.description@
        &&& texts(self.examples@) == match parameter.examples {
            Some(examples) => texts(examples@),
            None => Seq::empty(),
        }
    }
}

impl Function {
    /// Whether this is the record of the function `function` that goes by `name`.
    pub open spec fn describes(&self, name: Seq<char>, function: PageFunction) -> bool {
        &&& self.name@ == name
        &&& self.description@ == function.description@
        &&& self.parameters@.len() == function.parameters.keys().len()
        &&& forall|j: int|
            0 <= j < self.parameters@.len() ==> (#[trigger] self.parameters@[j]).describes(
                function.parameters.keys()[j],
                function.parameters.values()[j],
            )
    }

    /// The record of the function `function` that goes by `name`.
    pub fn of(name: &str, function: &PageFunction) -> (r: Function)
        ensures
            r.describes(name@, *function),
    {
        let mut parameters: Vec<Parameter> = Vec::new();
        let n = function.parameters.len();
        let mut j: usize = 0;
        while j < n
            invariant
                j <= n,
                n == function.parameters.keys().len(),
                parameters@.len() == j,
                forall|i: int|
                    0 <= i < j ==> (#[trigger] parameters@[i]).describes(
                        function.parameters.keys()[i],
                        function.parameters.values()[i],
                    ),
            decreases n - j,
        {
            let parameter = function.parameters.value_at(j);
            let examples = match &parameter.examples {
                Some(examples) => copy_strings(examples),
                None => {
                    let none: Vec<String> = Vec::new();
                    assert(texts(none@) =~= Seq::<Seq<char>>::empty());
                    none
                },
            };
            parameters.push(
                Parameter {
                    name: copy_str(function.parameters.key_at(j)),
                    param_type: rigging_param_type(parameter.param_type.as_str()),
                    description: parameter.description.clone(),
                    examples,
                },
            );
            j += 1;
        }
        Function { name: copy_str(name), description: function.description.clone(), parameters }
    }
}

/// The tool of a page: its name and description, and one record for each function, in
/// the order of their names.
impl Projection for Tool {
    open spec fn count(page: Page) -> nat {
        1
    }

    open spec fn shows(page: Page, out: Seq<Tool>) -> bool {
        &&& out.len() == 1
        &&& out[0].name@ == page.name@
        &&& out[0].description == page.description
        &&& out[0].functions@.len() == page.functions.keys().len()
        &&& forall|i: int|
            0 <= i < out[0].functions@.len() ==> (#[trigger] out[0].functions@[i]).describes(
                page.functions.keys()[i],
                page.functions.values()[i],
            )
    }

    fn from_page(page: &Page) -> (r: Vec<Tool>) {
        let mut functions: Vec<Function> = Vec::new();
        let n = page.functions.len();
        let mut i: usize = 0;
        while i < n
            invariant
                i <= n,
                n == page.functions.keys().len(),
                functions@.len() == i,
                forall|k: int|
                    0 <= k < i ==> (#[trigger] functions@[k]).describes(
                        page.functions.keys()[k],
                        page.functions.values()[k],
                    ),
            decreases n - i,
        {
            functions.push(Function::of(page.functions.key_at(i), page.functions.value_at(i)));
            i += 1;
        }
        let mut tools: Vec<Tool> = Vec::new();
        tools.push(Tool { name: page.name.clone(), description: page.description.clone(), functions });
        tools
    }
}

} // verus!
