//! The description of one tool capability as the core reads it: a name,
//! unique within a request, a human-readable description, and the JSON
//! text of the declared argument schema. Name lookup over a supplied set
//! is exact and case-sensitive.

use vstd::prelude::*;

use crate::text::str_eq;

verus! {

/// One tool capability, as advertised to the model. The caller owns the
/// live tool; the core only reads this description of it.
#[derive(Clone, Debug)]
pub struct ToolInfo {
    /// The tool's name, unique within one request.
    pub name: String,
    /// What the tool does, for the system prompt.
    pub description: String,
    /// The JSON text of the tool's argument schema.
    pub parameters: String,
}

/// The mathematical model of a tool description.
pub ghost struct ToolModel {
    pub name: Seq<char>,
    pub description: Seq<char>,
    pub parameters: Seq<char>,
}

impl View for ToolInfo {
    type V = ToolModel;

    open spec fn view(&self) -> ToolModel {
        ToolModel {
            name: self.name@,
            description: self.description@,
            parameters: self.parameters@,
        }
    }
}

impl DeepView for ToolInfo {
    type V = ToolModel;

    open spec fn deep_view(&self) -> ToolModel {
        self.view()
    }
}

impl ToolInfo {
    /// Builds a tool description from its three parts.
    pub fn new(name: String, description: String, parameters: String) -> (t: ToolInfo)
        ensures
            t@ == (ToolModel {
                name: name@,
                description: description@,
                parameters: parameters@,
            }),
    {
        ToolInfo { name, description, parameters }
    }
}

/// Index `k` is the first tool in `tools` carrying exactly `name`.
pub open spec fn resolves_to(tools: Seq<ToolModel>, name: Seq<char>, k: int) -> bool {
    0 <= k < tools.len() && tools[k].name == name && (forall|j: int|
        0 <= j < k ==> tools[j].name != name)
}

/// No tool in `tools` carries exactly `name`.
pub open spec fn no_tool_named(tools: Seq<ToolModel>, name: Seq<char>) -> bool {
    forall|j: int| 0 <= j < tools.len() ==> tools[j].name != name
}

/// Finds the first tool with exactly the given name, if any. Lookup is
/// case-sensitive and exact.
pub fn find_tool(tools: &Vec<ToolInfo>, name: &str) -> (r: Option<usize>)
    ensures
        match r {
            Some(k) => resolves_to(tools.deep_view(), name@, k as int),
            None => no_tool_named(tools.deep_view(), name@),
        },
{
    let n = tools.len();
    let mut k: usize = 0;
    while k < n
        invariant
            k <= n,
            n == tools@.len(),
            forall|j: int| 0 <= j < k ==> tools.deep_view()[j].name != name@,
        decreases n - k,
    {
        if str_eq(tools[k].name.as_str(), name) {
            return Some(k);
        }
        k = k + 1;
    }
    None
}

} // verus!
