//! The closed set of tools that the generation backend may ask for.

use vstd::prelude::*;
use crate::error::AgentError;
use crate::text::str_eq;

verus! {

/// Retrieval of web evidence for a query.
pub struct WebSearch;

/// The tool that does nothing; its output is empty.
pub struct Noop;

/// Control of home devices; known by name, with no implementation registered.
pub struct HomeAutomation;

impl WebSearch {
    pub fn name(&self) -> (r: &'static str)
        ensures
            r@ == ToolKind::WebSearch.spec_name(),
    {
        "WEB_SEARCH"
    }
}

impl Noop {
    pub fn name(&self) -> (r: &'static str)
        ensures
            r@ == ToolKind::Noop.spec_name(),
    {
        "NONE"
    }

    /// The output of the tool: always empty.
    pub fn get_output(&self, input: &str) -> (r: String)
        ensures
            r@ == Seq::<char>::empty(),
    {
        String::new()
    }
}

impl HomeAutomation {
    pub fn name(&self) -> (r: &'static str)
        ensures
            r@ == ToolKind::HomeAutomation.spec_name(),
    {
        "HOME_AUTOMATION"
    }
}

/// A tool, by kind.
#[derive(Debug, Clone, Copy, PartialEq, Eq, Structural)]
pub enum ToolKind {
    WebSearch,
    Noop,
    HomeAutomation,
}

impl ToolKind {
    pub open spec fn spec_name(self) -> Seq<char> {
        match self {
            ToolKind::WebSearch => "WEB_SEARCH"@,
            ToolKind::Noop => "NONE"@,
            ToolKind::HomeAutomation => "HOME_AUTOMATION"@,
        }
    }

    pub fn name(&self) -> (r: &'static str)
        ensures
            r@ == self.spec_name(),
    {
        match self {
            ToolKind::WebSearch => WebSearch.name(),
            ToolKind::Noop => Noop.name(),
            ToolKind::HomeAutomation => HomeAutomation.name(),
        }
    }
}

/// The name of the action that asks for no tool.
pub open spec fn none_action() -> Seq<char> {
    "NONE"@
}

/// The first tool of `tools` named `name`, if any.
pub open spec fn lookup_tool(tools: Seq<ToolKind>, name: Seq<char>) -> Option<ToolKind>
    decreases tools.len(),
{
    if tools.len() == 0 {
        None
    } else if tools[0].spec_name() == name {
        Some(tools[0])
    } else {
        lookup_tool(tools.drop_first(), name)
    }
}

/// The tools that a turn may dispatch to, resolved by exact name.
pub struct ToolRegistry {
    tools: Vec<ToolKind>,
}

impl ToolRegistry {
    pub closed spec fn tools_view(&self) -> Seq<ToolKind> {
        self.tools@
    }

    /// The registry of web search and the empty tool.
    pub fn standard() -> (r: ToolRegistry)
        ensures
            r.tools_view() == seq![ToolKind::WebSearch, ToolKind::Noop],
    {
        let tools: Vec<ToolKind> = vec![ToolKind::WebSearch, ToolKind::Noop];
        ToolRegistry { tools }
    }

    /// The registered tool named `name`; an unregistered name is a configuration error.
    pub fn select_tool(&self, name: &str) -> (r: Result<ToolKind, AgentError>)
        ensures
            match lookup_tool(self.tools_view(), name@) {
                Some(t) => r == Ok::<ToolKind, AgentError>(t),
                None => match r {
                    Err(AgentError::UnknownTool(n)) => n@ == name@,
                    _ => false,
                },
            },
    {
        let mut i: usize = 0;
        assert(self.tools@.skip(0) =~= self.tools@);
        while i < self.tools.len()
            invariant
                i <= self.tools.len(),
                lookup_tool(self.tools@, name@) == lookup_tool(self.tools@.skip(i as int), name@),
            decreases self.tools.len() - i,
        {
            let t = self.tools[i];
            assert(self.tools@.skip(i as int)[0] == t);
            assert(self.tools@.skip(i as int).drop_first() =~= self.tools@.skip(i + 1));
            if str_eq(t.name(), name) {
                return Ok(t);
            }
            i = i + 1;
        }
        assert(self.tools@.skip(i as int) =~= Seq::<ToolKind>::empty());
        Err(AgentError::UnknownTool(name.to_owned()))
    }

    /// The names that the backend may choose from: each registered tool's name.
    pub fn valid_actions(&self) -> (r: Vec<String>)
        ensures
            r.len() == self.tools_view().len(),
            forall|i: int| 0 <= i < r.len() ==> (#[trigger] r@[i])@ == self.tools_view()[i].spec_name(),
    {
        let mut r: Vec<String> = Vec::new();
        let mut i: usize = 0;
        while i < self.tools.len()
            invariant
                i <= self.tools.len(),
                r.len() == i,
                forall|j: int| 0 <= j < i ==> (#[trigger] r@[j])@ == self.tools@[j].spec_name(),
            decreases self.tools.len() - i,
        {
            r.push(self.tools[i].name().to_owned());
            i = i + 1;
        }
        r
    }
}

} // verus!
