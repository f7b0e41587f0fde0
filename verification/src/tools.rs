//! Tools a sequence may call: their definitions, the registry of a simple
//! toolbox, the prompt that describes the tools to the model, and the order in
//! which a batch of tool calls is carried out.
use std::collections::HashMap;

use vstd::prelude::*;

use crate::protocol::{SeqToolCall, ToolResult};
use crate::table::{
    entry, find_key, has_key, insert_entry, key_pos, keys_unique, lemma_key_pos, with_entry, Keyed,
};
use crate::text::{concat_str, join, joined, views};

verus! {

/// The JSON Schema type of a tool parameter.
#[derive(Debug, Clone, Copy, PartialEq, Eq)]
pub enum ToolSchemaType {
    Object,
    String,
    Number,
    Integer,
    Boolean,
    Array,
}

/// One parameter of a tool.
#[derive(Debug, Clone)]
pub struct ToolProperty {
    pub type_: ToolSchemaType,
    pub description: Option<String>,
    pub allowed_values: Option<Vec<String>>,
}

/// The parameters a tool takes, as a JSON Schema object.
#[derive(Debug, Clone)]
pub struct ToolParameters {
    pub type_: ToolSchemaType,
    pub properties: HashMap<String, ToolProperty>,
    pub required: Vec<String>,
}

impl Default for ToolParameters {
    fn default() -> (r: Self)
        ensures
            r.type_ == ToolSchemaType::Object,
            r.properties@.len() == 0,
            r.required@.len() == 0,
    {
        ToolParameters { type_: ToolSchemaType::Object, properties: HashMap::new(), required: Vec::new() }
    }
}

/// A tool: its name, what it does, and its parameters.
#[derive(Debug, Clone)]
pub struct ToolDefinition {
    pub name: String,
    pub description: String,
    pub parameters: ToolParameters,
}

/// A tool in a toolbox: its definition and its parameters rendered as
/// pretty-printed JSON.
#[derive(Debug, Clone)]
pub struct RegisteredTool {
    pub definition: ToolDefinition,
    pub parameters_json: String,
}

impl Keyed for RegisteredTool {
    open spec fn key(&self) -> Seq<char> {
        self.definition.name@
    }

    fn key_string(&self) -> (r: &String) {
        &self.definition.name
    }
}

/// The paragraph that describes one tool to the model.
pub open spec fn tool_prompt(t: RegisteredTool) -> Seq<char> {
    "Use the "@ + t.definition.name@ + " function to: "@ + t.definition.description@ + "\n\n"@
        + t.parameters_json@ + "\n"@
}

/// The description of all these tools, in order, separated by blank lines.
pub open spec fn tools_prompt(tools: Seq<RegisteredTool>) -> Seq<char> {
    joined(tools.map_values(|t: RegisteredTool| tool_prompt(t)), "\n\n"@)
}

/// The text of the error for a call of an unknown tool.
pub open spec fn tool_not_found(name: Seq<char>) -> Seq<char> {
    "tool "@ + name + " not found"@
}

/// Simple toolbox that expects a string input and returns a string output:
/// the registry of its tools, one per name. Calls tools sequentially.
#[derive(Debug)]
pub struct SimpleToolbox {
    tools: Vec<RegisteredTool>,
}

/// What to do next in a batch of tool calls.
#[derive(Debug)]
pub enum ToolStep {
    /// Call the tool in slot `tool` with `args`, then `record` its output.
    Call { tool: usize, args: String },
    /// Every call has its result.
    Done,
    /// The next call names no tool of the toolbox; the batch fails with this text.
    Failed(String),
}

/// A batch of tool calls in progress: the calls, and the results of the first
/// calls, in order.
#[derive(Debug)]
pub struct ToolRun {
    calls: Vec<SeqToolCall>,
    results: Vec<ToolResult>,
}

/// `r` is the result of call `c` with output `out`.
pub open spec fn result_of(c: SeqToolCall, r: ToolResult) -> bool {
    r.id == c.id && r.name == c.name
}

impl SimpleToolbox {
    /// The tools, in the order they were first added.
    pub closed spec fn tools(self) -> Seq<RegisteredTool> {
        self.tools@
    }

    /// No two tools share a name.
    pub closed spec fn wf(self) -> bool {
        keys_unique(self.tools@)
    }

    /// An empty toolbox.
    pub fn new() -> (r: Self)
        ensures
            r.wf(),
            r.tools().len() == 0,
    {
        SimpleToolbox { tools: Vec::new() }
    }

    /// Adds a tool, replacing the tool of the same name if there is one.
    /// Returns the slot the tool occupies.
    pub fn add_tool(&mut self, definition: ToolDefinition, parameters_json: String) -> (slot: usize)
        requires
            old(self).wf(),
        ensures
            final(self).wf(),
            final(self).tools() == with_entry(
                old(self).tools(),
                RegisteredTool { definition, parameters_json },
            ),
            slot < final(self).tools().len(),
            final(self).tools()[slot as int] == (RegisteredTool { definition, parameters_json }),
    {
        let t = RegisteredTool { definition, parameters_json };
        let slot = match find_key(&self.tools, &t.definition.name) {
            Some(i) => {
                proof {
                    lemma_key_pos(self.tools@, t.key(), i as int);
                }
                i
            },
            None => self.tools.len(),
        };
        insert_entry(&mut self.tools, t);
        slot
    }

    /// The slot of the tool named `name`, if there is one.
    pub fn call(&self, name: &String) -> (r: Option<usize>)
        requires
            self.wf(),
        ensures
            match r {
                Some(i) => i < self.tools().len() && self.tools()[i as int].key() == name@,
                None => !has_key(self.tools(), name@),
            },
    {
        find_key(&self.tools, name)
    }

    /// What to do next in `run`: call the tool the next call names, finish,
    /// or fail when it names no tool here.
    pub fn call_tools(&self, run: &ToolRun) -> (step: ToolStep)
        requires
            self.wf(),
            run.wf(),
        ensures
            ({
                let k = run.results().len();
                if k == run.calls().len() {
                    step is Done
                } else {
                    let c = run.calls()[k as int];
                    if has_key(self.tools(), c.name@) {
                        step == ToolStep::Call {
                            tool: key_pos(self.tools(), c.name@) as usize,
                            args: c.args,
                        }
                    } else {
                        step matches ToolStep::Failed(m) && m@ == tool_not_found(c.name@)
                    }
                }
            }),
    {
        let k = run.results.len();
        if k == run.calls.len() {
            return ToolStep::Done;
        }
        let c = &run.calls[k];
        match find_key(&self.tools, &c.name) {
            Some(i) => {
                proof {
                    lemma_key_pos(self.tools@, c.name@, i as int);
                }
                ToolStep::Call { tool: i, args: c.args.clone() }
            },
            None => {
                let m = concat_str(concat_str("tool ", c.name.as_str()).as_str(), " not found");
                ToolStep::Failed(m)
            },
        }
    }

    /// A prompt that describes every tool to the model: each tool's paragraph,
    /// separated by blank lines.
    pub fn tool_def_prompt(&self) -> (r: Option<String>)
        ensures
            r matches Some(s) && s@ == tools_prompt(self.tools()),
    {
        let mut parts: Vec<String> = Vec::new();
        let n = self.tools.len();
        let mut i: usize = 0;
        while i < n
            invariant
                n == self.tools@.len(),
                i <= n,
                views(parts@) == self.tools@.take(i as int).map_values(
                    |t: RegisteredTool| tool_prompt(t),
                ),
            decreases n - i,
        {
            let t = &self.tools[i];
            let a = concat_str("Use the ", t.definition.name.as_str());
            let b = concat_str(a.as_str(), " function to: ");
            let c = concat_str(b.as_str(), t.definition.description.as_str());
            let d = concat_str(c.as_str(), "\n\n");
            let e = concat_str(d.as_str(), t.parameters_json.as_str());
            let f = concat_str(e.as_str(), "\n");
            assert(f@ == tool_prompt(self.tools@[i as int]));
            let ghost before = parts@;
            parts.push(f);
            assert(views(parts@) =~= views(before).push(f@));
            assert(self.tools@.take(i + 1) =~= self.tools@.take(i as int).push(self.tools@[i as int]));
            assert(views(parts@) =~= self.tools@.take(i + 1).map_values(
                |t: RegisteredTool| tool_prompt(t),
            ));
            i = i + 1;
        }
        assert(self.tools@.take(n as int) =~= self.tools@);
        Some(join(&parts, "\n\n"))
    }
}

impl ToolRun {
    /// The calls of this batch, in order.
    pub closed spec fn calls(self) -> Seq<SeqToolCall> {
        self.calls@
    }

    /// The results so far: one per call, for the first calls.
    pub closed spec fn results(self) -> Seq<ToolResult> {
        self.results@
    }

    /// There are no more results than calls, and each result answers the call
    /// at its position.
    pub open spec fn wf(self) -> bool {
        &&& self.results().len() <= self.calls().len()
        &&& forall|i: int|
            0 <= i < self.results().len() ==> result_of(
                self.calls()[i],
                #[trigger] self.results()[i],
            )
    }

    /// A batch with no call carried out yet.
    pub fn new(calls: Vec<SeqToolCall>) -> (r: Self)
        ensures
            r.wf(),
            r.calls() == calls@,
            r.results().len() == 0,
    {
        ToolRun { calls, results: Vec::new() }
    }

    /// Records the output of the next call.
    pub fn record(&mut self, output: String)
        requires
            old(self).wf(),
            old(self).results().len() < old(self).calls().len(),
        ensures
            final(self).wf(),
            final(self).calls() == old(self).calls(),
            final(self).results() == old(self).results().push(
                ToolResult {
                    id: old(self).calls()[old(self).results().len() as int].id,
                    name: old(self).calls()[old(self).results().len() as int].name,
                    result: output,
                },
            ),
    {
        let k = self.results.len();
        let c = &self.calls[k];
        let id = crate::error::clone_opt_string(&c.id);
        let r = ToolResult { id, name: c.name.clone(), result: output };
        self.results.push(r);
    }

    /// The results of all the calls.
    pub fn finish(self) -> (r: Vec<ToolResult>)
        ensures
            r@ == self.results(),
    {
        self.results
    }
}


/// A batch of tool calls that has run to the end answers every call, in
/// order: result `i` carries the id and name of call `i`.
pub proof fn law_finished_run_answers_every_call(run: ToolRun)
    requires
        run.wf(),
        run.results().len() == run.calls().len(),
    ensures
        forall|i: int|
            0 <= i < run.calls().len() ==> (#[trigger] run.results()[i]).id == run.calls()[i].id
                && run.results()[i].name == run.calls()[i].name,
{
    assert forall|i: int| 0 <= i < run.calls().len() implies (#[trigger] run.results()[i]).id
        == run.calls()[i].id && run.results()[i].name == run.calls()[i].name by {
        assert(result_of(run.calls()[i], run.results()[i]));
    }
}
} // verus!
