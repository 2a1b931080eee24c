//! What a step sees of the run when its prompt is rendered.

use crate::model::state::Timestamp;
use crate::model::variables::{bind, lookup, Variables};
use crate::text::{concat, decimal, decimal_string};
use vstd::prelude::*;

verus! {

/// A note that one step leaves for another.
#[derive(Debug)]
pub struct ContextNote {
    /// The text of the note.
    pub content: String,
    /// The step that wrote it.
    pub from_step: String,
    /// When it was written.
    pub timestamp: Timestamp,
}

/// The variables, step outputs and notes that a prompt is rendered from.
#[derive(Debug)]
pub struct PipelineContext {
    /// The variables of the pipeline.
    pub variables: Variables,
    /// The outputs of the completed steps, by step id.
    pub step_outputs: Variables,
    /// The step that is about to run.
    pub current_step_id: Option<String>,
    /// The notes left so far.
    pub notes: Vec<ContextNote>,
    /// Other data about the run.
    pub metadata: Variables,
}

/// The line that shows the `number`-th note.
pub open spec fn note_line(number: nat, note: ContextNote) -> Seq<char> {
    decimal(number) + ". [from "@ + note.from_step@ + "] "@ + note.content@ + "\n"@
}

/// The notes, one per line, numbered from one.
pub open spec fn notes_text(notes: Seq<ContextNote>) -> Seq<char>
    decreases notes.len(),
{
    if notes.len() == 0 {
        Seq::empty()
    } else {
        notes_text(notes.drop_last()) + note_line(notes.len(), notes.last())
    }
}

/// The name under which the output of the step `id` is known to templates.
pub open spec fn output_name(id: Seq<char>) -> Seq<char> {
    "steps."@ + id + ".output"@
}

/// `vars` with each output of `outputs` bound under its name.
pub open spec fn with_outputs(
    vars: Seq<(Seq<char>, Seq<char>)>,
    outputs: Seq<(Seq<char>, Seq<char>)>,
) -> Seq<(Seq<char>, Seq<char>)>
    decreases outputs.len(),
{
    if outputs.len() == 0 {
        vars
    } else {
        bind(
            with_outputs(vars, outputs.drop_last()),
            output_name(outputs.last().0),
            outputs.last().1,
        )
    }
}

impl PipelineContext {
    /// The variables that a template is rendered with: the variables of the
    /// pipeline, then the step outputs, the current step and the notes, each
    /// under its name.
    pub open spec fn rendering_variables(self) -> Seq<(Seq<char>, Seq<char>)> {
        let with_steps = with_outputs(self.variables@, self.step_outputs@);
        let with_current = match self.current_step_id {
            Some(id) => bind(with_steps, "current_step"@, id@),
            None => with_steps,
        };
        if self.notes@.len() > 0 {
            bind(with_current, "notes"@, notes_text(self.notes@))
        } else {
            with_current
        }
    }

    /// The empty context.
    pub fn new() -> (c: Self)
        ensures
            c.variables@.len() == 0,
            c.step_outputs@.len() == 0,
            c.current_step_id is None,
            c.notes@.len() == 0,
            c.metadata@.len() == 0,
    {
        PipelineContext {
            variables: Variables::new(),
            step_outputs: Variables::new(),
            current_step_id: None,
            notes: Vec::new(),
            metadata: Variables::new(),
        }
    }

    /// Binds the variable `key` to `value`.
    pub fn set_variable(&mut self, key: String, value: String)
        ensures
            final(self).variables@ == bind(old(self).variables@, key@, value@),
            final(self).step_outputs == old(self).step_outputs,
            final(self).current_step_id == old(self).current_step_id,
            final(self).notes == old(self).notes,
            final(self).metadata == old(self).metadata,
    {
        self.variables.insert(key, value);
    }

    /// The text bound to the variable `key`.
    pub fn get_variable(&self, key: &str) -> (r: Option<&String>)
        ensures
            crate::text::opt_ref_text(r) == lookup(self.variables@, key@),
    {
        self.variables.get(key)
    }

    /// Records `output` as the output of the step `step_id`.
    pub fn set_step_output(&mut self, step_id: &str, output: String)
        ensures
            final(self).step_outputs@ == bind(old(self).step_outputs@, step_id@, output@),
            final(self).variables == old(self).variables,
            final(self).current_step_id == old(self).current_step_id,
            final(self).notes == old(self).notes,
            final(self).metadata == old(self).metadata,
    {
        self.step_outputs.insert(step_id.to_owned(), output);
    }

    /// The output recorded for the step `step_id`.
    pub fn get_step_output(&self, step_id: &str) -> (r: Option<&String>)
        ensures
            crate::text::opt_ref_text(r) == lookup(self.step_outputs@, step_id@),
    {
        self.step_outputs.get(step_id)
    }

    /// Adds a note written now by the step `from_step`.
    pub fn add_note(&mut self, content: String, from_step: String)
        ensures
            final(self).notes@.len() == old(self).notes@.len() + 1,
            final(self).notes@.drop_last() == old(self).notes@,
            final(self).notes@.last().content == content,
            final(self).notes@.last().from_step == from_step,
            final(self).variables == old(self).variables,
            final(self).step_outputs == old(self).step_outputs,
            final(self).current_step_id == old(self).current_step_id,
            final(self).metadata == old(self).metadata,
    {
        let note = ContextNote { content, from_step, timestamp: Timestamp::now() };
        self.notes.push(note);
    }

    /// The notes, one per line, numbered from one.
    pub fn format_notes(&self) -> (s: String)
        ensures
            s@ == notes_text(self.notes@),
    {
        let mut s = String::new();
        let mut i: usize = 0;
        while i < self.notes.len()
            invariant
                i <= self.notes.len(),
                s@ == notes_text(self.notes@.take(i as int)),
            decreases self.notes.len() - i,
        {
            let number = decimal_string((i + 1) as u64);
            s.append(number.as_str());
            s.append(". [from ");
            s.append(self.notes[i].from_step.as_str());
            s.append("] ");
            s.append(self.notes[i].content.as_str());
            s.append("\n");
            proof {
                let upto = self.notes@.take(i + 1);
                assert(upto.drop_last() =~= self.notes@.take(i as int));
            }
            i = i + 1;
        }
        proof {
            assert(self.notes@.take(self.notes.len() as int) =~= self.notes@);
        }
        s
    }

    /// The variables that a template is rendered with.
    pub fn get_rendering_variables(&self) -> (vars: Variables)
        ensures
            vars@ == self.rendering_variables(),
    {
        let mut vars = self.variables.duplicate();
        let n = self.step_outputs.len();
        let mut i: usize = 0;
        while i < n
            invariant
                i <= n,
                n == self.step_outputs@.len(),
                vars@ == with_outputs(self.variables@, self.step_outputs@.take(i as int)),
            decreases n - i,
        {
            let head = concat("steps.", self.step_outputs.key_at(i).as_str());
            let name = concat(head.as_str(), ".output");
            proof {
                let upto = self.step_outputs@.take(i + 1);
                assert(upto.drop_last() =~= self.step_outputs@.take(i as int));
            }
            vars.insert(name, self.step_outputs.value_at(i).clone());
            i = i + 1;
        }
        proof {
            assert(self.step_outputs@.take(n as int) =~= self.step_outputs@);
        }
        if let Some(current) = &self.current_step_id {
            vars.insert("current_step".to_owned(), current.clone());
        }
        if self.notes.len() > 0 {
            vars.insert("notes".to_owned(), self.format_notes());
        }
        vars
    }
}

impl Default for PipelineContext {
    fn default() -> (c: Self)
        ensures
            c.variables@.len() == 0,
            c.step_outputs@.len() == 0,
            c.current_step_id is None,
            c.notes@.len() == 0,
            c.metadata@.len() == 0,
    {
        PipelineContext::new()
    }
}

} // verus!
