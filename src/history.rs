//! The timeline of breaks: an append-only list of snapshots with a cursor.
use vstd::prelude::*;

use crate::analyzer::VariableRef;
use crate::dbgp::ContextGetResponse;
use crate::dbgp::property_copy;
use crate::dbgp::Property;
use crate::xml::str_equal;
use crate::dbgp::EvalResponse;

verus! {

/// The source shown for one frame: its text, file and 1-based break line.
#[derive(Clone, Debug)]
pub struct SourceContext {
    pub source: String,
    pub filename: String,
    pub line_no: u32,
}

impl SourceContext {
    /// An empty context: no text, no file, line 0.
    pub fn default() -> (r: SourceContext)
        ensures
            r.source@ == Seq::<char>::empty(),
            r.filename@ == Seq::<char>::empty(),
            r.line_no == 0,
    {
        SourceContext { source: String::new(), filename: String::new(), line_no: 0 }
    }
}

/// One frame of a snapshot; `context` is absent until it has been fetched.
#[derive(Debug)]
pub struct StackFrame {
    pub level: u16,
    pub source: SourceContext,
    pub context: Option<ContextGetResponse>,
}

/// `props[i]` is the first property named `name`.
pub open spec fn first_named(props: Seq<Property>, i: int, name: Seq<char>) -> bool {
    &&& 0 <= i < props.len()
    &&& props[i].name@ == name
    &&& forall|j: int| 0 <= j < i ==> (#[trigger] props[j]).name@ != name
}

impl StackFrame {
    /// The first property of the frame named `name`, once the frame's context has
    /// been fetched.
    pub fn get_property(&self, name: &str) -> (r: Option<&Property>)
        ensures
            match r {
                Some(p) => self.context matches Some(c) && exists|i: int|
                    #[trigger] first_named(c.properties@, i, name@) && c.properties@[i] == *p,
                None => match self.context {
                    Some(c) => forall|j: int|
                        0 <= j < c.properties@.len() ==> (#[trigger] c.properties@[j]).name@ != name@,
                    None => true,
                },
            },
    {
        match &self.context {
            Some(c) => {
                let mut i: usize = 0;
                while i < c.properties.len()
                    invariant
                        0 <= i <= c.properties@.len(),
                        self.context == Some(*c),
                        forall|j: int| 0 <= j < i ==> (#[trigger] c.properties@[j]).name@ != name@,
                    decreases c.properties@.len() - i,
                {
                    if str_equal(c.properties[i].name.as_str(), name) {
                        assert(first_named(c.properties@, i as int, name@));

                        return Some(&c.properties[i]);
                    }
                    i = i + 1;
                }
                None
            },
            None => None,
        }
    }
}

/// A variable of the source and the property that holds its value.
#[derive(Debug)]
pub struct Variable {
    pub var_ref: VariableRef,
    pub value: Property,
}

/// The properties of a frame, none before they are fetched.
pub open spec fn frame_properties(frame: StackFrame) -> Seq<Property> {
    match frame.context {
        Some(c) => c.properties@,
        None => Seq::empty(),
    }
}

/// Whether some property is named `name`.
pub open spec fn has_named(props: Seq<Property>, name: Seq<char>) -> bool {
    exists|i: int| #[trigger] first_named(props, i, name)
}

/// The variables that have a property of their name, in order.
pub open spec fn matched_vars(vars: Seq<VariableRef>, props: Seq<Property>) -> Seq<VariableRef>
    decreases vars.len(),
{
    if vars.len() == 0 {
        Seq::empty()
    } else {
        let prev = matched_vars(vars.drop_last(), props);
        if has_named(props, vars.last().name@) {
            prev.push(vars.last())
        } else {
            prev
        }
    }
}

/// Joins the variables of a line with the frame's properties by name: each variable
/// that has a property of its name, with a copy of the first such property.
pub fn annotate(vars: &Vec<VariableRef>, frame: &StackFrame) -> (r: Vec<Variable>)
    ensures
        r@.len() == matched_vars(vars@, frame_properties(*frame)).len(),
        forall|k: int|
            0 <= k < r@.len() ==> (#[trigger] r@[k]).var_ref == matched_vars(
                vars@,
                frame_properties(*frame),
            )[k] && exists|i: int|
                first_named(frame_properties(*frame), i, r@[k].var_ref.name@) && property_copy(
                    r@[k].value,
                    frame_properties(*frame)[i],
                ),
        forall|k: int| 0 <= k < r@.len() ==> exists|j: int| 0 <= j < vars@.len() && #[trigger] vars@[j] == (#[trigger] r@[k]).var_ref,
        forall|j: int|
            0 <= j < vars@.len() && has_named(frame_properties(*frame), (#[trigger] vars@[j]).name@) ==> exists|k: int|
                0 <= k < r@.len() && (#[trigger] r@[k]).var_ref == vars@[j],
        (forall|i: int, j: int| 0 <= i < j < vars@.len() ==> #[trigger] vars@[i] != #[trigger] vars@[j])
            ==> forall|k: int, l: int| 0 <= k < l < r@.len() ==> (#[trigger] r@[k]).var_ref != (#[trigger] r@[l]).var_ref,
{
    let ghost props = frame_properties(*frame);
    let mut out: Vec<Variable> = Vec::new();
    let mut n: usize = 0;
    while n < vars.len()
        invariant
            0 <= n <= vars@.len(),
            props == frame_properties(*frame),
            out@.len() == matched_vars(vars@.subrange(0, n as int), props).len(),
            forall|k: int|
                0 <= k < out@.len() ==> (#[trigger] out@[k]).var_ref == matched_vars(
                    vars@.subrange(0, n as int),
                    props,
                )[k] && exists|i: int|
                    first_named(props, i, out@[k].var_ref.name@) && property_copy(
                        out@[k].value,
                        props[i],
                    ),
            forall|k: int| 0 <= k < out@.len() ==> exists|j: int| 0 <= j < n && #[trigger] vars@[j] == (#[trigger] out@[k]).var_ref,
            forall|j: int|
                0 <= j < n && has_named(props, (#[trigger] vars@[j]).name@) ==> exists|k: int|
                    0 <= k < out@.len() && (#[trigger] out@[k]).var_ref == vars@[j],
            (forall|i: int, j: int| 0 <= i < j < vars@.len() ==> #[trigger] vars@[i] != #[trigger] vars@[j])
                ==> forall|k: int, l: int| 0 <= k < l < out@.len() ==> (#[trigger] out@[k]).var_ref != (#[trigger] out@[l]).var_ref,
        decreases vars@.len() - n,
    {
        let ghost prefix = vars@.subrange(0, (n + 1) as int);
        assert(prefix.drop_last() =~= vars@.subrange(0, n as int));
        let var = &vars[n];
        let ghost old_out = out@;
        match frame.get_property(var.name.as_str()) {
            Some(p) => {
                let ghost i = choose|i: int| #[trigger] first_named(props, i, var.name@) && props[i] == *p;
                let value = p.duplicate();
                out.push(Variable { var_ref: var.duplicate(), value });
                assert(has_named(props, var.name@));
                assert(out@.last().var_ref == matched_vars(prefix, props).last());
                assert(first_named(props, i, out@.last().var_ref.name@));
                assert(out@[out@.len() - 1].var_ref == vars@[n as int]);
            },
            None => {
                assert(!has_named(props, var.name@)) by {
                    if has_named(props, var.name@) {
                        let i = choose|i: int| #[trigger] first_named(props, i, var.name@);
                        assert(props[i].name@ == var.name@);
                    }
                }
            },
        }
        proof {
            assert(forall|k: int| 0 <= k < old_out.len() ==> out@[k] == old_out[k]);
            if forall|i: int, j: int| 0 <= i < j < vars@.len() ==> #[trigger] vars@[i] != #[trigger] vars@[j] {
                assert forall|k: int, l: int| 0 <= k < l < out@.len() implies (#[trigger] out@[k]).var_ref
                    != (#[trigger] out@[l]).var_ref by {
                    if l == old_out.len() && out@.len() > old_out.len() {
                        let a = choose|j: int| 0 <= j < n && #[trigger] vars@[j] == (#[trigger] old_out[k]).var_ref;
                        assert(vars@[a] != vars@[n as int]);
                    } else {
                        assert(old_out[k] == out@[k] && old_out[l] == out@[l]);
                    }
                }
            }
            assert forall|j: int|
                0 <= j < n + 1 && has_named(props, (#[trigger] vars@[j]).name@) implies exists|k: int|
                    0 <= k < out@.len() && (#[trigger] out@[k]).var_ref == vars@[j] by {
                if j < n {
                    let k = choose|k: int| 0 <= k < old_out.len() && (#[trigger] old_out[k]).var_ref == vars@[j];
                    assert(out@[k] == old_out[k]);
                } else {
                    assert(out@.len() == old_out.len() + 1);
                    assert(out@[out@.len() - 1].var_ref == vars@[j]);
                }
            }
        }
        n = n + 1;
    }
    assert(vars@.subrange(0, vars@.len() as int) =~= vars@);
    out
}

/// Inline annotations, by file name and break line.
pub struct DocumentVariables {
    pub entries: Vec<(String, u32, Vec<Variable>)>,
}

impl DocumentVariables {
    /// Each file name and line appear at most once.
    pub open spec fn wf(&self) -> bool {
        forall|i: int, j: int|
            0 <= i < j < self.entries@.len() ==> !(#[trigger] self.entries@[i].0@ == #[trigger] self.entries@[j].0@
                && self.entries@[i].1 == self.entries@[j].1)
    }

    /// The index of the annotations of `filename` at `line`, if any.
    pub open spec fn index_of(&self, filename: Seq<char>, line: u32) -> Option<int> {
        if exists|i: int| 0 <= i < self.entries@.len() && #[trigger] self.entries@[i].0@ == filename && self.entries@[i].1 == line {
            Some(choose|i: int| 0 <= i < self.entries@.len() && #[trigger] self.entries@[i].0@ == filename && self.entries@[i].1 == line)
        } else {
            None
        }
    }

    /// No annotations.
    pub fn new() -> (r: DocumentVariables)
        ensures
            r.wf(),
            r.entries@.len() == 0,
    {
        DocumentVariables { entries: Vec::new() }
    }

    fn find(&self, filename: &str, line_no: u32) -> (r: Option<usize>)
        requires
            self.wf(),
        ensures
            match r {
                Some(i) => i < self.entries@.len() && self.entries@[i as int].0@ == filename@
                    && self.entries@[i as int].1 == line_no && self.index_of(filename@, line_no) == Some(i as int),
                None => self.index_of(filename@, line_no).is_none(),
            },
    {
        let mut i: usize = 0;
        while i < self.entries.len()
            invariant
                0 <= i <= self.entries@.len(),
                self.wf(),
                forall|j: int| 0 <= j < i ==> !(#[trigger] self.entries@[j].0@ == filename@ && self.entries@[j].1 == line_no),
            decreases self.entries@.len() - i,
        {
            if self.entries[i].1 == line_no && str_equal(self.entries[i].0.as_str(), filename) {
                proof {
                    let k = choose|k: int| 0 <= k < self.entries@.len() && #[trigger] self.entries@[k].0@ == filename@ && self.entries@[k].1 == line_no;
                    if k < i {
                        assert(!(self.entries@[k].0@ == filename@ && self.entries@[k].1 == line_no));
                    } else if k > i {
                        assert(!(self.entries@[i as int].0@ == self.entries@[k].0@ && self.entries@[i as int].1 == self.entries@[k].1));
                    }
                }
                return Some(i);
            }
            i = i + 1;
        }
        None
    }

    /// Sets the annotations of the context's file and line.
    pub fn put(&mut self, context: &SourceContext, variables: Vec<Variable>)
        requires
            old(self).wf(),
        ensures
            final(self).wf(),
            final(self).index_of(context.filename@, context.line_no) matches Some(i)
                && final(self).entries@[i].2 == variables,
            match old(self).index_of(context.filename@, context.line_no) {
                Some(i) => final(self).entries@ == old(self).entries@.update(
                    i,
                    (old(self).entries@[i].0, old(self).entries@[i].1, variables),
                ),
                None => final(self).entries@ == old(self).entries@.push(
                    (context.filename, context.line_no, variables),
                ),
            },
    {
        match self.find(context.filename.as_str(), context.line_no) {
            Some(i) => {
                let ghost before = self.entries@;
                let old_entry = self.entries.remove(i);
                let (name, line, _) = old_entry;
                let ghost entry = (name, line, variables);
                self.entries.insert(i, (name, line, variables));
                assert(self.entries@ =~= before.update(i as int, entry));
                proof {
                    assert(self.entries@[i as int].0@ == context.filename@ && self.entries@[i as int].1 == context.line_no);
                    assert forall|a: int, b: int|
                        0 <= a < b < self.entries@.len() implies !(#[trigger] self.entries@[a].0@ == #[trigger] self.entries@[b].0@
                            && self.entries@[a].1 == self.entries@[b].1) by {
                        assert(before[a].0 == self.entries@[a].0 && before[a].1 == self.entries@[a].1);
                        assert(before[b].0 == self.entries@[b].0 && before[b].1 == self.entries@[b].1);
                    }
                    let k = choose|k: int| 0 <= k < self.entries@.len() && #[trigger] self.entries@[k].0@ == context.filename@ && self.entries@[k].1 == context.line_no;
                    if k != i {
                        assert(before[k].0 == self.entries@[k].0 && before[k].1 == self.entries@[k].1);
                        if k < i {
                            assert(!(before[k].0@ == before[i as int].0@ && before[k].1 == before[i as int].1));
                        } else {
                            assert(!(before[i as int].0@ == before[k].0@ && before[i as int].1 == before[k].1));
                        }
                    }
                }
            },
            None => {
                let ghost before = self.entries@;
                self.entries.push((context.filename.clone(), context.line_no, variables));
                proof {
                    let last = before.len() as int;
                    assert(self.entries@[last].0@ == context.filename@);
                    let k = choose|k: int| 0 <= k < self.entries@.len() && #[trigger] self.entries@[k].0@ == context.filename@ && self.entries@[k].1 == context.line_no;
                    if k < last {
                        assert(before[k] == self.entries@[k]);
                    }
                }
            },
        }
    }

    /// The annotations of `source_file` at `line_no`, if any were set.
    pub fn get(&self, source_file: &String, line_no: u32) -> (r: Option<&Vec<Variable>>)
        requires
            self.wf(),
        ensures
            match r {
                Some(v) => self.index_of(source_file@, line_no) matches Some(i) && *v == self.entries@[i].2,
                None => self.index_of(source_file@, line_no).is_none(),
            },
    {
        match self.find(source_file.as_str(), line_no) {
            Some(i) => Some(&self.entries[i].2),
            None => None,
        }
    }
}

/// An evaluated expression and what the engine answered.
#[derive(Debug)]
pub struct EvalEntry {
    pub expr: String,
    pub response: EvalResponse,
}

/// One snapshot: the frames innermost first, and an optional evaluation.
#[derive(Debug)]
pub struct HistoryEntry {
    pub stacks: Vec<StackFrame>,
    pub eval: Option<EvalEntry>,
}

impl HistoryEntry {
    /// An entry with no frames and no evaluation.
    pub fn new() -> (r: HistoryEntry)
        ensures
            r.stacks@.len() == 0,
            r.eval.is_none(),
    {
        HistoryEntry { stacks: Vec::new(), eval: None }
    }

    /// Appends a frame below those already held.
    pub fn push(&mut self, frame: StackFrame)
        ensures
            final(self).stacks@ == old(self).stacks@.push(frame),
            final(self).eval == old(self).eval,
    {
        self.stacks.push(frame);
    }

    /// The stub entry seeded on connection: one frame at level 0 on `filename`, line 0.
    pub fn initial(filename: String, source: String) -> (r: HistoryEntry)
        ensures
            r.stacks@.len() == 1,
            r.stacks@[0].level == 0,
            r.stacks@[0].source.filename == filename,
            r.stacks@[0].source.source == source,
            r.stacks@[0].source.line_no == 0,
            r.stacks@[0].context.is_none(),
            r.eval.is_none(),
    {
        let frame = StackFrame {
            level: 0,
            source: SourceContext { source, filename, line_no: 0 },
            context: None,
        };
        let mut stacks: Vec<StackFrame> = Vec::new();
        stacks.push(frame);
        HistoryEntry { stacks, eval: None }
    }

    /// The source of the frame at `level`; an empty context where there is none.
    pub fn source(&self, level: u16) -> (r: SourceContext)
        ensures
            (level as int) < self.stacks@.len() ==> r == self.stacks@[level as int].source,
            (level as int) >= self.stacks@.len() ==> r.source@.len() == 0 && r.filename@.len()
                == 0 && r.line_no == 0,
    {
        if (level as usize) < self.stacks.len() {
            let s = &self.stacks[level as usize].source;
            SourceContext { source: s.source.clone(), filename: s.filename.clone(), line_no: s.line_no }
        } else {
            SourceContext::default()
        }
    }

    /// The frame at `stack_depth`, if there is one.
    pub fn stack(&self, stack_depth: u16) -> (r: Option<&StackFrame>)
        ensures
            match r {
                Some(f) => (stack_depth as int) < self.stacks@.len() && *f == self.stacks@[stack_depth as int],
                None => (stack_depth as int) >= self.stacks@.len(),
            },
    {
        if (stack_depth as usize) < self.stacks.len() {
            Some(&self.stacks[stack_depth as usize])
        } else {
            None
        }
    }
}

/// The snapshots taken so far and the one being looked at.
pub struct History {
    pub entries: Vec<HistoryEntry>,
    pub offset: usize,
}

impl History {
    /// The cursor stays on an entry, or at 0 when there is none.
    pub open spec fn wf(&self) -> bool {
        if self.entries@.len() == 0 {
            self.offset == 0
        } else {
            self.offset < self.entries@.len()
        }
    }

    /// The entry under the cursor.
    pub open spec fn current_spec(&self) -> Option<HistoryEntry> {
        if self.offset < self.entries@.len() {
            Some(self.entries@[self.offset as int])
        } else {
            None
        }
    }

    /// Whether the cursor is on the last entry.
    pub open spec fn is_current_spec(&self) -> bool {
        self.offset == self.entries@.len() - 1
    }

    /// `after` is `self` with `entry` appended and the cursor moved onto it.
    pub open spec fn push_post(self, after: History, entry: HistoryEntry) -> bool {
        &&& after.entries@ == self.entries@.push(entry)
        &&& after.offset == self.entries@.len()
    }

    /// The same entries under another cursor.
    pub open spec fn with_offset(self, offset: usize) -> History {
        History { entries: self.entries, offset }
    }

    /// The history after `n` calls of `next`.
    pub open spec fn after_nexts(self, n: nat) -> History
        decreases n,
    {
        if n == 0 {
            self
        } else {
            let h = self.after_nexts((n - 1) as nat);
            h.with_offset(h.next_offset())
        }
    }

    /// The cursor after one step toward the tail, saturating at the last entry.
    pub open spec fn next_offset(&self) -> usize {
        if self.offset + 1 < self.entries@.len() {
            (self.offset + 1) as usize
        } else if self.entries@.len() == 0 {
            0
        } else {
            (self.entries@.len() - 1) as usize
        }
    }

    /// The cursor after one step toward the head, saturating at 0.
    pub open spec fn previous_offset(&self) -> usize {
        if self.offset == 0 {
            0
        } else {
            (self.offset - 1) as usize
        }
    }

    /// An empty history.
    pub fn default() -> (r: History)
        ensures
            r.wf(),
            r.entries@.len() == 0,
            r.offset == 0,
    {
        History { entries: Vec::new(), offset: 0 }
    }

    pub fn len(&self) -> (r: usize)
        ensures
            r == self.entries@.len(),
    {
        self.entries.len()
    }

    pub fn is_empty(&self) -> (r: bool)
        ensures
            r == (self.entries@.len() == 0),
    {
        self.entries.len() == 0
    }

    /// Moves the cursor one entry toward the tail, stopping at the last one.
    pub fn next(&mut self)
        requires
            old(self).wf(),
        ensures
            final(self).wf(),
            *final(self) == old(self).with_offset(old(self).next_offset()),
    {
        let len = self.entries.len();
        if self.offset + 1 < len {
            self.offset = self.offset + 1;
        } else if len == 0 {
            self.offset = 0;
        } else {
            self.offset = len - 1;
        }
    }

    /// Whether the cursor is on the last entry (never, when there is none).
    pub fn is_current(&self) -> (r: bool)
        ensures
            r == self.is_current_spec(),
    {
        self.entries.len() > 0 && self.offset == self.entries.len() - 1
    }

    /// Moves the cursor one entry toward the head, stopping at 0.
    pub fn previous(&mut self)
        requires
            old(self).wf(),
        ensures
            final(self).wf(),
            *final(self) == old(self).with_offset(old(self).previous_offset()),
    {
        if self.offset > 0 {
            self.offset = self.offset - 1;
        }
    }

    /// The entry under the cursor, if any.
    pub fn current(&self) -> (r: Option<&HistoryEntry>)
        ensures
            match r {
                Some(e) => self.current_spec() == Some(*e),
                None => self.current_spec().is_none(),
            },
    {
        if self.offset < self.entries.len() {
            Some(&self.entries[self.offset])
        } else {
            None
        }
    }

    /// Whether the frame at `level` of the entry under the cursor still lacks its
    /// properties; never outside the last entry.
    pub open spec fn needs_context_spec(&self, level: usize) -> bool {
        &&& self.is_current_spec()
        &&& self.offset < self.entries@.len()
        &&& level < self.entries@[self.offset as int].stacks@.len()
        &&& self.entries@[self.offset as int].stacks@[level as int].context.is_none()
    }

    /// Whether the frame at `level` is to be fetched before it is shown.
    pub fn needs_context(&self, level: usize) -> (r: bool)
        ensures
            r == self.needs_context_spec(level),
    {
        if !self.is_current() || self.offset >= self.entries.len() {
            return false;
        }
        let entry = &self.entries[self.offset];
        level < entry.stacks.len() && entry.stacks[level].context.is_none()
    }

    /// Stores the fetched properties of the frame at `level` of the current entry,
    /// where they were missing; otherwise changes nothing.
    pub fn fill_context(&mut self, level: usize, context: ContextGetResponse)
        requires
            old(self).wf(),
        ensures
            final(self).wf(),
            final(self).offset == old(self).offset,
            final(self).entries@.len() == old(self).entries@.len(),
            !old(self).needs_context_spec(level) ==> *final(self) == *old(self),
            old(self).needs_context_spec(level) ==> {
                let o = old(self).offset as int;
                let before = old(self).entries@[o];
                let after = final(self).entries@[o];
                &&& forall|i: int|
                    0 <= i < final(self).entries@.len() && i != o ==> #[trigger] final(self).entries@[i]
                        == old(self).entries@[i]
                &&& after.eval == before.eval
                &&& after.stacks@.len() == before.stacks@.len()
                &&& forall|j: int|
                    0 <= j < after.stacks@.len() && j != level ==> #[trigger] after.stacks@[j]
                        == before.stacks@[j]
                &&& after.stacks@[level as int].level == before.stacks@[level as int].level
                &&& after.stacks@[level as int].source == before.stacks@[level as int].source
                &&& after.stacks@[level as int].context == Some(context)
            },
    {
        if !self.needs_context(level) {
            return;
        }
        let offset = self.offset;
        let ghost entries = self.entries@;
        let mut entry = self.entries.remove(offset);
        let ghost stacks = entry.stacks@;
        let mut frame = entry.stacks.remove(level);
        frame.context = Some(context);
        entry.stacks.insert(level, frame);
        assert(entry.stacks@ =~= stacks.update(level as int, entry.stacks@[level as int]));
        self.entries.insert(offset, entry);
        assert(self.entries@ =~= entries.update(offset as int, self.entries@[offset as int]));
    }

    /// Appends an entry and moves the cursor onto it.
    pub fn push(&mut self, entry: HistoryEntry)
        requires
            old(self).entries@.len() < usize::MAX,
        ensures
            old(self).push_post(*final(self), entry),
            final(self).wf(),
    {
        self.entries.push(entry);
        self.offset = self.entries.len() - 1;
    }
}

/// After appending an entry, it is the current entry, the history has grown by
/// one and the cursor is on the last entry.
pub proof fn lemma_push_makes_current(before: History, after: History, entry: HistoryEntry)
    requires
        before.push_post(after, entry),
    ensures
        after.current_spec() == Some(entry),
        after.entries@.len() == before.entries@.len() + 1,
        after.is_current_spec(),
        after.wf(),
{
}

/// Any number of `next` calls keeps the cursor on an entry, and so does a
/// following `previous`.
pub proof fn lemma_cursor_stays_in_bounds(h: History, n: nat)
    requires
        h.wf(),
    ensures
        h.after_nexts(n).wf(),
        h.after_nexts(n).entries == h.entries,
        h.after_nexts(n).with_offset(h.after_nexts(n).previous_offset()).wf(),
    decreases n,
{
    if n > 0 {
        lemma_cursor_stays_in_bounds(h, (n - 1) as nat);
    }
}

} // verus!
