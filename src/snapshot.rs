//! Building a snapshot of a break: which replies to fetch, and the history entry
//! assembled from them.
use vstd::prelude::*;

use crate::analyzer::analysis_spec;
use crate::analyzer::Analyser;
use crate::analyzer::Analysis;
use crate::analyzer::Range;
use crate::client::Command;
use crate::dbgp::property_copy;
use crate::dbgp::ContextGetResponse;
use crate::dbgp::StackEntry;
use crate::dbgp::StackGetResponse;
use crate::history::annotate;
use crate::history::first_named;
use crate::history::frame_properties;
use crate::history::has_named;
use crate::history::DocumentVariables;
use crate::history::EvalEntry;
use crate::history::HistoryEntry;
use crate::history::SourceContext;
use crate::history::StackFrame;
use crate::history::Variable;
use crate::session::break_row;
use crate::workspace::Workspace;
use crate::xml::str_equal;

verus! {

/// The analyses of the files seen on this connection, one per file name.
pub struct AnalysisCache {
    pub entries: Vec<(String, Analysis)>,
}

impl AnalysisCache {
    /// File names are unique and every analysis is well formed.
    pub open spec fn wf(&self) -> bool {
        &&& forall|i: int, j: int|
            0 <= i < j < self.entries@.len() ==> #[trigger] self.entries@[i].0@
                != #[trigger] self.entries@[j].0@
        &&& forall|i: int| 0 <= i < self.entries@.len() ==> (#[trigger] self.entries@[i]).1.unvalued()
    }

    /// The analysis of `filename`, if it was made.
    pub open spec fn analysis_of(&self, filename: Seq<char>) -> Option<Analysis> {
        if exists|i: int| 0 <= i < self.entries@.len() && #[trigger] self.entries@[i].0@ == filename {
            let i = choose|i: int| 0 <= i < self.entries@.len() && #[trigger] self.entries@[i].0@ == filename;
            Some(self.entries@[i].1)
        } else {
            None
        }
    }

    /// Every analysis of `self` stands unchanged in `later`.
    pub open spec fn kept_in(&self, later: AnalysisCache) -> bool {
        forall|f: Seq<char>|
            #[trigger] self.analysis_of(f).is_some() ==> later.analysis_of(f) == self.analysis_of(f)
    }

    /// No analyses.
    pub fn new() -> (r: AnalysisCache)
        ensures
            r.wf(),
            r.entries@.len() == 0,
    {
        AnalysisCache { entries: Vec::new() }
    }

    fn find(&self, filename: &str) -> (r: Option<usize>)
        requires
            self.wf(),
        ensures
            match r {
                Some(i) => i < self.entries@.len() && self.entries@[i as int].0@ == filename@
                    && self.analysis_of(filename@) == Some(self.entries@[i as int].1),
                None => self.analysis_of(filename@).is_none(),
            },
    {
        let mut i: usize = 0;
        while i < self.entries.len()
            invariant
                0 <= i <= self.entries@.len(),
                self.wf(),
                forall|j: int| 0 <= j < i ==> #[trigger] self.entries@[j].0@ != filename@,
            decreases self.entries@.len() - i,
        {
            if str_equal(self.entries[i].0.as_str(), filename) {
                proof {
                    let k = choose|k: int| 0 <= k < self.entries@.len() && #[trigger] self.entries@[k].0@ == filename@;
                    if k < i {
                        assert(self.entries@[k].0@ != filename@);
                    } else if k > i {
                        assert(self.entries@[i as int].0@ != self.entries@[k].0@);
                    }
                }
                return Some(i);
            }
            i = i + 1;
        }
        None
    }

    /// The analysis of `filename`, if it was made.
    pub fn get(&self, filename: &str) -> (r: Option<&Analysis>)
        requires
            self.wf(),
        ensures
            match r {
                Some(a) => self.analysis_of(filename@) == Some(*a) && a.unvalued(),
                None => self.analysis_of(filename@).is_none(),
            },
    {
        match self.find(filename) {
            Some(i) => Some(&self.entries[i].1),
            None => None,
        }
    }

    /// Analyses `text` as the source of `filename`, unless that file was analysed
    /// already; other files keep their analyses.
    pub fn analyze_once(&mut self, filename: &String, text: &str)
        requires
            old(self).wf(),
        ensures
            final(self).wf(),
            match old(self).analysis_of(filename@) {
                Some(_) => *final(self) == *old(self),
                None => final(self).entries@.len() == old(self).entries@.len() + 1
                    && final(self).entries@.drop_last() == old(self).entries@
                    && final(self).entries@.last().0 == *filename
                    && final(self).entries@.last().1.view() == analysis_spec(text@),
            },
            final(self).analysis_of(filename@).is_some(),
            old(self).kept_in(*final(self)),
            old(self).analysis_of(filename@).is_none() ==> final(self).analysis_of(filename@)->0.view()
                == analysis_spec(text@),
    {
        if self.find(filename.as_str()).is_some() {
            return;
        }
        let analysis = Analyser::new().analyze(text);
        let ghost before = self.entries@;
        self.entries.push((filename.clone(), analysis));
        proof {
            assert(self.entries@.drop_last() =~= before);
            let last = before.len() as int;
            assert forall|i: int| 0 <= i < before.len() implies #[trigger] before[i].0@ != filename@ by {
                if before[i].0@ == filename@ {
                    assert(old(self).analysis_of(filename@).is_some());
                }
            }
            assert forall|i: int, j: int|
                0 <= i < j < self.entries@.len() implies #[trigger] self.entries@[i].0@
                    != #[trigger] self.entries@[j].0@ by {
                if j < last {
                    assert(before[i] == self.entries@[i] && before[j] == self.entries@[j]);
                } else {
                    assert(before[i] == self.entries@[i]);
                }
            }
            assert forall|f: Seq<char>| f != filename@ implies #[trigger] self.analysis_of(f) == old(self).analysis_of(f) by {
                lemma_cache_push_keeps(*old(self), *self, f);
            }
            assert(self.entries@[last].0@ == filename@);
            assert forall|i: int| 0 <= i < self.entries@.len() && #[trigger] self.entries@[i].0@ == filename@ implies i == last by {
                if i < last {
                    assert(before[i] == self.entries@[i]);
                }
            }
        }
    }
}

// ---- what to fetch -----------------------------------------------------------------

/// Whether the file of level `k` appears at an earlier level.
pub open spec fn seen_before(entries: Seq<StackEntry>, k: int) -> bool {
    exists|j: int| 0 <= j < k && #[trigger] entries[j].filename@ == entries[k].filename@
}

/// The fetches for the first `k` levels: the properties of each level below
/// `max_fetch`, and the source of each file that is neither cached nor met at an
/// earlier level.
pub open spec fn level_fetches(
    entries: Seq<StackEntry>,
    k: nat,
    max_fetch: u16,
    workspace: Workspace,
) -> Seq<Command>
    decreases k,
{
    if k == 0 || k > entries.len() {
        Seq::empty()
    } else {
        let level = (k - 1) as int;
        let e = entries[level];
        level_fetches(entries, (k - 1) as nat, max_fetch, workspace) + (if level < max_fetch {
            seq![Command::ContextGet(level as u16)]
        } else {
            Seq::empty()
        }) + (if workspace.text_of(e.filename@).is_some() || seen_before(entries, level) {
            Seq::empty()
        } else {
            seq![Command::Source(e.filename)]
        })
    }
}

/// The commands that a snapshot issues after `stack_get`, in order: the fetches of
/// every level, then the pending evaluation, if any.
pub open spec fn fetch_plan(
    entries: Seq<StackEntry>,
    max_fetch: u16,
    workspace: Workspace,
    eval: Option<(String, u16)>,
) -> Seq<Command> {
    level_fetches(entries, entries.len(), max_fetch, workspace) + match eval {
        Some((expr, depth)) => seq![Command::Eval(expr, depth)],
        None => Seq::empty(),
    }
}

/// Plans the fetches of a snapshot of `stack`.
pub fn snapshot_fetches(
    stack: &StackGetResponse,
    max_fetch: u16,
    workspace: &Workspace,
    eval: &Option<(String, u16)>,
) -> (r: Vec<Command>)
    requires
        workspace.wf(),
    ensures
        r@ == fetch_plan(stack.entries@, max_fetch, *workspace, *eval),
{
    let mut out: Vec<Command> = Vec::new();
    let mut k: usize = 0;
    while k < stack.entries.len()
        invariant
            0 <= k <= stack.entries@.len(),
            workspace.wf(),
            out@ == level_fetches(stack.entries@, k as nat, max_fetch, *workspace),
        decreases stack.entries@.len() - k,
    {
        let ghost prev = out@;
        if k < max_fetch as usize {
            out.push(Command::ContextGet(k as u16));
        }
        let ghost mid = out@;
        let filename = &stack.entries[k].filename;
        let mut seen = false;
        let mut j: usize = 0;
        while j < k
            invariant
                0 <= j <= k < stack.entries@.len(),
                seen == exists|m: int| 0 <= m < j && #[trigger] stack.entries@[m].filename@ == filename@,
                *filename == stack.entries@[k as int].filename,
            decreases k - j,
        {
            if str_equal(stack.entries[j].filename.as_str(), filename.as_str()) {
                seen = true;
            }
            j = j + 1;
        }
        if !seen && workspace.get(filename.as_str()).is_none() {
            out.push(Command::Source(filename.clone()));
        }
        k = k + 1;
        proof {
            let e = stack.entries@[k - 1];
            let ctx: Seq<Command> = if (k - 1) < max_fetch {
                seq![Command::ContextGet((k - 1) as u16)]
            } else {
                Seq::empty()
            };
            assert(mid =~= prev + ctx);
            assert(seen == seen_before(stack.entries@, k - 1));
            assert(out@ =~= level_fetches(stack.entries@, k as nat, max_fetch, *workspace));
        }
    }
    match eval {
        Some((expr, depth)) => out.push(Command::Eval(expr.clone(), *depth)),
        None => {},
    }
    assert(out@ =~= fetch_plan(stack.entries@, max_fetch, *workspace, *eval));
    out
}

// ---- the entry -----------------------------------------------------------------------

/// `out` is the inline annotation set of `frame` against the variables of `row`:
/// each variable of the row that has a property of its name, once, with a copy of
/// the first such property.
pub open spec fn annotations_of(
    row: Map<usize, (Range, Seq<char>)>,
    frame: StackFrame,
    out: Seq<Variable>,
) -> bool {
    let props = frame_properties(frame);
    &&& forall|k: int|
        0 <= k < out.len() ==> {
            let v = (#[trigger] out[k]).var_ref;
            &&& row.contains_key(v.range.start.char)
            &&& row[v.range.start.char] == (v.range, v.name@)
            &&& exists|i: int| first_named(props, i, v.name@) && property_copy(out[k].value, props[i])
        }
    &&& forall|k: int, l: int|
        0 <= k < l < out.len() ==> (#[trigger] out[k]).var_ref.range.start.char
            != (#[trigger] out[l]).var_ref.range.start.char
    &&& forall|c: usize|
        #[trigger] row.contains_key(c) && has_named(props, row[c].1) ==> exists|k: int|
            0 <= k < out.len() && (#[trigger] out[k]).var_ref.range.start.char == c
}

/// Assembles the history entry of a break from the fetched replies: one frame per
/// stack level with its source text and properties. Each file is analysed once,
/// and the innermost frame's line is annotated with its variables' values.
pub fn build_snapshot(
    stack: &StackGetResponse,
    texts: Vec<String>,
    contexts: Vec<Option<ContextGetResponse>>,
    analyses: &mut AnalysisCache,
    variables: &mut DocumentVariables,
    eval: Option<EvalEntry>,
) -> (r: HistoryEntry)
    requires
        texts@.len() == stack.entries@.len(),
        contexts@.len() == stack.entries@.len(),
        stack.entries@.len() <= u16::MAX as nat + 1,
        old(analyses).wf(),
        old(variables).wf(),
    ensures
        final(analyses).wf(),
        final(variables).wf(),
        r.stacks@.len() == stack.entries@.len(),
        forall|k: int|
            0 <= k < r.stacks@.len() ==> {
                &&& (#[trigger] r.stacks@[k]).level == k
                &&& r.stacks@[k].source.filename == stack.entries@[k].filename
                &&& r.stacks@[k].source.line_no == stack.entries@[k].line
                &&& r.stacks@[k].source.source == texts@[k]
                &&& r.stacks@[k].context == contexts@[k]
            },
        r.eval == eval,
        forall|k: int|
            0 <= k < stack.entries@.len() ==> (#[trigger] final(analyses).analysis_of(
                stack.entries@[k].filename@,
            )).is_some(),
        old(analyses).kept_in(*final(analyses)),
        stack.entries@.len() > 0 ==> ({
            let top = r.stacks@[0];
            &&& final(analyses).analysis_of(top.source.filename@) matches Some(a)
            &&& final(variables).index_of(top.source.filename@, top.source.line_no) matches Some(i)
            &&& annotations_of(
                a.row_spec(break_row_spec(top.source.line_no)),
                top,
                final(variables).entries@[i].2@,
            )
        }),
{
    let mut texts = texts;
    let mut contexts = contexts;
    let ghost all_texts = texts@;
    let ghost all_contexts = contexts@;
    let mut entry = HistoryEntry::new();
    let n = stack.entries.len();
    let mut k: usize = 0;
    while k < n
        invariant
            0 <= k <= n == stack.entries@.len() <= u16::MAX as nat + 1,
            all_texts.len() == n && all_contexts.len() == n,
            texts@ == all_texts.subrange(k as int, n as int),
            contexts@ == all_contexts.subrange(k as int, n as int),
            analyses.wf(),
            variables.wf(),
            entry.eval.is_none(),
            entry.stacks@.len() == k,
            forall|m: int|
                0 <= m < k ==> {
                    &&& (#[trigger] entry.stacks@[m]).level == m
                    &&& entry.stacks@[m].source.filename == stack.entries@[m].filename
                    &&& entry.stacks@[m].source.line_no == stack.entries@[m].line
                    &&& entry.stacks@[m].source.source == all_texts[m]
                    &&& entry.stacks@[m].context == all_contexts[m]
                },
            forall|m: int|
                0 <= m < k ==> (#[trigger] analyses.analysis_of(stack.entries@[m].filename@)).is_some(),
            old(analyses).kept_in(*analyses),
            k > 0 ==> ({
                let top = entry.stacks@[0];
                &&& analyses.analysis_of(top.source.filename@) matches Some(a)
                &&& variables.index_of(top.source.filename@, top.source.line_no) matches Some(i)
                &&& annotations_of(
                    a.row_spec(break_row_spec(top.source.line_no)),
                    top,
                    variables.entries@[i].2@,
                )
            }),
        decreases n - k,
    {
        let text = texts.remove(0);
        let context = contexts.remove(0);
        assert(texts@ =~= all_texts.subrange(k + 1, n as int));
        assert(contexts@ =~= all_contexts.subrange(k + 1, n as int));
        let e = &stack.entries[k];
        let ghost before = *analyses;
        analyses.analyze_once(&e.filename, text.as_str());
        proof {
            assert forall|f: Seq<char>|
                #[trigger] old(analyses).analysis_of(f).is_some() implies analyses.analysis_of(f)
                    == old(analyses).analysis_of(f) by {
                assert(before.analysis_of(f).is_some());
            }
            assert forall|m: int| 0 <= m < k implies (#[trigger] analyses.analysis_of(
                stack.entries@[m].filename@,
            )).is_some() by {
                assert(before.analysis_of(stack.entries@[m].filename@).is_some());
            }
        }
        let frame = StackFrame {
            level: k as u16,
            source: SourceContext { source: text, filename: e.filename.clone(), line_no: e.line },
            context,
        };
        if k == 0 {
            let vars = match analyses.get(e.filename.as_str()) {
                Some(a) => a.row_vars(break_row(e.line)),
                None => Vec::new(),
            };
            let annotations = annotate(&vars, &frame);
            proof {
                let a = analyses.analysis_of(e.filename@)->0;
                let row = a.row_spec(break_row_spec(e.line));
                lemma_annotations(row, vars@, frame, annotations@);
            }
            variables.put(&frame.source, annotations);
        }
        entry.push(frame);
        k = k + 1;
    }
    entry.eval = eval;
    entry
}

/// The 0-based row of a 1-based break line.
pub open spec fn break_row_spec(line_no: u32) -> usize {
    if line_no == 0 {
        0
    } else {
        (line_no - 1) as usize
    }
}

/// Adding the analysis of another file keeps that of `f`.
proof fn lemma_cache_push_keeps(before: AnalysisCache, after: AnalysisCache, f: Seq<char>)
    requires
        after.entries@.len() == before.entries@.len() + 1,
        after.entries@.drop_last() == before.entries@,
        after.entries@.last().0@ != f,
        after.wf(),
    ensures
        after.analysis_of(f) == before.analysis_of(f),
{
    if before.analysis_of(f).is_some() {
        let i = choose|i: int| 0 <= i < before.entries@.len() && #[trigger] before.entries@[i].0@ == f;
        assert(after.entries@[i] == before.entries@[i]);
        let j = choose|j: int| 0 <= j < after.entries@.len() && #[trigger] after.entries@[j].0@ == f;
        if j != i {
            if j < i {
                assert(after.entries@[j].0@ != after.entries@[i].0@);
            } else {
                assert(after.entries@[i].0@ != after.entries@[j].0@);
            }
        }
    } else {
        if after.analysis_of(f).is_some() {
            let j = choose|j: int| 0 <= j < after.entries@.len() && #[trigger] after.entries@[j].0@ == f;
            assert(j < before.entries@.len());
            assert(before.entries@[j] == after.entries@[j]);
        }
    }
}

/// What `annotate` gives on the variables that `row_vars` lists is the annotation
/// set of the row.
proof fn lemma_annotations(
    row: Map<usize, (Range, Seq<char>)>,
    vars: Seq<crate::analyzer::VariableRef>,
    frame: StackFrame,
    out: Seq<Variable>,
)
    requires
        forall|i: int, j: int|
            0 <= i < j < vars.len() ==> (#[trigger] vars[i]).range.start.char != (#[trigger] vars[j]).range.start.char,
        forall|i: int|
            0 <= i < vars.len() ==> row.contains_key((#[trigger] vars[i]).range.start.char)
                && row[vars[i].range.start.char] == (vars[i].range, vars[i].name@),
        forall|c: usize|
            #[trigger] row.contains_key(c) ==> exists|i: int| 0 <= i < vars.len() && (#[trigger] vars[i]).range.start.char == c,
        forall|k: int|
            0 <= k < out.len() ==> exists|i: int|
                first_named(frame_properties(frame), i, (#[trigger] out[k]).var_ref.name@) && property_copy(
                    out[k].value,
                    frame_properties(frame)[i],
                ),
        forall|k: int| 0 <= k < out.len() ==> exists|j: int| 0 <= j < vars.len() && #[trigger] vars[j] == (#[trigger] out[k]).var_ref,
        forall|j: int|
            0 <= j < vars.len() && has_named(frame_properties(frame), (#[trigger] vars[j]).name@) ==> exists|k: int|
                0 <= k < out.len() && (#[trigger] out[k]).var_ref == vars[j],
        (forall|i: int, j: int| 0 <= i < j < vars.len() ==> #[trigger] vars[i] != #[trigger] vars[j])
            ==> forall|k: int, l: int| 0 <= k < l < out.len() ==> (#[trigger] out[k]).var_ref != (#[trigger] out[l]).var_ref,
    ensures
        annotations_of(row, frame, out),
{
    let props = frame_properties(frame);
    assert forall|i: int, j: int| 0 <= i < j < vars.len() implies #[trigger] vars[i] != #[trigger] vars[j] by {
        assert(vars[i].range.start.char != vars[j].range.start.char);
    }
    assert forall|k: int| 0 <= k < out.len() implies {
        let v = (#[trigger] out[k]).var_ref;
        &&& row.contains_key(v.range.start.char)
        &&& row[v.range.start.char] == (v.range, v.name@)
        &&& exists|i: int| first_named(props, i, v.name@) && property_copy(out[k].value, props[i])
    } by {
        let j = choose|j: int| 0 <= j < vars.len() && #[trigger] vars[j] == out[k].var_ref;
        assert(vars[j] == out[k].var_ref);
    }
    assert forall|k: int, l: int|
        0 <= k < l < out.len() implies (#[trigger] out[k]).var_ref.range.start.char
            != (#[trigger] out[l]).var_ref.range.start.char by {
        let a = choose|j: int| 0 <= j < vars.len() && #[trigger] vars[j] == out[k].var_ref;
        let b = choose|j: int| 0 <= j < vars.len() && #[trigger] vars[j] == out[l].var_ref;
        assert(out[k].var_ref != out[l].var_ref);
        if a < b {
            assert(vars[a].range.start.char != vars[b].range.start.char);
        } else if b < a {
            assert(vars[b].range.start.char != vars[a].range.start.char);
        }
    }
    assert forall|c: usize| #[trigger] row.contains_key(c) && has_named(props, row[c].1) implies exists|k: int|
        0 <= k < out.len() && (#[trigger] out[k]).var_ref.range.start.char == c by {
        let i = choose|i: int| 0 <= i < vars.len() && (#[trigger] vars[i]).range.start.char == c;
        assert(row[c].1 == vars[i].name@);
        let k = choose|k: int| 0 <= k < out.len() && (#[trigger] out[k]).var_ref == vars[i];
        assert(out[k].var_ref.range.start.char == c);
    }
}

} // verus!
