//! The source analyzer: variable references of PHP source, indexed by line.
use std::collections::HashMap;
use vstd::prelude::*;

use crate::xml::str_equal;

verus! {

/// A value shown beside a variable.
#[derive(Clone, Debug, Default, PartialEq)]
pub struct Value {
    pub value: String,
}

/// A place in the source: 0-based row and byte column.
#[derive(Clone, Copy, Debug, PartialEq, Eq, Structural)]
pub struct Position {
    pub row: usize,
    pub char: usize,
}

impl Position {
    pub fn new(row: usize, column: usize) -> (r: Position)
        ensures
            r.row == row && r.char == column,
    {
        Position { row, char: column }
    }
}

/// A span of source from `start` to `end`.
#[derive(Clone, Copy, Debug, PartialEq, Eq, Structural)]
pub struct Range {
    pub start: Position,
    pub end: Position,
}

impl Range {
    pub fn new(start: Position, end: Position) -> (r: Range)
        ensures
            r.start == start && r.end == end,
    {
        Range { start, end }
    }
}

/// One occurrence of a variable name in the source.
#[derive(Clone, Debug, PartialEq)]
pub struct VariableRef {
    pub range: Range,
    pub name: String,
    pub value: Option<Value>,
}

impl VariableRef {
    /// A copy of the reference.
    pub fn duplicate(&self) -> (r: VariableRef)
        ensures
            r == *self,
    {
        VariableRef {
            range: self.range,
            name: self.name.clone(),
            value: match &self.value {
                Some(v) => Some(Value { value: v.value.clone() }),
                None => None,
            },
        }
    }
}

/// A syntax node as plain values: its kind, where it starts and ends, and its text.
pub struct SyntaxNode {
    pub kind: String,
    pub start_row: usize,
    pub start_column: usize,
    pub end_row: usize,
    pub end_column: usize,
    pub text: String,
}

/// The nodes of the PHP syntax tree that tree-sitter builds from `source`, in
/// pre-order (each node before its children, children in order), each as
/// (kind, start row, start column, end row, end column, text).
pub uninterp spec fn php_syntax_nodes(source: Seq<char>) -> Seq<
    (Seq<char>, usize, usize, usize, usize, Seq<char>),
>;

/// Whether tree-sitter's PHP parser produces a tree for `source` (it does unless
/// the grammar cannot be loaded).
pub uninterp spec fn php_parses(source: Seq<char>) -> bool;

/// The variables that `analyze` finds in `source`.
pub open spec fn analysis_spec(source: Seq<char>) -> Map<usize, Map<usize, (Range, Seq<char>)>> {
    if php_parses(source) {
        analysis_of(php_syntax_nodes(source))
    } else {
        Map::empty()
    }
}

/// A PHP syntax tree and the text it was parsed from.
pub struct SyntaxTree {
    tree: tree_sitter::Tree,
    text: String,
}

impl SyntaxTree {
    pub closed spec fn source(&self) -> Seq<char> {
        self.text@
    }
}

#[verifier::external_type_specification]
#[verifier::external_body]
pub struct ExTree(tree_sitter::Tree);

/// Relies on tree_sitter's `Parser::parse` with tree_sitter_php's `LANGUAGE_PHP`:
/// the syntax tree of the text, none only if the grammar could not be loaded.
#[verifier::external_body]
fn parse_php(source: &str) -> (r: Option<SyntaxTree>)
    ensures
        r.is_some() == php_parses(source@),
        r matches Some(t) ==> t.source() == source@,
{
    let mut parser = tree_sitter::Parser::new();
    parser.set_language(&tree_sitter_php::LANGUAGE_PHP.into()).ok()?;
    let tree = parser.parse(source, None)?;
    Some(SyntaxTree { tree, text: source.to_owned() })
}

/// Relies on tree_sitter's `Node::descendant_count`: the number of nodes of the
/// tree, the root included.
#[verifier::external_body]
fn node_count(t: &SyntaxTree) -> (r: usize)
    ensures
        r == php_syntax_nodes(t.source()).len(),
{
    t.tree.root_node().descendant_count()
}

/// Relies on tree_sitter's `TreeCursor::goto_descendant`: the node at pre-order
/// index `i`, with its kind, start and end points, and text.
#[verifier::external_body]
fn node_at(t: &SyntaxTree, i: usize) -> (r: SyntaxNode)
    requires
        i < php_syntax_nodes(t.source()).len(),
    ensures
        (r.kind@, r.start_row, r.start_column, r.end_row, r.end_column, r.text@)
            == php_syntax_nodes(t.source())[i as int],
{
    let mut cursor = t.tree.walk();
    cursor.goto_descendant(i);
    let n = cursor.node();
    SyntaxNode {
        kind: n.kind().to_owned(),
        start_row: n.start_position().row,
        start_column: n.start_position().column,
        end_row: n.end_position().row,
        end_column: n.end_position().column,
        text: n.utf8_text(t.text.as_bytes()).unwrap_or("").to_owned(),
    }
}

/// The variables of each line: by the row where they end, then by start column.
#[derive(Clone, Debug)]
pub struct Analysis {
    rows: HashMap<usize, HashMap<usize, VariableRef>>,
    columns: HashMap<usize, Vec<usize>>,
}

/// The analysis of a node list: each `variable_name` node registered, later
/// nodes replacing earlier ones at the same row and column.
pub open spec fn analysis_of(nodes: Seq<(Seq<char>, usize, usize, usize, usize, Seq<char>)>) -> Map<
    usize,
    Map<usize, (Range, Seq<char>)>,
>
    decreases nodes.len(),
{
    if nodes.len() == 0 {
        Map::empty()
    } else {
        let prev = analysis_of(nodes.drop_last());
        let n = nodes.last();
        if n.0 == "variable_name"@ {
            let row = if prev.contains_key(n.3) {
                prev[n.3]
            } else {
                Map::empty()
            };
            prev.insert(
                n.3,
                row.insert(
                    n.2,
                    (
                        Range {
                            start: Position { row: n.1, char: n.2 },
                            end: Position { row: n.3, char: n.4 },
                        },
                        n.5,
                    ),
                ),
            )
        } else {
            prev
        }
    }
}

/// What a row of variables holds, as ranges and names.
pub open spec fn row_view(row: Map<usize, VariableRef>) -> Map<usize, (Range, Seq<char>)> {
    row.map_values(|v: VariableRef| (v.range, v.name@))
}

impl Analysis {
    /// The analysis as ranges and names, by row and column.
    pub closed spec fn view(&self) -> Map<usize, Map<usize, (Range, Seq<char>)>> {
        self.rows@.map_values(|row: HashMap<usize, VariableRef>| row_view(row@))
    }

    /// No variable has a value yet, each is filed under its own row and column,
    /// and each row lists its columns once, in the order they were first seen.
    pub closed spec fn unvalued(&self) -> bool {
        &&& forall|r: usize, c: usize|
            self.rows@.contains_key(r) && #[trigger] self.rows@[r]@.contains_key(c) ==> {
                &&& self.rows@[r]@[c].value.is_none()
                &&& self.rows@[r]@[c].range.start.char == c
            }
        &&& forall|r: usize| #[trigger] self.rows@.contains_key(r) <==> self.columns@.contains_key(r)
        &&& forall|r: usize| #[trigger] self.rows@.contains_key(r) ==> {
            &&& self.columns@[r]@.no_duplicates()
            &&& forall|c: usize| #[trigger] self.rows@[r]@.contains_key(c) <==> self.columns@[r]@.contains(c)
        }
    }

    /// The variables of row `number`.
    pub open spec fn row_spec(&self, number: usize) -> Map<usize, (Range, Seq<char>)> {
        if self.view().contains_key(number) {
            self.view()[number]
        } else {
            Map::empty()
        }
    }

    /// An analysis with no variables.
    pub fn new() -> (r: Analysis)
        ensures
            r.view() == Map::<usize, Map<usize, (Range, Seq<char>)>>::empty(),
            r.unvalued(),
    {
        let r = Analysis { rows: HashMap::new(), columns: HashMap::new() };
        assert(r.view() =~= Map::empty());
        r
    }

    /// Records a variable under the row where it ends and the column where it starts.
    pub fn register(&mut self, variable: VariableRef)
        requires
            variable.value.is_none(),
            old(self).unvalued(),
        ensures
            final(self).unvalued(),
            final(self).view() == old(self).view().insert(
                variable.range.end.row,
                (if old(self).view().contains_key(variable.range.end.row) {
                    old(self).view()[variable.range.end.row]
                } else {
                    Map::empty()
                }).insert(variable.range.start.char, (variable.range, variable.name@)),
            ),
    {
        let row_key = variable.range.end.row;
        let col = variable.range.start.char;
        let mut row: HashMap<usize, VariableRef> = match self.rows.get(&row_key) {
            Some(r) => r.clone(),
            None => HashMap::new(),
        };
        let mut cols: Vec<usize> = match self.columns.get(&row_key) {
            Some(c) => c.clone(),
            None => Vec::new(),
        };
        let ghost old_row = row@;
        let ghost old_cols = cols@;
        if !row.contains_key(&col) {
            cols.push(col);
        }
        let ghost v = variable;
        row.insert(col, variable);
        self.rows.insert(row_key, row);
        self.columns.insert(row_key, cols);
        proof {
            if !old_row.contains_key(col) {
                assert(!old_cols.contains(col));
                assert forall|i: int, j: int| 0 <= i < j < cols@.len() implies cols@[i] != cols@[j] by {
                    if j == cols@.len() - 1 {
                        assert(old_cols.contains(cols@[i]));
                    }
                }
                assert forall|c: usize| #[trigger] row@.contains_key(c) <==> cols@.contains(c) by {
                    if c != col && old_cols.contains(c) {
                        let k = choose|k: int| 0 <= k < old_cols.len() && old_cols[k] == c;
                        assert(cols@[k] == c);
                    }
                    if cols@.contains(c) && c != col {
                        let k = choose|k: int| 0 <= k < cols@.len() && cols@[k] == c;
                        assert(k < old_cols.len());
                        assert(old_cols[k] == c);
                    }
                    if c == col {
                        assert(cols@[cols@.len() - 1] == col);
                    }
                }
            }
        }
        proof {
            let expected = old(self).view().insert(
                v.range.end.row,
                (if old(self).view().contains_key(v.range.end.row) {
                    old(self).view()[v.range.end.row]
                } else {
                    Map::empty()
                }).insert(v.range.start.char, (v.range, v.name@)),
            );
            assert(row_view(row@) =~= expected[row_key]);
            assert(self.view() =~= expected);
        }
    }

    /// The variables of line `number` (0-based), each once, in the order in which
    /// their columns were first seen.
    pub fn row_vars(&self, number: usize) -> (r: Vec<VariableRef>)
        requires
            self.unvalued(),
        ensures
            r@.len() == self.row_spec(number).dom().len(),
            forall|i: int, j: int|
                0 <= i < j < r@.len() ==> (#[trigger] r@[i]).range.start.char != (#[trigger] r@[j]).range.start.char,
            forall|i: int|
                0 <= i < r@.len() ==> self.row_spec(number).contains_key(
                    (#[trigger] r@[i]).range.start.char,
                ) && self.row_spec(number)[r@[i].range.start.char] == (r@[i].range, r@[i].name@),
            forall|c: usize|
                #[trigger] self.row_spec(number).contains_key(c) ==> exists|i: int|
                    0 <= i < r@.len() && (#[trigger] r@[i]).range.start.char == c,
    {
        let mut out: Vec<VariableRef> = Vec::new();
        let row = match self.rows.get(&number) {
            Some(row) => row,
            None => {
                assert(self.row_spec(number).dom() =~= Set::empty());
                return out;
            },
        };
        let cols = match self.columns.get(&number) {
            Some(c) => c,
            None => {
                return out;
            },
        };
        assert(row_view(row@) == self.row_spec(number));
        let mut i: usize = 0;
        while i < cols.len()
            invariant
                0 <= i <= cols@.len(),
                self.unvalued(),
                self.rows@.contains_key(number),
                *row == self.rows@[number],
                *cols == self.columns@[number],
                row_view(row@) == self.row_spec(number),
                out@.len() == i,
                forall|k: int| 0 <= k < i ==> (#[trigger] out@[k]).range.start.char == cols@[k],
                forall|k: int| 0 <= k < i ==> row@.contains_key(cols@[k]) && #[trigger] out@[k] == row@[cols@[k]],
            decreases cols@.len() - i,
        {
            let c = cols[i];
            assert(cols@.contains(c));
            let v = match row.get(&c) {
                Some(v) => v.duplicate(),
                None => {
                    assert(false);
                    return out;
                },
            };
            out.push(v);
            i = i + 1;
        }
        proof {
            assert(cols@.to_set() =~= row@.dom()) by {
                assert forall|c: usize| cols@.to_set().contains(c) <==> row@.dom().contains(c) by {
                    assert(row@.contains_key(c) <==> cols@.contains(c));
                }
            }
            cols@.unique_seq_to_set();
            assert(row_view(row@).dom() =~= row@.dom());
            assert forall|c: usize| #[trigger] self.row_spec(number).contains_key(c) implies exists|i: int|
                0 <= i < out@.len() && (#[trigger] out@[i]).range.start.char == c by {
                assert(cols@.contains(c));
                let k = choose|k: int| 0 <= k < cols@.len() && cols@[k] == c;
                assert(out@[k].range.start.char == c);
            }
        }
        out
    }

    /// The variables of line `number` (0-based), by start column.
    pub fn row(&self, number: usize) -> (r: HashMap<usize, VariableRef>)
        ensures
            row_view(r@) == (if self.view().contains_key(number) {
                self.view()[number]
            } else {
                Map::empty()
            }),
    {
        match self.rows.get(&number) {
            Some(r) => r.clone(),
            None => {
                let r = HashMap::new();
                assert(row_view(r@) =~= Map::empty());
                r
            },
        }
    }
}

/// Analyses PHP source.
pub struct Analyser {}

impl Analyser {
    pub fn new() -> (r: Analyser) {
        Analyser {}
    }

    /// The variable references of `source`, keyed by the row where each ends and
    /// the column where it starts.
    pub fn analyze(&mut self, source: &str) -> (r: Analysis)
        ensures
            r.view() == analysis_spec(source@),
            r.unvalued(),
    {
        let tree = match parse_php(source) {
            Some(t) => t,
            None => return Analysis::new(),
        };
        let count = node_count(&tree);
        let mut analysis = Analysis::new();
        let ghost nodes = php_syntax_nodes(source@);
        assert(nodes.subrange(0, 0) =~= Seq::empty());
        let mut i: usize = 0;
        while i < count
            invariant
                0 <= i <= count,
                count == nodes.len(),
                nodes == php_syntax_nodes(tree.source()),
                analysis.unvalued(),
                analysis.view() == analysis_of(nodes.subrange(0, i as int)),
            decreases count - i,
        {
            assert(nodes.subrange(0, (i + 1) as int).drop_last() =~= nodes.subrange(0, i as int));
            let node = node_at(&tree, i);
            if str_equal(node.kind.as_str(), "variable_name") {
                let var_ref = VariableRef {
                    name: node.text,
                    range: Range {
                        start: Position { row: node.start_row, char: node.start_column },
                        end: Position { row: node.end_row, char: node.end_column },
                    },
                    value: None,
                };
                analysis.register(var_ref);
            }
            i = i + 1;
        }
        assert(nodes.subrange(0, count as int) =~= nodes);
        analysis
    }
}

/// Analysing the same source twice gives equal analyses.
pub proof fn lemma_analysis_idempotent(source: Seq<char>, first: Analysis, second: Analysis)
    requires
        first.view() == analysis_spec(source),
        second.view() == analysis_spec(source),
    ensures
        first.view() == second.view(),
{
}

} // verus!
