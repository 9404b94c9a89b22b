use vstd::prelude::*;
use vstd::string::*;

use crate::cell::{Cell, Date};
use crate::error::{Failure, QueryError};
use crate::header::{expect_header, header_fault, header_validation, validate_header, ColumnBinding};
use crate::row::{display_at, DateColumns};
use crate::select::{select_row, selection};

verus! {

/// A compute node whose assignee lives in a fixed column; the header must
/// hold the binding's text at that column.
#[derive(Clone, Debug, PartialEq, Eq)]
pub struct NodeBinding {
    pub name: String,
    pub column: ColumnBinding,
}

/// The fixed layout of the worksheet.
#[derive(Clone, Debug, PartialEq, Eq)]
pub struct Schema {
    pub columns: Vec<ColumnBinding>,
    pub dates: DateColumns,
    pub nodes: Vec<NodeBinding>,
}

/// What the report says of an assignee cell: its text, or a placeholder when
/// the text is empty.
pub open spec fn assignee(c: Cell) -> Seq<char> {
    if c.display().len() == 0 {
        "unassigned"@
    } else {
        c.display()
    }
}

/// What is wrong with node `b`'s column, in the header or in the row.
pub open spec fn node_fault(header: Seq<Cell>, row: Seq<Cell>, b: NodeBinding) -> Option<Failure> {
    match header_fault(header, b.column.index, b.column.text@) {
        Some(f) => Some(f),
        None => if b.column.index < row.len() {
            None
        } else {
            Some(Failure::MissingColumn { index: b.column.index })
        },
    }
}

/// The first fault among the first `n` nodes, in their order.
pub open spec fn first_node_fault(
    header: Seq<Cell>,
    row: Seq<Cell>,
    nodes: Seq<NodeBinding>,
    n: nat,
) -> Option<Failure>
    decreases n,
{
    if n == 0 {
        None
    } else {
        match first_node_fault(header, row, nodes, (n - 1) as nat) {
            Some(f) => Some(f),
            None => node_fault(header, row, nodes[n - 1]),
        }
    }
}

/// One report line: the node's name and who is assigned to it.
pub open spec fn report_entry(row: Seq<Cell>, b: NodeBinding) -> (Seq<char>, Seq<char>) {
    (b.name@, assignee(row[b.column.index as int]))
}

/// The report for a selected row: one entry per node, in the nodes' order.
pub open spec fn report(header: Seq<Cell>, row: Seq<Cell>, nodes: Seq<NodeBinding>) -> Result<
    Seq<(Seq<char>, Seq<char>)>,
    Failure,
> {
    match first_node_fault(header, row, nodes, nodes.len()) {
        Some(f) => Err(f),
        None => Ok(nodes.map_values(|b: NodeBinding| report_entry(row, b))),
    }
}

/// The texts of report entries.
pub open spec fn entries(v: Seq<(String, String)>) -> Seq<(Seq<char>, Seq<char>)> {
    v.map_values(|p: (String, String)| (p.0@, p.1@))
}

/// The mathematical value of a report result.
pub open spec fn report_outcome(r: Result<Vec<(String, String)>, QueryError>) -> Result<
    Seq<(Seq<char>, Seq<char>)>,
    Failure,
> {
    match r {
        Ok(v) => Ok(entries(v@)),
        Err(e) => Err(e@),
    }
}

/// The columns that the nodes' bindings fix.
pub open spec fn node_columns(nodes: Seq<NodeBinding>) -> Seq<ColumnBinding> {
    nodes.map_values(|b: NodeBinding| b.column)
}

/// The outcome of the whole query: the schema's columns are checked first,
/// then the nodes' columns, then the rows are scanned and the report built.
pub open spec fn query(header: Seq<Cell>, rows: Seq<Vec<Cell>>, schema: Schema, target: Date) -> Result<
    Seq<(Seq<char>, Seq<char>)>,
    Failure,
> {
    match header_validation(header, schema.columns@) {
        Some(f) => Err(f),
        None => match header_validation(header, node_columns(schema.nodes@)) {
            Some(f) => Err(f),
            None => match selection(rows, schema.dates, target) {
                Err(f) => Err(f),
                Ok(k) => report(header, rows[k as int]@, schema.nodes@),
            },
        },
    }
}

proof fn lemma_node_fault_stays(
    header: Seq<Cell>,
    row: Seq<Cell>,
    nodes: Seq<NodeBinding>,
    n: nat,
    m: nat,
)
    requires
        n <= m,
        first_node_fault(header, row, nodes, n) is Some,
    ensures
        first_node_fault(header, row, nodes, m) == first_node_fault(header, row, nodes, n),
    decreases m - n,
{
    if n < m {
        lemma_node_fault_stays(header, row, nodes, n, (m - 1) as nat);
    }
}

/// For each node in order, checks its header cell and reads its assignee from
/// the selected row; an empty assignee reads as "unassigned".
pub fn build_report(row: &Vec<Cell>, nodes: &Vec<NodeBinding>, header: &Vec<Cell>) -> (r: Result<
    Vec<(String, String)>,
    QueryError,
>)
    ensures
        report_outcome(r) == report(header@, row@, nodes@),
        r matches Ok(v) ==> v@.len() == nodes@.len() && forall|i: int|
            0 <= i < v@.len() ==> (#[trigger] v@[i]).0@ == nodes@[i].name@,
{
    let mut out: Vec<(String, String)> = Vec::new();
    let mut i: usize = 0;
    while i < nodes.len()
        invariant
            i <= nodes@.len(),
            out@.len() == i,
            first_node_fault(header@, row@, nodes@, i as nat) is None,
            forall|j: int|
                0 <= j < i ==> (#[trigger] out@[j]).0@ == nodes@[j].name@ && out@[j].1@
                    == assignee(row@[nodes@[j].column.index as int]),
        decreases nodes@.len() - i,
    {
        let b = &nodes[i];
        let checked = match expect_header(header, b.column.index, &b.column.text) {
            Ok(()) => display_at(row, b.column.index),
            Err(e) => Err(e),
        };
        let text = match checked {
            Ok(t) => t,
            Err(e) => {
                proof {
                    lemma_node_fault_stays(header@, row@, nodes@, (i + 1) as nat, nodes@.len());
                }
                return Err(e);
            },
        };
        let user = if text.as_str().is_empty() {
            String::from_str("unassigned")
        } else {
            text
        };
        proof {
            if text@.len() != 0 {
                assert(user@ == assignee(row@[b.column.index as int]));
            }
        }
        out.push((b.name.clone(), user));
        i = i + 1;
    }
    assert(entries(out@) =~= nodes@.map_values(|b: NodeBinding| report_entry(row@, b)));
    Ok(out)
}

/// The bindings of the nodes' columns, in the nodes' order.
pub fn columns_of_nodes(nodes: &Vec<NodeBinding>) -> (r: Vec<ColumnBinding>)
    ensures
        r@ == node_columns(nodes@),
{
    let mut out: Vec<ColumnBinding> = Vec::new();
    let mut i: usize = 0;
    while i < nodes.len()
        invariant
            i <= nodes@.len(),
            out@ =~= node_columns(nodes@).subrange(0, i as int),
        decreases nodes@.len() - i,
    {
        let c = &nodes[i].column;
        out.push(ColumnBinding { text: c.text.clone(), index: c.index });
        i = i + 1;
    }
    out
}

/// Answers "who is assigned to each node on `target`?": validates the header
/// against every configured column before any row is read, selects the one
/// row dated `target`, and builds the report from it.
pub fn run_query(header: &Vec<Cell>, rows: &Vec<Vec<Cell>>, schema: &Schema, target: Date) -> (r:
    Result<Vec<(String, String)>, QueryError>)
    ensures
        report_outcome(r) == query(header@, rows@, *schema, target),
{
    validate_header(header, &schema.columns)?;
    let node_cols = columns_of_nodes(&schema.nodes);
    validate_header(header, &node_cols)?;
    let k = select_row(rows, schema.dates, target)?;
    build_report(&rows[k], &schema.nodes, header)
}

/// The report lists the nodes' names in the order the nodes are given,
/// whatever columns they read.
pub proof fn lemma_report_order(header: Seq<Cell>, row: Seq<Cell>, nodes: Seq<NodeBinding>)
    requires
        report(header, row, nodes) is Ok,
    ensures
        report(header, row, nodes)->Ok_0.len() == nodes.len(),
        forall|i: int|
            0 <= i < nodes.len() ==> (#[trigger] report(header, row, nodes)->Ok_0[i]).0
                == nodes[i].name@,
{
}

/// Two runs of the query on the same header, rows, schema and date give the
/// same report, or the same failure.
pub proof fn lemma_query_repeatable(
    header: Seq<Cell>,
    rows: Seq<Vec<Cell>>,
    schema: Schema,
    target: Date,
    first: Result<Vec<(String, String)>, QueryError>,
    second: Result<Vec<(String, String)>, QueryError>,
)
    requires
        report_outcome(first) == query(header, rows, schema, target),
        report_outcome(second) == query(header, rows, schema, target),
    ensures
        report_outcome(first) == report_outcome(second),
{
}

} // verus!
