use vstd::prelude::*;

use crate::cell::Cell;
use crate::error::{Failure, QueryError};
use crate::row::{text_at, text_in};

verus! {

/// A column that the schema fixes: the header text expected at a position.
#[derive(Clone, Debug, PartialEq, Eq)]
pub struct ColumnBinding {
    pub text: String,
    pub index: usize,
}

/// What is wrong with the header at column `col` when `text` is expected
/// there, if anything.
pub open spec fn header_fault(header: Seq<Cell>, col: usize, text: Seq<char>) -> Option<Failure> {
    match text_in(header, col) {
        Err(f) => Some(f),
        Ok(s) => if s == text {
            None
        } else {
            Some(Failure::HeaderMismatch { index: col, expected: text, actual: s })
        },
    }
}

/// The header holds exactly `text` at column `col`.
pub open spec fn header_holds(header: Seq<Cell>, col: usize, text: Seq<char>) -> bool {
    &&& col < header.len()
    &&& header[col as int] matches Cell::Text(s) && s@ == text
}

/// The first fault among the first `n` bindings, in their order.
pub open spec fn first_header_fault(header: Seq<Cell>, bindings: Seq<ColumnBinding>, n: nat) -> Option<
    Failure,
>
    decreases n,
{
    if n == 0 {
        None
    } else {
        match first_header_fault(header, bindings, (n - 1) as nat) {
            Some(f) => Some(f),
            None => header_fault(header, bindings[n - 1].index, bindings[n - 1].text@),
        }
    }
}

pub open spec fn header_validation(header: Seq<Cell>, bindings: Seq<ColumnBinding>) -> Option<
    Failure,
> {
    first_header_fault(header, bindings, bindings.len())
}

/// Once a fault is found among the first `n` bindings, later bindings do not
/// change it.
pub proof fn lemma_first_fault_stays(
    header: Seq<Cell>,
    bindings: Seq<ColumnBinding>,
    n: nat,
    m: nat,
)
    requires
        n <= m,
        first_header_fault(header, bindings, n) is Some,
    ensures
        first_header_fault(header, bindings, m) == first_header_fault(header, bindings, n),
    decreases m - n,
{
    if n < m {
        lemma_first_fault_stays(header, bindings, n, (m - 1) as nat);
    }
}

/// Checks that the header holds `text` at column `col`.
pub fn expect_header(header: &Vec<Cell>, col: usize, text: &String) -> (r: Result<(), QueryError>)
    ensures
        r is Ok <==> header_fault(header@, col, text@) is None,
        r matches Err(e) ==> header_fault(header@, col, text@) == Some(e@),
{
    let s = text_at(header, col)?;
    if s == *text {
        Ok(())
    } else {
        Err(QueryError::HeaderMismatch { index: col, expected: text.clone(), actual: s })
    }
}

/// Checks every binding against the header, in order, and stops at the first
/// one that fails.
pub fn validate_header(header: &Vec<Cell>, bindings: &Vec<ColumnBinding>) -> (r: Result<
    (),
    QueryError,
>)
    ensures
        r is Ok <==> header_validation(header@, bindings@) is None,
        r matches Err(e) ==> header_validation(header@, bindings@) == Some(e@),
{
    let mut i: usize = 0;
    while i < bindings.len()
        invariant
            i <= bindings@.len(),
            first_header_fault(header@, bindings@, i as nat) is None,
        decreases bindings@.len() - i,
    {
        match expect_header(header, bindings[i].index, &bindings[i].text) {
            Ok(()) => {},
            Err(e) => {
                proof {
                    lemma_first_fault_stays(header@, bindings@, (i + 1) as nat, bindings@.len());
                }
                return Err(e);
            },
        }
        i = i + 1;
    }
    Ok(())
}

} // verus!

verus! {

/// The header check passes on the first `n` bindings exactly when the header
/// holds each one's text at its column.
pub proof fn lemma_first_fault_none(header: Seq<Cell>, bindings: Seq<ColumnBinding>, n: nat)
    requires
        n <= bindings.len(),
    ensures
        first_header_fault(header, bindings, n) is None <==> forall|i: int|
            0 <= i < n ==> header_holds(header, bindings[i].index, #[trigger] bindings[i].text@),
    decreases n,
{
    if n > 0 {
        lemma_first_fault_none(header, bindings, (n - 1) as nat);
    }
}

/// The check of the first `n` bindings looks at those bindings only.
proof fn lemma_first_fault_prefix(
    header: Seq<Cell>,
    a: Seq<ColumnBinding>,
    b: Seq<ColumnBinding>,
    n: nat,
)
    requires
        n <= a.len(),
        n <= b.len(),
        forall|i: int| 0 <= i < n ==> a[i] == b[i],
    ensures
        first_header_fault(header, a, n) == first_header_fault(header, b, n),
    decreases n,
{
    if n > 0 {
        lemma_first_fault_prefix(header, a, b, (n - 1) as nat);
    }
}

/// Header validation succeeds exactly when every binding's column holds its
/// expected text.
pub proof fn lemma_validation_succeeds_iff(header: Seq<Cell>, bindings: Seq<ColumnBinding>)
    ensures
        header_validation(header, bindings) is None <==> forall|i: int|
            0 <= i < bindings.len() ==> header_holds(
                header,
                bindings[i].index,
                #[trigger] bindings[i].text@,
            ),
{
    lemma_first_fault_none(header, bindings, bindings.len());
}

/// Against a header that passes validation, replacing one binding's expected
/// text by a different one makes validation fail with `HeaderMismatch` at
/// that binding's column, and nowhere else.
pub proof fn lemma_changed_text_blamed(
    header: Seq<Cell>,
    bindings: Seq<ColumnBinding>,
    k: int,
    changed: ColumnBinding,
)
    requires
        0 <= k < bindings.len(),
        header_validation(header, bindings) is None,
        changed.index == bindings[k].index,
        changed.text@ != bindings[k].text@,
    ensures
        header_validation(header, bindings.update(k, changed)) == Some(
            Failure::HeaderMismatch {
                index: changed.index,
                expected: changed.text@,
                actual: bindings[k].text@,
            },
        ),
{
    let u = bindings.update(k, changed);
    lemma_first_fault_none(header, bindings, bindings.len());
    assert(header_holds(header, bindings[k].index, bindings[k].text@));
    lemma_first_fault_none(header, bindings, k as nat);
    lemma_first_fault_prefix(header, bindings, u, k as nat);
    assert(first_header_fault(header, u, (k + 1) as nat) == Some(
        Failure::HeaderMismatch {
            index: changed.index,
            expected: changed.text@,
            actual: bindings[k].text@,
        },
    ));
    lemma_first_fault_stays(header, u, (k + 1) as nat, u.len());
}

} // verus!
