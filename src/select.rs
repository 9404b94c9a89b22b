use vstd::prelude::*;

use crate::cell::{Cell, Date};
use crate::error::{Failure, QueryError};
use crate::row::{date_of_row, row_date, DateColumns};

verus! {

/// Row `i` carries the target date.
pub open spec fn row_matches(rows: Seq<Vec<Cell>>, cols: DateColumns, target: Date, i: int) -> bool {
    row_date(rows[i]@, cols) == Ok::<Date, Failure>(target)
}

/// The state of an in-order scan after the first `n` rows: the match found so
/// far, if any, or the failure that stopped the scan.
pub open spec fn scan(rows: Seq<Vec<Cell>>, cols: DateColumns, target: Date, n: nat) -> Result<
    Option<usize>,
    Failure,
>
    decreases n,
{
    if n == 0 {
        Ok(None)
    } else {
        match scan(rows, cols, target, (n - 1) as nat) {
            Err(f) => Err(f),
            Ok(found) => match row_date(rows[n - 1]@, cols) {
                Err(f) => Err(f),
                Ok(d) => if d != target {
                    Ok(found)
                } else {
                    match found {
                        Some(k) => Err(
                            Failure::MultipleMatches { target, first: k, second: (n - 1) as usize },
                        ),
                        None => Ok(Some((n - 1) as usize)),
                    }
                },
            },
        }
    }
}

/// The position of the one row that carries the target date, or why there is
/// none.
pub open spec fn selection(rows: Seq<Vec<Cell>>, cols: DateColumns, target: Date) -> Result<
    usize,
    Failure,
> {
    match scan(rows, cols, target, rows.len()) {
        Err(f) => Err(f),
        Ok(Some(k)) => Ok(k),
        Ok(None) => Err(Failure::NoMatch { target }),
    }
}

proof fn lemma_scan_error_stays(rows: Seq<Vec<Cell>>, cols: DateColumns, target: Date, n: nat, m: nat)
    requires
        n <= m,
        scan(rows, cols, target, n) is Err,
    ensures
        scan(rows, cols, target, m) == scan(rows, cols, target, n),
    decreases m - n,
{
    if n < m {
        lemma_scan_error_stays(rows, cols, target, n, (m - 1) as nat);
    }
}

proof fn lemma_scan_found_in_range(rows: Seq<Vec<Cell>>, cols: DateColumns, target: Date, n: nat)
    requires
        n <= usize::MAX,
    ensures
        scan(rows, cols, target, n) matches Ok(Some(k)) ==> k < n,
    decreases n,
{
    if n > 0 {
        lemma_scan_found_in_range(rows, cols, target, (n - 1) as nat);
    }
}

/// Scans the data rows in order for the one whose date is `target`. A row
/// whose date cannot be read stops the scan, and so does a second match.
pub fn select_row(rows: &Vec<Vec<Cell>>, cols: DateColumns, target: Date) -> (r: Result<
    usize,
    QueryError,
>)
    ensures
        match r {
            Ok(k) => selection(rows@, cols, target) == Ok::<usize, Failure>(k),
            Err(e) => selection(rows@, cols, target) == Err::<usize, Failure>(e@),
        },
        r matches Ok(k) ==> k < rows@.len(),
{
    let mut found: Option<usize> = None;
    let mut i: usize = 0;
    while i < rows.len()
        invariant
            i <= rows@.len(),
            scan(rows@, cols, target, i as nat) == Ok::<Option<usize>, Failure>(found),
        decreases rows@.len() - i,
    {
        let d = match date_of_row(&rows[i], cols) {
            Ok(d) => d,
            Err(e) => {
                proof {
                    lemma_scan_error_stays(rows@, cols, target, (i + 1) as nat, rows@.len());
                }
                return Err(e);
            },
        };
        if d == target {
            match found {
                Some(k) => {
                    proof {
                        lemma_scan_error_stays(rows@, cols, target, (i + 1) as nat, rows@.len());
                    }
                    return Err(QueryError::MultipleMatches { target, first: k, second: i });
                },
                None => {
                    found = Some(i);
                },
            }
        }
        i = i + 1;
    }
    proof {
        lemma_scan_found_in_range(rows@, cols, target, i as nat);
    }
    match found {
        Some(k) => Ok(k),
        None => Err(QueryError::NoMatch { target }),
    }
}

/// When every row's date can be read, the scan after `n` rows has found the
/// only match among them, found none, or stopped at the second of two.
pub proof fn lemma_scan_well_formed(rows: Seq<Vec<Cell>>, cols: DateColumns, target: Date, n: nat)
    requires
        n <= rows.len() <= usize::MAX,
        forall|i: int| 0 <= i < rows.len() ==> (#[trigger] row_date(rows[i]@, cols)) is Ok,
    ensures
        match scan(rows, cols, target, n) {
            Ok(None) => forall|j: int| 0 <= j < n ==> !row_matches(rows, cols, target, j),
            Ok(Some(k)) => {
                &&& k < n
                &&& row_matches(rows, cols, target, k as int)
                &&& forall|j: int|
                    0 <= j < n && j != k ==> !row_matches(rows, cols, target, j)
            },
            Err(f) => f matches Failure::MultipleMatches { target: t, first, second } && {
                &&& t == target
                &&& first < second < n
                &&& row_matches(rows, cols, target, first as int)
                &&& row_matches(rows, cols, target, second as int)
            },
        },
    decreases n,
{
    if n > 0 {
        let m = (n - 1) as nat;
        lemma_scan_well_formed(rows, cols, target, m);
        assert(row_date(rows[m as int]@, cols) is Ok);
        let d = row_date(rows[m as int]@, cols)->Ok_0;
        if d == target {
            assert(row_matches(rows, cols, target, m as int));
        } else {
            assert(!row_matches(rows, cols, target, m as int));
        }
    }
}

/// When every row's date can be read, the selection fails with
/// `MultipleMatches` exactly when two rows carry the target date, and
/// otherwise returns the single row that does, if there is one.
pub proof fn lemma_selection_well_formed(rows: Seq<Vec<Cell>>, cols: DateColumns, target: Date)
    requires
        rows.len() <= usize::MAX,
        forall|i: int| 0 <= i < rows.len() ==> (#[trigger] row_date(rows[i]@, cols)) is Ok,
    ensures
        selection(rows, cols, target) is Err && selection(rows, cols, target)->Err_0 is MultipleMatches
            <==> exists|a: int, b: int|
            0 <= a < b < rows.len() && row_matches(rows, cols, target, a) && row_matches(
                rows,
                cols,
                target,
                b,
            ),
        forall|k: usize|
            selection(rows, cols, target) == Ok::<usize, Failure>(k) <==> {
                &&& k < rows.len()
                &&& row_matches(rows, cols, target, k as int)
                &&& forall|j: int|
                    0 <= j < rows.len() && j != k ==> !row_matches(rows, cols, target, j)
            },
        selection(rows, cols, target) == Err::<usize, Failure>(Failure::NoMatch { target })
            <==> forall|j: int| 0 <= j < rows.len() ==> !row_matches(rows, cols, target, j),
{
    lemma_scan_well_formed(rows, cols, target, rows.len());
}

} // verus!

verus! {

/// `perm` reorders `n` positions: each of `0..n` appears exactly once.
pub open spec fn is_permutation(perm: Seq<int>, n: nat) -> bool {
    &&& perm.len() == n
    &&& forall|i: int| 0 <= i < n ==> 0 <= #[trigger] perm[i] < n
    &&& forall|i: int, j: int| 0 <= i < n && 0 <= j < n && i != j ==> perm[i] != perm[j]
    &&& forall|k: int| 0 <= k < n ==> #[trigger] hits(perm, k)
}

/// Some position of `perm` holds `k`.
pub open spec fn hits(perm: Seq<int>, k: int) -> bool {
    exists|i: int| 0 <= i < perm.len() && #[trigger] perm[i] == k
}

/// When every row's date can be read, reordering the rows does not change
/// which row is selected, nor whether there is none.
pub proof fn lemma_selection_order_free(
    rows: Seq<Vec<Cell>>,
    reordered: Seq<Vec<Cell>>,
    perm: Seq<int>,
    cols: DateColumns,
    target: Date,
)
    requires
        rows.len() <= usize::MAX,
        forall|i: int| 0 <= i < rows.len() ==> (#[trigger] row_date(rows[i]@, cols)) is Ok,
        is_permutation(perm, rows.len()),
        reordered.len() == rows.len(),
        forall|i: int| 0 <= i < rows.len() ==> #[trigger] reordered[i] == rows[perm[i]],
    ensures
        selection(rows, cols, target) is Ok ==> {
            &&& selection(reordered, cols, target) is Ok
            &&& reordered[selection(reordered, cols, target)->Ok_0 as int]
                == rows[selection(rows, cols, target)->Ok_0 as int]
        },
        selection(rows, cols, target) == Err::<usize, Failure>(Failure::NoMatch { target })
            ==> selection(reordered, cols, target) == Err::<usize, Failure>(
            Failure::NoMatch { target },
        ),
{
    let n = rows.len();
    assert forall|i: int| 0 <= i < n implies (#[trigger] row_date(reordered[i]@, cols)) is Ok by {
        assert(row_date(rows[perm[i]]@, cols) is Ok);
    }
    assert forall|i: int| 0 <= i < n implies #[trigger] row_matches(reordered, cols, target, i)
        == row_matches(rows, cols, target, perm[i]) by {
        assert(reordered[i] == rows[perm[i]]);
    }
    lemma_selection_well_formed(rows, cols, target);
    lemma_selection_well_formed(reordered, cols, target);
    if selection(rows, cols, target) is Ok {
        let k = selection(rows, cols, target)->Ok_0;
        assert(0 <= k < n);
        assert(hits(perm, k as int));
        let i = choose|i: int| 0 <= i < n && #[trigger] perm[i] == k as int;
        assert(row_matches(reordered, cols, target, i));
        assert forall|j: int| 0 <= j < n && j != i implies !row_matches(
            reordered,
            cols,
            target,
            j,
        ) by {
            assert(row_matches(reordered, cols, target, j) == row_matches(rows, cols, target, perm[j]));
            assert(perm[j] != perm[i]);
        }
        assert(selection(reordered, cols, target) == Ok::<usize, Failure>(i as usize));
    }
    if selection(rows, cols, target) == Err::<usize, Failure>(Failure::NoMatch { target }) {
        assert forall|j: int| 0 <= j < n implies !row_matches(reordered, cols, target, j) by {
            assert(row_matches(reordered, cols, target, j) == row_matches(rows, cols, target, perm[j]));
        }
    }
}

} // verus!
