//! Sequence facts shared by the steps: first matches, toggling membership,
//! and the flattened walk over a two-dimensional cursor.

use vstd::prelude::*;

verus! {

/// The index of the first element of `s` satisfying `p`, or -1 if none does.
pub open spec fn first_index_by<A>(s: Seq<A>, p: spec_fn(A) -> bool) -> int {
    if exists|i: int| 0 <= i < s.len() && #[trigger] p(s[i]) {
        choose|i: int|
            0 <= i < s.len() && #[trigger] p(s[i]) && forall|j: int| 0 <= j < i ==> !p(s[j])
    } else {
        -1
    }
}

/// A match with no match before it is the first match.
pub proof fn lemma_first_index_found<A>(s: Seq<A>, p: spec_fn(A) -> bool, i: int)
    requires
        0 <= i < s.len(),
        p(s[i]),
        forall|j: int| 0 <= j < i ==> !p(#[trigger] s[j]),
    ensures
        first_index_by(s, p) == i,
{
    assert(exists|k: int| 0 <= k < s.len() && #[trigger] p(s[k]));
    assert(exists|k: int|
        0 <= k < s.len() && #[trigger] p(s[k]) && forall|j: int| 0 <= j < k ==> !p(s[j]));
    let k = first_index_by(s, p);
    if k < i {
        assert(!p(s[k]));
    }
    if k > i {
        assert(!p(s[i]));
    }
}

/// Without any match there is no first match.
pub proof fn lemma_first_index_absent<A>(s: Seq<A>, p: spec_fn(A) -> bool)
    requires
        forall|j: int| 0 <= j < s.len() ==> !p(#[trigger] s[j]),
    ensures
        first_index_by(s, p) == -1,
{
}

/// The first match, when there is one, satisfies `p` and has no match before it.
pub proof fn lemma_first_index_props<A>(s: Seq<A>, p: spec_fn(A) -> bool)
    ensures
        -1 <= first_index_by(s, p) < s.len(),
        first_index_by(s, p) >= 0 ==> p(s[first_index_by(s, p)]),
        first_index_by(s, p) >= 0 ==> forall|j: int|
            0 <= j < first_index_by(s, p) ==> !p(#[trigger] s[j]),
        first_index_by(s, p) < 0 ==> forall|j: int| 0 <= j < s.len() ==> !p(#[trigger] s[j]),
{
    if exists|i: int| 0 <= i < s.len() && #[trigger] p(s[i]) {
        let w = choose|i: int| 0 <= i < s.len() && #[trigger] p(s[i]);
        lemma_least_match(s, p, w);
    }
}

proof fn lemma_least_match<A>(s: Seq<A>, p: spec_fn(A) -> bool, w: int)
    requires
        0 <= w < s.len(),
        p(s[w]),
    ensures
        exists|i: int|
            0 <= i < s.len() && #[trigger] p(s[i]) && forall|j: int| 0 <= j < i ==> !p(s[j]),
    decreases w,
{
    if exists|j: int| 0 <= j < w && #[trigger] p(s[j]) {
        let v = choose|j: int| 0 <= j < w && #[trigger] p(s[j]);
        lemma_least_match(s, p, v);
    } else {
        assert(forall|j: int| 0 <= j < w ==> !p(s[j]));
    }
}

/// Whether an element is `x`.
pub open spec fn eq_to<A>(x: A) -> spec_fn(A) -> bool {
    |y: A| y == x
}

/// Toggling membership: drop the first occurrence of `x` if there is one,
/// otherwise append `x`.
pub open spec fn toggled<A>(s: Seq<A>, x: A) -> Seq<A> {
    let i = first_index_by(s, eq_to(x));
    if i >= 0 {
        s.remove(i)
    } else {
        s.push(x)
    }
}

/// Every element of a toggled sequence is the toggled element or was
/// already there.
pub proof fn lemma_toggled_elements<A>(s: Seq<A>, x: A, k: int)
    requires
        0 <= k < toggled(s, x).len(),
    ensures
        toggled(s, x)[k] == x || s.contains(toggled(s, x)[k]),
{
    let i = first_index_by(s, eq_to(x));
    lemma_first_index_props(s, eq_to(x));
    if i >= 0 {
        if k < i {
            assert(toggled(s, x)[k] == s[k]);
        } else {
            assert(toggled(s, x)[k] == s[k + 1]);
        }
    } else if k < s.len() {
        assert(toggled(s, x)[k] == s[k]);
    }
}

/// Toggling an absent element twice leaves the sequence as it was.
pub proof fn lemma_toggle_twice<A>(s: Seq<A>, x: A)
    requires
        !s.contains(x),
    ensures
        toggled(toggled(s, x), x) == s,
{
    assert forall|j: int| 0 <= j < s.len() implies !eq_to(x)(#[trigger] s[j]) by {
        if eq_to(x)(s[j]) {
            assert(s.contains(x));
        }
    }
    lemma_first_index_absent(s, eq_to(x));
    let t = s.push(x);
    assert forall|j: int| 0 <= j < s.len() implies !eq_to(x)(#[trigger] t[j]) by {
        assert(t[j] == s[j]);
    }
    lemma_first_index_found(t, eq_to(x), s.len() as int);
    assert(t.remove(s.len() as int) =~= s);
}

/// The cells of a grid whose row `r` has `counts[r]` columns, row by row and
/// left to right.
pub open spec fn flat_positions(counts: Seq<usize>) -> Seq<(usize, usize)>
    decreases counts.len(),
{
    if counts.len() == 0 {
        Seq::empty()
    } else {
        flat_positions(counts.drop_last()) + Seq::new(
            counts.last() as nat,
            |c: int| ((counts.len() - 1) as usize, c as usize),
        )
    }
}

/// Where the cursor `(row, col)` goes when it steps one cell forward (or
/// backward) through [`flat_positions`], wrapping at both ends; a cursor
/// that is not on any cell counts as being on the first one. `None` when the
/// grid has no cell.
pub open spec fn spec_advance(counts: Seq<usize>, row: usize, col: usize, backward: bool) -> Option<
    (usize, usize),
> {
    let f = flat_positions(counts);
    if f.len() == 0 {
        None
    } else {
        let p0 = first_index_by(f, at_cell(row, col));
        let p = if p0 < 0 {
            0
        } else {
            p0
        };
        let next = if backward {
            if p == 0 {
                f.len() - 1
            } else {
                p - 1
            }
        } else {
            (p + 1) % (f.len() as int)
        };
        Some(f[next])
    }
}

fn flat_cells(counts: &Vec<usize>) -> (flat: Vec<(usize, usize)>)
    ensures
        flat@ == flat_positions(counts@),
{
    let mut flat: Vec<(usize, usize)> = Vec::new();
    let mut r: usize = 0;
    assert(counts@.take(0) =~= Seq::<usize>::empty());
    while r < counts.len()
        invariant
            r <= counts.len(),
            flat@ == flat_positions(counts@.take(r as int)),
        decreases counts.len() - r,
    {
        let n = counts[r];
        let mut c: usize = 0;
        let ghost before = flat@;
        while c < n
            invariant
                c <= n,
                n == counts@[r as int],
                r < counts.len(),
                flat@ == before + Seq::new(c as nat, |j: int| (r, j as usize)),
            decreases n - c,
        {
            flat.push((r, c));
            c = c + 1;
            assert(flat@ =~= before + Seq::new(c as nat, |j: int| (r, j as usize)));
        }
        assert(counts@.take(r + 1).drop_last() =~= counts@.take(r as int));
        assert(Seq::new(n as nat, |j: int| (r, j as usize)) =~= Seq::new(
            counts@.take(r + 1).last() as nat,
            |j: int| ((counts@.take(r + 1).len() - 1) as usize, j as usize),
        ));
        r = r + 1;
    }
    assert(counts@.take(counts.len() as int) =~= counts@);
    flat
}

/// Whether a cell is `(row, col)`.
pub open spec fn at_cell(row: usize, col: usize) -> spec_fn((usize, usize)) -> bool {
    |x: (usize, usize)| x == (row, col)
}

fn first_cell(flat: &Vec<(usize, usize)>, row: usize, col: usize) -> (r: usize)
    ensures
        r as int == (if first_index_by(flat@, at_cell(row, col)) < 0 {
            0
        } else {
            first_index_by(flat@, at_cell(row, col))
        }),
        flat@.len() > 0 ==> r < flat@.len(),
{
    let mut i: usize = 0;
    while i < flat.len()
        invariant
            i <= flat.len(),
            forall|j: int| 0 <= j < i ==> !at_cell(row, col)(#[trigger] flat@[j]),
        decreases flat.len() - i,
    {
        let (a, b) = flat[i];
        assert(flat@[i as int] == (a, b));
        if a == row && b == col {
            assert(flat@[i as int] == (row, col));
            assert(at_cell(row, col)(flat@[i as int]));
            proof {
                lemma_first_index_found(flat@, at_cell(row, col), i as int);
            }
            return i;
        }
        assert(!at_cell(row, col)(flat@[i as int]));
        i = i + 1;
    }
    proof {
        lemma_first_index_absent(flat@, at_cell(row, col));
    }
    0
}

/// Steps the cursor through the cells of a grid (see [`spec_advance`]).
pub fn advance_flat(counts: &Vec<usize>, row: usize, col: usize, backward: bool) -> (r: Option<
    (usize, usize),
>)
    ensures
        r == spec_advance(counts@, row, col, backward),
{
    let flat = flat_cells(counts);
    if flat.len() == 0 {
        return None;
    }
    let pos = first_cell(&flat, row, col);
    proof {
        lemma_first_index_props(flat@, at_cell(row, col));
    }
    let next = if backward {
        if pos == 0 {
            flat.len() - 1
        } else {
            pos - 1
        }
    } else {
        (pos + 1) % flat.len()
    };
    Some(flat[next])
}

/// Every cell of the grid lies inside it.
pub proof fn lemma_flat_positions_bounds(counts: Seq<usize>)
    requires
        counts.len() <= usize::MAX,
    ensures
        forall|k: int|
            0 <= k < flat_positions(counts).len() ==> {
                let (r, c) = #[trigger] flat_positions(counts)[k];
                r < counts.len() && c < counts[r as int]
            },
    decreases counts.len(),
{
    if counts.len() > 0 {
        lemma_flat_positions_bounds(counts.drop_last());
        let f = flat_positions(counts);
        let a = flat_positions(counts.drop_last());
        assert forall|k: int| 0 <= k < f.len() implies {
            let (r, c) = #[trigger] f[k];
            r < counts.len() && c < counts[r as int]
        } by {
            if k < a.len() {
                assert(f[k] == a[k]);
            } else {
                assert(f[k] == ((counts.len() - 1) as usize, (k - a.len()) as usize));
            }
        }
    }
}

/// The cells of a grid are pairwise distinct.
pub proof fn lemma_flat_positions_distinct(counts: Seq<usize>)
    requires
        counts.len() <= usize::MAX,
    ensures
        forall|i: int, j: int|
            0 <= i < flat_positions(counts).len() && 0 <= j < flat_positions(counts).len()
                && #[trigger] flat_positions(counts)[i] == #[trigger] flat_positions(counts)[j] ==> i == j,
    decreases counts.len(),
{
    if counts.len() > 0 {
        let a = flat_positions(counts.drop_last());
        let f = flat_positions(counts);
        lemma_flat_positions_distinct(counts.drop_last());
        lemma_flat_positions_bounds(counts.drop_last());
        assert forall|i: int, j: int|
            0 <= i < f.len() && 0 <= j < f.len() && #[trigger] f[i] == #[trigger] f[j] implies i == j by {
            if i < a.len() {
                assert(f[i] == a[i]);
            } else {
                assert(f[i] == ((counts.len() - 1) as usize, (i - a.len()) as usize));
            }
            if j < a.len() {
                assert(f[j] == a[j]);
            } else {
                assert(f[j] == ((counts.len() - 1) as usize, (j - a.len()) as usize));
            }
        }
    }
}

/// Stepping forward from a cell of the grid and then backward comes back to
/// that cell (Tab then BackTab undo each other).
pub proof fn lemma_advance_then_back(counts: Seq<usize>, row: usize, col: usize)
    requires
        counts.len() <= usize::MAX,
        row < counts.len(),
        col < counts[row as int],
    ensures
        match spec_advance(counts, row, col, false) {
            Some((r, c)) => spec_advance(counts, r, c, true) == Some((row, col)),
            None => false,
        },
{
    let f = flat_positions(counts);
    lemma_flat_positions_distinct(counts);
    lemma_flat_positions_cover(counts, row, col);
    let k = choose|k: int| 0 <= k < f.len() && f[k] == (row, col);
    assert forall|j: int| 0 <= j < k implies !at_cell(row, col)(#[trigger] f[j]) by {}
    lemma_first_index_found(f, at_cell(row, col), k);
    let next = (k + 1) % (f.len() as int);
    assert(0 <= next < f.len() && (next == 0 <==> k == f.len() - 1) && (next > 0 ==> next == k + 1))
        by (nonlinear_arith)
        requires
            0 <= k < f.len(),
            next == (k + 1) % (f.len() as int),
    ;
    let (r, c) = f[next];
    assert forall|j: int| 0 <= j < next implies !at_cell(r, c)(#[trigger] f[j]) by {}
    lemma_first_index_found(f, at_cell(r, c), next);
}

/// Stepping backward from a cell of the grid and then forward comes back to
/// that cell (BackTab then Tab undo each other).
pub proof fn lemma_back_then_advance(counts: Seq<usize>, row: usize, col: usize)
    requires
        counts.len() <= usize::MAX,
        row < counts.len(),
        col < counts[row as int],
    ensures
        match spec_advance(counts, row, col, true) {
            Some((r, c)) => spec_advance(counts, r, c, false) == Some((row, col)),
            None => false,
        },
{
    let f = flat_positions(counts);
    lemma_flat_positions_distinct(counts);
    lemma_flat_positions_cover(counts, row, col);
    let k = choose|k: int| 0 <= k < f.len() && f[k] == (row, col);
    assert forall|j: int| 0 <= j < k implies !at_cell(row, col)(#[trigger] f[j]) by {}
    lemma_first_index_found(f, at_cell(row, col), k);
    let prev = if k == 0 {
        f.len() - 1
    } else {
        k - 1
    };
    let (r, c) = f[prev];
    assert forall|j: int| 0 <= j < prev implies !at_cell(r, c)(#[trigger] f[j]) by {}
    lemma_first_index_found(f, at_cell(r, c), prev);
    assert((prev + 1) % (f.len() as int) == k) by (nonlinear_arith)
        requires
            0 <= k < f.len(),
            prev == (if k == 0 {
                f.len() - 1
            } else {
                k - 1
            }),
    ;
}

/// Every cell `(row, col)` inside the grid occurs among its flattened cells.
pub proof fn lemma_flat_positions_cover(counts: Seq<usize>, row: usize, col: usize)
    requires
        counts.len() <= usize::MAX,
        row < counts.len(),
        col < counts[row as int],
    ensures
        exists|k: int| 0 <= k < flat_positions(counts).len() && flat_positions(counts)[k] == (row, col),
    decreases counts.len(),
{
    let f = flat_positions(counts);
    let a = flat_positions(counts.drop_last());
    if row + 1 == counts.len() {
        let k = a.len() + col;
        assert(f[k] == (row, col));
    } else {
        assert(counts.drop_last()[row as int] == counts[row as int]);
        lemma_flat_positions_cover(counts.drop_last(), row, col);
        let k = choose|k: int| 0 <= k < a.len() && a[k] == (row, col);
        assert(f[k] == a[k]);
    }
}

} // verus!
