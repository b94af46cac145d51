//! A polygon mesh's wireframe: the grid lines of `m` rows of `n` vertices,
//! stored row by row (vertex `i * n + j` is row `i`, column `j`).

use vstd::prelude::*;

verus! {

/// `x`, or `usize::MAX` when it is larger: a saturating operation's result.
pub open spec fn saturated(x: int) -> int {
    if x > usize::MAX {
        usize::MAX as int
    } else {
        x
    }
}

/// How many of `count` rows (or columns) are joined to the next one: all
/// of them where the grid wraps, all but the last where it does not.
pub open spec fn joined(count: nat, wraps: bool) -> nat {
    if wraps {
        count
    } else if count > 0 {
        (count - 1) as nat
    } else {
        0
    }
}

/// How many edges a grid's definition implies, counted with saturating
/// arithmetic.
pub open spec fn edge_count(m: nat, n: nat, closed_m: bool, closed_n: bool) -> int {
    saturated(saturated((joined(m, closed_m) * n) as int) + saturated((m * joined(n, closed_n)) as int))
}

/// The edges from row `i` to the next row (the first, where row `i` is the
/// last and the grid wraps), column by column.
pub open spec fn row_step<T>(positions: Seq<T>, m: nat, n: nat, i: nat) -> Seq<(T, T)> {
    Seq::new(n, |j: int| (positions[i * n + j], positions[((i + 1) as int % (m as int)) * n + j]))
}

/// The edges within row `i` from each column to the next (the first, where
/// the column is the last and the grid wraps).
pub open spec fn column_step<T>(positions: Seq<T>, n: nat, cols: nat, i: nat) -> Seq<(T, T)> {
    Seq::new(cols, |j: int| (positions[i * n + j], positions[i * n + (j + 1) % (n as int)]))
}

/// The edges between rows, for the first `i` rows.
pub open spec fn row_edges<T>(positions: Seq<T>, m: nat, n: nat, i: nat) -> Seq<(T, T)>
    decreases i,
{
    if i == 0 {
        Seq::empty()
    } else {
        row_edges(positions, m, n, (i - 1) as nat) + row_step(positions, m, n, (i - 1) as nat)
    }
}

/// The edges within rows, for the first `i` rows.
pub open spec fn column_edges<T>(positions: Seq<T>, n: nat, cols: nat, i: nat) -> Seq<(T, T)>
    decreases i,
{
    if i == 0 {
        Seq::empty()
    } else {
        column_edges(positions, n, cols, (i - 1) as nat) + column_step(
            positions,
            n,
            cols,
            (i - 1) as nat,
        )
    }
}

/// A polygon mesh's grid lines, and how many edges its definition implies
/// but could not be drawn. The grid is drawn only when exactly `m * n`
/// vertices were written: first the edges between rows, row by row, then
/// the edges within rows, row by row, the closing edges included where the
/// grid wraps. Otherwise no grid shape is guessed, and every edge the
/// definition implies is counted as skipped.
pub open spec fn wireframe<T>(
    positions: Seq<T>,
    m: nat,
    n: nat,
    closed_m: bool,
    closed_n: bool,
) -> (Seq<(T, T)>, int) {
    if positions.len() == 0 || positions.len() != saturated((m * n) as int) {
        (Seq::empty(), edge_count(m, n, closed_m, closed_n))
    } else {
        (
            row_edges(positions, m, n, joined(m, closed_m)) + column_edges(
                positions,
                n,
                joined(n, closed_n),
                m,
            ),
            0,
        )
    }
}

proof fn lemma_cell(i: int, j: int, m: int, n: int)
    requires
        0 <= i < m,
        0 <= j < n,
    ensures
        0 <= i * n + j < m * n,
        i * n + j < (i + 1) * n,
{
    assert(i * n + j < m * n) by (nonlinear_arith)
        requires
            0 <= i < m,
            0 <= j < n,
    ;
    assert(0 <= i * n) by (nonlinear_arith)
        requires
            0 <= i,
            0 <= n,
    ;
    assert((i + 1) * n == i * n + n) by (nonlinear_arith);
}

proof fn lemma_row_edges_len<T>(positions: Seq<T>, m: nat, n: nat, i: nat)
    ensures
        row_edges(positions, m, n, i).len() == i * n,
    decreases i,
{
    if i > 0 {
        let k = (i - 1) as nat;
        lemma_row_edges_len(positions, m, n, k);
        assert(k * n + n == i * n) by (nonlinear_arith)
            requires
                k + 1 == i,
        ;
    } else {
        assert(i * n == 0) by (nonlinear_arith)
            requires
                i == 0,
        ;
    }
}

proof fn lemma_column_edges_len<T>(positions: Seq<T>, n: nat, cols: nat, i: nat)
    ensures
        column_edges(positions, n, cols, i).len() == i * cols,
    decreases i,
{
    if i > 0 {
        let k = (i - 1) as nat;
        lemma_column_edges_len(positions, n, cols, k);
        assert(k * cols + cols == i * cols) by (nonlinear_arith)
            requires
                k + 1 == i,
        ;
    } else {
        assert(i * cols == 0) by (nonlinear_arith)
            requires
                i == 0,
        ;
    }
}

/// The index of row `i`, column `j` in a grid of rows of `n` vertices.
pub open spec fn vertex(n: nat, i: int, j: int) -> int {
    i * n + j
}

proof fn lemma_row_edges_at<T>(positions: Seq<T>, m: nat, n: nat, r: nat, i: int, j: int)
    requires
        0 <= i < r,
        0 <= j < n,
    ensures
        row_edges(positions, m, n, r)[vertex(n, i, j)] == row_step(positions, m, n, i as nat)[j],
    decreases r,
{
    let k = (r - 1) as nat;
    lemma_row_edges_len(positions, m, n, k);
    lemma_cell(i, j, r as int, n as int);
    if i < k {
        lemma_cell(i, j, k as int, n as int);
        lemma_row_edges_at(positions, m, n, k, i, j);
    } else {
        assert(vertex(n, i, j) - k * n == j);
    }
}

proof fn lemma_column_edges_at<T>(positions: Seq<T>, n: nat, cols: nat, r: nat, i: int, j: int)
    requires
        0 <= i < r,
        0 <= j < cols,
    ensures
        column_edges(positions, n, cols, r)[vertex(cols, i, j)] == column_step(
            positions,
            n,
            cols,
            i as nat,
        )[j],
    decreases r,
{
    let k = (r - 1) as nat;
    lemma_column_edges_len(positions, n, cols, k);
    lemma_cell(i, j, r as int, cols as int);
    if i < k {
        lemma_cell(i, j, k as int, cols as int);
        lemma_column_edges_at(positions, n, cols, k, i, j);
    } else {
        assert(vertex(cols, i, j) - k * cols == j);
    }
}

/// `a * b`, saturating at `usize::MAX`.
fn saturating_mul(a: usize, b: usize) -> (r: usize)
    ensures
        r == saturated(a * b),
{
    match a.checked_mul(b) {
        Some(v) => v,
        None => usize::MAX,
    }
}

/// A polygon mesh's grid lines (see `wireframe`).
pub fn mesh_wireframe<T: Copy>(
    positions: &Vec<T>,
    m: usize,
    n: usize,
    closed_m: bool,
    closed_n: bool,
) -> (r: (Vec<(T, T)>, usize))
    requires
        positions@.len() < usize::MAX,
    ensures
        (r.0@, r.1 as int) == wireframe(positions@, m as nat, n as nat, closed_m, closed_n),
{
    let rows_joined = if closed_m {
        m
    } else {
        m.saturating_sub(1)
    };
    let columns_joined = if closed_n {
        n
    } else {
        n.saturating_sub(1)
    };
    let edge_count = saturating_mul(rows_joined, n).saturating_add(
        saturating_mul(m, columns_joined),
    );
    if positions.len() == 0 || positions.len() != saturating_mul(m, n) {
        return (Vec::new(), edge_count);
    }
    let ghost pos = positions@;
    assert(m * n == pos.len());
    assert(m > 0 && n > 0) by (nonlinear_arith)
        requires
            m * n == pos.len(),
            pos.len() > 0,
    ;
    let mut edges: Vec<(T, T)> = Vec::new();
    let mut i: usize = 0;
    while i < rows_joined
        invariant
            pos == positions@,
            m * n == pos.len(),
            pos.len() < usize::MAX,
            m > 0,
            n > 0,
            rows_joined == joined(m as nat, closed_m),
            rows_joined <= m,
            i <= rows_joined,
            edges@ == row_edges(pos, m as nat, n as nat, i as nat),
        decreases rows_joined - i,
    {
        let next = (i + 1) % m;
        let mut j: usize = 0;
        while j < n
            invariant
                pos == positions@,
                m * n == pos.len(),
                pos.len() < usize::MAX,
                m > 0,
                n > 0,
                i < m,
                next == (i + 1) % (m as int),
                j <= n,
                edges@ == row_edges(pos, m as nat, n as nat, i as nat) + row_step(
                    pos,
                    m as nat,
                    n as nat,
                    i as nat,
                ).take(j as int),
            decreases n - j,
        {
            proof {
                lemma_cell(i as int, j as int, m as int, n as int);
                lemma_cell(next as int, j as int, m as int, n as int);
            }
            let a = positions[i * n + j];
            let b = positions[next * n + j];
            let ghost before = edges@;
            edges.push((a, b));
            proof {
                let row = row_step(pos, m as nat, n as nat, i as nat);
                assert(row.take(j + 1) =~= row.take(j as int).push((a, b)));
                assert(edges@ =~= row_edges(pos, m as nat, n as nat, i as nat) + row.take(j + 1));
            }
            j = j + 1;
        }
        proof {
            let row = row_step(pos, m as nat, n as nat, i as nat);
            assert(row.take(n as int) =~= row);
        }
        i = i + 1;
    }
    let ghost rows = edges@;
    let mut i: usize = 0;
    while i < m
        invariant
            pos == positions@,
            m * n == pos.len(),
            pos.len() < usize::MAX,
            m > 0,
            n > 0,
            columns_joined == joined(n as nat, closed_n),
            columns_joined <= n,
            i <= m,
            rows == row_edges(pos, m as nat, n as nat, rows_joined as nat),
            edges@ == rows + column_edges(pos, n as nat, columns_joined as nat, i as nat),
        decreases m - i,
    {
        let mut j: usize = 0;
        while j < columns_joined
            invariant
                pos == positions@,
                m * n == pos.len(),
                pos.len() < usize::MAX,
                m > 0,
                n > 0,
                i < m,
                columns_joined <= n,
                j <= columns_joined,
                edges@ == rows + column_edges(pos, n as nat, columns_joined as nat, i as nat)
                    + column_step(pos, n as nat, columns_joined as nat, i as nat).take(j as int),
            decreases columns_joined - j,
        {
            let next = (j + 1) % n;
            proof {
                lemma_cell(i as int, j as int, m as int, n as int);
                lemma_cell(i as int, next as int, m as int, n as int);
            }
            let a = positions[i * n + j];
            let b = positions[i * n + next];
            edges.push((a, b));
            proof {
                let row = column_step(pos, n as nat, columns_joined as nat, i as nat);
                assert(row.take(j + 1) =~= row.take(j as int).push((a, b)));
                assert(edges@ =~= rows + column_edges(pos, n as nat, columns_joined as nat, i as nat)
                    + row.take(j + 1));
            }
            j = j + 1;
        }
        proof {
            let row = column_step(pos, n as nat, columns_joined as nat, i as nat);
            assert(row.take(columns_joined as int) =~= row);
            assert(rows + column_edges(pos, n as nat, columns_joined as nat, (i + 1) as nat) =~= rows
                + column_edges(pos, n as nat, columns_joined as nat, i as nat) + row);
        }
        i = i + 1;
    }
    (edges, 0)
}

/// `v`'s magnitude.
pub open spec fn magnitude(v: i64) -> int {
    if v < 0 {
        -v
    } else {
        v as int
    }
}

/// A polyface face's corners: its nonzero indices (71 to 74), in order,
/// each the 1-based index of a position; a negative one -- the edge from it
/// is invisible -- names the same corner as its magnitude, and a 0 is an
/// unused corner.
pub open spec fn corners(face: Seq<i64>) -> Seq<int>
    decreases face.len(),
{
    if face.len() == 0 {
        Seq::empty()
    } else {
        let c = corners(face.drop_last());
        if face.last() == 0 {
            c
        } else {
            c.push(magnitude(face.last()))
        }
    }
}

/// Whether corner `c` names one of the `n` positions.
pub open spec fn names_position(c: int, n: nat) -> bool {
    1 <= c <= n
}

/// The edges of the first `j` corners `c` of a face: each corner to the
/// next, the last back to the first. An edge with a corner that names no
/// position draws nothing.
pub open spec fn face_edges_upto<T>(positions: Seq<T>, c: Seq<int>, j: nat) -> Seq<(T, T)>
    decreases j,
{
    if j == 0 {
        Seq::empty()
    } else {
        let before = face_edges_upto(positions, c, (j - 1) as nat);
        let a = c[j - 1];
        let b = c[(j as int) % (c.len() as int)];
        if names_position(a, positions.len()) && names_position(b, positions.len()) {
            before.push((positions[a - 1], positions[b - 1]))
        } else {
            before
        }
    }
}

/// A face's edges (see `face_edges_upto`).
pub open spec fn face_edges<T>(positions: Seq<T>, face: Seq<i64>) -> Seq<(T, T)> {
    face_edges_upto(positions, corners(face), corners(face).len())
}

/// A polyface mesh's wireframe: the edges of its faces, face by face.
pub open spec fn polyface_edges<T>(positions: Seq<T>, faces: Seq<Seq<i64>>) -> Seq<(T, T)>
    decreases faces.len(),
{
    if faces.len() == 0 {
        Seq::empty()
    } else {
        polyface_edges(positions, faces.drop_last()) + face_edges(positions, faces.last())
    }
}

/// The faces' corner indices as the contracts speak of them.
pub open spec fn face_views(faces: Seq<[i64; 4]>) -> Seq<Seq<i64>> {
    faces.map_values(|f: [i64; 4]| f@)
}

fn magnitude_of(v: i64) -> (r: u64)
    ensures
        r as int == magnitude(v),
{
    if v >= 0 {
        v as u64
    } else if v == i64::MIN {
        0x8000_0000_0000_0000u64
    } else {
        (-v) as u64
    }
}

fn corners_of(face: &[i64; 4]) -> (r: Vec<u64>)
    ensures
        r@.map_values(|c: u64| c as int) == corners(face@),
{
    let ghost f = face@;
    let mut out: Vec<u64> = Vec::new();
    let mut i: usize = 0;
    assert(f.take(0) =~= Seq::<i64>::empty());
    assert(out@.map_values(|c: u64| c as int) =~= Seq::<int>::empty());
    while i < 4
        invariant
            f == face@,
            f.len() == 4,
            i <= 4,
            out@.map_values(|c: u64| c as int) == corners(f.take(i as int)),
        decreases 4 - i,
    {
        let v = face[i];
        assert(f.take(i + 1).drop_last() =~= f.take(i as int));
        assert(f.take(i + 1).last() == v);
        if v != 0 {
            let ghost before = out@;
            out.push(magnitude_of(v));
            assert(out@.map_values(|c: u64| c as int) =~= before.map_values(|c: u64| c as int).push(
                magnitude(v),
            ));
        }
        i = i + 1;
    }
    assert(f.take(4) =~= f);
    out
}

/// A polyface mesh's wireframe (see `polyface_edges`): `positions` are
/// its vertices that are positions, in order, and `faces` the four corner
/// indices (71 to 74) of each of its faces.
pub fn polyface_wireframe<T: Copy>(positions: &Vec<T>, faces: &Vec<[i64; 4]>) -> (r: Vec<(T, T)>)
    ensures
        r@ == polyface_edges(positions@, face_views(faces@)),
{
    let ghost pos = positions@;
    let ghost fv = face_views(faces@);
    let mut edges: Vec<(T, T)> = Vec::new();
    let mut k: usize = 0;
    assert(fv.take(0) =~= Seq::<Seq<i64>>::empty());
    while k < faces.len()
        invariant
            pos == positions@,
            fv == face_views(faces@),
            k <= faces@.len(),
            edges@ == polyface_edges(pos, fv.take(k as int)),
        decreases faces@.len() - k,
    {
        let c = corners_of(&faces[k]);
        let ghost cv = c@.map_values(|x: u64| x as int);
        assert(fv[k as int] == faces@[k as int]@);
        let ghost done = edges@;
        let len = positions.len();
        let n = len as u64;
        let mut j: usize = 0;
        while j < c.len()
            invariant
                pos == positions@,
                len == pos.len(),
                n == len,
                cv == c@.map_values(|x: u64| x as int),
                j <= c@.len(),
                edges@ == done + face_edges_upto(pos, cv, j as nat),
            decreases c@.len() - j,
        {
            let a = c[j];
            let b = c[(j + 1) % c.len()];
            assert(cv[j as int] == a as int);
            assert(cv[(j + 1) % (cv.len() as int)] == b as int);
            assert(cv.len() == c@.len());
            if 1 <= a && a <= n && 1 <= b && b <= n {
                let ia = (a - 1) as usize;
                let ib = (b - 1) as usize;
                assert(ia == a - 1 && ib == b - 1);
                let pa = positions[ia];
                let pb = positions[ib];
                edges.push((pa, pb));
                assert(names_position(cv[j as int], pos.len()));
                assert(edges@ =~= done + face_edges_upto(pos, cv, (j + 1) as nat));
            } else {
                assert(!(names_position(cv[j as int], pos.len()) && names_position(
                    cv[(j + 1) % (cv.len() as int)],
                    pos.len(),
                )));
                assert(edges@ =~= done + face_edges_upto(pos, cv, (j + 1) as nat));
            }
            j = j + 1;
        }
        assert(fv.take(k + 1).drop_last() =~= fv.take(k as int));
        assert(fv.take(k + 1).last() == faces@[k as int]@);
        assert(edges@ =~= polyface_edges(pos, fv.take(k + 1)));
        k = k + 1;
    }
    assert(fv.take(faces@.len() as int) =~= fv);
    edges
}

/// Every edge a drawn grid's definition implies is drawn: the edges number
/// as many as the definition counts, unless that count passes
/// `usize::MAX`.
pub proof fn a_drawn_grid_has_every_edge<T>(
    positions: Seq<T>,
    m: nat,
    n: nat,
    closed_m: bool,
    closed_n: bool,
)
    requires
        0 < positions.len() <= usize::MAX,
        positions.len() == m * n,
        joined(m, closed_m) * n + m * joined(n, closed_n) <= usize::MAX,
    ensures
        wireframe(positions, m, n, closed_m, closed_n).0.len() == edge_count(
            m,
            n,
            closed_m,
            closed_n,
        ),
        wireframe(positions, m, n, closed_m, closed_n).1 == 0,
{
    lemma_row_edges_len(positions, m, n, joined(m, closed_m));
    lemma_column_edges_len(positions, n, joined(n, closed_n), m);
    assert(0 <= joined(m, closed_m) * n && 0 <= m * joined(n, closed_n)) by (nonlinear_arith);
}

/// A drawn grid, in closed form. With `R` the rows joined to the next
/// (`joined(m, closed_m)`) and `C` the columns joined to the next
/// (`joined(n, closed_n)`), edge `i * n + j` joins row `i`, column `j` to
/// the same column of row `(i + 1) % m`, for `i < R` and `j < n`; then edge
/// `R * n + i * C + j` joins row `i`, column `j` to column `(j + 1) % n` of
/// the same row, for `i < m` and `j < C`; there are no others, and nothing
/// is skipped. Where the vertices are not exactly `m * n`, or there are
/// none, nothing is drawn and every edge the definition implies is
/// skipped.
pub proof fn a_drawn_grid_joins_each_vertex_to_the_next_row_and_column<T>(
    positions: Seq<T>,
    m: nat,
    n: nat,
    closed_m: bool,
    closed_n: bool,
)
    requires
        positions.len() <= usize::MAX,
        m * n <= usize::MAX,
    ensures
        ({
            let (edges, skipped) = wireframe(positions, m, n, closed_m, closed_n);
            let rows = joined(m, closed_m);
            let cols = joined(n, closed_n);
            if 0 < positions.len() && positions.len() == m * n {
                &&& skipped == 0
                &&& edges.len() == rows * n + m * cols
                &&& forall|i: int, j: int|
                    0 <= i < rows && 0 <= j < n ==> #[trigger] edges[vertex(n, i, j)] == (
                        positions[vertex(n, i, j)],
                        positions[vertex(n, (i + 1) % (m as int), j)],
                    )
                &&& forall|i: int, j: int|
                    0 <= i < m && 0 <= j < cols ==> #[trigger] edges[rows * n + vertex(cols, i, j)]
                        == (positions[vertex(n, i, j)], positions[vertex(n, i, (j + 1) % (n as int))])
            } else {
                &&& edges.len() == 0
                &&& skipped == edge_count(m, n, closed_m, closed_n)
            }
        }),
{
    let rows = joined(m, closed_m);
    let cols = joined(n, closed_n);
    if 0 < positions.len() && positions.len() == m * n {
        let re = row_edges(positions, m, n, rows);
        let ce = column_edges(positions, n, cols, m);
        lemma_row_edges_len(positions, m, n, rows);
        lemma_column_edges_len(positions, n, cols, m);
        assert forall|i: int, j: int| 0 <= i < rows && 0 <= j < n implies #[trigger] (re
            + ce)[vertex(n, i, j)] == (
            positions[vertex(n, i, j)],
            positions[vertex(n, (i + 1) % (m as int), j)],
        ) by {
            lemma_row_edges_at(positions, m, n, rows, i, j);
            lemma_cell(i, j, rows as int, n as int);
        }
        assert forall|i: int, j: int| 0 <= i < m && 0 <= j < cols implies #[trigger] (re
            + ce)[rows * n + vertex(cols, i, j)] == (
            positions[vertex(n, i, j)],
            positions[vertex(n, i, (j + 1) % (n as int))],
        ) by {
            lemma_column_edges_at(positions, n, cols, m, i, j);
            lemma_cell(i, j, m as int, cols as int);
            assert(0 <= rows * n) by (nonlinear_arith);
        }
    }
}

} // verus!
