//! The memory of the simulated device arrays: zero-filled allocation,
//! copies between host and device bytes, and the reordering of a
//! two-dimensional array's elements when it is transposed.

use vstd::prelude::*;
use vstd::arithmetic::div_mod::{lemma_fundamental_div_mod, lemma_fundamental_div_mod_converse};

verus! {

/// `n` zero bytes.
pub open spec fn zero_bytes(n: nat) -> Seq<u8> {
    Seq::new(n, |i: int| 0u8)
}

/// `dst` with its first bytes replaced by those of `src`, as far as `dst`
/// reaches: a copy of `src` into memory of the length of `dst`.
pub open spec fn copied_into(dst: Seq<u8>, src: Seq<u8>) -> Seq<u8> {
    Seq::new(dst.len(), |i: int| if i < src.len() { src[i] } else { dst[i] })
}

/// Host data that fills the whole memory comes back unchanged: copying
/// `src` into memory of its own length gives `src`.
pub proof fn lemma_full_copy_round_trip(dst: Seq<u8>, src: Seq<u8>)
    requires
        dst.len() == src.len(),
    ensures
        copied_into(dst, src) == src,
{
    assert(copied_into(dst, src) =~= src);
}

/// Position of byte `k` of the element in row `i`, column `j` of a
/// row-major array with `cols` columns of `b`-byte elements.
pub open spec fn byte_index(cols: nat, b: nat, i: int, j: int, k: int) -> int {
    (i * cols + j) * b + k
}

/// `t` holds the elements of the `rows` x `cols` array `d` of `b`-byte
/// elements transposed: element (j, i) of `t` is element (i, j) of `d`.
pub open spec fn is_transpose_of(t: Seq<u8>, d: Seq<u8>, rows: nat, cols: nat, b: nat) -> bool {
    &&& d.len() == rows * cols * b
    &&& t.len() == d.len()
    &&& forall|i: int, j: int, k: int|
        #![trigger t[byte_index(rows, b, j, i, k)]]
        0 <= i < rows && 0 <= j < cols && 0 <= k < b ==> t[byte_index(rows, b, j, i, k)] == d[byte_index(cols, b, i, j, k)]
}

/// Source position of byte `x` of the transpose of a `rows` x `cols` array
/// of `b`-byte elements.
spec fn transpose_source(x: int, rows: nat, cols: nat, b: nat) -> int {
    byte_index(cols, b, (x / b as int) % rows as int, (x / b as int) / rows as int, x % b as int)
}

/// Every position below `rows * cols * b` is the position of some byte of
/// some element.
proof fn lemma_byte_index_onto(x: int, rows: nat, cols: nat, b: nat) -> (ijk: (int, int, int))
    requires
        cols > 0,
        b > 0,
        0 <= x < rows * cols * b,
    ensures
        0 <= ijk.0 < rows,
        0 <= ijk.1 < cols,
        0 <= ijk.2 < b,
        x == byte_index(cols, b, ijk.0, ijk.1, ijk.2),
{
    let e = x / b as int;
    let k = x % b as int;
    lemma_fundamental_div_mod(x, b as int);
    assert(0 <= e < rows * cols) by (nonlinear_arith)
        requires
            x == b * e + k,
            0 <= k < b,
            0 <= x < rows * cols * b,
            b > 0,
    ;
    let i = e / cols as int;
    let j = e % cols as int;
    lemma_fundamental_div_mod(e, cols as int);
    assert(0 <= i < rows) by (nonlinear_arith)
        requires
            e == cols * i + j,
            0 <= j < cols,
            0 <= e < rows * cols,
    ;
    assert(x == (i * cols + j) * b + k) by (nonlinear_arith)
        requires
            x == b * e + k,
            e == cols * i + j,
    ;
    (i, j, k)
}

/// Transposing twice gives back the array's bytes: the transpose of the
/// transpose of `d` is `d`.
pub proof fn lemma_transpose_twice(d: Seq<u8>, t: Seq<u8>, u: Seq<u8>, rows: nat, cols: nat, b: nat)
    requires
        rows > 0,
        cols > 0,
        b > 0,
        is_transpose_of(t, d, rows, cols, b),
        is_transpose_of(u, t, cols, rows, b),
    ensures
        u == d,
{
    assert forall|x: int| 0 <= x < d.len() implies u[x] == d[x] by {
        assert(rows * cols * b == cols * rows * b) by (nonlinear_arith);
        let (i, j, k) = lemma_byte_index_onto(x, rows, cols, b);
        assert(u[byte_index(cols, b, i, j, k)] == t[byte_index(rows, b, j, i, k)]);
        assert(t[byte_index(rows, b, j, i, k)] == d[byte_index(cols, b, i, j, k)]);
    }
    assert(u =~= d);
}

/// `n` zero bytes.
pub fn zeroed(n: usize) -> (v: Vec<u8>)
    ensures
        v@ == zero_bytes(n as nat),
{
    let v = vec![0u8; n];
    assert(v@ =~= zero_bytes(n as nat));
    v
}

/// Copies `src` into `dst`, as far as `dst` reaches.
pub fn copy_into(dst: &mut [u8], src: &[u8])
    ensures
        final(dst)@ == copied_into(old(dst)@, src@),
{
    let ghost start = dst@;
    let mut i: usize = 0;
    while i < dst.len() && i < src.len()
        invariant
            i <= dst@.len(),
            dst@.len() == start.len(),
            forall|p: int| 0 <= p < i ==> dst@[p] == src@[p],
            forall|p: int| i <= p < dst@.len() ==> dst@[p] == start[p],
            i <= src@.len(),
        decreases dst@.len() - i,
    {
        dst[i] = src[i];
        i = i + 1;
    }
    assert(dst@ =~= copied_into(start, src@));
}

/// A copy of `v`.
pub fn duplicate(v: &Vec<u8>) -> (r: Vec<u8>)
    ensures
        r@ == v@,
{
    let mut r: Vec<u8> = Vec::new();
    let mut i: usize = 0;
    while i < v.len()
        invariant
            i <= v@.len(),
            r@ == v@.take(i as int),
        decreases v@.len() - i,
    {
        assert(v@.take(i + 1) =~= v@.take(i as int).push(v@[i as int]));
        r.push(v[i]);
        i = i + 1;
    }
    assert(v@.take(i as int) =~= v@);
    r
}

/// `dst` with `src` copied into it, as far as `dst` reaches.
pub fn copied(dst: &Vec<u8>, src: &[u8]) -> (r: Vec<u8>)
    ensures
        r@ == copied_into(dst@, src@),
{
    let mut r: Vec<u8> = Vec::new();
    let mut i: usize = 0;
    while i < dst.len()
        invariant
            i <= dst@.len(),
            r@ == copied_into(dst@, src@).take(i as int),
        decreases dst@.len() - i,
    {
        let x = if i < src.len() { src[i] } else { dst[i] };
        assert(copied_into(dst@, src@).take(i + 1) =~= copied_into(dst@, src@).take(i as int).push(x));
        r.push(x);
        i = i + 1;
    }
    assert(copied_into(dst@, src@).take(i as int) =~= copied_into(dst@, src@));
    r
}

proof fn lemma_transpose_source_in_range(x: int, rows: nat, cols: nat, b: nat)
    requires
        rows > 0,
        cols > 0,
        b > 0,
        0 <= x < rows * cols * b,
    ensures
        0 <= transpose_source(x, rows, cols, b) < rows * cols * b,
        0 <= ((x / (b as int)) % (rows as int)) * cols + (x / (b as int)) / (rows as int) < rows * cols,
        rows * cols <= rows * cols * b,
{
    let e = x / b as int;
    let k = x % b as int;
    lemma_fundamental_div_mod(x, b as int);
    assert(0 <= e < rows * cols) by (nonlinear_arith)
        requires
            x == b * e + k,
            0 <= k < b,
            0 <= x < rows * cols * b,
            b > 0,
    ;
    let i = e % rows as int;
    let j = e / rows as int;
    lemma_fundamental_div_mod(e, rows as int);
    assert(0 <= j < cols) by (nonlinear_arith)
        requires
            e == rows * j + i,
            0 <= i < rows,
            0 <= e < rows * cols,
    ;
    assert(0 <= (i * cols + j) * b + k < rows * cols * b && 0 <= i * cols + j < rows * cols
        && rows * cols <= rows * cols * b) by (nonlinear_arith)
        requires
            0 <= i < rows,
            0 <= j < cols,
            0 <= k < b,
            b > 0,
    ;
}

proof fn lemma_transpose_source_of(rows: nat, cols: nat, b: nat, i: int, j: int, k: int)
    requires
        rows > 0,
        cols > 0,
        b > 0,
        0 <= i < rows,
        0 <= j < cols,
        0 <= k < b,
    ensures
        0 <= byte_index(rows, b, j, i, k) < rows * cols * b,
        transpose_source(byte_index(rows, b, j, i, k), rows, cols, b) == byte_index(cols, b, i, j, k),
{
    let e = j * rows + i;
    let x = e * b + k;
    assert(0 <= e < rows * cols) by (nonlinear_arith)
        requires
            e == j * rows + i,
            0 <= i < rows,
            0 <= j < cols,
    ;
    assert(0 <= x < rows * cols * b) by (nonlinear_arith)
        requires
            x == e * b + k,
            0 <= e < rows * cols,
            0 <= k < b,
    ;
    assert(x == b * e + k) by (nonlinear_arith)
        requires
            x == e * b + k,
    ;
    lemma_fundamental_div_mod_converse(x, b as int, e, k);
    assert(e == rows * j + i) by (nonlinear_arith)
        requires
            e == j * rows + i,
    ;
    lemma_fundamental_div_mod_converse(e, rows as int, j, i);
}

/// The bytes of the `rows` x `cols` array `d` of `b`-byte elements,
/// transposed.
pub fn transpose_bytes(d: &Vec<u8>, rows: usize, cols: usize, b: usize) -> (t: Vec<u8>)
    requires
        rows > 0,
        cols > 0,
        b > 0,
        d@.len() == rows * cols * b,
    ensures
        is_transpose_of(t@, d@, rows as nat, cols as nat, b as nat),
{
    let total = d.len();
    let mut t: Vec<u8> = Vec::new();
    let mut x: usize = 0;
    while x < total
        invariant
            rows > 0,
            cols > 0,
            b > 0,
            total == d@.len(),
            d@.len() == rows * cols * b,
            x <= total,
            t@.len() == x,
            forall|y: int| 0 <= y < x ==> #[trigger] t@[y] == d@[transpose_source(y, rows as nat, cols as nat, b as nat)],
        decreases total - x,
    {
        proof {
            lemma_transpose_source_in_range(x as int, rows as nat, cols as nat, b as nat);
        }
        let e = x / b;
        let k = x % b;
        let i = e % rows;
        let j = e / rows;
        let source = (i * cols + j) * b + k;
        t.push(d[source]);
        x = x + 1;
    }
    proof {
        assert forall|i: int, j: int, k: int|
            #![trigger t@[byte_index(rows as nat, b as nat, j, i, k)]]
            0 <= i < rows && 0 <= j < cols && 0 <= k < b implies t@[byte_index(rows as nat, b as nat, j, i, k)] == d@[byte_index(cols as nat, b as nat, i, j, k)] by {
            lemma_transpose_source_of(rows as nat, cols as nat, b as nat, i, j, k);
        }
    }
    t
}

} // verus!
