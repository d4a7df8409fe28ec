use vstd::prelude::*;

verus! {

/// An `N` by `N` array as a sequence of its inner arrays.
pub open spec fn square_of<T, const N: usize>(a: [[T; N]; N]) -> Seq<Seq<T>> {
    Seq::new(N as nat, |i: int| a[i]@)
}

/// Whether `m` has `n` inner sequences of `n` entries each.
pub open spec fn is_square<T>(m: Seq<Seq<T>>, n: nat) -> bool {
    m.len() == n && forall|i: int| 0 <= i < n ==> (#[trigger] m[i]).len() == n
}

/// The square `m` with inner and outer index swapped: entry `[i][j]` of the
/// result is entry `[j][i]` of `m`. Reading rows as columns, this turns a
/// row-major grid into a column-major one and back.
pub open spec fn transposed<T>(m: Seq<Seq<T>>) -> Seq<Seq<T>> {
    Seq::new(m.len(), |i: int| Seq::new(m.len(), |j: int| m[j][i]))
}

/// The transpose of an `N` by `N` array: `t[i][j] == a[j][i]`.
pub fn transpose<T: Copy, const N: usize>(a: &[[T; N]; N]) -> (t: [[T; N]; N])
    ensures
        square_of(t) == transposed(square_of(*a)),
{
    let mut t: [[T; N]; N] = *a;
    let mut i: usize = 0;
    while i < N
        invariant
            i <= N,
            forall|r: int, c: int| 0 <= r < i && 0 <= c < N ==> #[trigger] t[r][c] == a[c][r],
        decreases N - i,
    {
        let mut row: [T; N] = a[i];
        let mut j: usize = 0;
        while j < N
            invariant
                i < N,
                j <= N,
                forall|c: int| 0 <= c < j ==> #[trigger] row[c] == a[c][i as int],
            decreases N - j,
        {
            row[j] = a[j][i];
            j = j + 1;
        }
        t[i] = row;
        i = i + 1;
    }
    assert(square_of(t) =~~= transposed(square_of(*a)));
    t
}

/// Transposing twice gives back the square one started with.
pub proof fn lemma_transpose_twice<T>(m: Seq<Seq<T>>, n: nat)
    requires
        is_square(m, n),
    ensures
        transposed(transposed(m)) == m,
{
    assert forall|i: int| 0 <= i < n implies #[trigger] transposed(transposed(m))[i] == m[i] by {
        assert(transposed(transposed(m))[i] =~= m[i]);
    }
    assert(transposed(transposed(m)) =~= m);
}

} // verus!
