//! The mathematics of slicing: where each slice of a byte sequence begins and
//! ends, how many slices there are, and that they rejoin to the sequence.

use vstd::prelude::*;
use vstd::arithmetic::div_mod::{lemma_fundamental_div_mod, lemma_fundamental_div_mod_converse, lemma_mod_pos_bound};
use vstd::arithmetic::mul::lemma_mul_inequality;

verus! {

/// How many slices `len` bytes make when a slice holds `chunk` bytes:
/// `len / chunk`, rounded up.
pub open spec fn slice_count(len: nat, chunk: nat) -> nat
    recommends
        chunk >= 1,
{
    if chunk == 0 {
        0
    } else {
        ((len + chunk - 1) / (chunk as int)) as nat
    }
}

/// Slice number `i` of `data`: the bytes from `i * chunk` up to
/// `(i + 1) * chunk`, or up to the end of `data` where that comes first.
pub open spec fn slice_at(data: Seq<u8>, chunk: nat, i: nat) -> Seq<u8>
    recommends
        chunk >= 1,
        i < slice_count(data.len(), chunk),
{
    let start = (i * chunk) as int;
    let end = if start + chunk <= data.len() {
        start + chunk
    } else {
        data.len() as int
    };
    data.subrange(start, end)
}

/// All the slices of `data`, in order.
pub open spec fn slices_of(data: Seq<u8>, chunk: nat) -> Seq<Seq<u8>>
    recommends
        chunk >= 1,
{
    Seq::new(slice_count(data.len(), chunk), |i: int| slice_at(data, chunk, i as nat))
}

/// The slices of `data` that are full, but were not yet when only the first
/// `before` bytes of `data` had arrived.
pub open spec fn ready(before: nat, data: Seq<u8>, chunk: nat) -> Seq<Seq<u8>>
    recommends
        chunk >= 1,
        before <= data.len(),
{
    Seq::new(
        (data.len() / chunk - before / chunk) as nat,
        |k: int| slice_at(data, chunk, (before / chunk + k) as nat),
    )
}

/// The short slice that ends `data`, if its length is no multiple of `chunk`.
pub open spec fn tail(data: Seq<u8>, chunk: nat) -> Option<Seq<u8>>
    recommends
        chunk >= 1,
{
    if data.len() % chunk == 0 {
        None
    } else {
        Some(slice_at(data, chunk, data.len() / chunk))
    }
}

/// The count of slices is the least number of chunks that cover `len` bytes:
/// one for each full chunk, and one more if bytes are left over.
pub proof fn lemma_slice_count(len: nat, chunk: nat)
    requires
        chunk >= 1,
    ensures
        slice_count(len, chunk) == len / chunk + if len % chunk == 0 { 0nat } else { 1nat },
        slice_count(len, chunk) * chunk >= len,
        len > 0 ==> (slice_count(len, chunk) - 1) * chunk < len,
        (len / chunk) * chunk + len % chunk == len,
        len % chunk < chunk,
{
    let c = chunk as int;
    let q = len as int / c;
    let r = len as int % c;
    lemma_fundamental_div_mod(len as int, c);
    lemma_mod_pos_bound(len as int, c);
    assert(0 <= q) by (nonlinear_arith)
        requires
            len == q * c + r,
            r < c,
            c >= 1,
            len >= 0,
    ;
    if r == 0 {
        lemma_fundamental_div_mod_converse(len + c - 1, c, q, c - 1);
    } else {
        assert((q + 1) * c == q * c + c) by (nonlinear_arith);
        lemma_fundamental_div_mod_converse(len + c - 1, c, q + 1, r - 1);
    }
    assert((q - 1) * c == q * c - c) by (nonlinear_arith);
}

/// Slice `i` lies inside `data` whenever `i` is below the count of slices, and
/// it is full whenever `i` is below the count of full chunks.
pub proof fn lemma_slice_bounds(len: nat, chunk: nat, i: nat)
    requires
        chunk >= 1,
        i < slice_count(len, chunk),
    ensures
        i * chunk < len,
        i < len / chunk <==> i * chunk + chunk <= len,
{
    let c = chunk as int;
    let q = len as int / c;
    lemma_slice_count(len, chunk);
    assert((i + 1) * c == i * c + c) by (nonlinear_arith);
    if (i as int) < q {
        lemma_mul_inequality(i as int + 1, q, c);
    }
}

/// Every slice but the last holds exactly `chunk` bytes. The last holds the
/// bytes left over, `len % chunk` of them, or `chunk` if none are left over.
pub proof fn lemma_slice_lengths(data: Seq<u8>, chunk: nat)
    requires
        chunk >= 1,
    ensures
        slices_of(data, chunk).len() == slice_count(data.len(), chunk),
        forall|i: int|
            0 <= i < slice_count(data.len(), chunk) - 1 ==> (#[trigger] slices_of(
                data,
                chunk,
            )[i]).len() == chunk,
        data.len() > 0 ==> slices_of(data, chunk).last().len() == if data.len() % chunk == 0 {
            chunk
        } else {
            data.len() % chunk
        },
        forall|i: int|
            0 <= i < slice_count(data.len(), chunk) ==> 1 <= (#[trigger] slices_of(
                data,
                chunk,
            )[i]).len() <= chunk,
{
    let n = slice_count(data.len(), chunk);
    lemma_slice_count(data.len(), chunk);
    assert forall|i: int| 0 <= i < n implies {
        &&& 1 <= (#[trigger] slices_of(data, chunk)[i]).len() <= chunk
        &&& i < n - 1 ==> slices_of(data, chunk)[i].len() == chunk
        &&& i == n - 1 ==> slices_of(data, chunk)[i].len() == if data.len() % chunk == 0 {
            chunk
        } else {
            data.len() % chunk
        }
    } by {
        lemma_slice_bounds(data.len(), chunk, i as nat);
    }
    if data.len() > 0 {
        assert(n >= 1) by (nonlinear_arith)
            requires
                n * chunk >= data.len(),
                data.len() > 0,
        ;
    }
}

/// The first `m` slices, joined in order, are the bytes of `data` before
/// slice `m`.
proof fn lemma_join_prefix(data: Seq<u8>, chunk: nat, m: nat)
    requires
        chunk >= 1,
        m <= slice_count(data.len(), chunk),
    ensures
        m < slice_count(data.len(), chunk) ==> m * chunk <= data.len(),
        slices_of(data, chunk).take(m as int).flatten_alt() == data.take(
            if m < slice_count(data.len(), chunk) {
                (m * chunk) as int
            } else {
                data.len() as int
            },
        ),
    decreases m,
{
    let all = slices_of(data, chunk);
    let n = slice_count(data.len(), chunk);
    if m < n {
        lemma_slice_bounds(data.len(), chunk, m);
    }
    if m == 0 {
        if n == 0 {
            lemma_slice_count(data.len(), chunk);
        }
    } else {
        let k = (m - 1) as nat;
        lemma_join_prefix(data, chunk, k);
        lemma_slice_bounds(data.len(), chunk, k);
        assert((k + 1) * chunk == k * chunk + chunk) by (nonlinear_arith);
        let part = all.take(m as int);
        assert(part.drop_last() =~= all.take(k as int));
        if m < n {
        } else {
            lemma_slice_count(data.len(), chunk);
        }
    }
}

/// Joined in order, the slices of `data` are `data` again, byte for byte.
pub proof fn lemma_slices_rejoin(data: Seq<u8>, chunk: nat)
    requires
        chunk >= 1,
    ensures
        slices_of(data, chunk).flatten() == data,
{
    let all = slices_of(data, chunk);
    lemma_join_prefix(data, chunk, all.len());
    all.lemma_flatten_and_flatten_alt_are_equivalent();
    assert(all.take(all.len() as int) =~= all);
}

/// No bytes make no slices.
pub proof fn lemma_empty_has_no_slices(chunk: nat)
    requires
        chunk >= 1,
    ensures
        slices_of(Seq::<u8>::empty(), chunk) == Seq::<Seq<u8>>::empty(),
{
    lemma_slice_count(0, chunk);
}

/// A full slice stays what it is when more bytes follow.
pub proof fn lemma_full_slice_is_settled(data: Seq<u8>, more: Seq<u8>, chunk: nat, i: nat)
    requires
        chunk >= 1,
        i < data.len() / chunk,
    ensures
        slice_at(data + more, chunk, i) == slice_at(data, chunk, i),
        slice_at(data, chunk, i).len() == chunk,
{
    lemma_slice_count(data.len(), chunk);
    lemma_mul_inequality(i as int + 1, data.len() as int / (chunk as int), chunk as int);
    assert((i + 1) * chunk == i * chunk + chunk) by (nonlinear_arith);
}

/// Bytes that arrive in two parts complete the same slices, in the same
/// order, as when they arrive in one.
pub proof fn lemma_ready_in_parts(before: nat, first: Seq<u8>, second: Seq<u8>, chunk: nat)
    requires
        chunk >= 1,
        before <= first.len(),
    ensures
        ready(before, first, chunk) + ready(first.len(), first + second, chunk) == ready(
            before,
            first + second,
            chunk,
        ),
{
    let whole = first + second;
    lemma_full_counts_grow(before, first.len(), chunk);
    lemma_full_counts_grow(first.len(), whole.len(), chunk);
    let a = ready(before, first, chunk);
    let b = ready(first.len(), whole, chunk);
    let c = ready(before, whole, chunk);
    assert forall|k: int| 0 <= k < c.len() implies (a + b)[k] == c[k] by {
        if k < a.len() {
            lemma_full_slice_is_settled(first, second, chunk, (before / chunk + k) as nat);
        }
    }
}

/// More bytes never make fewer full chunks.
pub proof fn lemma_full_counts_grow(shorter: nat, longer: nat, chunk: nat)
    requires
        chunk >= 1,
        shorter <= longer,
    ensures
        shorter / chunk <= longer / chunk,
{
    vstd::arithmetic::div_mod::lemma_div_is_ordered(shorter as int, longer as int, chunk as int);
}

/// The slices of `data` are those that become full as its bytes arrive,
/// followed by the short slice at the end, if there is one.
pub proof fn lemma_slices_are_ready_then_tail(data: Seq<u8>, chunk: nat)
    requires
        chunk >= 1,
    ensures
        slices_of(data, chunk) == ready(0, data, chunk) + match tail(data, chunk) {
            Some(last) => seq![last],
            None => Seq::<Seq<u8>>::empty(),
        },
{
    lemma_slice_count(data.len(), chunk);
    assert(0nat / chunk == 0) by (nonlinear_arith)
        requires
            chunk >= 1,
    ;
}

} // verus!
