use vstd::prelude::*;

use crate::simulator::PendingProcess;

verus! {

/// Whether `a` arrives strictly before `b`.
pub open spec fn arrives_before(a: PendingProcess, b: PendingProcess) -> bool {
    a.arrival_time < b.arrival_time
}

fn arrives_before_exec(a: &PendingProcess, b: &PendingProcess) -> (r: bool)
    ensures
        r == arrives_before(*a, *b),
{
    a.arrival_time < b.arrival_time
}

/// `f` maps each position of `out` to the position of `inp` it was taken from, and shows
/// `out` ordered by arrival offset with equal offsets kept in their order in `inp`.
pub open spec fn stable_arrival_sort_by(
    out: Seq<PendingProcess>,
    inp: Seq<PendingProcess>,
    f: Seq<int>,
) -> bool {
    &&& out.len() == inp.len()
    &&& f.len() == inp.len()
    &&& forall|k: int| 0 <= k < f.len() ==> 0 <= #[trigger] f[k] < inp.len() && out[k] == inp[f[k]]
    &&& forall|i: int, j: int| 0 <= i < j < f.len() ==> f[i] != f[j]
    &&& forall|i: int, j: int| 0 <= i < j < out.len() ==> !arrives_before(out[j], out[i])
    &&& forall|i: int, j: int|
        0 <= i < j < out.len() && !arrives_before(out[i], out[j]) ==> f[i] < f[j]
}

/// `out` is a rearrangement of `inp`, ordered by arrival offset, in which entries with equal
/// offsets keep their relative order.
pub open spec fn is_stable_arrival_sort(out: Seq<PendingProcess>, inp: Seq<PendingProcess>) -> bool {
    exists|f: Seq<int>| stable_arrival_sort_by(out, inp, f)
}

/// Where `x` goes in `s`: before the first entry that arrives strictly after it.
pub open spec fn arrival_insertion_index(s: Seq<PendingProcess>, x: PendingProcess) -> nat
    decreases s.len(),
{
    if s.len() == 0 {
        0
    } else if arrives_before(x, s[0]) {
        0
    } else {
        1 + arrival_insertion_index(s.drop_first(), x)
    }
}

/// The entries `s` ordered by arrival: each in turn is placed after every entry that does not
/// arrive strictly after it.
pub open spec fn arrival_order_of(s: Seq<PendingProcess>) -> Seq<PendingProcess>
    decreases s.len(),
{
    if s.len() == 0 {
        s
    } else {
        let r = arrival_order_of(s.drop_last());
        r.insert(arrival_insertion_index(r, s.last()) as int, s.last())
    }
}

proof fn lemma_arrival_insertion_index(s: Seq<PendingProcess>, x: PendingProcess)
    ensures
        arrival_insertion_index(s, x) <= s.len(),
        forall|m: int| 0 <= m < arrival_insertion_index(s, x) ==> !arrives_before(x, #[trigger] s[m]),
        arrival_insertion_index(s, x) < s.len() ==> arrives_before(x, s[arrival_insertion_index(s, x) as int]),
    decreases s.len(),
{
    if s.len() > 0 && !arrives_before(x, s[0]) {
        let t = s.drop_first();
        lemma_arrival_insertion_index(t, x);
        assert forall|m: int| 0 <= m < arrival_insertion_index(s, x) implies !arrives_before(
            x,
            #[trigger] s[m],
        ) by {
            if m > 0 {
                assert(s[m] == t[m - 1]);
            }
        }
    }
}

proof fn lemma_arrival_insertion_index_unique(s: Seq<PendingProcess>, x: PendingProcess, k: int)
    requires
        0 <= k <= s.len(),
        forall|m: int| 0 <= m < k ==> !arrives_before(x, #[trigger] s[m]),
        k < s.len() ==> arrives_before(x, s[k]),
    ensures
        arrival_insertion_index(s, x) == k,
{
    lemma_arrival_insertion_index(s, x);
    let idx = arrival_insertion_index(s, x) as int;
    if idx < k {
        assert(!arrives_before(x, s[idx]));
    } else if k < idx {
        assert(!arrives_before(x, s[k]));
    }
}

/// The order `arrival_order_of` produces is a stable sort by arrival offset.
pub proof fn lemma_arrival_sort_stable(s: Seq<PendingProcess>)
    ensures
        is_stable_arrival_sort(arrival_order_of(s), s),
    decreases s.len(),
{
    if s.len() == 0 {
        assert(stable_arrival_sort_by(s, s, Seq::<int>::empty()));
    } else {
        let n = s.len() as int;
        let s1 = s.drop_last();
        lemma_arrival_sort_stable(s1);
        let r = arrival_order_of(s1);
        let f1 = choose|f: Seq<int>| stable_arrival_sort_by(r, s1, f);
        let x = s.last();
        let k = arrival_insertion_index(r, x) as int;
        lemma_arrival_insertion_index(r, x);
        let out = r.insert(k, x);
        let f = f1.insert(k, n - 1);
        r.insert_ensures(k, x);
        f1.insert_ensures(k, n - 1);
        assert(out == arrival_order_of(s));
        assert forall|k2: int| 0 <= k2 < f.len() implies 0 <= #[trigger] f[k2] < s.len() && out[k2]
            == s[f[k2]] by {
            if k2 < k {
                assert(s[f1[k2]] == s1[f1[k2]]);
            } else if k2 > k {
                assert(out[k2] == r[k2 - 1]);
                assert(f[k2] == f1[k2 - 1]);
                assert(s[f1[k2 - 1]] == s1[f1[k2 - 1]]);
            }
        }
        assert forall|i: int, j: int| 0 <= i < j < f.len() implies f[i] != f[j] by {
            if j < k {
            } else if j == k {
                assert(f1[i] < n - 1);
            } else if i < k {
                assert(f[j] == f1[j - 1]);
            } else if i == k {
                assert(f[j] == f1[j - 1]);
                assert(f1[j - 1] < n - 1);
            } else {
                assert(f[j] == f1[j - 1]);
                assert(f[i] == f1[i - 1]);
            }
        }
        assert forall|j: int| k < j < out.len() implies arrives_before(x, #[trigger] out[j]) by {
            assert(out[j] == r[j - 1]);
            if j - 1 > k {
                assert(!arrives_before(r[j - 1], r[k]));
            }
        }
        assert forall|i: int, j: int| 0 <= i < j < out.len() implies !arrives_before(
            out[j],
            out[i],
        ) by {
            if j < k {
            } else if j == k {
            } else if i < k {
                assert(out[j] == r[j - 1]);
            } else if i == k {
                assert(out[j] == r[j - 1]);
            } else {
                assert(out[j] == r[j - 1]);
                assert(out[i] == r[i - 1]);
            }
        }
        assert forall|i: int, j: int|
            0 <= i < j < out.len() && !arrives_before(out[i], out[j]) implies f[i] < f[j] by {
            if j < k {
            } else if j == k {
                assert(f1[i] < n - 1);
            } else if i < k {
                assert(out[j] == r[j - 1]);
                assert(f[j] == f1[j - 1]);
            } else if i == k {
            } else {
                assert(out[j] == r[j - 1]);
                assert(out[i] == r[i - 1]);
                assert(f[j] == f1[j - 1]);
                assert(f[i] == f1[i - 1]);
            }
        }
        assert(stable_arrival_sort_by(out, s, f));
    }
}

/// Orders `v` by arrival offset, stably.
pub fn sort_by_arrival(v: &mut Vec<PendingProcess>)
    ensures
        final(v)@ == arrival_order_of(old(v)@),
        is_stable_arrival_sort(final(v)@, old(v)@),
{
    let ghost inp = v@;
    let n = v.len();
    let mut rest: Vec<PendingProcess> = Vec::new();
    std::mem::swap(&mut rest, v);
    let mut out: Vec<PendingProcess> = Vec::new();
    let mut i: usize = 0;
    while rest.len() > 0
        invariant
            i <= inp.len(),
            inp.len() == n,
            rest@ == inp.skip(i as int),
            out@ == arrival_order_of(inp.take(i as int)),
        decreases rest.len(),
    {
        let x = rest.remove(0);
        assert(x == inp[i as int]);
        let mut k: usize = 0;
        while k < out.len() && !arrives_before_exec(&x, &out[k])
            invariant
                k <= out.len(),
                forall|m: int| 0 <= m < k ==> !arrives_before(x, #[trigger] out@[m]),
            decreases out.len() - k,
        {
            k = k + 1;
        }
        proof {
            lemma_arrival_insertion_index_unique(out@, x, k as int);
            assert(inp.take(i + 1).drop_last() =~= inp.take(i as int));
            assert(inp.take(i + 1).last() == x);
            out@.insert_ensures(k as int, x);
        }
        out.insert(k, x);
        proof {
            assert(rest@ =~= inp.skip(i + 1));
        }
        i = i + 1;
    }
    proof {
        assert(inp.take(i as int) =~= inp);
        lemma_arrival_sort_stable(inp);
    }
    *v = out;
}

} // verus!
