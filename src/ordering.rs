use vstd::prelude::*;

use crate::discipline::{lemma_ranks_before_order, ranks_before, ranks_before_exec, QueueDiscipline};
use crate::process::{all_wf, Process};

verus! {

/// `f` maps each position of `out` to the position of `inp` it was taken from, and shows
/// `out` ordered as `d` ranks processes at `now`, with ties kept in their order in `inp`.
pub open spec fn stable_sort_by(
    d: QueueDiscipline,
    now: u64,
    out: Seq<Process>,
    inp: Seq<Process>,
    f: Seq<int>,
) -> bool {
    &&& out.len() == inp.len()
    &&& f.len() == inp.len()
    &&& forall|k: int| 0 <= k < f.len() ==> 0 <= #[trigger] f[k] < inp.len() && out[k] == inp[f[k]]
    &&& forall|i: int, j: int| 0 <= i < j < f.len() ==> f[i] != f[j]
    &&& forall|i: int, j: int| 0 <= i < j < out.len() ==> !ranks_before(d, now, out[j], out[i])
    &&& forall|i: int, j: int|
        0 <= i < j < out.len() && !ranks_before(d, now, out[i], out[j]) ==> f[i] < f[j]
}

/// `out` is a rearrangement of `inp`, ordered as `d` ranks processes at `now`, in which
/// processes that `d` does not tell apart keep their relative order.
pub open spec fn is_stable_sort(d: QueueDiscipline, now: u64, out: Seq<Process>, inp: Seq<Process>) -> bool {
    exists|f: Seq<int>| stable_sort_by(d, now, out, inp, f)
}

/// Where `x` goes in `s`: before the first process that `x` strictly precedes.
pub open spec fn insertion_index(d: QueueDiscipline, now: u64, s: Seq<Process>, x: Process) -> nat
    decreases s.len(),
{
    if s.len() == 0 {
        0
    } else if ranks_before(d, now, x, s[0]) {
        0
    } else {
        1 + insertion_index(d, now, s.drop_first(), x)
    }
}

/// The queue `s` ordered as `d` ranks processes at `now`: each process in turn is placed
/// after every process it does not strictly precede.
pub open spec fn ranked_order(d: QueueDiscipline, now: u64, s: Seq<Process>) -> Seq<Process>
    decreases s.len(),
{
    if s.len() == 0 {
        s
    } else {
        let r = ranked_order(d, now, s.drop_last());
        r.insert(insertion_index(d, now, r, s.last()) as int, s.last())
    }
}

proof fn lemma_insertion_index(d: QueueDiscipline, now: u64, s: Seq<Process>, x: Process)
    ensures
        insertion_index(d, now, s, x) <= s.len(),
        forall|m: int| 0 <= m < insertion_index(d, now, s, x) ==> !ranks_before(d, now, x, #[trigger] s[m]),
        insertion_index(d, now, s, x) < s.len() ==> ranks_before(d, now, x, s[insertion_index(d, now, s, x) as int]),
    decreases s.len(),
{
    if s.len() > 0 && !ranks_before(d, now, x, s[0]) {
        let t = s.drop_first();
        lemma_insertion_index(d, now, t, x);
        assert forall|m: int| 0 <= m < insertion_index(d, now, s, x) implies !ranks_before(
            d,
            now,
            x,
            #[trigger] s[m],
        ) by {
            if m > 0 {
                assert(s[m] == t[m - 1]);
            }
        }
    }
}

proof fn lemma_insertion_index_unique(d: QueueDiscipline, now: u64, s: Seq<Process>, x: Process, k: int)
    requires
        0 <= k <= s.len(),
        forall|m: int| 0 <= m < k ==> !ranks_before(d, now, x, #[trigger] s[m]),
        k < s.len() ==> ranks_before(d, now, x, s[k]),
    ensures
        insertion_index(d, now, s, x) == k,
{
    lemma_insertion_index(d, now, s, x);
    let idx = insertion_index(d, now, s, x) as int;
    if idx < k {
        assert(!ranks_before(d, now, x, s[idx]));
    } else if k < idx {
        assert(!ranks_before(d, now, x, s[k]));
    }
}

/// `ranked_order` is a stable sort: a rearrangement, ordered by the discipline, that keeps
/// ties in their original order.
pub proof fn lemma_ranked_order_stable(d: QueueDiscipline, now: u64, s: Seq<Process>)
    requires
        all_wf(s),
    ensures
        is_stable_sort(d, now, ranked_order(d, now, s), s),
        all_wf(ranked_order(d, now, s)),
    decreases s.len(),
{
    if s.len() == 0 {
        assert(stable_sort_by(d, now, s, s, Seq::<int>::empty()));
    } else {
        let n = s.len() as int;
        let s1 = s.drop_last();
        assert(all_wf(s1)) by {
            assert forall|i: int| 0 <= i < s1.len() implies #[trigger] s1[i].wf() by {
                assert(s1[i] == s[i]);
            }
        }
        lemma_ranked_order_stable(d, now, s1);
        let r = ranked_order(d, now, s1);
        let f1 = choose|f: Seq<int>| stable_sort_by(d, now, r, s1, f);
        let x = s.last();
        let k = insertion_index(d, now, r, x) as int;
        lemma_insertion_index(d, now, r, x);
        let out = r.insert(k, x);
        let f = f1.insert(k, n - 1);
        r.insert_ensures(k, x);
        f1.insert_ensures(k, n - 1);
        assert(out == ranked_order(d, now, s));
        assert(x.wf());
        assert forall|k2: int| 0 <= k2 < f.len() implies 0 <= #[trigger] f[k2] < s.len() && out[k2]
            == s[f[k2]] by {
            if k2 < k {
                assert(s[f1[k2]] == s1[f1[k2]]);
            } else if k2 > k {
                assert(out[k2] == r[k2 - 1]);
                assert(f[k2] == f1[k2 - 1]);
                assert(s[f1[k2 - 1]] == s1[f1[k2 - 1]]);
            }
        }
        assert forall|i: int, j: int| 0 <= i < j < f.len() implies f[i] != f[j] by {
            if j < k {
            } else if j == k {
                assert(f1[i] < n - 1);
            } else if i < k {
                assert(f[j] == f1[j - 1]);
            } else if i == k {
                assert(f[j] == f1[j - 1]);
                assert(f1[j - 1] < n - 1);
            } else {
                assert(f[j] == f1[j - 1]);
                assert(f[i] == f1[i - 1]);
            }
        }
        assert forall|j: int| k < j < out.len() implies ranks_before(d, now, x, #[trigger] out[j]) by {
            assert(out[j] == r[j - 1]);
            let a = r[k];
            let b = r[j - 1];
            assert(a.wf()) by {
                assert(r[k] == s1[f1[k]]);
            }
            assert(b.wf()) by {
                assert(r[j - 1] == s1[f1[j - 1]]);
            }
            if j - 1 > k {
                assert(!ranks_before(d, now, b, a));
            }
            lemma_ranks_before_order(d, now, x, a, b);
        }
        assert forall|i: int, j: int| 0 <= i < j < out.len() implies !ranks_before(
            d,
            now,
            out[j],
            out[i],
        ) by {
            if j < k {
            } else if j == k {
            } else if i < k {
                assert(out[j] == r[j - 1]);
            } else if i == k {
                let b = r[j - 1];
                assert(out[j] == b);
                assert(b.wf()) by {
                    assert(r[j - 1] == s1[f1[j - 1]]);
                }
                lemma_ranks_before_order(d, now, x, b, b);
            } else {
                assert(out[j] == r[j - 1]);
                assert(out[i] == r[i - 1]);
            }
        }
        assert forall|i: int, j: int|
            0 <= i < j < out.len() && !ranks_before(d, now, out[i], out[j]) implies f[i] < f[j] by {
            if j < k {
            } else if j == k {
                assert(f1[i] < n - 1);
            } else if i < k {
                assert(out[j] == r[j - 1]);
                assert(f[j] == f1[j - 1]);
            } else if i == k {
            } else {
                assert(out[j] == r[j - 1]);
                assert(out[i] == r[i - 1]);
                assert(f[j] == f1[j - 1]);
                assert(f[i] == f1[i - 1]);
            }
        }
        assert(stable_sort_by(d, now, out, s, f));
        assert forall|i: int| 0 <= i < out.len() implies #[trigger] out[i].wf() by {
            assert(out[i] == s[f[i]]);
        }
    }
}

/// Orders `v` as `d` ranks its processes at `now`, stably.
pub fn sort_processes(d: QueueDiscipline, now: u64, v: &mut Vec<Process>)
    requires
        all_wf(old(v)@),
    ensures
        final(v)@ == ranked_order(d, now, old(v)@),
        is_stable_sort(d, now, final(v)@, old(v)@),
{
    let ghost inp = v@;
    let n = v.len();
    let mut rest: Vec<Process> = Vec::new();
    std::mem::swap(&mut rest, v);
    let mut out: Vec<Process> = Vec::new();
    let mut i: usize = 0;
    while rest.len() > 0
        invariant
            i <= inp.len(),
            inp.len() == n,
            rest@ == inp.skip(i as int),
            out@ == ranked_order(d, now, inp.take(i as int)),
            all_wf(inp),
            all_wf(out@),
        decreases rest.len(),
    {
        let x = rest.remove(0);
        assert(x == inp[i as int]);
        let mut k: usize = 0;
        while k < out.len() && !ranks_before_exec(d, now, &x, &out[k])
            invariant
                k <= out.len(),
                x.wf(),
                all_wf(out@),
                forall|m: int| 0 <= m < k ==> !ranks_before(d, now, x, #[trigger] out@[m]),
            decreases out.len() - k,
        {
            k = k + 1;
        }
        proof {
            lemma_insertion_index_unique(d, now, out@, x, k as int);
            assert(inp.take(i + 1).drop_last() =~= inp.take(i as int));
            assert(inp.take(i + 1).last() == x);
            out@.insert_ensures(k as int, x);
        }
        out.insert(k, x);
        proof {
            assert(rest@ =~= inp.skip(i + 1));
            assert forall|m: int| 0 <= m < out@.len() implies #[trigger] out@[m].wf() by {
            }
        }
        i = i + 1;
    }
    proof {
        assert(inp.take(i as int) =~= inp);
        lemma_ranked_order_stable(d, now, inp);
    }
    *v = out;
}

} // verus!
