use vstd::prelude::*;

verus! {

/// Bytes one expert takes in VRAM (about 1.5 MB at Q4, synthetic).
pub const EXPERT_BYTES: u64 = 1_500_000;

/// PCIe transfer cost in microseconds per megabyte (about 32 GB/s).
pub const PCIE_US_PER_MB: u32 = 31;

/// Compute cost of one layer in microseconds.
pub const LAYER_COMPUTE_US: u32 = 120;

/// Stall cost of one expert miss in microseconds.
pub const STALL_US_PER_MISS: u32 = 1_900;

/// Strictly increasing: sorted, without repetition.
pub open spec fn strictly_sorted(s: Seq<u16>) -> bool {
    forall|i: int, j: int| 0 <= i < j < s.len() ==> s[i] < s[j]
}

/// Number of entries of `s` below `e`.
pub open spec fn count_below(s: Seq<u16>, e: u16) -> nat
    decreases s.len(),
{
    if s.len() == 0 {
        0
    } else {
        count_below(s.drop_last(), e) + if s.last() < e { 1nat } else { 0nat }
    }
}

/// `s` with `e` put in its sorted place, unless `e` is already there.
pub closed spec fn sorted_insert(s: Seq<u16>, e: u16) -> Seq<u16> {
    if s.contains(e) {
        s
    } else {
        s.insert(count_below(s, e) as int, e)
    }
}

/// `s` with every entry of `es` put in its sorted place, in the order of `es`.
pub closed spec fn insert_all(s: Seq<u16>, es: Seq<u16>) -> Seq<u16>
    decreases es.len(),
{
    if es.len() == 0 {
        s
    } else {
        sorted_insert(insert_all(s, es.drop_last()), es.last())
    }
}

/// Number of entries of `es` (counted with repetition) that `res` does not hold.
pub open spec fn missing_count(es: Seq<u16>, res: Seq<u16>) -> nat
    decreases es.len(),
{
    if es.len() == 0 {
        0
    } else {
        missing_count(es.drop_last(), res) + if res.contains(es.last()) { 0nat } else { 1nat }
    }
}

/// Whether `s` holds an entry that `keep` does not.
pub open spec fn has_outside(s: Seq<u16>, keep: Seq<u16>) -> bool {
    exists|k: int| 0 <= k < s.len() && !keep.contains(s[k])
}

/// Index of the first entry of `s` that `keep` does not hold.
pub open spec fn first_outside(s: Seq<u16>, keep: Seq<u16>) -> int {
    choose|k: int|
        0 <= k < s.len() && !keep.contains(s[k]) && forall|j: int| 0 <= j < k ==> keep.contains(
            s[j],
        )
}

/// The entry evicted next from a sorted residency: the smallest one not in `keep`,
/// or the smallest one of all when every entry is in `keep`.
pub open spec fn victim(s: Seq<u16>, keep: Seq<u16>) -> int {
    if has_outside(s, keep) {
        first_outside(s, keep)
    } else {
        0
    }
}

pub proof fn lemma_first_outside(s: Seq<u16>, keep: Seq<u16>)
    requires
        has_outside(s, keep),
    ensures
        0 <= first_outside(s, keep) < s.len(),
        !keep.contains(s[first_outside(s, keep)]),
        forall|j: int| 0 <= j < first_outside(s, keep) ==> keep.contains(s[j]),
{
    let k0 = choose|k: int| 0 <= k < s.len() && !keep.contains(s[k]);
    lemma_least_outside(s, keep, k0);
}

proof fn lemma_least_outside(s: Seq<u16>, keep: Seq<u16>, k: int)
    requires
        0 <= k < s.len(),
        !keep.contains(s[k]),
    ensures
        exists|m: int|
            0 <= m < s.len() && !keep.contains(s[m]) && forall|j: int|
                0 <= j < m ==> keep.contains(s[j]),
    decreases k,
{
    if exists|j: int| 0 <= j < k && !keep.contains(s[j]) {
        let j = choose|j: int| 0 <= j < k && !keep.contains(s[j]);
        lemma_least_outside(s, keep, j);
    } else {
        assert(0 <= k < s.len() && !keep.contains(s[k]) && forall|j: int|
            0 <= j < k ==> keep.contains(s[j]));
    }
}

/// Eviction: while the residency `s` is over `budget` bytes, drop its victim.
pub closed spec fn evict(s: Seq<u16>, keep: Seq<u16>, budget: u64) -> Seq<u16>
    decreases s.len(),
{
    if s.len() > 0 && s.len() * EXPERT_BYTES > budget {
        proof {
            if has_outside(s, keep) {
                lemma_first_outside(s, keep);
            }
        }
        evict(s.remove(victim(s, keep)), keep, budget)
    } else {
        s
    }
}

/// One round of eviction: a non-empty residency over `budget` drops its victim and
/// eviction goes on; any other residency is left as it is.
pub proof fn lemma_evict_step(s: Seq<u16>, keep: Seq<u16>, budget: u64)
    ensures
        evict(s, keep, budget) == (if s.len() > 0 && s.len() * EXPERT_BYTES > budget {
            evict(s.remove(victim(s, keep)), keep, budget)
        } else {
            s
        }),
{
}

/// The eviction order: in a strictly sorted residency the victim is the smallest
/// entry that `keep` does not hold, or the smallest entry of all when `keep` holds
/// every entry.
pub proof fn lemma_eviction_order(s: Seq<u16>, keep: Seq<u16>)
    requires
        strictly_sorted(s),
        s.len() > 0,
    ensures
        0 <= victim(s, keep) < s.len(),
        has_outside(s, keep) ==> !keep.contains(s[victim(s, keep)]) && forall|j: int|
            0 <= j < s.len() && !keep.contains(s[j]) ==> s[victim(s, keep)] <= s[j],
        !has_outside(s, keep) ==> victim(s, keep) == 0 && forall|j: int|
            0 <= j < s.len() ==> s[victim(s, keep)] <= #[trigger] s[j],
{
    if has_outside(s, keep) {
        lemma_first_outside(s, keep);
        let v = first_outside(s, keep);
        assert forall|j: int| 0 <= j < s.len() && !keep.contains(s[j]) implies s[v] <= s[j] by {
            if j < v {
                assert(keep.contains(s[j]));
            }
        }
    }
}

/// The residency after making `es` resident in `s` under `budget`.
pub open spec fn residency_after(s: Seq<u16>, es: Seq<u16>, budget: u64) -> Seq<u16> {
    evict(insert_all(s, es), es, budget)
}

proof fn lemma_count_below(s: Seq<u16>, e: u16, i: int)
    requires
        strictly_sorted(s),
        0 <= i <= s.len(),
        forall|k: int| 0 <= k < i ==> s[k] < e,
        i < s.len() ==> s[i] >= e,
    ensures
        count_below(s, e) == i,
    decreases s.len(),
{
    if s.len() > 0 {
        if i == s.len() {
            lemma_count_below(s.drop_last(), e, i - 1);
        } else {
            lemma_count_below(s.drop_last(), e, i);
        }
    }
}

/// A strictly sorted list of `u16` has at most 65536 entries.
pub proof fn lemma_sorted_len(s: Seq<u16>)
    requires
        strictly_sorted(s),
    ensures
        s.len() <= 65536,
{
    if s.len() > 0 {
        lemma_sorted_at_least_index(s, s.len() - 1);
    }
}

proof fn lemma_sorted_at_least_index(s: Seq<u16>, i: int)
    requires
        strictly_sorted(s),
        0 <= i < s.len(),
    ensures
        s[i] >= i,
    decreases i,
{
    if i > 0 {
        lemma_sorted_at_least_index(s, i - 1);
    }
}

/// Putting `e` in its sorted place keeps the list strictly sorted and adds exactly `e`.
pub proof fn lemma_sorted_insert(s: Seq<u16>, e: u16)
    requires
        strictly_sorted(s),
    ensures
        strictly_sorted(sorted_insert(s, e)),
        forall|x: u16| sorted_insert(s, e).contains(x) <==> (s.contains(x) || x == e),
{
    if !s.contains(e) {
        let i = count_below_index(s, e);
        lemma_count_below(s, e, i);
        assert(sorted_insert(s, e) == s.insert(i, e));
        lemma_insert_at_sorted(s, e, i);
        lemma_insert_at_contents(s, e, i);
    }
}

proof fn lemma_insert_at_sorted(s: Seq<u16>, e: u16, i: int)
    requires
        strictly_sorted(s),
        !s.contains(e),
        0 <= i <= s.len(),
        forall|k: int| 0 <= k < i ==> s[k] < e,
        i < s.len() ==> s[i] >= e,
    ensures
        strictly_sorted(s.insert(i, e)),
{
    let t = s.insert(i, e);
    s.insert_ensures(i, e);
    assert forall|a: int, b: int| 0 <= a < b < t.len() implies t[a] < t[b] by {
        if b < i {
        } else if b == i {
        } else {
            assert(t[b] == s[b - 1]);
            assert(s[b - 1] != e);
            assert(s[b - 1] >= s[i]);
            if a < i {
            } else if a == i {
            } else {
                assert(t[a] == s[a - 1]);
            }
        }
    }
}

proof fn lemma_insert_at_contents(s: Seq<u16>, e: u16, i: int)
    requires
        0 <= i <= s.len(),
    ensures
        forall|x: u16| s.insert(i, e).contains(x) <==> (s.contains(x) || x == e),
{
    let t = s.insert(i, e);
    s.insert_ensures(i, e);
    assert forall|x: u16| t.contains(x) implies (s.contains(x) || x == e) by {
        let k = choose|k: int| 0 <= k < t.len() && t[k] == x;
        if k < i {
            assert(s[k] == x);
        } else if k > i {
            assert(s[k - 1] == x);
        }
    }
    assert forall|x: u16| (s.contains(x) || x == e) implies t.contains(x) by {
        if x == e {
            assert(t[i] == x);
        } else {
            let k = choose|k: int| 0 <= k < s.len() && s[k] == x;
            if k < i {
                assert(t[k] == x);
            } else {
                assert(t[k + 1] == x);
            }
        }
    }
}

/// The index at which `e` belongs in the strictly sorted `s`: the first entry not
/// below `e`.
proof fn count_below_index(s: Seq<u16>, e: u16) -> (i: int)
    requires
        strictly_sorted(s),
    ensures
        0 <= i <= s.len(),
        forall|k: int| 0 <= k < i ==> s[k] < e,
        i < s.len() ==> s[i] >= e,
    decreases s.len(),
{
    if s.len() == 0 {
        0
    } else {
        let d = s.drop_last();
        let j = count_below_index(d, e);
        assert forall|k: int| 0 <= k < j implies s[k] < e by {
            assert(d[k] == s[k]);
        }
        if j == s.len() - 1 && s.last() < e {
            s.len() as int
        } else {
            if j < s.len() - 1 {
                assert(d[j] == s[j]);
            }
            j
        }
    }
}

/// Inserting a list keeps the residency strictly sorted, and it then holds exactly
/// what it held before and the inserted entries.
pub proof fn lemma_insert_all(s: Seq<u16>, es: Seq<u16>)
    requires
        strictly_sorted(s),
    ensures
        strictly_sorted(insert_all(s, es)),
        forall|x: u16| insert_all(s, es).contains(x) <==> (s.contains(x) || es.contains(x)),
    decreases es.len(),
{
    if es.len() > 0 {
        lemma_insert_all(s, es.drop_last());
        lemma_sorted_insert(insert_all(s, es.drop_last()), es.last());
        assert forall|x: u16| es.contains(x) <==> (es.drop_last().contains(x) || x == es.last()) by {
            if es.contains(x) {
                let k = choose|k: int| 0 <= k < es.len() && es[k] == x;
                if k < es.len() - 1 {
                    assert(es.drop_last()[k] == x);
                }
            }
            if es.drop_last().contains(x) {
                let k = choose|k: int| 0 <= k < es.len() - 1 && es.drop_last()[k] == x;
                assert(es[k] == x);
            }
        }
    }
}

/// Eviction keeps the residency strictly sorted, only drops entries, brings it
/// within the budget, and drops no entry of `keep` while `keep` fits in the budget.
pub proof fn lemma_evict(s: Seq<u16>, keep: Seq<u16>, budget: u64)
    requires
        strictly_sorted(s),
    ensures
        strictly_sorted(evict(s, keep, budget)),
        evict(s, keep, budget).len() * EXPERT_BYTES <= budget,
        forall|x: u16| evict(s, keep, budget).contains(x) ==> s.contains(x),
        keep.to_set().len() * EXPERT_BYTES <= budget ==> forall|x: u16|
            s.contains(x) && keep.contains(x) ==> evict(s, keep, budget).contains(x),
    decreases s.len(),
{
    if s.len() > 0 && s.len() * EXPERT_BYTES > budget {
        let v = victim(s, keep);
        if has_outside(s, keep) {
            lemma_first_outside(s, keep);
        } else if keep.to_set().len() * EXPERT_BYTES <= budget {
            // every resident entry is in `keep`, so the residency fits
            assert(s.to_set().subset_of(keep.to_set())) by {
                assert forall|x: u16| s.to_set().contains(x) implies keep.to_set().contains(x) by {
                    let k = choose|k: int| 0 <= k < s.len() && s[k] == x;
                    assert(keep.contains(s[k]));
                }
            }
            vstd::seq_lib::seq_to_set_is_finite(keep);
            vstd::set_lib::lemma_len_subset(s.to_set(), keep.to_set());
            assert(s.no_duplicates());
            s.unique_seq_to_set();
            assert(s.len() * EXPERT_BYTES <= keep.to_set().len() * EXPERT_BYTES) by (nonlinear_arith)
                requires
                    s.len() <= keep.to_set().len(),
            ;
        }
        let t = s.remove(v);
        s.remove_ensures(v);
        assert(strictly_sorted(t)) by {
            assert forall|a: int, b: int| 0 <= a < b < t.len() implies t[a] < t[b] by {
                if b < v {
                } else if a < v {
                    assert(t[b] == s[b + 1]);
                } else {
                    assert(t[a] == s[a + 1]);
                    assert(t[b] == s[b + 1]);
                }
            }
        }
        lemma_evict(t, keep, budget);
        assert forall|x: u16| t.contains(x) implies s.contains(x) by {
            let k = choose|k: int| 0 <= k < t.len() && t[k] == x;
            if k < v {
                assert(s[k] == x);
            } else {
                assert(s[k + 1] == x);
            }
        }
        if keep.to_set().len() * EXPERT_BYTES <= budget {
            assert forall|x: u16| s.contains(x) && keep.contains(x) implies t.contains(x) by {
                let k = choose|k: int| 0 <= k < s.len() && s[k] == x;
                assert(k != v);
                if k < v {
                    assert(t[k] == x);
                } else {
                    assert(t[k - 1] == x);
                }
            }
        }
    } else if s.len() == 0 {
    }
}

/// Residency law: after `ensure_resident(es)` the budget holds, every resident
/// expert was resident before or asked for, and, when the distinct experts asked for
/// fit in the budget, all of them are resident, so asking again misses nothing.
pub proof fn lemma_residency(s: Seq<u16>, es: Seq<u16>, budget: u64)
    requires
        strictly_sorted(s),
    ensures
        strictly_sorted(residency_after(s, es, budget)),
        residency_after(s, es, budget).len() * EXPERT_BYTES <= budget,
        forall|x: u16|
            residency_after(s, es, budget).contains(x) ==> s.contains(x) || es.contains(x),
        es.to_set().len() * EXPERT_BYTES <= budget ==> {
            &&& forall|i: int| 0 <= i < es.len() ==> residency_after(s, es, budget).contains(es[i])
            &&& missing_count(es, residency_after(s, es, budget)) == 0
        },
{
    lemma_insert_all(s, es);
    lemma_evict(insert_all(s, es), es, budget);
    if es.to_set().len() * EXPERT_BYTES <= budget {
        let r = residency_after(s, es, budget);
        assert forall|i: int| 0 <= i < es.len() implies r.contains(es[i]) by {
            assert(es.contains(es[i]));
            assert(insert_all(s, es).contains(es[i]));
        }
        lemma_no_misses(es, es.len() as int, r);
    }
}

/// No more entries are missing than there are entries.
pub proof fn lemma_missing_count_le(es: Seq<u16>, r: Seq<u16>)
    ensures
        missing_count(es, r) <= es.len(),
    decreases es.len(),
{
    if es.len() > 0 {
        lemma_missing_count_le(es.drop_last(), r);
    }
}

/// A residency already within the budget is left as it is.
pub proof fn lemma_evict_fits(s: Seq<u16>, keep: Seq<u16>, budget: u64)
    requires
        s.len() * EXPERT_BYTES <= budget,
    ensures
        evict(s, keep, budget) == s,
{
}

/// Nothing is missing when every entry is present.
pub proof fn lemma_all_present_no_misses(es: Seq<u16>, r: Seq<u16>)
    requires
        forall|i: int| 0 <= i < es.len() ==> r.contains(es[i]),
    ensures
        missing_count(es, r) == 0,
{
    lemma_no_misses(es, es.len() as int, r);
}

proof fn lemma_no_misses(es: Seq<u16>, n: int, r: Seq<u16>)
    requires
        0 <= n <= es.len(),
        forall|i: int| 0 <= i < es.len() ==> r.contains(es[i]),
    ensures
        missing_count(es.take(n), r) == 0,
        n == es.len() ==> missing_count(es, r) == 0,
    decreases n,
{
    if n > 0 {
        lemma_no_misses(es, n - 1, r);
        assert(es.take(n).drop_last() =~= es.take(n - 1));
        assert(es.take(n).last() == es[n - 1]);
    }
    if n == es.len() {
        assert(es.take(n) =~= es);
    }
}

/// Whether `e` is in the strictly sorted `v`.
fn sorted_contains(v: &Vec<u16>, e: u16) -> (r: bool)
    requires
        strictly_sorted(v@),
    ensures
        r == v@.contains(e),
{
    let mut i: usize = 0;
    while i < v.len()
        invariant
            i <= v.len(),
            forall|k: int| 0 <= k < i ==> v@[k] != e,
        decreases v.len() - i,
    {
        if v[i] == e {
            return true;
        }
        i = i + 1;
    }
    false
}

/// Whether `e` is in `es`.
pub(crate) fn slice_contains(es: &[u16], e: u16) -> (r: bool)
    ensures
        r == es@.contains(e),
{
    let mut i: usize = 0;
    while i < es.len()
        invariant
            i <= es.len(),
            forall|k: int| 0 <= k < i ==> es@[k] != e,
        decreases es.len() - i,
    {
        if es[i] == e {
            return true;
        }
        i = i + 1;
    }
    false
}

/// Put `e` in its sorted place in `v`, unless it is already there.
fn insert_sorted(v: &mut Vec<u16>, e: u16)
    requires
        strictly_sorted(old(v)@),
    ensures
        final(v)@ == sorted_insert(old(v)@, e),
        strictly_sorted(final(v)@),
{
    let mut i: usize = 0;
    while i < v.len() && v[i] < e
        invariant
            i <= v.len(),
            forall|k: int| 0 <= k < i ==> v@[k] < e,
        decreases v.len() - i,
    {
        i = i + 1;
    }
    proof {
        lemma_count_below(v@, e, i as int);
    }
    if i < v.len() && v[i] == e {
        return;
    }
    let ghost s = v@;
    proof {
        assert forall|k: int| 0 <= k < s.len() implies s[k] != e by {
            if k >= i {
                assert(s[k] >= s[i as int]);
            }
        }
        assert(!s.contains(e));
    }
    v.insert(i, e);
    proof {
        s.insert_ensures(i as int, e);
        assert(v@ =~= s.insert(i as int, e));
        assert forall|a: int, b: int| 0 <= a < b < v@.len() implies v@[a] < v@[b] by {
            if b < i {
            } else if b == i {
            } else if a < i {
                assert(v@[b] == s[b - 1]);
                assert(s[b - 1] >= s[i as int] || b - 1 == i);
            } else if a == i {
                assert(v@[b] == s[b - 1]);
                assert(s[b - 1] >= s[i as int]);
            } else {
                assert(v@[a] == s[a - 1]);
                assert(v@[b] == s[b - 1]);
            }
        }
    }
}

/// Simulated VRAM: which experts are resident, under a byte budget. The resident
/// experts are kept as a strictly increasing list, so the smallest candidate for
/// eviction is the first one that qualifies.
pub struct FakeVram {
    budget_bytes: u64,
    resident: Vec<u16>,
    per_expert: u64,
}

impl FakeVram {
    #[verifier::type_invariant]
    spec fn well_formed(self) -> bool {
        &&& strictly_sorted(self.resident@)
        &&& self.per_expert == EXPERT_BYTES
        &&& self.resident@.len() * EXPERT_BYTES <= self.budget_bytes
        &&& self.budget_bytes <= u32::MAX as u64 * 1_000_000
    }

    /// The resident experts, in increasing order.
    pub closed spec fn resident_experts(self) -> Seq<u16> {
        self.resident@
    }

    /// The budget in bytes.
    pub closed spec fn budget(self) -> u64 {
        self.budget_bytes
    }

    /// An empty VRAM of `budget_mb` megabytes (10^6 bytes each).
    pub fn new(budget_mb: u32) -> (v: Self)
        ensures
            v.resident_experts() == Seq::<u16>::empty(),
            v.budget() == budget_mb as u64 * 1_000_000,
    {
        FakeVram { budget_bytes: budget_mb as u64 * 1_000_000, resident: Vec::new(), per_expert: EXPERT_BYTES }
    }

    /// Bytes taken by the resident experts.
    pub fn used_bytes(&self) -> (b: u64)
        ensures
            b == self.resident_experts().len() * EXPERT_BYTES,
            b <= self.budget(),
    {
        proof {
            use_type_invariant(self);
        }
        self.resident.len() as u64 * self.per_expert
    }

    /// Whole megabytes taken by the resident experts.
    pub fn used_mb(&self) -> (mb: u32)
        ensures
            mb == self.resident_experts().len() * EXPERT_BYTES / 1_000_000,
    {
        proof {
            use_type_invariant(self);
        }
        (self.used_bytes() / 1_000_000) as u32
    }

    /// Make `experts` resident. Returns how many entries of `experts` (counted with
    /// repetition) were not resident before, i.e. the misses that need a PCIe transfer.
    /// Afterwards the budget holds: while it is exceeded, the smallest resident id
    /// that was not asked for is evicted, or the smallest of all when every resident
    /// expert was asked for.
    pub fn ensure_resident(&mut self, experts: &[u16]) -> (misses: u32)
        ensures
            misses == #[verifier::truncate] (missing_count(experts@, old(self).resident_experts()) as u32),
            final(self).resident_experts() == residency_after(
                old(self).resident_experts(),
                experts@,
                old(self).budget(),
            ),
            final(self).budget() == old(self).budget(),
            misses <= experts@.len(),
    {
        proof {
            use_type_invariant(&*self);
        }
        let ghost s0 = self.resident@;
        let mut res: Vec<u16> = Vec::new();
        std::mem::swap(&mut res, &mut self.resident);
        assert(res@ == s0);

        let mut count: usize = 0;
        let mut j: usize = 0;
        while j < experts.len()
            invariant
                j <= experts.len(),
                res@ == s0,
                strictly_sorted(s0),
                count == missing_count(experts@.take(j as int), s0),
                count <= j,
            decreases experts.len() - j,
        {
            let present = sorted_contains(&res, experts[j]);
            if !present {
                count = count + 1;
            }
            assert(experts@.take(j as int + 1).drop_last() =~= experts@.take(j as int));
            j = j + 1;
        }
        assert(experts@.take(experts.len() as int) =~= experts@);
        let misses = #[verifier::truncate] (count as u32);

        let mut j: usize = 0;
        while j < experts.len()
            invariant
                j <= experts.len(),
                strictly_sorted(res@),
                res@ == insert_all(s0, experts@.take(j as int)),
            decreases experts.len() - j,
        {
            insert_sorted(&mut res, experts[j]);
            assert(experts@.take(j as int + 1).drop_last() =~= experts@.take(j as int));
            j = j + 1;
        }
        let ghost target = residency_after(s0, experts@, self.budget_bytes);
        proof {
            lemma_sorted_len(res@);
        }
        while res.len() as u64 * self.per_expert > self.budget_bytes
            invariant
                strictly_sorted(res@),
                res@.len() <= 65536,
                self.per_expert == EXPERT_BYTES,
                evict(res@, experts@, self.budget_bytes) == target,
            decreases res@.len(),
        {
            proof {
                lemma_sorted_len(res@);
            }
            let mut k: usize = 0;
            while k < res.len() && slice_contains(experts, res[k])
                invariant
                    k <= res.len(),
                    forall|i: int| 0 <= i < k ==> experts@.contains(res@[i]),
                decreases res.len() - k,
            {
                k = k + 1;
            }
            let ghost s = res@;
            let idx = if k < res.len() {
                proof {
                    lemma_first_outside(s, experts@);
                    let f = first_outside(s, experts@);
                    if f < k {
                    } else if f > k {
                    }
                    assert(f == k);
                }
                k
            } else {
                proof {
                    assert(!has_outside(s, experts@));
                }
                0
            };
            assert(idx as int == victim(s, experts@));
            res.remove(idx);
            proof {
                s.remove_ensures(idx as int);
                assert(res@ =~= s.remove(idx as int));
                assert forall|a: int, b: int| 0 <= a < b < res@.len() implies res@[a] < res@[b] by {
                    if b < idx {
                    } else if a < idx {
                        assert(res@[b] == s[b + 1]);
                    } else {
                        assert(res@[a] == s[a + 1]);
                        assert(res@[b] == s[b + 1]);
                    }
                }
            }
        }
        proof {
            lemma_sorted_len(res@);
        }
        self.resident = res;
        misses
    }
}

/// The simulator's cost model.
pub struct LatencyModel;

/// Transfer cost of `misses` experts: whole megabytes moved, times the cost per
/// megabyte.
pub open spec fn transfer_cost(misses: u32) -> int {
    ((misses as u64 * EXPERT_BYTES / 1_000_000) as u32) * PCIE_US_PER_MB
}

impl LatencyModel {
    /// Microseconds to move the experts of `misses` misses over PCIe.
    pub fn transfer_us(misses: u32) -> (us: u32)
        requires
            transfer_cost(misses) <= u32::MAX,
        ensures
            us == transfer_cost(misses),
    {
        let mb = (misses as u64 * EXPERT_BYTES / 1_000_000) as u32;
        mb * PCIE_US_PER_MB
    }

    /// Microseconds stalled on `misses` misses.
    pub fn stall_us(misses: u32) -> (us: u32)
        requires
            misses * STALL_US_PER_MISS <= u32::MAX,
        ensures
            us == misses * STALL_US_PER_MISS,
    {
        misses * STALL_US_PER_MISS
    }

    /// Microseconds to compute `layers` layers.
    pub fn compute_us(layers: u16) -> (us: u32)
        ensures
            us == layers * LAYER_COMPUTE_US,
    {
        layers as u32 * LAYER_COMPUTE_US
    }
}

} // verus!
