use vstd::prelude::*;

verus! {

/// An inclusive range of indices `start..=end`.
#[derive(Clone, Copy, Debug, PartialEq, Eq, Structural)]
pub struct Span {
    pub start: usize,
    pub end: usize,
}

impl Span {
    pub open spec fn spec_len(self) -> int {
        self.end - self.start + 1
    }

    /// Number of indices covered.
    pub fn len(&self) -> (n: usize)
        requires
            self.start <= self.end,
            self.end - self.start < usize::MAX,
        ensures
            n == self.spec_len(),
    {
        self.end - self.start + 1
    }

    /// A span always covers at least its start.
    pub fn is_empty(&self) -> (b: bool)
        ensures
            !b,
    {
        false
    }
}

/// Index `i` holds a count of at least `min`.
pub open spec fn is_hit(c: Seq<u32>, min: u32, i: int) -> bool {
    0 <= i < c.len() && c[i] >= min
}

/// No index of `a..=b` is a hit (indices outside `c` are never hits).
pub open spec fn all_miss(c: Seq<u32>, min: u32, a: int, b: int) -> bool {
    forall|k: int| a <= k <= b ==> !#[trigger] is_hit(c, min, k)
}

/// Every index of `a..=b` is a hit.
pub open spec fn all_hit(c: Seq<u32>, min: u32, a: int, b: int) -> bool {
    forall|k: int| a <= k <= b ==> #[trigger] is_hit(c, min, k)
}

/// `g + 1` consecutive misses start at `a`: a gap too long to bridge.
pub open spec fn long_gap(c: Seq<u32>, min: u32, g: int, a: int) -> bool {
    all_miss(c, min, a, a + g)
}

/// No gap of more than `g` misses lies strictly inside `s..=e`.
pub open spec fn bridged(c: Seq<u32>, min: u32, g: int, s: int, e: int) -> bool {
    forall|a: int| s < a && a + g < e ==> !#[trigger] long_gap(c, min, g, a)
}

/// `s..=e` is a cluster of hits: it starts and ends on a hit, every gap inside
/// it is at most `g` misses long, and more than `g` misses (or the ends of
/// `c`) separate it from any other hit.
pub open spec fn is_cluster(c: Seq<u32>, min: u32, g: int, s: int, e: int) -> bool {
    &&& s <= e
    &&& is_hit(c, min, s)
    &&& is_hit(c, min, e)
    &&& all_miss(c, min, s - g - 1, s - 1)
    &&& all_miss(c, min, e + 1, e + g + 1)
    &&& bridged(c, min, g, s, e)
}

/// `sp` is a longest cluster, and the first among clusters of that length.
pub open spec fn is_longest_cluster(c: Seq<u32>, min: u32, g: int, sp: Span) -> bool {
    &&& is_cluster(c, min, g, sp.start as int, sp.end as int)
    &&& forall|s: int, e: int|
        #[trigger] is_cluster(c, min, g, s, e) ==> e - s < sp.end - sp.start || (e - s == sp.end
            - sp.start && sp.start <= s)
}

/// The longest cluster of indices whose count reaches `min`, clusters being
/// joined across gaps of at most `max_gap` misses; the first one on a tie,
/// and `None` when there is no cluster (no count reaches `min`).
pub open spec fn largest_run_spec(c: Seq<u32>, min: u32, max_gap: int) -> Option<Span> {
    if exists|sp: Span| is_longest_cluster(c, min, max_gap, sp) {
        Some(choose|sp: Span| is_longest_cluster(c, min, max_gap, sp))
    } else {
        None
    }
}

/// What the run finder gives is a first longest cluster.
pub proof fn lemma_largest_run_is_longest(c: Seq<u32>, min: u32, g: int)
    ensures
        largest_run_spec(c, min, g) matches Some(sp) ==> is_longest_cluster(c, min, g, sp),
{
}

/// At most one span is a first longest cluster.
pub proof fn lemma_longest_cluster_unique(c: Seq<u32>, min: u32, g: int, a: Span, b: Span)
    requires
        is_longest_cluster(c, min, g, a),
        is_longest_cluster(c, min, g, b),
    ensures
        a == b,
{
    assert(is_cluster(c, min, g, b.start as int, b.end as int));
    assert(is_cluster(c, min, g, a.start as int, a.end as int));
}

/// Two clusters with the same last index are the same cluster.
proof fn lemma_cluster_same_end(c: Seq<u32>, min: u32, g: int, s1: int, s2: int, e: int)
    requires
        g >= 0,
        s1 <= e,
        s2 <= e,
        is_hit(c, min, s1),
        is_hit(c, min, s2),
        all_miss(c, min, s1 - g - 1, s1 - 1),
        all_miss(c, min, s2 - g - 1, s2 - 1),
        bridged(c, min, g, s1, e),
        bridged(c, min, g, s2, e),
    ensures
        s1 == s2,
{
    if s1 < s2 {
        let a = s2 - g - 1;
        if s1 < a {
            assert(long_gap(c, min, g, a));
        } else {
            assert(!is_hit(c, min, s1));
        }
    } else if s2 < s1 {
        let a = s1 - g - 1;
        if s2 < a {
            assert(long_gap(c, min, g, a));
        } else {
            assert(!is_hit(c, min, s2));
        }
    }
}

/// The exact definition of `largest_run` holds of a span that is a first
/// longest cluster.
proof fn lemma_spec_is(c: Seq<u32>, min: u32, g: int, sp: Span)
    requires
        is_longest_cluster(c, min, g, sp),
    ensures
        largest_run_spec(c, min, g) == Some(sp),
{
    let ch = choose|x: Span| is_longest_cluster(c, min, g, x);
    lemma_longest_cluster_unique(c, min, g, ch, sp);
}

/// Finds the longest cluster of entries `>= min`, joining hits separated by
/// at most `max_gap` misses.
pub fn largest_run(counts: &[u32], min: u32, max_gap: usize) -> (res: Option<Span>)
    ensures
        res == largest_run_spec(counts@, min, max_gap as int),
        res matches Some(sp) ==> is_longest_cluster(counts@, min, max_gap as int, sp),
        res is None <==> forall|i: int| !is_hit(counts@, min, i),
{
    let ghost c = counts@;
    let ghost g = max_gap as int;
    let n = counts.len();
    let mut best: Option<Span> = None;
    let mut cur: Option<usize> = None;
    let mut gap: usize = 0;
    let mut last_hit: usize = 0;
    let mut i: usize = 0;
    while i < n
        invariant
            n == c.len(),
            c == counts@,
            g == max_gap,
            0 <= i <= n,
            match cur {
                Some(cs) => {
                    &&& cs <= last_hit < i
                    &&& is_hit(c, min, cs as int)
                    &&& is_hit(c, min, last_hit as int)
                    &&& gap == i - 1 - last_hit
                    &&& gap <= g
                    &&& all_miss(c, min, cs - g - 1, cs - 1)
                    &&& bridged(c, min, g, cs as int, last_hit as int)
                    &&& all_miss(c, min, last_hit + 1, i - 1)
                },
                None => {
                    &&& gap == 0
                    &&& all_miss(c, min, i - g - 1, i - 1)
                },
            },
            ({
                let cb: int = match cur {
                    Some(cs) => cs as int,
                    None => i as int,
                };
                &&& (best is None ==> all_miss(c, min, 0, cb - 1))
                &&& (best matches Some(b) ==> is_cluster(c, min, g, b.start as int, b.end as int)
                    && b.end < cb)
                &&& forall|s: int, e: int|
                    #[trigger] is_cluster(c, min, g, s, e) && e < cb ==> (best matches Some(b) && (
                    e - s < b.end - b.start || (e - s == b.end - b.start && b.start <= s)))
            }),
        decreases n - i,
    {
        let ghost old_cur = cur;
        let ghost old_best = best;
        let ghost old_last = last_hit;
        if counts[i] >= min {
            gap = 0;
            last_hit = i;
            match cur {
                None => {
                    cur = Some(i);
                    assert(bridged(c, min, g, i as int, i as int));
                },
                Some(cs) => {
                    assert forall|a: int| cs < a && a + g < i implies !#[trigger] long_gap(
                        c,
                        min,
                        g,
                        a,
                    ) by {
                        if a + g < old_last {
                        } else if a <= old_last {
                            assert(is_hit(c, min, old_last as int));
                        }
                    }
                },
            }
        } else {
            match cur {
                None => {},
                Some(cs) => {
                    gap = gap + 1;
                    if gap > max_gap {
                        let span = Span { start: cs, end: last_hit };
                        let better = match best {
                            None => true,
                            Some(b) => span.end - span.start + 1 > b.end - b.start + 1,
                        };
                        if better {
                            best = Some(span);
                        }
                        proof {
                            assert(is_cluster(c, min, g, cs as int, last_hit as int));
                            assert forall|s: int, e: int|
                                #[trigger] is_cluster(c, min, g, s, e) && e < i + 1 implies (
                            best matches Some(b) && (e - s < b.end - b.start || (e - s == b.end
                                - b.start && b.start <= s))) by {
                                if e >= cs {
                                    if e < last_hit {
                                        let a = e + 1;
                                        if a + g < last_hit {
                                            assert(long_gap(c, min, g, a));
                                        } else {
                                            assert(is_hit(c, min, last_hit as int));
                                        }
                                    }
                                    assert(e == last_hit);
                                    lemma_cluster_same_end(c, min, g, s, cs as int, e);
                                }
                            }
                        }
                        cur = None;
                        gap = 0;
                    }
                },
            }
        }
        i = i + 1;
    }
    match cur {
        None => {},
        Some(cs) => {
            let span = Span { start: cs, end: last_hit };
            let better = match best {
                None => true,
                Some(b) => span.end - span.start + 1 > b.end - b.start + 1,
            };
            if better {
                best = Some(span);
            }
            proof {
                assert(is_cluster(c, min, g, cs as int, last_hit as int));
                assert forall|s: int, e: int| #[trigger] is_cluster(c, min, g, s, e) implies (
                best matches Some(b) && (e - s < b.end - b.start || (e - s == b.end - b.start
                    && b.start <= s))) by {
                    if e >= cs {
                        if e < last_hit {
                            let a = e + 1;
                            if a + g < last_hit {
                                assert(long_gap(c, min, g, a));
                            } else {
                                assert(is_hit(c, min, last_hit as int));
                            }
                        }
                        assert(e == last_hit);
                        lemma_cluster_same_end(c, min, g, s, cs as int, e);
                    }
                }
            }
        },
    }
    proof {
        match best {
            Some(b) => {
                lemma_spec_is(c, min, g, b);
            },
            None => {
                assert forall|k: int| !is_hit(c, min, k) by {}
                assert forall|sp: Span| !is_longest_cluster(c, min, g, sp) by {
                    assert(!is_hit(c, min, sp.start as int));
                }
            },
        }
    }
    best
}

/// `l` consecutive hits start at `a`.
pub open spec fn hit_window(c: Seq<u32>, min: u32, l: int, a: int) -> bool {
    all_hit(c, min, a, a + l - 1)
}

/// Index `k` is a hit inside an unbroken run of at least `l` hits.
pub open spec fn in_long_run(c: Seq<u32>, min: u32, l: int, k: int) -> bool {
    &&& is_hit(c, min, k)
    &&& (l == 0 || exists|a: int| a <= k < a + l && #[trigger] hit_window(c, min, l, a))
}

/// For each index, whether it lies in an unbroken run of at least `min_len`
/// entries `>= min`.
pub open spec fn long_run_mask_spec(c: Seq<u32>, min: u32, min_len: int) -> Seq<bool> {
    Seq::new(c.len(), |k: int| in_long_run(c, min, min_len, k))
}

/// Inside a maximal run `s..i` of hits, membership in a long run depends
/// only on the run's length.
proof fn lemma_maximal_run(c: Seq<u32>, min: u32, l: int, s: int, i: int, k: int)
    requires
        0 <= s <= k < i <= c.len(),
        all_hit(c, min, s, i - 1),
        !is_hit(c, min, s - 1),
        !is_hit(c, min, i),
        l >= 0,
    ensures
        in_long_run(c, min, l, k) == (i - s >= l),
{
    assert(is_hit(c, min, k));
    if i - s >= l {
        if l > 0 {
            let a = if k + l <= i { k } else { i - l };
            assert(hit_window(c, min, l, a));
        }
    } else {
        if exists|a: int| a <= k < a + l && #[trigger] hit_window(c, min, l, a) {
            let a = choose|a: int| a <= k < a + l && #[trigger] hit_window(c, min, l, a);
            if a < s {
                assert(is_hit(c, min, s - 1));
            } else {
                assert(is_hit(c, min, i));
            }
        }
    }
}

/// Records the maximal run of hits `s..i`: its indices are marked when the
/// run is at least `min_len` long.
fn close_run(
    mask: &mut Vec<bool>,
    Ghost(c): Ghost<Seq<u32>>,
    min: u32,
    min_len: usize,
    s: usize,
    i: usize,
)
    requires
        old(mask)@.len() == c.len(),
        s < i <= c.len(),
        all_hit(c, min, s as int, i - 1),
        !is_hit(c, min, s - 1),
        !is_hit(c, min, i as int),
        forall|q: int| 0 <= q < s ==> old(mask)@[q] == in_long_run(c, min, min_len as int, q),
        forall|q: int| s <= q < c.len() ==> !old(mask)@[q],
    ensures
        final(mask)@.len() == c.len(),
        forall|q: int| 0 <= q < i ==> final(mask)@[q] == in_long_run(c, min, min_len as int, q),
        forall|q: int| i <= q < c.len() ==> !final(mask)@[q],
{
    let ghost l = min_len as int;
    if i - s >= min_len {
        let mut k = s;
        while k < i
            invariant
                s <= k <= i <= c.len(),
                mask@.len() == c.len(),
                forall|q: int| 0 <= q < s ==> mask@[q] == in_long_run(c, min, l, q),
                forall|q: int| s <= q < k ==> mask@[q],
                forall|q: int| i <= q < c.len() ==> !mask@[q],
            decreases i - k,
        {
            mask.set(k, true);
            k = k + 1;
        }
    }
    proof {
        assert forall|k: int| s <= k < i implies mask@[k] == in_long_run(c, min, l, k) by {
            lemma_maximal_run(c, min, l, s as int, i as int, k);
        }
    }
}

/// Marks every index that lies in an unbroken run of at least `min_len`
/// entries `>= min`.
pub fn long_run_mask(counts: &[u32], min: u32, min_len: usize) -> (mask: Vec<bool>)
    ensures
        mask@ == long_run_mask_spec(counts@, min, min_len as int),
{
    let ghost c = counts@;
    let ghost l = min_len as int;
    let n = counts.len();
    let mut mask: Vec<bool> = Vec::new();
    let mut j: usize = 0;
    while j < n
        invariant
            mask@.len() == j,
            j <= n,
            forall|k: int| 0 <= k < j ==> !mask@[k],
        decreases n - j,
    {
        mask.push(false);
        j = j + 1;
    }
    let mut start: Option<usize> = None;
    let mut i: usize = 0;
    while i < n
        invariant
            n == c.len(),
            c == counts@,
            l == min_len,
            i <= n,
            mask@.len() == n,
            match start {
                Some(s) => s < i && all_hit(c, min, s as int, i - 1) && !is_hit(c, min, s - 1),
                None => i == 0 || !is_hit(c, min, i - 1),
            },
            ({
                let cb: int = match start {
                    Some(s) => s as int,
                    None => i as int,
                };
                &&& forall|k: int| 0 <= k < cb ==> mask@[k] == in_long_run(c, min, l, k)
                &&& forall|k: int| cb <= k < n ==> !mask@[k]
            }),
        decreases n - i,
    {
        let hit = counts[i] >= min;
        match start {
            None => {
                if hit {
                    start = Some(i);
                }
            },
            Some(s) => {
                if !hit {
                    close_run(&mut mask, Ghost(c), min, min_len, s, i);
                    start = None;
                }
            },
        }
        i = i + 1;
    }
    match start {
        None => {},
        Some(s) => {
            close_run(&mut mask, Ghost(c), min, min_len, s, n);
        },
    }
    proof {
        assert(mask@ =~= long_run_mask_spec(c, min, l));
    }
    mask
}

} // verus!
