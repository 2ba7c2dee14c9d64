//! Counts of wrong detections by the language that was named, and their ranking.

use vstd::prelude::*;
use crate::lang::lang_is_its_rank;
use crate::lang::rank_of_lang_at;
use crate::lang::Lang;
use crate::lang::LANG_COUNT;
use crate::tally::tally_counts;
use crate::tally::tally_get;
use crate::tally::tally_new;
use crate::tally::tally_set;
use crate::tally::LangTally;

verus! {

/// The sum of a sequence of counts.
pub open spec fn sum(counts: Seq<nat>) -> nat
    decreases counts.len(),
{
    if counts.len() == 0 {
        0
    } else {
        sum(counts.drop_last()) + counts.last()
    }
}

/// Replacing one count changes the sum by the difference.
pub proof fn sum_of_update(counts: Seq<nat>, i: int, count: nat)
    requires
        0 <= i < counts.len(),
    ensures
        sum(counts.update(i, count)) + counts[i] == sum(counts) + count,
    decreases counts.len(),
{
    let updated = counts.update(i, count);
    if i == counts.len() - 1 {
        assert(updated.drop_last() =~= counts.drop_last());
    } else {
        assert(updated.drop_last() =~= counts.drop_last().update(i, count));
        sum_of_update(counts.drop_last(), i, count);
    }
}

/// The sum of the first `n + 1` counts is the sum of the first `n` and the next one.
pub proof fn sum_of_prefix(counts: Seq<nat>, n: int)
    requires
        0 <= n < counts.len(),
    ensures
        sum(counts.take(n + 1)) == sum(counts.take(n)) + counts[n],
        sum(counts.take(n + 1)) <= sum(counts),
    decreases counts.len() - n,
{
    assert(counts.take(n + 1).drop_last() =~= counts.take(n));
    if n + 1 < counts.len() {
        sum_of_prefix(counts, n + 1);
    } else {
        assert(counts.take(n + 1) =~= counts);
    }
}

/// A sequence of zeros sums to zero.
pub proof fn sum_of_zeros(n: nat)
    ensures
        sum(Seq::new(n, |i: int| 0nat)) == 0,
    decreases n,
{
    if n > 0 {
        assert(Seq::new(n, |i: int| 0nat).drop_last() =~= Seq::new((n - 1) as nat, |i: int| 0nat));
        sum_of_zeros((n - 1) as nat);
    }
}

/// What a `WrongCounter` holds: how often each language was named wrongly,
/// by language index, and how often no language was named at all.
pub struct WrongCounterView {
    pub langs: Seq<nat>,
    pub none: nat,
}

impl WrongCounterView {
    /// No wrong detection yet.
    pub open spec fn empty() -> WrongCounterView {
        WrongCounterView { langs: Seq::new(LANG_COUNT as nat, |i: int| 0nat), none: 0 }
    }

    /// Number of wrong detections.
    pub open spec fn total(self) -> nat {
        sum(self.langs) + self.none
    }

    /// There is one count for each language, and the total fits in 32 bits.
    pub open spec fn wf(self) -> bool {
        &&& self.langs.len() == LANG_COUNT
        &&& self.total() <= u32::MAX
    }

    /// One more wrong detection: of `lang`, or of no language. A language
    /// for which there is no count is not counted.
    pub open spec fn add(self, lang: Option<Lang>) -> WrongCounterView {
        match lang {
            Some(l) => if l.rank() < self.langs.len() {
                WrongCounterView {
                    langs: self.langs.update(l.rank() as int, self.langs[l.rank() as int] + 1),
                    none: self.none,
                }
            } else {
                self
            },
            None => WrongCounterView { langs: self.langs, none: self.none + 1 },
        }
    }
}

/// Whether index `i` comes before index `j` when the counts are ranked:
/// the higher count first, and of two equal counts the lower index.
pub open spec fn ranks_before(counts: Seq<nat>, i: int, j: int) -> bool {
    counts[i] > counts[j] || (counts[i] == counts[j] && i < j)
}

/// The language index of entry `k` of a ranking.
pub open spec fn index_at(top: Seq<(Lang, u32)>, k: int) -> int {
    top[k].0.rank() as int
}

/// Whether a ranking has an entry for the language at index `j`.
pub open spec fn lists(top: Seq<(Lang, u32)>, j: int) -> bool {
    exists|k: int| 0 <= k < top.len() && #[trigger] index_at(top, k) == j
}

/// Whether `top` is the ranking of the languages with a count above zero, cut
/// after `limit` entries: each entry holds a language and its count, the
/// entries are in ranking order, and whatever is left out comes after all of
/// them, and is left out only because the limit was reached.
pub open spec fn is_top(counts: Seq<nat>, limit: nat, top: Seq<(Lang, u32)>) -> bool {
    &&& top.len() <= limit
    &&& forall|k: int|
        0 <= k < top.len() ==> {
            &&& 0 <= #[trigger] index_at(top, k) < counts.len()
            &&& top[k].1 > 0
            &&& top[k].1 == counts[index_at(top, k)]
        }
    &&& forall|k: int, m: int|
        0 <= k < m < top.len() ==> ranks_before(
            counts,
            #[trigger] index_at(top, k),
            #[trigger] index_at(top, m),
        )
    &&& forall|j: int, k: int|
        0 <= j < counts.len() && counts[j] > 0 && !lists(top, j) && 0 <= k < top.len()
            ==> #[trigger] ranks_before(counts, index_at(top, k), j)
    &&& forall|j: int|
        0 <= j < counts.len() && counts[j] > 0 && !#[trigger] lists(top, j) ==> top.len()
            == limit
}

/// Whether index `j` can be the next entry of a ranking whose last entry is
/// `prev`: its count is above zero, and it comes after `prev`.
pub open spec fn is_candidate(counts: Seq<nat>, prev: Option<(usize, u32)>, j: int) -> bool {
    counts[j] > 0 && (prev matches Some(p) ==> ranks_before(counts, p.0 as int, j))
}

/// Counts the wrong detections by the language that was named.
pub struct WrongCounter {
    langs: LangTally,
    none: u32,
}

impl View for WrongCounter {
    type V = WrongCounterView;

    closed spec fn view(&self) -> WrongCounterView {
        WrongCounterView {
            langs: tally_counts(self.langs).map_values(|count: u32| count as nat),
            none: self.none as nat,
        }
    }
}

impl WrongCounter {
    /// The counter holds one count for each language, and its total fits in 32 bits.
    pub open spec fn wf(self) -> bool {
        self@.wf()
    }

    /// A counter that has counted nothing.
    pub fn new() -> (counter: WrongCounter)
        ensures
            counter.wf(),
            counter@ == WrongCounterView::empty(),
            counter@.total() == 0,
    {
        let counter = WrongCounter { langs: tally_new(), none: 0 };
        proof {
            assert(counter@.langs =~= WrongCounterView::empty().langs);
            sum_of_zeros(LANG_COUNT as nat);
        }
        counter
    }

    /// Counts one more wrong detection: of `lang_opt`, or of no language.
    pub fn add(&mut self, lang_opt: Option<Lang>)
        requires
            old(self).wf(),
            old(self)@.total() < u32::MAX,
        ensures
            final(self).wf(),
            final(self)@ == old(self)@.add(lang_opt),
            final(self)@.total() == old(self)@.total() + 1,
    {
        match lang_opt {
            Some(lang) => {
                let index = lang.index();
                let count = tally_get(&self.langs, index);
                proof {
                    sum_of_prefix(self@.langs, index as int);
                    sum_of_update(self@.langs, index as int, (count + 1) as nat);
                }
                tally_set(&mut self.langs, index, count + 1);
                proof {
                    assert(self@.langs =~= old(self)@.langs.update(index as int, (count + 1) as nat));
                }
            },
            None => {
                self.none += 1;
            },
        }
    }

    /// Number of wrong detections.
    pub fn total(&self) -> (n: u32)
        requires
            self.wf(),
        ensures
            n == self@.total(),
    {
        let mut n: u32 = 0;
        for i in 0..LANG_COUNT
            invariant
                self.wf(),
                n == sum(self@.langs.take(i as int)),
        {
            proof {
                sum_of_prefix(self@.langs, i as int);
            }
            let count = tally_get(&self.langs, i);
            n = n + count;
        }
        proof {
            assert(self@.langs.take(LANG_COUNT as int) =~= self@.langs);
        }
        n + self.none
    }

    /// The index with the highest count among those that can follow `prev`
    /// in the ranking, with its count; of equal counts the lowest index.
    fn next_in_ranking(&self, prev: Option<(usize, u32)>) -> (best: Option<(usize, u32)>)
        requires
            self.wf(),
            prev matches Some(p) ==> p.0 < LANG_COUNT && p.1 == self@.langs[p.0 as int],
        ensures
            best.is_none() ==> forall|j: int|
                0 <= j < LANG_COUNT ==> !is_candidate(self@.langs, prev, j),
            best matches Some(b) ==> {
                &&& b.0 < LANG_COUNT
                &&& b.1 == self@.langs[b.0 as int]
                &&& is_candidate(self@.langs, prev, b.0 as int)
                &&& forall|j: int|
                    0 <= j < LANG_COUNT && j != b.0 && is_candidate(self@.langs, prev, j)
                        ==> ranks_before(self@.langs, b.0 as int, j)
            },
    {
        let mut best: Option<(usize, u32)> = None;
        for i in 0..LANG_COUNT
            invariant
                self.wf(),
                prev matches Some(p) ==> p.0 < LANG_COUNT && p.1 == self@.langs[p.0 as int],
                best.is_none() ==> forall|j: int|
                    0 <= j < i ==> !is_candidate(self@.langs, prev, j),
                best matches Some(b) ==> {
                    &&& b.0 < i
                    &&& b.1 == self@.langs[b.0 as int]
                    &&& is_candidate(self@.langs, prev, b.0 as int)
                    &&& forall|j: int|
                        0 <= j < i && j != b.0 && is_candidate(self@.langs, prev, j)
                            ==> ranks_before(self@.langs, b.0 as int, j)
                },
        {
            let count = tally_get(&self.langs, i);
            let follows = match prev {
                Some(p) => p.1 > count || (p.1 == count && p.0 < i),
                None => true,
            };
            let higher = match best {
                Some(b) => count > b.1,
                None => true,
            };
            if count > 0 && follows && higher {
                best = Some((i, count));
            }
        }
        best
    }

    /// The languages that were named wrongly, the most frequent first and at
    /// most `limit` of them, each with its count. Of two languages with the
    /// same count, the one with the lower index comes first.
    pub fn top(&self, limit: usize) -> (top: Vec<(Lang, u32)>)
        requires
            self.wf(),
        ensures
            is_top(self@.langs, limit as nat, top@),
    {
        let mut top: Vec<(Lang, u32)> = Vec::new();
        let mut prev: Option<(usize, u32)> = None;
        while top.len() < limit
            invariant
                self.wf(),
                top.len() <= limit,
                top.len() == 0 <==> prev.is_none(),
                prev matches Some(p) ==> {
                    &&& p.0 < LANG_COUNT
                    &&& p.1 == self@.langs[p.0 as int]
                    &&& p.0 == index_at(top@, top.len() - 1)
                },
                forall|k: int|
                    0 <= k < top.len() ==> {
                        &&& 0 <= #[trigger] index_at(top@, k) < LANG_COUNT
                        &&& top[k].1 > 0
                        &&& top[k].1 == self@.langs[index_at(top@, k)]
                    },
                forall|k: int, m: int|
                    0 <= k < m < top.len() ==> ranks_before(
                        self@.langs,
                        #[trigger] index_at(top@, k),
                        #[trigger] index_at(top@, m),
                    ),
                forall|j: int, k: int|
                    0 <= j < LANG_COUNT && self@.langs[j] > 0 && !lists(top@, j) && 0 <= k
                        < top.len() ==> #[trigger] ranks_before(
                        self@.langs,
                        index_at(top@, k),
                        j,
                    ),
            ensures
                is_top(self@.langs, limit as nat, top@),
            decreases limit - top.len(),
        {
            let best = self.next_in_ranking(prev);
            match best {
                None => {
                    proof {
                        assert forall|j: int|
                            0 <= j < LANG_COUNT && self@.langs[j] > 0 implies lists(top@, j) by {
                            if !lists(top@, j) {
                                if top.len() > 0 {
                                    assert(ranks_before(
                                        self@.langs,
                                        index_at(top@, top.len() - 1),
                                        j,
                                    ));
                                }
                                assert(is_candidate(self@.langs, prev, j));
                            }
                        }
                    }
                    break ;
                },
                Some(b) => {
                    let ghost before = top@;
                    let ghost last = prev;
                    let lang = Lang::new(b.0).unwrap();
                    top.push((lang, b.1));
                    prev = Some(b);
                    proof {
                        let n = before.len() as int;
                        rank_of_lang_at(b.0 as nat);
                        assert(index_at(top@, n) == b.0);
                        assert forall|k: int| 0 <= k < top.len() implies {
                            &&& 0 <= #[trigger] index_at(top@, k) < LANG_COUNT
                            &&& top[k].1 > 0
                            &&& top[k].1 == self@.langs[index_at(top@, k)]
                        } by {
                            if k < n {
                                assert(top@[k] == before[k]);
                                assert(0 <= index_at(before, k) < LANG_COUNT);
                            }
                        }
                        // The new entry is not among the earlier ones.
                        assert(!lists(before, b.0 as int)) by {
                            if lists(before, b.0 as int) {
                                let k = choose|k: int|
                                    0 <= k < before.len() && #[trigger] index_at(before, k)
                                        == b.0;
                                if k < n - 1 {
                                    assert(ranks_before(
                                        self@.langs,
                                        index_at(before, k),
                                        index_at(before, n - 1),
                                    ));
                                }
                            }
                        }
                        assert forall|j: int| lists(top@, j) implies lists(before, j) || j
                            == b.0 by {
                            let k = choose|k: int|
                                0 <= k < top@.len() && #[trigger] index_at(top@, k) == j;
                            if k < n {
                                assert(index_at(before, k) == j);
                            }
                        }
                        assert forall|j: int| lists(before, j) implies lists(top@, j) by {
                            let k = choose|k: int|
                                0 <= k < before.len() && #[trigger] index_at(before, k) == j;
                            assert(index_at(top@, k) == j);
                        }
                        assert forall|k: int, m: int| 0 <= k < m < top.len() implies ranks_before(
                            self@.langs,
                            #[trigger] index_at(top@, k),
                            #[trigger] index_at(top@, m),
                        ) by {
                            if m == n {
                                assert(ranks_before(self@.langs, index_at(before, k), b.0 as int));
                            } else {
                                assert(ranks_before(
                                    self@.langs,
                                    index_at(before, k),
                                    index_at(before, m),
                                ));
                            }
                        }
                        assert forall|j: int, k: int|
                            0 <= j < LANG_COUNT && self@.langs[j] > 0 && !lists(top@, j) && 0
                                <= k < top.len() implies #[trigger] ranks_before(
                            self@.langs,
                            index_at(top@, k),
                            j,
                        ) by {
                            assert(!lists(before, j));
                            if k < n {
                                assert(ranks_before(self@.langs, index_at(before, k), j));
                            } else {
                                if n > 0 {
                                    assert(ranks_before(
                                        self@.langs,
                                        index_at(before, n - 1),
                                        j,
                                    ));
                                }
                                assert(is_candidate(self@.langs, last, j));
                            }
                        }
                    }
                },
            }
        }
        top
    }

    /// How often `lang` was named wrongly.
    pub fn count(&self, lang: Lang) -> (n: u32)
        requires
            self.wf(),
        ensures
            n == self@.langs[lang.rank() as int],
    {
        tally_get(&self.langs, lang.index())
    }

    /// How often no language was named.
    pub fn none(&self) -> (n: u32)
        ensures
            n == self@.none,
    {
        self.none
    }
}

/// Of two rankings of the same counts that agree on their first `m` entries,
/// the next entry of the first does not come before the next of the second.
proof fn next_is_not_before(
    counts: Seq<nat>,
    limit: nat,
    a: Seq<(Lang, u32)>,
    b: Seq<(Lang, u32)>,
    m: int,
)
    requires
        is_top(counts, limit, a),
        is_top(counts, limit, b),
        0 <= m < a.len(),
        m < b.len(),
        forall|i: int| 0 <= i < m ==> index_at(a, i) == index_at(b, i),
    ensures
        !ranks_before(counts, index_at(a, m), index_at(b, m)),
{
    let ja = index_at(a, m);
    let jb = index_at(b, m);
    if ranks_before(counts, ja, jb) {
        if lists(b, ja) {
            let k = choose|k: int| 0 <= k < b.len() && #[trigger] index_at(b, k) == ja;
            if k < m {
                assert(ranks_before(counts, index_at(a, k), index_at(a, m)));
            } else if k > m {
                assert(ranks_before(counts, index_at(b, m), index_at(b, k)));
            }
        } else {
            assert(ranks_before(counts, index_at(b, m), ja));
        }
    }
}

/// Two rankings of the same counts agree on every entry that both have.
proof fn rankings_agree(
    counts: Seq<nat>,
    limit: nat,
    a: Seq<(Lang, u32)>,
    b: Seq<(Lang, u32)>,
    n: int,
)
    requires
        is_top(counts, limit, a),
        is_top(counts, limit, b),
        0 <= n <= a.len(),
        n <= b.len(),
    ensures
        forall|i: int| 0 <= i < n ==> index_at(a, i) == index_at(b, i),
    decreases n,
{
    if n > 0 {
        rankings_agree(counts, limit, a, b, n - 1);
        next_is_not_before(counts, limit, a, b, n - 1);
        next_is_not_before(counts, limit, b, a, n - 1);
    }
}

/// Of two rankings of the same counts the second is not longer than the first.
proof fn ranking_is_not_longer(
    counts: Seq<nat>,
    limit: nat,
    a: Seq<(Lang, u32)>,
    b: Seq<(Lang, u32)>,
)
    requires
        is_top(counts, limit, a),
        is_top(counts, limit, b),
    ensures
        b.len() <= a.len(),
{
    if a.len() < b.len() {
        let m = a.len() as int;
        let jb = index_at(b, m);
        rankings_agree(counts, limit, a, b, m);
        if lists(a, jb) {
            let k = choose|k: int| 0 <= k < a.len() && #[trigger] index_at(a, k) == jb;
            assert(ranks_before(counts, index_at(b, k), index_at(b, m)));
        }
    }
}

/// The counts and the limit determine the ranking: there is exactly one.
pub proof fn top_is_unique(counts: Seq<nat>, limit: nat, a: Seq<(Lang, u32)>, b: Seq<(Lang, u32)>)
    requires
        is_top(counts, limit, a),
        is_top(counts, limit, b),
    ensures
        a == b,
{
    ranking_is_not_longer(counts, limit, a, b);
    ranking_is_not_longer(counts, limit, b, a);
    rankings_agree(counts, limit, a, b, a.len() as int);
    assert forall|i: int| 0 <= i < a.len() implies a[i] == b[i] by {
        assert(index_at(a, i) == index_at(b, i));
        lang_is_its_rank(a[i].0, b[i].0);
    }
    assert(a =~= b);
}

/// Two wrong detections can be counted in either order.
pub proof fn add_commutes(wrong: WrongCounterView, a: Option<Lang>, b: Option<Lang>)
    ensures
        wrong.add(a).add(b) == wrong.add(b).add(a),
{
    assert(wrong.add(a).add(b).langs =~= wrong.add(b).add(a).langs);
}

} // verus!
