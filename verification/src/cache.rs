//! The policy of the answer cache: what is kept of an upstream answer,
//! for how long, and what a lookup gives. The store itself, which bounds
//! its size and lets one lookup per question through to the upstream,
//! stands outside this library.

use crate::comm::{answers_view, first_error, lemma_first_error_prefix, Answer, AnswerView};
use crate::protocol::rr::{rdata_cost, RRView};
use std::time::Duration;
use vstd::prelude::*;

verus! {

/// The time to live, in seconds, of a failure, and of an answer that
/// holds no record.
pub const DEFAULT_TTL: u32 = 600;

/// The time to live that an item brings, if it is a record.
pub open spec fn item_ttl(a: AnswerView) -> Option<u32> {
    match a {
        AnswerView::Error(_) => None,
        AnswerView::Answer(rr) => Some(rr.ttl),
        AnswerView::NameServer(rr) => Some(rr.ttl),
        AnswerView::Additional(rr) => Some(rr.ttl),
    }
}

/// The shorter of two times to live, where nothing stands for "no
/// record yet".
pub open spec fn shorter(a: Option<u32>, b: Option<u32>) -> Option<u32> {
    match (a, b) {
        (Some(x), Some(y)) => if y < x {
            Some(y)
        } else {
            Some(x)
        },
        (Some(x), None) => Some(x),
        (None, b) => b,
    }
}

/// The shortest time to live among the records of an answer, if it holds
/// a record.
pub open spec fn shortest_ttl(answers: Seq<AnswerView>) -> Option<u32>
    decreases answers.len(),
{
    if answers.len() == 0 {
        None
    } else {
        shorter(shortest_ttl(answers.drop_last()), item_ttl(answers.last()))
    }
}

/// The seconds that an answer may be kept: the shortest time to live
/// among its records, so that no record is kept beyond its own; the
/// default for an answer that holds no record.
pub open spec fn min_ttl(answers: Seq<AnswerView>) -> u32 {
    match shortest_ttl(answers) {
        Some(ttl) => ttl,
        None => DEFAULT_TTL,
    }
}

/// The shortest time to live of an answer is the time to live of one of
/// its records, and none of its records has a shorter one.
pub proof fn lemma_shortest_ttl(answers: Seq<AnswerView>)
    ensures
        shortest_ttl(answers) is None <==> forall|i: int|
            0 <= i < answers.len() ==> item_ttl(#[trigger] answers[i]) is None,
        shortest_ttl(answers) matches Some(ttl) ==> {
            &&& exists|i: int|
                0 <= i < answers.len() && item_ttl(#[trigger] answers[i]) == Some(ttl)
            &&& forall|i: int|
                0 <= i < answers.len() ==> (item_ttl(#[trigger] answers[i]) matches Some(t) ==> ttl
                    <= t)
        },
    decreases answers.len(),
{
    if answers.len() > 0 {
        let rest = answers.drop_last();
        let last = answers.len() - 1;
        lemma_shortest_ttl(rest);
        assert forall|i: int| 0 <= i < rest.len() implies rest[i] == answers[i] by {}
        match shortest_ttl(answers) {
            Some(ttl) => {
                if item_ttl(answers[last]) == Some(ttl) {
                    assert(item_ttl(answers[last]) == Some(ttl));
                } else {
                    let i = choose|i: int|
                        0 <= i < rest.len() && item_ttl(#[trigger] rest[i]) == Some(ttl);
                    assert(item_ttl(answers[i]) == Some(ttl));
                }
                assert forall|i: int| 0 <= i < answers.len() implies (item_ttl(
                    #[trigger] answers[i],
                ) matches Some(t) ==> ttl <= t) by {
                    if i < last {
                        assert(rest[i] == answers[i]);
                    }
                }
            },
            None => {
                assert forall|i: int| 0 <= i < answers.len() implies item_ttl(
                    #[trigger] answers[i],
                ) is None by {
                    if i < last {
                        assert(rest[i] == answers[i]);
                    }
                }
            },
        }
        if forall|i: int| 0 <= i < answers.len() ==> item_ttl(#[trigger] answers[i]) is None {
            assert(item_ttl(answers[last]) is None);
            assert forall|i: int| 0 <= i < rest.len() implies item_ttl(#[trigger] rest[i])
                is None by {
                assert(rest[i] == answers[i]);
            }
        }
    }
}

/// What is made of an upstream answer: the items to hand on, the seconds
/// they may be kept, and whether they may be kept at all.
#[derive(Debug)]
pub struct Fill {
    pub answers: Vec<Answer>,
    pub ttl: u32,
    pub cacheable: bool,
}

/// What is made of an upstream answer. A fault among the items leaves
/// the fault alone, with the default time to live, and nothing to keep;
/// else all items are kept for the shortest time to live among their
/// records, or for the default where there is no record.
pub open spec fn fill_spec(answers: Seq<AnswerView>) -> (Seq<AnswerView>, u32, bool) {
    match first_error(answers) {
        Some(e) => (seq![AnswerView::Error(e)], DEFAULT_TTL, false),
        None => (answers, min_ttl(answers), true),
    }
}

impl Fill {
    /// Sums up the items that the upstream gave for one question.
    pub fn forward(answers: Vec<Answer>) -> (r: Fill)
        ensures
            (answers_view(r.answers@), r.ttl, r.cacheable) == fill_spec(answers_view(answers@)),
    {
        let ghost views = answers_view(answers@);
        let n = answers.len();
        let mut shortest: Option<u32> = None;
        let mut i: usize = 0;
        assert(views.take(0) =~= Seq::<AnswerView>::empty());
        while i < n
            invariant
                n == answers@.len(),
                views == answers_view(answers@),
                0 <= i <= n,
                first_error(views.take(i as int)) is None,
                shortest == shortest_ttl(views.take(i as int)),
            decreases n - i,
        {
            proof {
                assert(views.take(i as int + 1).drop_last() =~= views.take(i as int));
                assert(views.take(i as int + 1).last() == views[i as int]);
                if views[i as int] is Error {
                    lemma_first_error_prefix(views, i as int + 1);
                }
            }
            let ttl: u32 = match &answers[i] {
                Answer::Error(e) => {
                    let mut only: Vec<Answer> = Vec::new();
                    only.push(Answer::Error(e.clone()));
                    assert(answers_view(only@) =~= seq![AnswerView::Error(e@)]);
                    return Fill { answers: only, ttl: DEFAULT_TTL, cacheable: false };
                },
                Answer::Answer(rr) => rr.ttl_secs(),
                Answer::NameServer(rr) => rr.ttl_secs(),
                Answer::Additional(rr) => rr.ttl_secs(),
            };
            shortest = match shortest {
                Some(least) => if ttl < least {
                    Some(ttl)
                } else {
                    Some(least)
                },
                None => Some(ttl),
            };
            i += 1;
        }
        assert(views.take(n as int) =~= views);
        let ttl = match shortest {
            Some(ttl) => ttl,
            None => DEFAULT_TTL,
        };
        Fill { answers, ttl, cacheable: true }
    }
}

/// An item with the time to live of its record, if it has one, set to
/// `ttl`.
pub open spec fn with_ttl(a: AnswerView, ttl: u32) -> AnswerView {
    match a {
        AnswerView::Error(e) => AnswerView::Error(e),
        AnswerView::Answer(rr) => AnswerView::Answer(RRView { ttl, ..rr }),
        AnswerView::NameServer(rr) => AnswerView::NameServer(RRView { ttl, ..rr }),
        AnswerView::Additional(rr) => AnswerView::Additional(RRView { ttl, ..rr }),
    }
}

/// The items with the time to live of every record set to `ttl`.
pub open spec fn all_with_ttl(answers: Seq<AnswerView>, ttl: u32) -> Seq<AnswerView> {
    Seq::new(answers.len(), |i: int| with_ttl(answers[i], ttl))
}

/// The whole seconds from `now` to `ddl`, both in milliseconds, as a time
/// to live: in 32 bits, what does not fit cut off.
pub open spec fn residual(ddl: u64, now: u64) -> u32 {
    (((ddl - now) / 1000) % 0x1_0000_0000) as u32
}

/// The items with the time to live of every record set to `secs` seconds.
pub fn rewrite_ttl(answers: &Vec<Answer>, secs: u32) -> (r: Vec<Answer>)
    ensures
        answers_view(r@) == all_with_ttl(answers_view(answers@), secs),
{
    let ghost views = answers_view(answers@);
    let ttl = Duration::from_secs(secs as u64);
    let mut out: Vec<Answer> = Vec::new();
    let n = answers.len();
    let mut i: usize = 0;
    while i < n
        invariant
            n == answers@.len(),
            views == answers_view(answers@),
            crate::time::duration_secs(ttl) == secs,
            0 <= i <= n,
            out@.len() == i,
            forall|j: int| 0 <= j < i ==> (#[trigger] out@[j])@ == with_ttl(views[j], secs),
        decreases n - i,
    {
        let item = match &answers[i] {
            Answer::Error(e) => Answer::Error(e.clone()),
            Answer::Answer(rr) => {
                let mut a = rr.clone();
                a.set_ttl(ttl);
                Answer::Answer(a)
            },
            Answer::NameServer(rr) => {
                let mut ns = rr.clone();
                ns.set_ttl(ttl);
                Answer::NameServer(ns)
            },
            Answer::Additional(rr) => {
                let mut additional = rr.clone();
                additional.set_ttl(ttl);
                Answer::Additional(additional)
            },
        };
        assert(item@ == with_ttl(views[i as int], secs));
        out.push(item);
        i += 1;
    }
    assert(answers_view(out@) =~= all_with_ttl(views, secs));
    out
}

/// What the cache keeps for a question: the items of the answer and the
/// time, in milliseconds of the cache's clock, at which they go stale.
#[derive(Debug)]
pub struct Entry {
    answers: Vec<Answer>,
    ddl: u64,
}

impl Clone for Entry {
    fn clone(&self) -> (r: Self)
        ensures
            r.items() == self.items(),
            r.deadline() == self.deadline(),
    {
        let n = self.answers.len();
        let mut answers: Vec<Answer> = Vec::new();
        let mut i: usize = 0;
        while i < n
            invariant
                n == self.answers@.len(),
                0 <= i <= n,
                answers@.len() == i,
                forall|j: int| 0 <= j < i ==> (#[trigger] answers@[j])@ == self.answers@[j]@,
            decreases n - i,
        {
            answers.push(self.answers[i].clone());
            i += 1;
        }
        assert(answers_view(answers@) =~= answers_view(self.answers@));
        Entry { answers, ddl: self.ddl }
    }
}

/// The time at which what was stored at `now` with `ttl` seconds to live
/// goes stale, in milliseconds; the end of time where that is beyond it.
pub open spec fn deadline_of(now: u64, ttl: u32) -> u64 {
    if now + ttl * 1000 > u64::MAX {
        u64::MAX
    } else {
        (now + ttl * 1000) as u64
    }
}

impl Entry {
    /// The items kept.
    pub closed spec fn items(&self) -> Seq<AnswerView> {
        answers_view(self.answers@)
    }

    /// The time at which the entry goes stale.
    pub closed spec fn deadline(&self) -> u64 {
        self.ddl
    }

    /// The entry goes stale at its deadline.
    pub open spec fn stale_at(&self, now: u64) -> bool {
        now >= self.deadline()
    }

    /// An entry for items stored at `now` with `ttl` seconds to live.
    pub fn new(answers: Vec<Answer>, ttl: u32, now: u64) -> (r: Self)
        ensures
            r.items() == answers_view(answers@),
            r.deadline() == deadline_of(now, ttl),
    {
        let life: u64 = ttl as u64 * 1000;
        let ddl = if u64::MAX - life < now {
            u64::MAX
        } else {
            now + life
        };
        Entry { answers, ddl }
    }

    /// What the entry costs the cache.
    pub fn cost(&self) -> (r: u32)
        ensures
            r == (if total_cost(self.items()) > u32::MAX {
                u32::MAX as nat
            } else {
                total_cost(self.items())
            }),
    {
        cost(&self.answers)
    }

    /// The time at which the entry goes stale.
    pub fn get_deadline(&self) -> (r: u64)
        ensures
            r == self.deadline(),
    {
        self.ddl
    }

    /// Whether the entry is stale at `now`.
    pub fn is_stale(&self, now: u64) -> (r: bool)
        ensures
            r == self.stale_at(now),
    {
        now >= self.ddl
    }

    /// What a lookup at `now` gives: nothing if the entry is stale, else
    /// its items, the time to live of each record set to the whole
    /// seconds that are left until the deadline.
    pub fn get(&self, now: u64) -> (r: Option<Vec<Answer>>)
        ensures
            self.stale_at(now) ==> r is None,
            !self.stale_at(now) ==> r is Some && answers_view(r.unwrap()@) == all_with_ttl(
                self.items(),
                residual(self.deadline(), now),
            ),
    {
        if self.is_stale(now) {
            return None;
        }
        let left = (self.ddl - now) / 1000;
        let secs = (left % 0x1_0000_0000) as u32;
        Some(rewrite_ttl(&self.answers, secs))
    }
}

/// What an item costs the cache: the cost of its record, and nothing for
/// a fault.
pub open spec fn item_cost(a: AnswerView) -> nat {
    match a {
        AnswerView::Error(_) => 0,
        AnswerView::Answer(rr) => rdata_cost(rr.rdata) as nat,
        AnswerView::NameServer(rr) => rdata_cost(rr.rdata) as nat,
        AnswerView::Additional(rr) => rdata_cost(rr.rdata) as nat,
    }
}

/// What the items cost the cache together.
pub open spec fn total_cost(answers: Seq<AnswerView>) -> nat
    decreases answers.len(),
{
    if answers.len() == 0 {
        0
    } else {
        total_cost(answers.drop_last()) + item_cost(answers.last())
    }
}

/// What the items cost the cache together, as far as 32 bits count.
pub fn cost(answers: &Vec<Answer>) -> (r: u32)
    ensures
        r == (if total_cost(answers_view(answers@)) > u32::MAX {
            u32::MAX as nat
        } else {
            total_cost(answers_view(answers@))
        }),
{
    let ghost views = answers_view(answers@);
    let n = answers.len();
    let mut sum: u32 = 0;
    let mut i: usize = 0;
    assert(views.take(0) =~= Seq::<AnswerView>::empty());
    while i < n
        invariant
            n == answers@.len(),
            views == answers_view(answers@),
            0 <= i <= n,
            sum == (if total_cost(views.take(i as int)) > u32::MAX {
                u32::MAX as nat
            } else {
                total_cost(views.take(i as int))
            }),
        decreases n - i,
    {
        proof {
            assert(views.take(i as int + 1).drop_last() =~= views.take(i as int));
            assert(views.take(i as int + 1).last() == views[i as int]);
        }
        let one: u32 = match &answers[i] {
            Answer::Error(_) => 0,
            Answer::Answer(rr) => rr.cost(),
            Answer::NameServer(rr) => rr.cost(),
            Answer::Additional(rr) => rr.cost(),
        };
        sum = sum.saturating_add(one);
        i += 1;
    }
    assert(views.take(n as int) =~= views);
    sum
}

/// What a lookup at `now` gives for what the store holds under a
/// question: a hit with the entry's items if there is an entry and it is
/// fresh, and a miss else.
pub fn lookup(entry: Option<&Entry>, now: u64) -> (r: Option<Vec<Answer>>)
    ensures
        match entry {
            Some(e) => if e.stale_at(now) {
                r is None
            } else {
                r is Some && answers_view(r.unwrap()@) == all_with_ttl(
                    e.items(),
                    residual(e.deadline(), now),
                )
            },
            None => r is None,
        },
{
    match entry {
        Some(e) => e.get(now),
        None => None,
    }
}

/// What the cache does with the answer that the upstream gave at `now`:
/// the entry to store, if the answer may be kept, and the items to hand
/// to the one who asked.
pub fn store(answers: Vec<Answer>, now: u64) -> (r: (Option<Entry>, Vec<Answer>))
    ensures
        ({
            let (items, ttl, cacheable) = fill_spec(answers_view(answers@));
            &&& r.0 is Some == cacheable
            &&& r.0 is Some ==> r.0.unwrap().items() == items && r.0.unwrap().deadline()
                == deadline_of(now, ttl)
            &&& answers_view(r.1@) == all_with_ttl(items, residual(deadline_of(now, ttl), now))
        }),
{
    let fill = Fill::forward(answers);
    let entry = Entry::new(fill.answers, fill.ttl, now);
    let left = (entry.ddl - now) / 1000;
    let secs = (left % 0x1_0000_0000) as u32;
    let items = rewrite_ttl(&entry.answers, secs);
    if fill.cacheable {
        (Some(entry), items)
    } else {
        (None, items)
    }
}

} // verus!
