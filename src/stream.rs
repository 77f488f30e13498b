use std::collections::VecDeque;

use vstd::prelude::*;

verus! {

/// Number of items asked for in each batch.
pub const BATCH_SIZE: i32 = 500;

/// Upper bound of the failure count that scales the backoff.
pub const MAX_FAILS: u64 = 10;

/// Milliseconds of backoff per counted failure; the random jitter stays below it.
pub const BACKOFF_STEP_MS: u64 = 1000;

/// One item of a listing, with the numeric id that orders items in time and
/// the fullname used as the pagination cursor.
#[derive(Clone, Debug)]
pub struct StreamEntry<T> {
    /// Numeric id: a later item has a larger id.
    pub id: u64,
    /// Fullname of the item (`t1_...`).
    pub name: String,
    /// The item itself.
    pub item: T,
}

/// The state of a polling stream, as a mathematical value.
pub struct StreamModel<T> {
    /// Items fetched and not yet handed out, next first.
    pub cache: Seq<StreamEntry<T>>,
    /// Fullname of the most recent item fetched so far.
    pub cursor: Option<String>,
    /// Id of the most recent item fetched so far.
    pub newest: Option<u64>,
    /// Ids handed out so far, in order.
    pub yielded: Seq<u64>,
    /// Failed fetches in a row, held at `MAX_FAILS`.
    pub fails: u64,
}

/// The items of `s` in the opposite order.
pub open spec fn reversed<A>(s: Seq<A>) -> Seq<A> {
    Seq::new(s.len(), |i: int| s[s.len() - 1 - i])
}

/// Ids strictly increase along `s`.
pub open spec fn ascending<T>(s: Seq<StreamEntry<T>>) -> bool {
    forall|i: int, j: int| 0 <= i < j < s.len() ==> s[i].id < s[j].id
}

/// Ids strictly increase along `s`.
pub open spec fn ids_ascending(s: Seq<u64>) -> bool {
    forall|i: int, j: int| 0 <= i < j < s.len() ==> s[i] < s[j]
}

/// A batch as the server owes it: most recent first, and nothing at or
/// before the cursor's item.
pub open spec fn fresh_batch<T>(batch: Seq<StreamEntry<T>>, newest: Option<u64>) -> bool {
    &&& forall|i: int, j: int| 0 <= i < j < batch.len() ==> batch[i].id > batch[j].id
    &&& newest matches Some(n) ==> forall|i: int| 0 <= i < batch.len() ==> batch[i].id > n
}

impl<T> StreamModel<T> {
    /// The state of a new stream.
    pub open spec fn empty() -> StreamModel<T> {
        StreamModel { cache: Seq::empty(), cursor: None, newest: None, yielded: Seq::empty(), fails: 0 }
    }

    /// Items are handed out in strictly increasing id order, the cache holds
    /// only items later than every one handed out, and the cursor's id is the
    /// largest fetched.
    pub open spec fn wf(&self) -> bool {
        &&& ascending(self.cache)
        &&& ids_ascending(self.yielded)
        &&& self.cache.len() > 0 ==> self.newest == Some(self.cache.last().id)
        &&& forall|k: int, i: int|
            0 <= k < self.yielded.len() && 0 <= i < self.cache.len() ==> self.yielded[k]
                < self.cache[i].id
        &&& self.yielded.len() > 0 ==> self.newest is Some
        &&& forall|k: int| 0 <= k < self.yielded.len() ==> self.yielded[k] <= self.newest->0
        &&& self.fails <= MAX_FAILS
    }

    /// The state after a successful fetch of `batch` (most recent first): the
    /// batch is queued oldest first, the cursor moves to its most recent item,
    /// and the failure count starts over.
    pub open spec fn accept(self, batch: Seq<StreamEntry<T>>) -> StreamModel<T> {
        if batch.len() == 0 {
            StreamModel { fails: 0, ..self }
        } else {
            StreamModel {
                cache: self.cache + reversed(batch),
                cursor: Some(batch[0].name),
                newest: Some(batch[0].id),
                yielded: self.yielded,
                fails: 0,
            }
        }
    }

    /// The state after the next item is handed out, if there is one.
    pub open spec fn pop(self) -> StreamModel<T> {
        if self.cache.len() == 0 {
            self
        } else {
            StreamModel {
                cache: self.cache.drop_first(),
                yielded: self.yielded.push(self.cache[0].id),
                ..self
            }
        }
    }

    /// The state after a failed fetch.
    pub open spec fn fail(self) -> StreamModel<T> {
        StreamModel { fails: if self.fails < MAX_FAILS { (self.fails + 1) as u64 } else { MAX_FAILS }, ..self }
    }
}

/// The wait after a failed fetch, given the failures before it and a random
/// number: one step per failure, at most `MAX_FAILS` steps, plus a jitter
/// below one step.
pub open spec fn spec_backoff(fails: u64, random: u64) -> int {
    (if fails < MAX_FAILS { fails } else { MAX_FAILS }) * BACKOFF_STEP_MS + random % BACKOFF_STEP_MS
}

/// The value of a base-36 digit (`0`-`9`, then `a`-`z`), or -1 for any
/// other character.
pub open spec fn base36_digit(c: char) -> int {
    if '0' <= c && c <= '9' {
        c as int - '0' as int
    } else if 'a' <= c && c <= 'z' {
        c as int - 'a' as int + 10
    } else {
        -1
    }
}

/// The number that a text of base-36 digits writes, most significant first.
pub open spec fn base36_value(s: Seq<char>) -> int
    decreases s.len(),
{
    if s.len() == 0 {
        0
    } else {
        base36_value(s.drop_last()) * 36 + base36_digit(s.last())
    }
}

/// Every character of `s` is a base-36 digit.
pub open spec fn base36_digits(s: Seq<char>) -> bool {
    forall|i: int| 0 <= i < s.len() ==> base36_digit(#[trigger] s[i]) >= 0
}

/// The numeric id of a fullname `t<kind>_<base-36 id>`, when the name has
/// that shape and the id fits in 64 bits.
pub open spec fn spec_fullname_id(name: Seq<char>) -> Option<u64> {
    let digits = name.subrange(3, name.len() as int);
    if name.len() > 3 && name[0] == 't' && name[2] == '_' && base36_digits(digits) && base36_value(digits)
        <= u64::MAX {
        Some(base36_value(digits) as u64)
    } else {
        None
    }
}

proof fn lemma_base36_prefix_bound(s: Seq<char>, i: int)
    requires
        base36_digits(s),
        0 <= i <= s.len(),
    ensures
        0 <= base36_value(s.subrange(0, i)) <= base36_value(s),
    decreases s.len() - i,
{
    if i < s.len() {
        lemma_base36_prefix_bound(s, i + 1);
        let p = s.subrange(0, i + 1);
        assert(p.drop_last() =~= s.subrange(0, i));
        assert(base36_digit(p.last()) >= 0);
    } else {
        assert(s.subrange(0, i) =~= s);
        lemma_base36_nonneg(s);
    }
}

proof fn lemma_base36_nonneg(s: Seq<char>)
    requires
        base36_digits(s),
    ensures
        base36_value(s) >= 0,
    decreases s.len(),
{
    if s.len() > 0 {
        assert(base36_digits(s.drop_last())) by {
            assert forall|i: int| 0 <= i < s.drop_last().len() implies base36_digit(#[trigger] s.drop_last()[i]) >= 0 by {
                assert(s.drop_last()[i] == s[i]);
            }
        }
        lemma_base36_nonneg(s.drop_last());
        assert(base36_digit(s[s.len() - 1]) >= 0);
    }
}

/// The numeric id of a fullname such as `t1_a5x`, which orders items in
/// time; `None` when the name is not of that shape or the id is too large.
pub fn fullname_id(name: &str) -> (r: Option<u64>)
    ensures
        r == spec_fullname_id(name@),
{
    let n = name.unicode_len();
    if n <= 3 || name.get_char(0) != 't' || name.get_char(2) != '_' {
        return None;
    }
    let ghost digits = name@.subrange(3, n as int);
    let mut acc: u64 = 0;
    let mut i: usize = 3;
    while i < n
        invariant
            3 <= i <= n,
            n == name@.len(),
            digits == name@.subrange(3, n as int),
            base36_digits(name@.subrange(3, i as int)),
            acc as int == base36_value(name@.subrange(3, i as int)),
        decreases n - i,
    {
        let c = name.get_char(i);
        let d: u64 = if '0' <= c && c <= '9' {
            (c as u32 - '0' as u32) as u64
        } else if 'a' <= c && c <= 'z' {
            (c as u32 - 'a' as u32 + 10) as u64
        } else {
            proof {
                assert(digits[i - 3] == c);
                assert(!base36_digits(digits));
            }
            return None;
        };
        let ghost pre = name@.subrange(3, i as int);
        let ghost next = name@.subrange(3, i + 1);
        proof {
            assert(next.drop_last() =~= pre);
            assert(next.last() == c);
            assert(base36_digits(next)) by {
                assert forall|j: int| 0 <= j < next.len() implies base36_digit(#[trigger] next[j]) >= 0 by {
                    if j < pre.len() {
                        assert(next[j] == pre[j]);
                    }
                }
            }
        }
        let grown = match acc.checked_mul(36) {
            Some(m) => m.checked_add(d),
            None => None,
        };
        match grown {
            Some(v) => {
                acc = v;
            },
            None => {
                proof {
                    if base36_digits(digits) {
                        assert(next =~= digits.subrange(0, i + 1 - 3));
                        lemma_base36_prefix_bound(digits, i + 1 - 3);
                    }
                }
                return None;
            },
        }
        i = i + 1;
    }
    Some(acc)
}

/// What the consumer of a stream has to do next.
#[derive(Clone, PartialEq, Eq, Debug)]
pub enum StreamStep {
    /// An item is ready: take it with `pop`.
    Yield,
    /// Fetch the next batch of at most `limit` items after the item named `before`.
    Fetch { before: Option<String>, limit: i32 },
}

/// A random number.
///
/// Relies on rand::random, drawn from the thread-local generator; nothing is
/// known of the value.
#[verifier::external_body]
fn random_u64() -> u64 {
    rand::random::<u64>()
}

/// A stream of the comments of a subreddit as they are posted, built on
/// repeated fetches of the listing of recent comments, which comes most
/// recent first.
pub struct Comments<T> {
    sub: String,
    cache: VecDeque<StreamEntry<T>>,
    last: Option<String>,
    newest: Option<u64>,
    fails: u64,
    yielded: Ghost<Seq<u64>>,
}

impl<T> View for Comments<T> {
    type V = StreamModel<T>;

    closed spec fn view(&self) -> StreamModel<T> {
        StreamModel {
            cache: self.cache@,
            cursor: self.last,
            newest: self.newest,
            yielded: self.yielded@,
            fails: self.fails,
        }
    }
}

impl<T> Comments<T> {
    /// The subreddit listed.
    pub closed spec fn spec_sub(&self) -> Seq<char> {
        self.sub@
    }

    /// A stream of the comments of `sub` (`all` for the whole site).
    pub fn new(sub: &str) -> (r: Comments<T>)
        ensures
            r@ == StreamModel::<T>::empty(),
            r@.wf(),
            r.spec_sub() == sub@,
    {
        Comments {
            sub: String::from_str(sub),
            cache: VecDeque::new(),
            last: None,
            newest: None,
            fails: 0,
            yielded: Ghost(Seq::empty()),
        }
    }

    /// The subreddit listed.
    pub fn sub(&self) -> (r: &str)
        ensures
            r@ == self.spec_sub(),
    {
        self.sub.as_str()
    }

    /// Fullname of the most recent item fetched so far.
    pub fn last_seen(&self) -> (r: &Option<String>)
        ensures
            *r == self@.cursor,
    {
        &self.last
    }

    /// Failed fetches in a row.
    pub fn fails(&self) -> (r: u64)
        ensures
            r == self@.fails,
    {
        self.fails
    }

    /// Number of items waiting to be handed out.
    pub fn buffered(&self) -> (r: usize)
        ensures
            r == self@.cache.len(),
    {
        self.cache.len()
    }

    /// What comes next: an item when one is buffered, else a fetch of the
    /// next batch after the cursor.
    pub fn step(&self) -> (r: StreamStep)
        ensures
            self@.cache.len() > 0 ==> r == StreamStep::Yield,
            self@.cache.len() == 0 ==> r == (StreamStep::Fetch { before: self@.cursor, limit: BATCH_SIZE }),
    {
        if self.cache.len() > 0 {
            StreamStep::Yield
        } else {
            StreamStep::Fetch { before: self.last.clone(), limit: BATCH_SIZE }
        }
    }

    /// Hands out the next buffered item, the oldest not yet handed out.
    pub fn pop(&mut self) -> (r: Option<StreamEntry<T>>)
        ensures
            final(self)@ == old(self)@.pop(),
            final(self).spec_sub() == old(self).spec_sub(),
            old(self)@.cache.len() == 0 <==> r is None,
            r matches Some(e) ==> e == old(self)@.cache[0],
            old(self)@.wf() ==> final(self)@.wf(),
            old(self)@.wf() ==> (r matches Some(e) ==> forall|k: int|
                0 <= k < old(self)@.yielded.len() ==> old(self)@.yielded[k] < e.id),
    {
        let r = self.cache.pop_front();
        if let Some(e) = &r {
            self.yielded = Ghost(self.yielded@.push(e.id));
        }
        proof {
            let m = old(self)@;
            if m.cache.len() > 0 {
                assert(self@.cache =~= m.cache.drop_first());
                assert(self@ == m.pop());
                if m.wf() {
                    lemma_pop_keeps_order(m);
                }
            } else {
                assert(self@ == m);
            }
        }
        r
    }

    /// Whether `batch` is a batch as the server owes it after the cursor.
    pub fn is_fresh_batch(&self, batch: &Vec<StreamEntry<T>>) -> (r: bool)
        ensures
            r == fresh_batch(batch@, self@.newest),
    {
        let n = batch.len();
        let mut i: usize = 0;
        while i < n
            invariant
                n == batch@.len(),
                i <= n,
                forall|a: int, b: int| 0 <= a < b < i ==> batch@[a].id > batch@[b].id,
                self@.newest matches Some(x) ==> forall|a: int| 0 <= a < i ==> batch@[a].id > x,
            decreases n - i,
        {
            if i > 0 && batch[i - 1].id <= batch[i].id {
                return false;
            }
            if let Some(x) = self.newest {
                if batch[i].id <= x {
                    return false;
                }
            }
            proof {
                assert forall|a: int, b: int| 0 <= a < b < i + 1 implies batch@[a].id > batch@[b].id by {
                    if b == i && a < i - 1 {
                        assert(batch@[a].id > batch@[i - 1].id);
                    }
                }
            }
            i = i + 1;
        }
        true
    }

    /// Takes in a successfully fetched batch, most recent first: it is
    /// queued oldest first, the cursor moves to its most recent item, and the
    /// failure count starts over. When the batch is one the server owes after
    /// the cursor (most recent first, nothing at or before the cursor's
    /// item), the order of the stream is kept.
    pub fn accept_batch(&mut self, batch: Vec<StreamEntry<T>>)
        ensures
            final(self)@ == old(self)@.accept(batch@),
            final(self).spec_sub() == old(self).spec_sub(),
            old(self)@.wf() && fresh_batch(batch@, old(self)@.newest) ==> final(self)@.wf(),
    {
        let ghost orig = batch@;
        let ghost c0 = self.cache@;
        let mut batch = batch;
        if batch.len() > 0 {
            self.last = Some(batch[0].name.clone());
            self.newest = Some(batch[0].id);
        }
        let ghost s1 = *self;
        while batch.len() > 0
            invariant
                self.sub == s1.sub,
                self.last == s1.last,
                self.newest == s1.newest,
                self.fails == s1.fails,
                self.yielded == s1.yielded,
                batch@.len() <= orig.len(),
                batch@ == orig.subrange(0, batch@.len() as int),
                self.cache@ == c0 + reversed(orig).subrange(0, orig.len() - batch@.len()),
            decreases batch@.len(),
        {
            let ghost k = batch@.len();
            let e = batch.pop().unwrap();
            self.cache.push_back(e);
            proof {
                assert(reversed(orig)[orig.len() - k] == orig[k - 1]);
                assert(reversed(orig).subrange(0, orig.len() - (k - 1)) =~= reversed(orig).subrange(
                    0,
                    orig.len() - k,
                ).push(orig[k - 1]));
            }
        }
        self.fails = 0;
        proof {
            assert(reversed(orig).subrange(0, orig.len() as int) =~= reversed(orig));
            let m = old(self)@;
            if orig.len() == 0 {
                assert(self.cache@ =~= c0);
            }
            assert(self@ =~= m.accept(orig));
            if m.wf() && fresh_batch(orig, m.newest) {
                lemma_accept_keeps_order(m, orig);
            }
        }
    }

    /// Records a failed fetch given a random number, and returns how long to
    /// wait before the next one.
    pub fn record_failure_with(&mut self, random: u64) -> (r: u64)
        ensures
            r == spec_backoff(old(self)@.fails, random),
            final(self)@ == old(self)@.fail(),
            old(self)@.wf() ==> final(self)@.wf(),
            final(self).spec_sub() == old(self).spec_sub(),
    {
        let counted = if self.fails < MAX_FAILS {
            self.fails
        } else {
            MAX_FAILS
        };
        let r = counted * BACKOFF_STEP_MS + random % BACKOFF_STEP_MS;
        self.fails = if self.fails < MAX_FAILS {
            self.fails + 1
        } else {
            MAX_FAILS
        };
        r
    }

    /// Records a failed fetch and returns how long to wait before the next
    /// one, with a random jitter.
    pub fn record_failure(&mut self) -> (r: u64)
        ensures
            exists|random: u64| r == spec_backoff(old(self)@.fails, random),
            r < (MAX_FAILS + 1) * BACKOFF_STEP_MS,
            final(self)@ == old(self)@.fail(),
            old(self)@.wf() ==> final(self)@.wf(),
            final(self).spec_sub() == old(self).spec_sub(),
    {
        let random = random_u64();
        self.record_failure_with(random)
    }
}

/// Handing out an item keeps the order: the stream stays well formed, and the
/// item handed out comes after every item handed out before.
pub proof fn lemma_pop_keeps_order<T>(m: StreamModel<T>)
    requires
        m.wf(),
    ensures
        m.pop().wf(),
        m.cache.len() > 0 ==> forall|k: int|
            0 <= k < m.yielded.len() ==> m.yielded[k] < m.cache[0].id,
{
    if m.cache.len() > 0 {
        let p = m.pop();
        assert(p.yielded.last() == m.cache[0].id);
        assert forall|k: int, i: int| 0 <= k < p.yielded.len() && 0 <= i < p.cache.len() implies p.yielded[k]
            < p.cache[i].id by {
            assert(p.cache[i] == m.cache[i + 1]);
            if k < m.yielded.len() {
                assert(p.yielded[k] == m.yielded[k]);
            }
        }
        assert forall|a: int, b: int| 0 <= a < b < p.yielded.len() implies p.yielded[a] < p.yielded[b] by {
            if b == m.yielded.len() {
                assert(p.yielded[a] == m.yielded[a]);
            }
        }
        assert forall|k: int| 0 <= k < p.yielded.len() implies p.yielded[k] <= p.newest->0 by {
            if k == m.yielded.len() {
                assert(m.cache.last().id >= m.cache[0].id);
            }
        }
        if p.cache.len() > 0 {
            assert(p.cache.last() == m.cache.last());
        }
        assert(ascending(p.cache)) by {
            assert forall|i: int, j: int| 0 <= i < j < p.cache.len() implies p.cache[i].id < p.cache[j].id by {
                assert(p.cache[i] == m.cache[i + 1]);
                assert(p.cache[j] == m.cache[j + 1]);
            }
        }
    }
}

/// Taking in a batch the server owes keeps the order: the stream stays well
/// formed, so every item of the batch is handed out after all that came before.
pub proof fn lemma_accept_keeps_order<T>(m: StreamModel<T>, batch: Seq<StreamEntry<T>>)
    requires
        m.wf(),
        fresh_batch(batch, m.newest),
    ensures
        m.accept(batch).wf(),
{
    if batch.len() > 0 {
        let a = m.accept(batch);
        let r = reversed(batch);
        assert(a.cache.last() == batch[0]);
        assert forall|i: int| 0 <= i < m.cache.len() implies m.cache[i].id <= m.newest->0 by {
            if i < m.cache.len() - 1 {
                assert(m.cache[i].id < m.cache.last().id);
            }
        }
        assert forall|i: int, j: int| 0 <= i < j < a.cache.len() implies a.cache[i].id < a.cache[j].id by {
            if j >= m.cache.len() {
                assert(a.cache[j] == batch[batch.len() - 1 - (j - m.cache.len())]);
                if i >= m.cache.len() {
                    assert(a.cache[i] == batch[batch.len() - 1 - (i - m.cache.len())]);
                }
            }
        }
        assert forall|k: int, i: int| 0 <= k < a.yielded.len() && 0 <= i < a.cache.len() implies a.yielded[k]
            < a.cache[i].id by {
            if i >= m.cache.len() {
                assert(a.cache[i] == batch[batch.len() - 1 - (i - m.cache.len())]);
            }
        }
        assert forall|k: int| 0 <= k < a.yielded.len() implies a.yielded[k] <= a.newest->0 by {
            assert(m.yielded[k] <= m.newest->0);
        }
    }
}

/// Nothing is handed out twice: in a well-formed stream the ids handed out
/// so far are pairwise distinct.
pub proof fn lemma_no_repeats<T>(m: StreamModel<T>)
    requires
        m.wf(),
    ensures
        forall|a: int, b: int|
            0 <= a < m.yielded.len() && 0 <= b < m.yielded.len() && a != b ==> m.yielded[a] != m.yielded[b],
{
    assert forall|a: int, b: int|
        0 <= a < m.yielded.len() && 0 <= b < m.yielded.len() && a != b implies m.yielded[a] != m.yielded[b] by {
        if a < b {
            assert(m.yielded[a] < m.yielded[b]);
        } else {
            assert(m.yielded[b] < m.yielded[a]);
        }
    }
}

/// Successive batches come out in time order: three batches taken in by a
/// new stream, each one the server owes after the one before, are queued as
/// the first batch oldest first, then the second, then the third; the cursor
/// then names the most recent item of the last batch that held any, whose id
/// is the largest of all.
pub proof fn lemma_three_batches<T>(b1: Seq<StreamEntry<T>>, b2: Seq<StreamEntry<T>>, b3: Seq<StreamEntry<T>>)
    requires
        fresh_batch(b1, None),
        fresh_batch(b2, StreamModel::<T>::empty().accept(b1).newest),
        fresh_batch(b3, StreamModel::<T>::empty().accept(b1).accept(b2).newest),
    ensures
        ({
            let m = StreamModel::<T>::empty().accept(b1).accept(b2).accept(b3);
            &&& m.wf()
            &&& m.cache == reversed(b1) + reversed(b2) + reversed(b3)
            &&& m.cache.len() > 0 ==> m.newest == Some(m.cache.last().id)
                && m.cursor == Some(m.cache.last().name)
                && forall|i: int| 0 <= i < m.cache.len() ==> m.cache[i].id <= m.newest->0
        }),
{
    let m0 = StreamModel::<T>::empty();
    assert(m0.wf());
    lemma_accept_keeps_order(m0, b1);
    let m1 = m0.accept(b1);
    lemma_accept_keeps_order(m1, b2);
    let m2 = m1.accept(b2);
    lemma_accept_keeps_order(m2, b3);
    let m = m2.accept(b3);
    assert(m0.cache + reversed(b1) =~= reversed(b1));
    if b1.len() == 0 {
        assert(reversed(b1) =~= Seq::<StreamEntry<T>>::empty());
    }
    if b2.len() == 0 {
        assert(reversed(b2) =~= Seq::<StreamEntry<T>>::empty());
        assert(m1.cache + reversed(b2) =~= m1.cache);
    }
    if b3.len() == 0 {
        assert(reversed(b3) =~= Seq::<StreamEntry<T>>::empty());
        assert(m2.cache + reversed(b3) =~= m2.cache);
    }
    assert(m.cache =~= reversed(b1) + reversed(b2) + reversed(b3));
    if m.cache.len() > 0 {
        assert forall|i: int| 0 <= i < m.cache.len() implies m.cache[i].id <= m.newest->0 by {
            if i < m.cache.len() - 1 {
                assert(m.cache[i].id < m.cache.last().id);
            }
        }
        if b3.len() > 0 {
            assert(m.cache.last() == b3[0]);
        } else if b2.len() > 0 {
            assert(m.cache.last() == b2[0]);
        } else {
            assert(m.cache.last() == b1[0]);
        }
    }
}

} // verus!
