//! Failure and success counters shared by every submission of a benchmark
//! phase.

use vstd::prelude::*;

verus! {

/// Successes and failures counted for one endpoint.
#[derive(Clone, Copy, Debug, PartialEq, Eq, Structural)]
pub struct EndpointTally {
    pub successes: usize,
    pub submit_failures: usize,
    pub wait_failures: usize,
}

/// One more than `count`; at the top of the range the count stays where it is.
pub open spec fn bump(count: usize) -> usize {
    if count < usize::MAX {
        (count + 1) as usize
    } else {
        count
    }
}

/// The tally of an endpoint that nothing has been counted for yet.
pub open spec fn zero_tally() -> EndpointTally {
    EndpointTally { successes: 0, submit_failures: 0, wait_failures: 0 }
}

/// What a [`CounterState`] holds: one submit-failure and one wait-failure
/// count per retry attempt, the number of confirmed transactions, and a tally
/// for each endpoint that is tracked, found by the endpoint's name.
#[verifier::ext_equal]
pub struct CounterView {
    pub submit_failures: Seq<usize>,
    pub wait_failures: Seq<usize>,
    pub successes: usize,
    pub by_client: Map<Seq<char>, EndpointTally>,
}

impl CounterView {
    /// There is at least one attempt bucket, and as many for waits as for
    /// submissions.
    pub open spec fn well_formed(self) -> bool {
        &&& self.submit_failures.len() >= 1
        &&& self.wait_failures.len() == self.submit_failures.len()
    }

    /// The number of attempt buckets.
    pub open spec fn buckets(self) -> nat {
        self.submit_failures.len()
    }

    /// The bucket that attempt `attempt` is counted in: its own, or the last
    /// one when there are fewer buckets than attempts.
    pub open spec fn bucket(self, attempt: nat) -> int {
        if attempt < self.submit_failures.len() {
            attempt as int
        } else {
            self.submit_failures.len() - 1
        }
    }

    /// Counters with `buckets` attempt buckets that track the endpoints named
    /// in `endpoints`, with nothing counted.
    pub open spec fn fresh(buckets: nat, endpoints: Seq<Seq<char>>) -> CounterView {
        CounterView {
            submit_failures: Seq::new(buckets, |i: int| 0usize),
            wait_failures: Seq::new(buckets, |i: int| 0usize),
            successes: 0,
            by_client: Map::new(
                |name: Seq<char>| endpoints.contains(name),
                |name: Seq<char>| zero_tally(),
            ),
        }
    }

    /// These counters, tracking `endpoint` as well. An endpoint that is
    /// tracked already keeps its tally.
    pub open spec fn with_endpoint(self, endpoint: Seq<char>) -> CounterView {
        if self.by_client.dom().contains(endpoint) {
            self
        } else {
            CounterView { by_client: self.by_client.insert(endpoint, zero_tally()), ..self }
        }
    }

    /// Fresh counters that go on to track one more endpoint are the fresh
    /// counters for the longer list of endpoints.
    pub proof fn lemma_fresh_with_endpoint(buckets: nat, endpoints: Seq<Seq<char>>, more: Seq<char>)
        ensures
            Self::fresh(buckets, endpoints).with_endpoint(more) == Self::fresh(
                buckets,
                endpoints.push(more),
            ),
    {
        let before = Self::fresh(buckets, endpoints);
        let after = Self::fresh(buckets, endpoints.push(more));
        let longer = endpoints.push(more);
        assert(longer[endpoints.len() as int] == more);
        assert forall|name: Seq<char>| longer.contains(name) <==> (endpoints.contains(name) || name
            == more) by {
            if endpoints.contains(name) {
                let i = choose|i: int| 0 <= i < endpoints.len() && endpoints[i] == name;
                assert(longer[i] == name);
            }
            if longer.contains(name) {
                let i = choose|i: int| 0 <= i < longer.len() && longer[i] == name;
                if i < endpoints.len() {
                    assert(endpoints[i] == name);
                }
            }
        }
        assert(before.with_endpoint(more).by_client =~= after.by_client);
    }

    /// These counters after one failed submission in attempt `attempt` at
    /// `endpoint`. The endpoint's tally moves only if the endpoint is tracked.
    pub open spec fn with_submit_failure(self, attempt: nat, endpoint: Seq<char>) -> CounterView {
        let b = self.bucket(attempt);
        CounterView {
            submit_failures: self.submit_failures.update(b, bump(self.submit_failures[b])),
            by_client: if self.by_client.dom().contains(endpoint) {
                let t = self.by_client[endpoint];
                self.by_client.insert(
                    endpoint,
                    EndpointTally { submit_failures: bump(t.submit_failures), ..t },
                )
            } else {
                self.by_client
            },
            ..self
        }
    }

    /// These counters after one failed wait in attempt `attempt` at
    /// `endpoint`. The endpoint's tally moves only if the endpoint is tracked.
    pub open spec fn with_wait_failure(self, attempt: nat, endpoint: Seq<char>) -> CounterView {
        let b = self.bucket(attempt);
        CounterView {
            wait_failures: self.wait_failures.update(b, bump(self.wait_failures[b])),
            by_client: if self.by_client.dom().contains(endpoint) {
                let t = self.by_client[endpoint];
                self.by_client.insert(
                    endpoint,
                    EndpointTally { wait_failures: bump(t.wait_failures), ..t },
                )
            } else {
                self.by_client
            },
            ..self
        }
    }

    /// These counters after one confirmed transaction. With `Some(endpoint)`
    /// the confirmation is also credited to that endpoint, if it is tracked.
    pub open spec fn with_success(self, endpoint: Option<Seq<char>>) -> CounterView {
        CounterView {
            successes: bump(self.successes),
            by_client: match endpoint {
                Some(name) if self.by_client.dom().contains(name) => {
                    let t = self.by_client[name];
                    self.by_client.insert(name, EndpointTally { successes: bump(t.successes), ..t })
                },
                _ => self.by_client,
            },
            ..self
        }
    }

    /// No count of `self` is above the same count of `later`, and `later`
    /// has the buckets and endpoints of `self`.
    pub open spec fn no_greater_than(self, later: CounterView) -> bool {
        &&& later.submit_failures.len() == self.submit_failures.len()
        &&& later.wait_failures.len() == self.wait_failures.len()
        &&& forall|i: int|
            0 <= i < self.submit_failures.len() ==> self.submit_failures[i]
                <= #[trigger] later.submit_failures[i]
        &&& forall|i: int|
            0 <= i < self.wait_failures.len() ==> self.wait_failures[i]
                <= #[trigger] later.wait_failures[i]
        &&& self.successes <= later.successes
        &&& later.by_client.dom() == self.by_client.dom()
        &&& forall|name: Seq<char>| #[trigger]
            self.by_client.dom().contains(name) ==> {
                &&& self.by_client[name].successes <= later.by_client[name].successes
                &&& self.by_client[name].submit_failures <= later.by_client[name].submit_failures
                &&& self.by_client[name].wait_failures <= later.by_client[name].wait_failures
            }
    }
}

impl CounterView {
    /// No count is above itself.
    pub proof fn lemma_no_greater_than_reflexive(c: CounterView)
        ensures
            c.no_greater_than(c),
    {
    }

    /// What is no greater than something that is no greater than a third is
    /// no greater than the third.
    pub proof fn lemma_no_greater_than_transitive(a: CounterView, b: CounterView, c: CounterView)
        requires
            a.no_greater_than(b),
            b.no_greater_than(c),
        ensures
            a.no_greater_than(c),
    {
        assert forall|i: int| 0 <= i < a.submit_failures.len() implies a.submit_failures[i]
            <= #[trigger] c.submit_failures[i] by {
            assert(a.submit_failures[i] <= b.submit_failures[i]);
        }
        assert forall|i: int| 0 <= i < a.wait_failures.len() implies a.wait_failures[i]
            <= #[trigger] c.wait_failures[i] by {
            assert(a.wait_failures[i] <= b.wait_failures[i]);
        }
        assert forall|name: Seq<char>| #[trigger] a.by_client.dom().contains(name) implies {
            &&& a.by_client[name].successes <= c.by_client[name].successes
            &&& a.by_client[name].submit_failures <= c.by_client[name].submit_failures
            &&& a.by_client[name].wait_failures <= c.by_client[name].wait_failures
        } by {
            assert(b.by_client.dom().contains(name));
        }
    }

    /// Counting a failed submission lowers no count.
    pub proof fn lemma_submit_failure_monotonic(c: CounterView, attempt: nat, endpoint: Seq<char>)
        requires
            c.well_formed(),
        ensures
            c.with_submit_failure(attempt, endpoint).well_formed(),
            c.no_greater_than(c.with_submit_failure(attempt, endpoint)),
    {
        let after = c.with_submit_failure(attempt, endpoint);
        assert(after.by_client.dom() =~= c.by_client.dom());
    }

    /// Counting a failed wait lowers no count.
    pub proof fn lemma_wait_failure_monotonic(c: CounterView, attempt: nat, endpoint: Seq<char>)
        requires
            c.well_formed(),
        ensures
            c.with_wait_failure(attempt, endpoint).well_formed(),
            c.no_greater_than(c.with_wait_failure(attempt, endpoint)),
    {
        let after = c.with_wait_failure(attempt, endpoint);
        assert(after.by_client.dom() =~= c.by_client.dom());
    }

    /// Counting a success lowers no count.
    pub proof fn lemma_success_monotonic(c: CounterView, endpoint: Option<Seq<char>>)
        requires
            c.well_formed(),
        ensures
            c.with_success(endpoint).well_formed(),
            c.no_greater_than(c.with_success(endpoint)),
    {
        let after = c.with_success(endpoint);
        assert(after.by_client.dom() =~= c.by_client.dom());
    }
}

/// Some name of `names` is `name`.
spec fn named(names: Seq<String>, name: Seq<char>) -> bool {
    exists|i: int| 0 <= i < names.len() && (#[trigger] names[i])@ == name
}

/// A place in `names` where `name` stands.
spec fn position(names: Seq<String>, name: Seq<char>) -> int {
    choose|i: int| 0 <= i < names.len() && (#[trigger] names[i])@ == name
}

/// No name occurs twice in `names`.
spec fn distinct(names: Seq<String>) -> bool {
    forall|i: int, j: int|
        0 <= i < j < names.len() ==> (#[trigger] names[i])@ != (#[trigger] names[j])@
}

/// The tallies, found by the name that stands at the same place.
spec fn tally_map(names: Seq<String>, tallies: Seq<EndpointTally>) -> Map<
    Seq<char>,
    EndpointTally,
> {
    Map::new(|name: Seq<char>| named(names, name), |name: Seq<char>| tallies[position(names, name)])
}

proof fn lemma_tally_at(names: Seq<String>, tallies: Seq<EndpointTally>, i: int)
    requires
        distinct(names),
        0 <= i < names.len(),
    ensures
        named(names, names[i]@),
        position(names, names[i]@) == i,
        tally_map(names, tallies).dom().contains(names[i]@),
        tally_map(names, tallies)[names[i]@] == tallies[i],
{
    let name = names[i]@;
    assert(named(names, name));
    let p = position(names, name);
    assert(0 <= p < names.len() && names[p]@ == name);
    if p < i {
        assert(names[p]@ != names[i]@);
    } else if i < p {
        assert(names[i]@ != names[p]@);
    }
}

proof fn lemma_tally_update(
    names: Seq<String>,
    tallies: Seq<EndpointTally>,
    i: int,
    tally: EndpointTally,
)
    requires
        distinct(names),
        tallies.len() == names.len(),
        0 <= i < names.len(),
    ensures
        tally_map(names, tallies.update(i, tally)) == tally_map(names, tallies).insert(
            names[i]@,
            tally,
        ),
{
    let after = tally_map(names, tallies.update(i, tally));
    let want = tally_map(names, tallies).insert(names[i]@, tally);
    lemma_tally_at(names, tallies, i);
    assert forall|name: Seq<char>| after.dom().contains(name) implies after[name] == want[name] by {
        let k = position(names, name);
        lemma_tally_at(names, tallies, k);
    }
    assert(after =~= want);
}

proof fn lemma_tally_push(
    names: Seq<String>,
    tallies: Seq<EndpointTally>,
    name: String,
    tally: EndpointTally,
)
    requires
        distinct(names),
        tallies.len() == names.len(),
        !named(names, name@),
    ensures
        distinct(names.push(name)),
        tally_map(names.push(name), tallies.push(tally)) == tally_map(names, tallies).insert(
            name@,
            tally,
        ),
{
    let names2 = names.push(name);
    let tallies2 = tallies.push(tally);
    let last = names.len() as int;
    assert(names2[last] == name);
    assert(distinct(names2)) by {
        assert forall|a: int, b: int| 0 <= a < b < names2.len() implies (#[trigger] names2[a])@ != (
        #[trigger] names2[b])@ by {
            assert(names2[a] == names[a]);
            if b < last {
                assert(names2[b] == names[b]);
            }
        }
    }
    let after = tally_map(names2, tallies2);
    let want = tally_map(names, tallies).insert(name@, tally);
    assert forall|n: Seq<char>| after.dom().contains(n) <==> want.dom().contains(n) by {
        if named(names2, n) {
            let k = position(names2, n);
            if k < last {
                assert(names[k]@ == n);
            }
        }
        if named(names, n) {
            let k = position(names, n);
            assert(names2[k]@ == n);
        }
        if n == name@ {
            assert(names2[last]@ == n);
        }
    }
    assert forall|n: Seq<char>| after.dom().contains(n) implies after[n] == want[n] by {
        let k = position(names2, n);
        lemma_tally_at(names2, tallies2, k);
        if k < last {
            assert(names[k] == names2[k]);
            lemma_tally_at(names, tallies, k);
        }
    }
    assert(after =~= want);
}

/// Counters for one benchmark phase.
///
/// Every submission of the phase counts into the same value: failures by
/// retry attempt and by endpoint, and confirmed transactions. A count only
/// ever grows, and stops growing at the top of its range.
#[derive(Debug)]
pub struct CounterState {
    submit_failures: Vec<usize>,
    wait_failures: Vec<usize>,
    successes: usize,
    client_names: Vec<String>,
    client_tallies: Vec<EndpointTally>,
}

impl View for CounterState {
    type V = CounterView;

    closed spec fn view(&self) -> CounterView {
        CounterView {
            submit_failures: self.submit_failures@,
            wait_failures: self.wait_failures@,
            successes: self.successes,
            by_client: tally_map(self.client_names@, self.client_tallies@),
        }
    }
}

impl CounterState {
    /// The invariant of the counters: at least one attempt bucket, as many
    /// for waits as for submissions, and one tally for each tracked endpoint.
    /// Every function that makes or changes counters keeps it.
    pub open spec fn well_formed(&self) -> bool {
        &&& self@.well_formed()
        &&& self.one_tally_each()
    }

    /// No endpoint is tracked twice, and each has its tally.
    pub closed spec fn one_tally_each(&self) -> bool {
        &&& self.client_tallies@.len() == self.client_names@.len()
        &&& distinct(self.client_names@)
    }

    /// Counters with `buckets` attempt buckets and nothing counted, tracking
    /// no endpoint; `None` when `buckets` is zero.
    pub fn new(buckets: usize) -> (r: Option<CounterState>)
        ensures
            buckets >= 1 <==> r is Some,
            r matches Some(c) ==> c.well_formed() && c@ == CounterView::fresh(
                buckets as nat,
                Seq::empty(),
            ),
    {
        if buckets == 0 {
            None
        } else {
            Some(CounterState::zeroed(buckets))
        }
    }

    /// Counters with `buckets` attempt buckets and nothing counted, tracking
    /// no endpoint.
    pub(crate) fn zeroed(buckets: usize) -> (r: CounterState)
        requires
            buckets >= 1,
        ensures
            r.well_formed(),
            r@ == CounterView::fresh(buckets as nat, Seq::empty()),
    {
        let mut submit_failures: Vec<usize> = Vec::new();
        let mut wait_failures: Vec<usize> = Vec::new();
        let mut i: usize = 0;
        while i < buckets
            invariant
                i <= buckets,
                submit_failures@ == Seq::new(i as nat, |k: int| 0usize),
                wait_failures@ == Seq::new(i as nat, |k: int| 0usize),
            decreases buckets - i,
        {
            submit_failures.push(0);
            wait_failures.push(0);
            i = i + 1;
        }
        let client_names: Vec<String> = Vec::new();
        let client_tallies: Vec<EndpointTally> = Vec::new();
        assert(tally_map(client_names@, client_tallies@) =~= CounterView::fresh(
            buckets as nat,
            Seq::empty(),
        ).by_client);
        CounterState { submit_failures, wait_failures, successes: 0, client_names, client_tallies }
    }

    /// Where the tally of `endpoint` is kept, if it is tracked.
    fn find(&self, endpoint: &String) -> (r: Option<usize>)
        requires
            self.well_formed(),
        ensures
            match r {
                Some(i) => {
                    &&& i < self.client_names@.len()
                    &&& self.client_names@[i as int]@ == endpoint@
                    &&& self@.by_client.dom().contains(endpoint@)
                    &&& self@.by_client[endpoint@] == self.client_tallies@[i as int]
                },
                None => !self@.by_client.dom().contains(endpoint@),
            },
    {
        let mut i: usize = 0;
        while i < self.client_names.len()
            invariant
                self.well_formed(),
                i <= self.client_names@.len(),
                forall|k: int| 0 <= k < i ==> (#[trigger] self.client_names@[k])@ != endpoint@,
            decreases self.client_names@.len() - i,
        {
            if self.client_names[i] == *endpoint {
                proof {
                    lemma_tally_at(self.client_names@, self.client_tallies@, i as int);
                }
                return Some(i);
            }
            i = i + 1;
        }
        None
    }

    /// Starts tracking `endpoint`, with nothing counted for it. An endpoint
    /// that is tracked already keeps its tally.
    pub fn track_endpoint(&mut self, endpoint: String)
        requires
            old(self).well_formed(),
        ensures
            final(self).well_formed(),
            final(self)@ == old(self)@.with_endpoint(endpoint@),
    {
        if self.find(&endpoint).is_none() {
            let tally = EndpointTally { successes: 0, submit_failures: 0, wait_failures: 0 };
            proof {
                lemma_tally_push(self.client_names@, self.client_tallies@, endpoint, tally);
            }
            self.client_names.push(endpoint);
            self.client_tallies.push(tally);
        }
    }

    /// The attempt bucket that `attempt` is counted in.
    fn bucket(&self, attempt: usize) -> (b: usize)
        requires
            self.well_formed(),
        ensures
            b == self@.bucket(attempt as nat),
            b < self.submit_failures@.len(),
    {
        let last: usize = self.submit_failures.len() - 1;
        if attempt < last {
            attempt
        } else {
            last
        }
    }

    /// Counts one failed submission in attempt `attempt` at `endpoint`.
    pub fn record_submit_failure(&mut self, attempt: usize, endpoint: &String)
        requires
            old(self).well_formed(),
        ensures
            final(self).well_formed(),
            final(self)@ == old(self)@.with_submit_failure(attempt as nat, endpoint@),
    {
        let b: usize = self.bucket(attempt);
        let count: usize = self.submit_failures[b];
        self.submit_failures.set(b, count.saturating_add(1));
        match self.find(endpoint) {
            Some(i) => {
                let t = self.client_tallies[i];
                let tally = EndpointTally {
                    submit_failures: t.submit_failures.saturating_add(1),
                    ..t
                };
                proof {
                    lemma_tally_update(self.client_names@, self.client_tallies@, i as int, tally);
                }
                self.client_tallies.set(i, tally);
            },
            None => {},
        }
    }

    /// Counts one failed wait in attempt `attempt` at `endpoint`.
    pub fn record_wait_failure(&mut self, attempt: usize, endpoint: &String)
        requires
            old(self).well_formed(),
        ensures
            final(self).well_formed(),
            final(self)@ == old(self)@.with_wait_failure(attempt as nat, endpoint@),
    {
        let b: usize = self.bucket(attempt);
        let count: usize = self.wait_failures[b];
        self.wait_failures.set(b, count.saturating_add(1));
        match self.find(endpoint) {
            Some(i) => {
                let t = self.client_tallies[i];
                let tally = EndpointTally { wait_failures: t.wait_failures.saturating_add(1), ..t };
                proof {
                    lemma_tally_update(self.client_names@, self.client_tallies@, i as int, tally);
                }
                self.client_tallies.set(i, tally);
            },
            None => {},
        }
    }

    /// Counts one confirmed transaction, and credits it to `endpoint` where
    /// one is given.
    pub fn record_success(&mut self, endpoint: Option<&String>)
        requires
            old(self).well_formed(),
        ensures
            final(self).well_formed(),
            final(self)@ == old(self)@.with_success(
                match endpoint {
                    Some(name) => Some(name@),
                    None => None,
                },
            ),
    {
        self.successes = self.successes.saturating_add(1);
        if let Some(name) = endpoint {
            match self.find(name) {
                Some(i) => {
                    let t = self.client_tallies[i];
                    let tally = EndpointTally { successes: t.successes.saturating_add(1), ..t };
                    proof {
                        lemma_tally_update(
                            self.client_names@,
                            self.client_tallies@,
                            i as int,
                            tally,
                        );
                    }
                    self.client_tallies.set(i, tally);
                },
                None => {},
            }
        }
    }

    /// The number of attempt buckets.
    pub fn buckets(&self) -> (r: usize)
        requires
            self.well_formed(),
        ensures
            r == self@.buckets(),
            r >= 1,
    {
        self.submit_failures.len()
    }

    /// The failed submissions counted in each attempt bucket.
    pub fn submit_failures(&self) -> (r: Vec<usize>)
        ensures
            r@ == self@.submit_failures,
    {
        copy_counts(&self.submit_failures)
    }

    /// The failed waits counted in each attempt bucket.
    pub fn wait_failures(&self) -> (r: Vec<usize>)
        ensures
            r@ == self@.wait_failures,
    {
        copy_counts(&self.wait_failures)
    }

    /// The number of confirmed transactions.
    pub fn successes(&self) -> (r: usize)
        ensures
            r == self@.successes,
    {
        self.successes
    }

    /// The tally of `endpoint`, if it is tracked.
    pub fn by_client(&self, endpoint: &String) -> (r: Option<EndpointTally>)
        requires
            self.well_formed(),
        ensures
            r is Some <==> self@.by_client.dom().contains(endpoint@),
            r matches Some(t) ==> t == self@.by_client[endpoint@],
    {
        match self.find(endpoint) {
            Some(i) => Some(self.client_tallies[i]),
            None => None,
        }
    }

    /// A copy of the counters as they stand.
    pub fn snapshot(&self) -> (r: CounterState)
        requires
            self.well_formed(),
        ensures
            r.well_formed(),
            r@ == self@,
    {
        let mut client_names: Vec<String> = Vec::new();
        let mut client_tallies: Vec<EndpointTally> = Vec::new();
        let mut i: usize = 0;
        while i < self.client_names.len()
            invariant
                i <= self.client_names@.len(),
                self.client_tallies@.len() == self.client_names@.len(),
                client_names@ == self.client_names@.take(i as int),
                client_tallies@ == self.client_tallies@.take(i as int),
            decreases self.client_names@.len() - i,
        {
            client_names.push(self.client_names[i].clone());
            client_tallies.push(self.client_tallies[i]);
            i = i + 1;
        }
        assert(client_names@ == self.client_names@);
        assert(client_tallies@ == self.client_tallies@);
        CounterState {
            submit_failures: copy_counts(&self.submit_failures),
            wait_failures: copy_counts(&self.wait_failures),
            successes: self.successes,
            client_names,
            client_tallies,
        }
    }
}

/// A copy of `counts`.
fn copy_counts(counts: &Vec<usize>) -> (r: Vec<usize>)
    ensures
        r@ == counts@,
{
    let mut r: Vec<usize> = Vec::new();
    let mut i: usize = 0;
    while i < counts.len()
        invariant
            i <= counts@.len(),
            r@ == counts@.take(i as int),
        decreases counts@.len() - i,
    {
        r.push(counts[i]);
        i = i + 1;
    }
    assert(r@ == counts@);
    r
}

} // verus!
