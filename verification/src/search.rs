//! The search itself: what to do next, given what the device has just done.

use rand::Rng;
use vstd::prelude::*;

verus! {

/// A moment, as the time since the Unix epoch.
#[derive(Debug, Clone, Copy)]
pub struct Timestamp {
    pub secs: u64,
    pub subsec_nanos: u32,
}

impl Timestamp {
    /// Whole milliseconds since the Unix epoch.
    pub open spec fn millis(self) -> int {
        self.secs * 1000 + self.subsec_nanos as int / 1_000_000
    }

    /// Whole milliseconds since the Unix epoch.
    pub fn as_millis(self) -> (millis: u64)
        requires
            self.millis() <= u64::MAX,
        ensures
            millis == self.millis(),
    {
        self.secs * 1000 + self.subsec_nanos as u64 / 1_000_000
    }
}

/// What the device has just done.
#[derive(Debug, Clone, Copy)]
pub enum Event {
    /// The kernel was enqueued with the current nonce.
    Launched { now: Timestamp },
    /// The solutions were read back.
    Collected { now: Timestamp, solutions: [u64; 4] },
}

/// What is to be done next.
#[derive(Debug, Clone, Copy)]
pub enum Action {
    /// Sleep for that long, if at all, and read the solutions back.
    Collect { sleep_millis: Option<u64> },
    /// Hand the device this nonce and enqueue the kernel again.
    Launch { nonce: u32 },
    /// Report the solution: the search is over.
    Report { solutions: [u64; 4] },
}

/// The state of a search.
#[derive(Debug, Clone, Copy)]
pub struct Search {
    /// The four bytes that open the mined part of every salt tried.
    pub salt: [u8; 4],
    /// The nonce that the device is working on.
    pub nonce: u32,
    /// When the device was last set to work.
    pub work_start_millis: u64,
    /// How long the device worked the last time, or zero before that.
    pub work_duration_millis: u64,
}

/// Calls `alloy_primitives::FixedBytes::random`.
///
/// Trusted: nothing but that the call returns four bytes. They are random, and the call
/// panics where the operating system has no randomness to give.
#[verifier::external_body]
fn random_salt() -> [u8; 4] {
    alloy_primitives::FixedBytes::<4>::random().0
}

/// Calls `rand::Rng::gen` on the generator of `rand::thread_rng`.
///
/// Trusted: nothing but that the call returns one integer. It is random, and the call
/// panics where the generator cannot be seeded.
#[verifier::external_body]
fn random_nonce() -> [u32; 1] {
    rand::thread_rng().gen()
}

impl Search {
    /// The event comes at a moment that can be counted, its arithmetic stays in range, and
    /// there is a next nonce where one is needed.
    pub open spec fn can_take(self, event: Event) -> bool {
        match event {
            Event::Launched { now } => {
                &&& now.millis() <= u64::MAX
                &&& self.work_duration_millis * 980 <= u64::MAX
            },
            Event::Collected { now, solutions } => {
                &&& self.work_start_millis <= now.millis() <= u64::MAX
                &&& solutions@[0] == 0 ==> self.nonce < u32::MAX
            },
        }
    }

    /// The state after an event.
    pub open spec fn after(self, event: Event) -> Search {
        match event {
            Event::Launched { now } => Search { work_start_millis: now.millis() as u64, ..self },
            Event::Collected { now, solutions } => Search {
                nonce: if solutions@[0] == 0 {
                    (self.nonce + 1) as u32
                } else {
                    self.nonce
                },
                work_duration_millis: (now.millis() - self.work_start_millis) as u64,
                ..self
            },
        }
    }

    /// What to do after an event: having launched, collect, after sleeping for 98% of the
    /// last work; having collected, report a solution, or else go on with the next nonce.
    pub open spec fn response(self, event: Event) -> Action {
        match event {
            Event::Launched { .. } => Action::Collect {
                sleep_millis: if self.work_duration_millis == 0 {
                    None
                } else {
                    Some((self.work_duration_millis * 980 / 1000) as u64)
                },
            },
            Event::Collected { now: _, solutions } => if solutions@[0] == 0 {
                Action::Launch { nonce: (self.nonce + 1) as u32 }
            } else {
                Action::Report { solutions }
            },
        }
    }

    /// Starts a search from given bytes and a given nonce.
    pub fn new(salt: [u8; 4], nonce: u32) -> (search: Search)
        ensures
            search.salt == salt,
            search.nonce == nonce,
            search.work_start_millis == 0,
            search.work_duration_millis == 0,
    {
        Search { salt, nonce, work_start_millis: 0, work_duration_millis: 0 }
    }

    /// Starts a search from random bytes and a random nonce.
    pub fn random() -> (search: Search)
        ensures
            search.work_start_millis == 0,
            search.work_duration_millis == 0,
    {
        let nonce = random_nonce();
        Search::new(random_salt(), nonce[0])
    }

    /// Says whether an event can be taken.
    pub fn admits(&self, event: &Event) -> (admitted: bool)
        ensures
            admitted == self.can_take(*event),
    {
        let now = match event {
            Event::Launched { now } => now,
            Event::Collected { now, solutions: _ } => now,
        };
        let millis: u128 = now.secs as u128 * 1000 + now.subsec_nanos as u128 / 1_000_000;
        if millis > u64::MAX as u128 {
            return false;
        }
        match event {
            Event::Launched { now: _ } => self.work_duration_millis <= u64::MAX / 980,
            Event::Collected { now: _, solutions } => {
                self.work_start_millis as u128 <= millis && (solutions[0] != 0 || self.nonce
                    < u32::MAX)
            },
        }
    }

    /// Takes an event and says what to do next.
    pub fn step(&mut self, event: Event) -> (action: Action)
        requires
            old(self).can_take(event),
        ensures
            *final(self) == old(self).after(event),
            action == old(self).response(event),
    {
        match event {
            Event::Launched { now } => {
                self.work_start_millis = now.as_millis();
                let sleep_millis = if self.work_duration_millis != 0 {
                    Some(self.work_duration_millis * 980 / 1000)
                } else {
                    None
                };
                Action::Collect { sleep_millis }
            },
            Event::Collected { now, solutions } => {
                self.work_duration_millis = now.as_millis() - self.work_start_millis;
                if solutions[0] != 0 {
                    Action::Report { solutions }
                } else {
                    self.nonce += 1;
                    Action::Launch { nonce: self.nonce }
                }
            },
        }
    }
}

/// The state after some events, one after the other.
pub open spec fn run(search: Search, events: Seq<Event>) -> Search
    decreases events.len(),
{
    if events.len() == 0 {
        search
    } else {
        run(search, events.drop_last()).after(events.last())
    }
}

/// Every event can be taken when it comes.
pub open spec fn can_run(search: Search, events: Seq<Event>) -> bool
    decreases events.len(),
{
    events.len() == 0 || (can_run(search, events.drop_last()) && run(
        search,
        events.drop_last(),
    ).can_take(events.last()))
}

/// The event is a collection that brought no solution.
pub open spec fn is_fruitless(event: Event) -> bool {
    event matches Event::Collected { now: _, solutions } && solutions@[0] == 0
}

/// How many of the events are collections that brought no solution.
pub open spec fn fruitless_count(events: Seq<Event>) -> nat
    decreases events.len(),
{
    if events.len() == 0 {
        0
    } else {
        fruitless_count(events.drop_last()) + if is_fruitless(events.last()) {
            1nat
        } else {
            0nat
        }
    }
}

/// Throughout a search the random bytes stay as they are, and the nonce counts the
/// collections without a solution: none is tried twice, and none is left out.
pub proof fn law_nonce_counts_fruitless_collections(search: Search, events: Seq<Event>)
    requires
        can_run(search, events),
    ensures
        run(search, events).salt == search.salt,
        run(search, events).nonce == search.nonce + fruitless_count(events),
    decreases events.len(),
{
    if events.len() > 0 {
        law_nonce_counts_fruitless_collections(search, events.drop_last());
    }
}

/// A search that has launched and collected sleeps, the next time, for no longer than that
/// took, and for 98% of it but for the fraction of a millisecond.
pub proof fn law_sleep_follows_last_work(search: Search, launched: Event, collected: Event, again: Event)
    requires
        launched is Launched,
        collected is Collected,
        again is Launched,
        can_run(search, seq![launched, collected, again]),
    ensures
        ({
            let took = collected->Collected_now.millis() - launched->Launched_now.millis();
            match run(search, seq![launched, collected]).response(again) {
                Action::Collect { sleep_millis: Some(sleep) } => {
                    &&& took > 0
                    &&& sleep <= took
                    &&& 1000 * sleep <= 980 * took < 1000 * (sleep + 1)
                },
                Action::Collect { sleep_millis: None } => took == 0,
                _ => false,
            }
        }),
{
    let events = seq![launched, collected, again];
    reveal_with_fuel(run, 4);
    reveal_with_fuel(can_run, 4);
    assert(events.drop_last() =~= seq![launched, collected]);
    assert(seq![launched, collected].drop_last() =~= seq![launched]);
    assert(seq![launched].drop_last() =~= Seq::empty());
}

/// A collection ends the search exactly where it brings a solution, which is then what is
/// reported.
pub proof fn law_search_ends_with_solution(search: Search, now: Timestamp, solutions: [u64; 4])
    ensures
        search.response(Event::Collected { now, solutions }) == (Action::Report { solutions })
            <==> solutions@[0] != 0,
{
}

/// Milliseconds count whole thousandths of the seconds and the nanoseconds of a moment.
pub proof fn law_millis_round_down(now: Timestamp)
    ensures
        now.millis() * 1_000_000 <= now.secs * 1_000_000_000 + now.subsec_nanos,
        now.secs * 1_000_000_000 + now.subsec_nanos < (now.millis() + 1) * 1_000_000,
{
}

/// A launch is taken where the moment fits 64 bits and 980 times the last work does. It
/// notes the moment and changes nothing else; the answer is to collect, after no sleep where
/// there was no work before, else after 98% of it, rounded down.
pub proof fn law_launch(search: Search, now: Timestamp)
    ensures
        ({
            let event = Event::Launched { now };
            let (next, last) = (search.after(event), search.work_duration_millis);
            &&& search.can_take(event) <==> now.millis() <= u64::MAX && 980 * last <= u64::MAX
            &&& search.can_take(event) ==> {
                &&& next.salt == search.salt
                &&& next.nonce == search.nonce
                &&& next.work_start_millis == now.millis()
                &&& next.work_duration_millis == last
                &&& match search.response(event) {
                    Action::Collect { sleep_millis: Some(sleep) } => last > 0 && 1000 * sleep <= 980
                        * last < 1000 * (sleep + 1),
                    Action::Collect { sleep_millis: None } => last == 0,
                    _ => false,
                }
            }
        }),
{
}

/// A collection without a solution is taken where the clock has not gone back, the moment
/// fits 64 bits and there is a next nonce. It notes how long the work took; the device is
/// handed the next nonce, which is the nonce of the search from then on.
pub proof fn law_fruitless_collection(search: Search, now: Timestamp, solutions: [u64; 4])
    requires
        solutions@[0] == 0,
    ensures
        ({
            let event = Event::Collected { now, solutions };
            let next = search.after(event);
            &&& search.can_take(event) <==> {
                &&& search.work_start_millis <= now.millis() <= u64::MAX
                &&& search.nonce < u32::MAX
            }
            &&& search.can_take(event) ==> {
                &&& next.salt == search.salt
                &&& next.work_start_millis == search.work_start_millis
                &&& next.work_start_millis + next.work_duration_millis == now.millis()
                &&& match search.response(event) {
                    Action::Launch { nonce } => nonce == next.nonce && nonce == search.nonce + 1,
                    _ => false,
                }
            }
        }),
{
}

/// A collection with a solution is taken where the clock has not gone back and the moment
/// fits 64 bits. It notes how long the work took and keeps the nonce; all four words are to
/// be reported.
pub proof fn law_fruitful_collection(search: Search, now: Timestamp, solutions: [u64; 4])
    requires
        solutions@[0] != 0,
    ensures
        ({
            let event = Event::Collected { now, solutions };
            let next = search.after(event);
            &&& search.can_take(event) <==> search.work_start_millis <= now.millis() <= u64::MAX
            &&& search.can_take(event) ==> {
                &&& next.salt == search.salt
                &&& next.nonce == search.nonce
                &&& next.work_start_millis == search.work_start_millis
                &&& next.work_start_millis + next.work_duration_millis == now.millis()
                &&& match search.response(event) {
                    Action::Report { solutions: reported } => forall|i: int|
                        0 <= i < 4 ==> #[trigger] reported@[i] == solutions@[i],
                    _ => false,
                }
            }
        }),
{
}

} // verus!
