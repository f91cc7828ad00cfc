//! Which objects are being fetched from the origin, so that each is fetched once at a time.
use vstd::prelude::*;
use vstd::string::*;
use crate::table::Table;

verus! {

/// One fetch from the origin, for those who wait for it.
#[derive(Clone, Copy, PartialEq, Eq, Structural, Debug)]
pub struct UpstreamStat {
    /// Whether the fetch is over.
    pub is_released: bool,
    /// Whether it failed.
    pub fail: bool,
}

/// How one who waits for a fetch goes on.
#[derive(Clone, Copy, PartialEq, Eq, Structural, Debug)]
pub enum WaitStep {
    /// Without waiting: this says whether the fetch failed.
    Answer(bool),
    /// After the next notification.
    Notification,
}

impl Default for UpstreamStat {
    fn default() -> (stat: UpstreamStat)
        ensures
            stat == begun(),
    {
        UpstreamStat { is_released: false, fail: false }
    }
}

/// A fetch that has begun.
pub open spec fn begun() -> UpstreamStat {
    UpstreamStat { is_released: false, fail: false }
}

impl UpstreamStat {
    /// Ends the fetch.
    pub fn release(&mut self, failed: bool)
        requires
            !old(self).is_released,
        ensures
            *final(self) == (UpstreamStat { is_released: true, fail: failed }),
    {
        self.is_released = true;
        self.fail = failed;
    }

    /// How one who waits goes on: while the fetch runs, at once.
    pub fn wait(&self) -> (step: WaitStep)
        ensures
            step == (if self.is_released {
                WaitStep::Notification
            } else {
                WaitStep::Answer(self.fail)
            }),
    {
        if !self.is_released {
            return WaitStep::Answer(self.fail);
        }
        WaitStep::Notification
    }

    /// Whether the fetch failed, after the notification that it is over.
    pub fn notified(&self) -> (failed: bool)
        requires
            self.is_released,
        ensures
            failed == self.fail,
    {
        self.fail
    }
}

/// Whether a fetch of an object may begin while others run.
pub open spec fn may_begin(running: Set<Seq<char>>, key: Seq<char>) -> bool {
    !running.contains(key)
}

/// The fetches that run once one was asked for.
pub open spec fn with_begun(running: Set<Seq<char>>, key: Seq<char>) -> Set<Seq<char>> {
    running.insert(key)
}

/// The fetches that run once one has ended.
pub open spec fn with_ended(running: Set<Seq<char>>, key: Seq<char>) -> Set<Seq<char>> {
    running.remove(key)
}

/// Whether all of these fetches run.
spec fn all_run(stats: Map<Seq<char>, UpstreamStat>) -> bool {
    forall|k: Seq<char>| #[trigger] stats.contains_key(k) ==> stats[k] == begun()
}

/// The fetches that run, by the key of their object.
pub struct ShareState {
    upstream_lock: Table<UpstreamStat>,
}

impl View for ShareState {
    type V = Set<Seq<char>>;

    closed spec fn view(&self) -> Set<Seq<char>> {
        self.upstream_lock@.dom()
    }
}

impl Default for ShareState {
    fn default() -> (state: ShareState)
        ensures
            state@ == Set::<Seq<char>>::empty(),
    {
        let state: ShareState = ShareState { upstream_lock: Table::new() };
        assert(state@ =~= Set::<Seq<char>>::empty());
        state
    }
}

impl ShareState {
    #[verifier::type_invariant]
    spec fn well_formed(self) -> bool {
        all_run(self.upstream_lock@)
    }

    /// Begins a fetch, unless one for the same object runs.
    pub fn try_upstream(&mut self, key: String) -> (begun: bool)
        ensures
            begun == !old(self)@.contains(key@),
            final(self)@ == old(self)@.insert(key@),
            begun == may_begin(old(self)@, key@),
            final(self)@ == with_begun(old(self)@, key@),
    {
        proof {
            use_type_invariant(&*self);
        }
        if self.upstream_lock.contains(key.as_str()) {
            assert(self@.insert(key@) =~= self@);
            return false;
        }
        let mut stats: Table<UpstreamStat> = Table::new();
        std::mem::swap(&mut stats, &mut self.upstream_lock);
        let ghost before = stats@;
        stats.put(key, UpstreamStat::default());
        assert(stats@.dom() =~= before.dom().insert(key@));
        self.upstream_lock = stats;
        true
    }

    /// Ends a fetch that runs. The result is what those who wait for it are told.
    pub fn release_upstream(&mut self, key: &str, failed: bool) -> (stat: UpstreamStat)
        requires
            old(self)@.contains(key@),
        ensures
            final(self)@ == old(self)@.remove(key@),
            final(self)@ == with_ended(old(self)@, key@),
            stat == (UpstreamStat { is_released: true, fail: failed }),
    {
        proof {
            use_type_invariant(&*self);
        }
        let mut stats: Table<UpstreamStat> = Table::new();
        std::mem::swap(&mut stats, &mut self.upstream_lock);
        let ghost before = stats@;
        let taken: Option<UpstreamStat> = stats.take(key);
        assert(stats@.dom() =~= before.dom().remove(key@));
        self.upstream_lock = stats;
        let mut stat: UpstreamStat = taken.unwrap();
        stat.release(failed);
        stat
    }

    /// Whether a fetch runs for the object.
    pub fn runs(&self, key: &str) -> (yes: bool)
        ensures
            yes == self@.contains(key@),
    {
        self.upstream_lock.contains(key)
    }

    /// Whether the fetch that runs for the object has failed. It has not, as long as it runs.
    pub fn wait_upstream(&self, key: &str) -> (failed: bool)
        ensures
            !failed,
    {
        proof {
            use_type_invariant(self);
        }
        match self.upstream_lock.get(key) {
            Some(stat) => match stat.wait() {
                WaitStep::Answer(failed) => failed,
                WaitStep::Notification => stat.fail,
            },
            None => false,
        }
    }
}

/// Once a fetch for an object has begun, no other can begin before it has ended; fetches for other
/// objects make no difference to it.
pub proof fn law_one_fetch_at_a_time(running: Set<Seq<char>>, key: Seq<char>, other: Seq<char>)
    requires
        other != key,
    ensures
        running.insert(key).contains(key),
        running.insert(key).insert(other).contains(key),
        running.insert(key).remove(other).contains(key),
        !running.remove(key).contains(key),
{
}

/// A fetch that begins and ends leaves the running fetches as they were, so that it can begin again.
pub proof fn law_end_undoes_begin(running: Set<Seq<char>>, key: Seq<char>)
    requires
        !running.contains(key),
    ensures
        running.insert(key).remove(key) == running,
{
    assert(running.insert(key).remove(key) =~= running);
}

/// A fetch of an object keeps others of the same object from beginning until it ends, and no longer; it
/// makes no difference to those of other objects. At first, every fetch may begin.
pub proof fn law_fetches_exclude_each_other(
    running: Set<Seq<char>>,
    key: Seq<char>,
    other: Seq<char>,
)
    ensures
        may_begin(Set::<Seq<char>>::empty(), key),
        !may_begin(with_begun(running, key), key),
        may_begin(with_ended(running, key), key),
        other != key ==> may_begin(with_begun(running, key), other) == may_begin(running, other),
        other != key ==> may_begin(with_ended(running, key), other) == may_begin(running, other),
        may_begin(running, key) ==> with_ended(with_begun(running, key), key) == running,
        with_begun(with_begun(running, key), other) == with_begun(with_begun(running, other), key),
{
    assert(with_begun(with_begun(running, key), other) =~= with_begun(
        with_begun(running, other),
        key,
    ));
    if may_begin(running, key) {
        assert(with_ended(with_begun(running, key), key) =~= running);
    }
}

} // verus!
