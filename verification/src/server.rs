//! The proxy: its rules, its zones, and the fetches that run.
use vstd::prelude::*;
use vstd::string::*;
use http::HeaderMap;
use http::HeaderValue;
use crate::cache::Cache;
use crate::paths::temp_file_path;
use crate::router::{Choice, Frontend, Refusal, Route, choose_rule, request_host, route_with};
use crate::table::Table;
use crate::types::acl::Acl;
use crate::upstream::{ShareState, UpstreamStat};

verus! {

/// The fetches that run for each host.
pub type Running = Map<Seq<char>, Set<Seq<char>>>;

/// The fetches that run for each host.
pub open spec fn running_of(states: Map<Seq<char>, ShareState>) -> Running {
    states.map_values(|state: ShareState| state@)
}

/// The proxy, over a database `D` of object metadata and cache zones `Z`.
pub struct ProxyServer<D, Z> {
    temp_dir: String,
    cache: Cache<D>,
    cache_zone: Vec<Z>,
    acl: Table<Vec<Acl>>,
    share_stat: Table<ShareState>,
}

/// The fetches that run, once the state of one host is another.
proof fn lemma_running_insert(states: Map<Seq<char>, ShareState>, host: Seq<char>, state: ShareState)
    ensures
        running_of(states.insert(host, state)) == running_of(states).insert(host, state@),
{
    assert(running_of(states.insert(host, state)) =~= running_of(states).insert(host, state@));
}

/// States for the given hosts, in which no fetch runs.
fn idle_states(acl: &Table<Vec<Acl>>) -> (states: Table<ShareState>)
    ensures
        states@.dom() == acl@.dom(),
        forall|h: Seq<char>| #[trigger]
            states@.contains_key(h) ==> states@[h]@ == Set::<Seq<char>>::empty(),
{
    let n: usize = acl.len();
    let ghost list = acl.list();
    let mut states: Table<ShareState> = Table::new();
    let mut i: usize = 0;
    assert(states@.dom() =~= crate::table::as_map(list.take(0)).dom());
    while i < n
        invariant
            i <= n == list.len(),
            list == acl.list(),
            crate::table::distinct(list),
            states@.dom() == crate::table::as_map(list.take(i as int)).dom(),
            forall|h: Seq<char>| #[trigger]
                states@.contains_key(h) ==> states@[h]@ == Set::<Seq<char>>::empty(),
        decreases n - i,
    {
        let ghost front = list.take(i as int);
        let ghost before = states@;
        let host: String = acl.name_at(i).clone();
        states.put(host, ShareState::default());
        proof {
            let pair = list[i as int];
            assert(list.take(i + 1) =~= front.push(pair));
            assert(crate::table::distinct(front));
            assert forall|j: int| 0 <= j < front.len() implies (#[trigger] front[j]).0@ != pair.0@ by {
                assert(front[j] == list[j]);
            }
            crate::table::lemma_put(front, i as int, pair, front.push(pair));
            assert(states@.dom() =~= before.dom().insert(pair.0@));
            assert(states@.dom() =~= crate::table::as_map(list.take(i + 1)).dom());
        }
        i += 1;
    }
    assert(list.take(n as int) =~= list);
    states
}

impl<D, Z> ProxyServer<D, Z> {
    /// The rules for each host.
    pub closed spec fn rules(&self) -> Map<Seq<char>, Vec<Acl>> {
        self.acl@
    }

    /// The fetches that run for each host.
    pub closed spec fn running(&self) -> Running {
        running_of(self.share_stat@)
    }

    /// The zones.
    pub closed spec fn zones(&self) -> Seq<Z> {
        self.cache_zone@
    }

    /// The database.
    pub closed spec fn db(&self) -> D {
        self.cache.db()
    }

    /// The directory of temporary files.
    pub closed spec fn temp(&self) -> Seq<char> {
        self.temp_dir@
    }

    /// Whether fetches are kept account of for exactly the hosts that have rules.
    pub open spec fn well_formed(&self) -> bool {
        self.running().dom() == self.rules().dom()
    }

    /// What never changes: the directory of temporary files, the database, the zones, the rules.
    pub open spec fn settings(&self) -> (Seq<char>, D, Seq<Z>, Map<Seq<char>, Vec<Acl>>) {
        (self.temp(), self.db(), self.zones(), self.rules())
    }

    /// A proxy for which no fetch runs.
    pub fn new(temp_dir: String, db: D, cache_zone: Vec<Z>, acl: Table<Vec<Acl>>) -> (server: Self)
        ensures
            server.temp() == temp_dir@,
            server.db() == db,
            server.zones() == cache_zone@,
            server.rules() == acl@,
            server.well_formed(),
            forall|h: Seq<char>| #[trigger]
                server.running().contains_key(h) ==> server.running()[h]
                    == Set::<Seq<char>>::empty(),
    {
        let share_stat: Table<ShareState> = idle_states(&acl);
        let server: Self = ProxyServer {
            temp_dir,
            cache: Cache::new(db),
            cache_zone,
            acl,
            share_stat,
        };
        assert(server.running().dom() =~= server.rules().dom());
        server
    }

    /// The database.
    pub fn database(&self) -> (db: &D)
        ensures
            *db == self.db(),
    {
        self.cache.database()
    }

    /// The zone with this number.
    pub fn zone(&self, i: u8) -> (zone: Option<&Z>)
        ensures
            match zone {
                Some(z) => i < self.zones().len() && *z == self.zones()[i as int],
                None => i >= self.zones().len(),
            },
    {
        if (i as usize) < self.cache_zone.len() {
            Some(&self.cache_zone[i as usize])
        } else {
            None
        }
    }

    /// All zones.
    pub fn all_zones(&self) -> (zones: &Vec<Z>)
        ensures
            zones@ == self.zones(),
    {
        &self.cache_zone
    }

    /// The temporary file for four random bytes.
    pub fn temp_path(&self, random: &Vec<u8>) -> (path: String)
        ensures
            path@ == crate::paths::temp_path_of(self.temp(), random@),
    {
        temp_file_path(self.temp_dir.as_str(), random)
    }

    /// Where a request goes. Where it is found, fetches are kept account of for its host.
    pub fn route(
        &self,
        frontend: Frontend,
        address_host: Option<String>,
        method: &str,
        path: &str,
        headers: &HeaderMap<HeaderValue>,
    ) -> (route: Route)
        requires
            self.well_formed(),
        ensures
            route@ == crate::router::route_of(
                crate::router::host_of(
                    frontend,
                    crate::forward::optional_text(address_host),
                    crate::headers::header_contents(*headers),
                ),
                method@,
                path@,
                self.rules(),
            ),
            route matches Route::Found { host, .. } ==> self.running().contains_key(host@),
    {
        assert(forall|h: Seq<char>| self.running().dom().contains(h) == self.rules().dom().contains(h));
        let host: String = match request_host(frontend, address_host, headers) {
            Some(host) => host,
            None => {
                return Route::Refused { refusal: Refusal::NoHost };
            },
        };
        match self.acl.get(host.as_str()) {
            Some(rules) => {
                let choice: Choice = choose_rule(rules, method, path);
                route_with(host, rules, choice)
            },
            None => Route::Refused { refusal: Refusal::UnknownHost },
        }
    }

    /// Begins a fetch for a host, unless one for the same object runs.
    pub fn try_upstream(&mut self, host: &str, key: String) -> (begun: bool)
        requires
            old(self).running().contains_key(host@),
        ensures
            begun == !old(self).running()[host@].contains(key@),
            begun == crate::upstream::may_begin(old(self).running()[host@], key@),
            final(self).running()[host@] == crate::upstream::with_begun(
                old(self).running()[host@],
                key@,
            ),
            final(self).running() == old(self).running().insert(
                host@,
                old(self).running()[host@].insert(key@),
            ),
            final(self).settings() == old(self).settings(),
            old(self).well_formed() ==> final(self).well_formed(),
    {
        let ghost before = self.share_stat@;
        let mut state: ShareState = self.share_stat.take(host).unwrap();
        let begun: bool = state.try_upstream(key);
        let ghost after = state;
        self.share_stat.put(host.to_owned(), state);
        proof {
            lemma_running_insert(before, host@, after);
            assert(self.share_stat@ =~= before.insert(host@, after));
            assert(self.running().dom() =~= running_of(before).dom());
        }
        begun
    }

    /// Ends a fetch that runs for a host. The result is what those who wait for it are told.
    pub fn release_upstream(&mut self, host: &str, key: &str, failed: bool) -> (stat: UpstreamStat)
        requires
            old(self).running().contains_key(host@),
            old(self).running()[host@].contains(key@),
        ensures
            stat == (UpstreamStat { is_released: true, fail: failed }),
            final(self).running()[host@] == crate::upstream::with_ended(
                old(self).running()[host@],
                key@,
            ),
            final(self).running() == old(self).running().insert(
                host@,
                old(self).running()[host@].remove(key@),
            ),
            final(self).settings() == old(self).settings(),
            old(self).well_formed() ==> final(self).well_formed(),
    {
        let ghost before = self.share_stat@;
        let mut state: ShareState = self.share_stat.take(host).unwrap();
        let stat: UpstreamStat = state.release_upstream(key, failed);
        let ghost after = state;
        self.share_stat.put(host.to_owned(), state);
        proof {
            lemma_running_insert(before, host@, after);
            assert(self.share_stat@ =~= before.insert(host@, after));
            assert(self.running().dom() =~= running_of(before).dom());
        }
        stat
    }

    /// Whether fetches are kept account of for a host.
    pub fn knows(&self, host: &str) -> (yes: bool)
        ensures
            yes == self.running().contains_key(host@),
    {
        self.share_stat.contains(host)
    }

    /// Whether a fetch runs for a host's object.
    pub fn runs(&self, host: &str, key: &str) -> (yes: bool)
        ensures
            yes == (self.running().contains_key(host@) && self.running()[host@].contains(key@)),
    {
        match self.share_stat.get(host) {
            Some(state) => state.runs(key),
            None => false,
        }
    }

    /// Whether the fetch that runs for a host's object has failed.
    pub fn wait_upstream(&self, host: &str, key: &str) -> (failed: bool)
        requires
            self.running().contains_key(host@),
        ensures
            !failed,
    {
        match self.share_stat.get(host) {
            Some(state) => state.wait_upstream(key),
            None => false,
        }
    }
}

/// What is kept account of never changes its hosts: a proxy stays well-formed when a fetch begins or
/// ends.
pub proof fn law_hosts_stay(running: Running, host: Seq<char>, fetches: Set<Seq<char>>)
    requires
        running.contains_key(host),
    ensures
        running.insert(host, fetches).dom() == running.dom(),
{
    assert(running.insert(host, fetches).dom() =~= running.dom());
}

/// Fetches for one host make no difference to those for another.
pub proof fn law_hosts_are_apart(
    running: Running,
    host: Seq<char>,
    fetches: Set<Seq<char>>,
    other: Seq<char>,
)
    requires
        other != host,
        running.contains_key(other),
    ensures
        running.insert(host, fetches).contains_key(other),
        running.insert(host, fetches)[other] == running[other],
{
}

} // verus!
