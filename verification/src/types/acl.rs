//! Access rules: which requests are served, and how.
use vstd::prelude::*;
use vstd::string::*;
use crate::table::Table;
use crate::text::same_text;

verus! {

/// A rule for the requests to one host.
#[derive(Clone, Debug)]
pub enum Acl {
    /// Requests that are handed on.
    Proxy(Proxy),
    /// Requests whose answers are cached.
    Cache(Cache),
}

/// A rule for requests that are handed on.
#[derive(Clone, Debug)]
pub struct Proxy {
    /// The host that the rule is for.
    pub host: String,
    /// The pattern that paths have to match.
    pub path_match: String,
    /// The methods that are allowed; all, where none are given.
    pub allow_method: Option<Vec<String>>,
}

/// A rule for requests whose answers are cached.
#[derive(Clone, Debug)]
pub struct Cache {
    /// The host that the rule is for.
    pub host: String,
    /// The pattern that paths have to match.
    pub path_match: String,
    /// The methods that are allowed; all, where there is no list, but none where it is empty.
    pub allow_method: Option<Vec<String>>,
}

/// Whether a method is one of those listed.
pub open spec fn lists(methods: Seq<String>, method: Seq<char>) -> bool {
    exists|i: int| 0 <= i < methods.len() && (#[trigger] methods[i])@ == method
}

/// Whether a method is one of those listed.
fn is_listed(methods: &Vec<String>, method: &str) -> (yes: bool)
    ensures
        yes == lists(methods@, method@),
{
    let mut i: usize = 0;
    while i < methods.len()
        invariant
            i <= methods.len(),
            forall|j: int| 0 <= j < i ==> (#[trigger] methods@[j])@ != method@,
        decreases methods.len() - i,
    {
        if same_text(methods[i].as_str(), method) {
            return true;
        }
        i += 1;
    }
    false
}

impl Acl {
    /// The host that the rule is for.
    pub open spec fn host_text(self) -> Seq<char> {
        match self {
            Acl::Proxy(proxy) => proxy.host@,
            Acl::Cache(cache) => cache.host@,
        }
    }

    /// The pattern that paths have to match.
    pub open spec fn pattern(self) -> Seq<char> {
        match self {
            Acl::Proxy(proxy) => proxy.path_match@,
            Acl::Cache(cache) => cache.path_match@,
        }
    }

    /// Whether the rule allows a method. An empty list allows every method where requests are
    /// handed on, and none where they are cached.
    pub open spec fn allows(self, method: Seq<char>) -> bool {
        match self {
            Acl::Proxy(proxy) => match proxy.allow_method {
                Some(methods) => methods@.len() == 0 || lists(methods@, method),
                None => true,
            },
            Acl::Cache(cache) => match cache.allow_method {
                Some(methods) => lists(methods@, method),
                None => true,
            },
        }
    }

    /// The host that the rule is for.
    pub fn host(&self) -> (host: &str)
        ensures
            host@ == self.host_text(),
    {
        match self {
            Acl::Proxy(proxy) => proxy.host.as_str(),
            Acl::Cache(cache) => cache.host.as_str(),
        }
    }

    /// The pattern that paths have to match.
    pub fn path_match(&self) -> (pattern: &str)
        ensures
            pattern@ == self.pattern(),
    {
        match self {
            Acl::Proxy(proxy) => proxy.path_match.as_str(),
            Acl::Cache(cache) => cache.path_match.as_str(),
        }
    }

    /// Whether the rule allows a method.
    pub fn method_match(&self, method: &str) -> (yes: bool)
        ensures
            yes == self.allows(method@),
    {
        match self {
            Acl::Proxy(proxy) => match &proxy.allow_method {
                Some(allow_method) => {
                    if allow_method.len() == 0 {
                        return true;
                    }
                    is_listed(allow_method, method)
                },
                None => true,
            },
            Acl::Cache(cache) => match &cache.allow_method {
                Some(allow_method) => is_listed(allow_method, method),
                None => true,
            },
        }
    }
}

/// The rules among `rules` that are for `host`, in their order.
pub open spec fn rules_for(rules: Seq<Acl>, host: Seq<char>) -> Seq<Acl>
    decreases rules.len(),
{
    if rules.len() == 0 {
        Seq::empty()
    } else if rules.last().host_text() == host {
        rules_for(rules.drop_last(), host).push(rules.last())
    } else {
        rules_for(rules.drop_last(), host)
    }
}

/// Whether `grouped` holds, for each host that some rule is for, the rules for it in their order,
/// and nothing else.
pub open spec fn grouped_by_host(grouped: Map<Seq<char>, Vec<Acl>>, rules: Seq<Acl>) -> bool {
    &&& forall|h: Seq<char>| #[trigger]
        grouped.contains_key(h) <==> rules_for(rules, h).len() > 0
    &&& forall|h: Seq<char>| #[trigger] grouped.contains_key(h) ==> grouped[h]@ == rules_for(rules, h)
}

/// Sorts rules by the host that they are for.
pub fn group_by_host(rules: Vec<Acl>) -> (grouped: Table<Vec<Acl>>)
    ensures
        grouped_by_host(grouped@, rules@),
{
    let mut rules: Vec<Acl> = rules;
    let ghost all = rules@;
    let mut grouped: Table<Vec<Acl>> = Table::new();
    let ghost mut n: int = 0;
    proof {
        assert(all.skip(0) =~= all);
        assert(all.take(0) =~= Seq::<Acl>::empty());
    }
    while rules.len() > 0
        invariant
            0 <= n <= all.len(),
            rules@ == all.skip(n),
            grouped_by_host(grouped@, all.take(n)),
        decreases rules.len(),
    {
        let ghost before = grouped@;
        let acl: Acl = rules.remove(0);
        proof {
            assert(acl == all[n]);
            assert(rules@ =~= all.skip(n + 1));
            assert(all.take(n + 1).drop_last() =~= all.take(n));
        }
        let host: String = acl.host().to_owned();
        let mut list: Vec<Acl> = match grouped.take(host.as_str()) {
            Some(list) => list,
            None => Vec::new(),
        };
        proof {
            if !before.contains_key(host@) {
                assert(rules_for(all.take(n), host@) =~= Seq::<Acl>::empty());
            }
            assert(list@ =~= rules_for(all.take(n), host@));
        }
        list.push(acl);
        grouped.put(host, list);
        proof {
            assert forall|h: Seq<char>| #[trigger]
                grouped@.contains_key(h) <==> rules_for(all.take(n + 1), h).len() > 0 by {
                assert(before.contains_key(h) <==> rules_for(all.take(n), h).len() > 0);
            }
            assert forall|h: Seq<char>| #[trigger]
                grouped@.contains_key(h) implies grouped@[h]@ == rules_for(all.take(n + 1), h) by {
                if h != host@ {
                    assert(before.contains_key(h));
                }
            }
            n = n + 1;
        }
    }
    assert(all.take(n) =~= all);
    grouped
}

/// A rule is found under its own host, and only there.
pub proof fn law_rule_under_its_host(rules: Seq<Acl>, host: Seq<char>, i: int)
    requires
        0 <= i < rules_for(rules, host).len(),
    ensures
        rules_for(rules, host)[i].host_text() == host,
        rules.contains(rules_for(rules, host)[i]),
    decreases rules.len(),
{
    if rules.len() > 0 {
        let front = rules_for(rules.drop_last(), host);
        if i < front.len() {
            law_rule_under_its_host(rules.drop_last(), host, i);
            let j = choose|j: int|
                0 <= j < rules.drop_last().len() && rules.drop_last()[j] == front[i];
            assert(rules[j] == front[i]);
        } else {
            assert(rules[rules.len() - 1] == rules_for(rules, host)[i]);
        }
    }
}

/// No rule is lost: every rule is among those for its host.
pub proof fn law_no_rule_lost(rules: Seq<Acl>, i: int)
    requires
        0 <= i < rules.len(),
    ensures
        rules_for(rules, rules[i].host_text()).contains(rules[i]),
    decreases rules.len(),
{
    let host = rules[i].host_text();
    let front = rules_for(rules.drop_last(), host);
    if i == rules.len() - 1 {
        assert(front.push(rules.last())[front.len() as int] == rules[i]);
    } else {
        assert(rules.drop_last()[i] == rules[i]);
        law_no_rule_lost(rules.drop_last(), i);
        let j = choose|j: int| 0 <= j < front.len() && front[j] == rules[i];
        assert(rules_for(rules, host)[j] == rules[i]);
    }
}

/// A rule with a list of methods allows each method that is listed, of whichever kind it is, and, where
/// the list is not empty, no other. An empty list allows every method where requests are handed on, and
/// none where they are cached.
pub proof fn law_listed_methods_are_allowed(proxy: Proxy, cache: Cache, methods: Vec<String>)
    requires
        proxy.allow_method == Some(methods),
        cache.allow_method == Some(methods),
    ensures
        forall|i: int|
            0 <= i < methods@.len() ==> Acl::Proxy(proxy).allows((#[trigger] methods@[i])@)
                && Acl::Cache(cache).allows(methods@[i]@),
        forall|method: Seq<char>| #[trigger]
            Acl::Cache(cache).allows(method) ==> exists|i: int|
                0 <= i < methods@.len() && (#[trigger] methods@[i])@ == method,
        forall|method: Seq<char>| #[trigger]
            Acl::Proxy(proxy).allows(method) ==> methods@.len() == 0 || exists|i: int|
                0 <= i < methods@.len() && (#[trigger] methods@[i])@ == method,
        methods@.len() == 0 ==> forall|method: Seq<char>| #[trigger]
            Acl::Proxy(proxy).allows(method),
{
}

/// A rule without a list of methods allows every method.
pub proof fn law_no_list_allows_all(proxy: Proxy, cache: Cache, method: Seq<char>)
    requires
        proxy.allow_method is None,
        cache.allow_method is None,
    ensures
        Acl::Proxy(proxy).allows(method),
        Acl::Cache(cache).allows(method),
{
}

/// The rules for a host come in the order in which they are given: those of the front, then those of
/// the back.
pub proof fn law_rules_keep_their_order(front: Seq<Acl>, back: Seq<Acl>, host: Seq<char>)
    ensures
        rules_for(front + back, host) == rules_for(front, host) + rules_for(back, host),
    decreases back.len(),
{
    if back.len() == 0 {
        assert(front + back =~= front);
        assert(rules_for(front, host) + rules_for(back, host) =~= rules_for(front, host));
    } else {
        let all = front + back;
        law_rules_keep_their_order(front, back.drop_last(), host);
        assert(all.drop_last() =~= front + back.drop_last());
        assert(all.last() == back.last());
        assert(rules_for(all, host) =~= rules_for(front, host) + rules_for(back, host));
    }
}

/// A single rule is among those for the host that it names, and among those for no other.
pub proof fn law_rule_is_for_its_host(proxy: Proxy, cache: Cache, host: Seq<char>)
    ensures
        rules_for(seq![Acl::Proxy(proxy)], host) == (if proxy.host@ == host {
            seq![Acl::Proxy(proxy)]
        } else {
            Seq::<Acl>::empty()
        }),
        rules_for(seq![Acl::Cache(cache)], host) == (if cache.host@ == host {
            seq![Acl::Cache(cache)]
        } else {
            Seq::<Acl>::empty()
        }),
{
    reveal_with_fuel(rules_for, 2);
    let p = seq![Acl::Proxy(proxy)];
    let c = seq![Acl::Cache(cache)];
    assert(p.drop_last() =~= Seq::<Acl>::empty());
    assert(c.drop_last() =~= Seq::<Acl>::empty());
    assert(rules_for(p, host) =~= if proxy.host@ == host {
        p
    } else {
        Seq::<Acl>::empty()
    });
    assert(rules_for(c, host) =~= if cache.host@ == host {
        c
    } else {
        Seq::<Acl>::empty()
    });
}

/// Once rules are sorted by host, each is found under the host that it names, and under a host stand
/// only rules that name it.
pub proof fn law_sorted_rules_are_found(grouped: Map<Seq<char>, Vec<Acl>>, rules: Seq<Acl>)
    requires
        grouped_by_host(grouped, rules),
    ensures
        forall|i: int|
            0 <= i < rules.len() ==> {
                let host = match #[trigger] rules[i] {
                    Acl::Proxy(proxy) => proxy.host@,
                    Acl::Cache(cache) => cache.host@,
                };
                grouped.contains_key(host) && grouped[host]@.contains(rules[i])
            },
        forall|host: Seq<char>, i: int|
            grouped.contains_key(host) && 0 <= i < grouped[host]@.len() ==> (
            match #[trigger] grouped[host]@[i] {
                Acl::Proxy(proxy) => proxy.host@ == host,
                Acl::Cache(cache) => cache.host@ == host,
            }),
{
    assert forall|i: int| 0 <= i < rules.len() implies {
        let host = match #[trigger] rules[i] {
            Acl::Proxy(proxy) => proxy.host@,
            Acl::Cache(cache) => cache.host@,
        };
        grouped.contains_key(host) && grouped[host]@.contains(rules[i])
    } by {
        law_no_rule_lost(rules, i);
        let host = rules[i].host_text();
        assert(rules_for(rules, host).len() > 0);
        assert(grouped.contains_key(host));
    }
    assert forall|host: Seq<char>, i: int|
        grouped.contains_key(host) && 0 <= i < grouped[host]@.len() implies (
    match #[trigger] grouped[host]@[i] {
        Acl::Proxy(proxy) => proxy.host@ == host,
        Acl::Cache(cache) => cache.host@ == host,
    }) by {
        law_rule_under_its_host(rules, host, i);
    }
}

} // verus!
