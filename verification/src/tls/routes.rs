//! Routes from exact TLS hostnames to listeners on the host's loopback interface.

use super::domain::{canonical_name, law_canonical_alphabet, lower_case, without_root};
use super::host::{
    exact_host, is_exact_host, law_host_ignores_case, law_host_ignores_root_dot, law_host_round_trip,
    TlsLoopbackHost,
    TlsLoopbackHostError,
};
use super::order::{
    lemma_precedes_irreflexive, lemma_precedes_transitive, place, precedes, Place,
};
use super::port::NonZeroPort;
use vstd::prelude::*;
use vstd::string::is_ascii;

verus! {

/// Exact TLS hostname routes to host loopback listeners.
#[derive(Debug)]
pub struct TlsLoopbackRoutes {
    entries: Vec<(TlsLoopbackHost, NonZeroPort)>,
}

/// An IPv4 socket address.
#[derive(Debug, Clone, Copy, PartialEq, Eq)]
pub struct TargetAddr {
    /// The four octets of the IP address.
    pub ip: [u8; 4],
    /// The TCP port.
    pub port: u16,
}

/// Why a list of entries is no table of routes.
#[derive(Debug, Clone, Copy, PartialEq, Eq, Structural)]
pub enum TlsLoopbackRouteError {
    /// The hostname of an entry is not exact.
    Host(TlsLoopbackHostError),
    /// The port of an entry is zero.
    ZeroPort,
}

/// The table that a list of routes holds.
pub open spec fn table(routes: Seq<(Seq<char>, u16)>) -> Map<Seq<char>, u16> {
    Map::new(
        |name: Seq<char>| exists|i: int| 0 <= i < routes.len() && (#[trigger] routes[i]).0 == name,
        |name: Seq<char>|
            routes[choose|i: int| 0 <= i < routes.len() && (#[trigger] routes[i]).0 == name].1,
    )
}

/// The hostnames stand in strictly increasing order, so that none occurs twice.
pub open spec fn is_ordered(routes: Seq<(Seq<char>, u16)>) -> bool {
    forall|i: int, j: int|
        0 <= i < j < routes.len() ==> precedes((#[trigger] routes[i]).0, (#[trigger] routes[j]).0)
}

/// Every hostname is exact and canonical, and every port can be listened on.
pub open spec fn is_routable(routes: Seq<(Seq<char>, u16)>) -> bool {
    forall|i: int|
        0 <= i < routes.len() ==> is_exact_host((#[trigger] routes[i]).0) && routes[i].1 != 0
}

/// The port that a table routes a hostname to, in whatever spelling it comes.
pub open spec fn route(routes: Map<Seq<char>, u16>, text: Seq<char>) -> Option<u16> {
    match exact_host(text) {
        Ok(name) => if routes.contains_key(name) {
            Some(routes[name])
        } else {
            None
        },
        Err(_) => None,
    }
}

/// The table that a list of entries spells, where a later entry replaces an earlier
/// one for the same host; or what is wrong with the first entry that is at fault.
pub open spec fn load(entries: Seq<(Seq<char>, u16)>) -> Result<
    Map<Seq<char>, u16>,
    TlsLoopbackRouteError,
>
    decreases entries.len(),
{
    if entries.len() == 0 {
        Ok(Map::empty())
    } else {
        match load(entries.drop_last()) {
            Err(error) => Err(error),
            Ok(before) => match exact_host(entries.last().0) {
                Err(error) => Err(TlsLoopbackRouteError::Host(error)),
                Ok(name) => if entries.last().1 == 0 {
                    Err(TlsLoopbackRouteError::ZeroPort)
                } else {
                    Ok(before.insert(name, entries.last().1))
                },
            },
        }
    }
}

/// The characters and the number of each entry.
pub open spec fn entry_views(entries: Seq<(String, u16)>) -> Seq<(Seq<char>, u16)> {
    entries.map_values(|entry: (String, u16)| (entry.0@, entry.1))
}

impl TlsLoopbackRoutes {
    /// The routes, in the order of their hostnames.
    pub closed spec fn routes(self) -> Seq<(Seq<char>, u16)> {
        self.entries@.map_values(|entry: (TlsLoopbackHost, NonZeroPort)| (entry.0@, entry.1@))
    }

    /// The table of routes.
    pub open spec fn view(self) -> Map<Seq<char>, u16> {
        table(self.routes())
    }

    /// No host occurs twice, the hosts are in order, and each route can be taken.
    #[verifier::type_invariant]
    spec fn well_formed(self) -> bool {
        is_ordered(self.routes()) && is_routable(self.routes())
    }

    /// Find where the route of a hostname stands, or else where it belongs.
    fn locate(&self, name: &str) -> (found: Result<usize, usize>)
        requires
            is_exact_host(name@),
        ensures
            is_ordered(self.routes()) && is_routable(self.routes()),
            match found {
                Ok(i) => i < self.routes().len() && self.routes()[i as int].0 == name@,
                Err(i) => {
                    &&& i <= self.routes().len()
                    &&& forall|j: int|
                        0 <= j < i ==> precedes((#[trigger] self.routes()[j]).0, name@)
                    &&& forall|j: int|
                        i <= j < self.routes().len() ==> precedes(
                            name@,
                            (#[trigger] self.routes()[j]).0,
                        )
                },
            },
    {
        proof {
            use_type_invariant(self);
            lemma_exact_host_is_ascii(name);
        }
        let ghost routes = self.routes();
        let mut low: usize = 0;
        let mut high: usize = self.entries.len();
        while low < high
            invariant
                low <= high <= self.entries.len(),
                routes == self.routes(),
                routes.len() == self.entries.len(),
                is_ordered(routes),
                is_routable(routes),
                is_ascii(name),
                forall|j: int| 0 <= j < low ==> precedes((#[trigger] routes[j]).0, name@),
                forall|j: int|
                    high <= j < routes.len() ==> precedes(name@, (#[trigger] routes[j]).0),
            decreases high - low,
        {
            let middle = low + (high - low) / 2;
            let here = self.entries[middle].0.as_str();
            proof {
                lemma_exact_host_is_ascii(here);
                assert(here@ == routes[middle as int].0);
            }
            match place(here, name) {
                Place::Same => {
                    return Ok(middle);
                },
                Place::Before => {
                    assert forall|j: int| 0 <= j < middle + 1 implies precedes(
                        (#[trigger] routes[j]).0,
                        name@,
                    ) by {
                        if j < middle {
                            lemma_precedes_transitive(routes[j].0, here@, name@);
                        }
                    }
                    low = middle + 1;
                },
                Place::After => {
                    assert forall|j: int| middle <= j < routes.len() implies precedes(
                        name@,
                        (#[trigger] routes[j]).0,
                    ) by {
                        if j > middle {
                            lemma_precedes_transitive(name@, here@, routes[j].0);
                        }
                    }
                    high = middle;
                },
            }
        }
        Err(low)
    }

    /// Add or replace the loopback port for one exact, validated hostname.
    pub fn insert(&mut self, host: TlsLoopbackHost, port: NonZeroPort)
        ensures
            final(self)@ == old(self)@.insert(host@, port@),
    {
        let ghost before = self.routes();
        let number = port.get();
        let found = self.locate(host.as_str());
        let mut entries: Vec<(TlsLoopbackHost, NonZeroPort)> = Vec::new();
        std::mem::swap(&mut entries, &mut self.entries);
        match found {
            Ok(i) => {
                proof {
                    let after = before.update(i as int, (host@, port@));
                    lemma_table_replace(before, i as int, port@);
                    assert(entries@.update(i as int, (host, port)).map_values(
                        |entry: (TlsLoopbackHost, NonZeroPort)| (entry.0@, entry.1@),
                    ) =~= after);
                }
                entries.set(i, (host, port));
            },
            Err(i) => {
                proof {
                    let after = before.insert(i as int, (host@, port@));
                    lemma_table_insert(before, i as int, host@, port@);
                    assert(entries@.insert(i as int, (host, port)).map_values(
                        |entry: (TlsLoopbackHost, NonZeroPort)| (entry.0@, entry.1@),
                    ) =~= after);
                }
                entries.insert(i, (host, port));
            },
        }
        self.entries = entries;
    }

    /// Resolve an exact SNI hostname to the fixed host-loopback destination.
    pub fn target(&self, host: &str) -> (target: Option<TargetAddr>)
        ensures
            match target {
                Some(addr) => {
                    &&& addr.ip@ == seq![127u8, 0u8, 0u8, 1u8]
                    &&& addr.port != 0
                    &&& route(self@, host@) == Some(addr.port)
                    &&& exact_host(host@) is Ok
                    &&& self@.contains_key(exact_host(host@)->Ok_0)
                    &&& self@[exact_host(host@)->Ok_0] == addr.port
                },
                None => {
                    &&& route(self@, host@) is None
                    &&& exact_host(host@) is Ok ==> !self@.contains_key(exact_host(host@)->Ok_0)
                },
            },
    {
        match <TlsLoopbackHost as std::str::FromStr>::from_str(host) {
            Ok(host) => match self.locate(host.as_str()) {
                Ok(i) => {
                    proof {
                        lemma_table_at(self.routes(), i as int);
                    }
                    Some(TargetAddr { ip: [127, 0, 0, 1], port: self.entries[i].1.get() })
                },
                Err(i) => {
                    proof {
                        lemma_absent(self.routes(), i as int, host@);
                    }
                    None
                },
            },
            Err(_) => None,
        }
    }

    /// Build the routes that a list of entries spells. A later entry replaces an earlier
    /// one for the same host, and the first entry at fault decides the error.
    pub fn from_entries(entries: &[(String, u16)]) -> (routes: Result<Self, TlsLoopbackRouteError>)
        ensures
            match routes {
                Ok(routes) => {
                    &&& load(entry_views(entries@)) == Ok::<
                        Map<Seq<char>, u16>,
                        TlsLoopbackRouteError,
                    >(routes@)
                    &&& forall|i: int|
                        0 <= i < entries.len() ==> {
                            &&& exact_host((#[trigger] entries@[i]).0@) is Ok
                            &&& entries@[i].1 != 0
                            &&& routes@.contains_key(exact_host(entries@[i].0@)->Ok_0)
                        }
                    &&& forall|name: Seq<char>| #[trigger]
                        routes@.contains_key(name) ==> exists|i: int|
                            0 <= i < entries.len() && exact_host((#[trigger] entries@[i]).0@)
                                == Ok::<Seq<char>, TlsLoopbackHostError>(name)
                    &&& forall|i: int|
                        0 <= i < entries.len() && (forall|j: int|
                            i < j < entries.len() ==> exact_host((#[trigger] entries@[j]).0@)
                                != exact_host(entries@[i].0@)) ==> routes@[exact_host(
                            (#[trigger] entries@[i]).0@,
                        )->Ok_0] == entries@[i].1
                },
                Err(error) => {
                    &&& load(entry_views(entries@)) == Err::<
                        Map<Seq<char>, u16>,
                        TlsLoopbackRouteError,
                    >(error)
                    &&& exists|i: int|
                        {
                            &&& 0 <= i < entries.len()
                            &&& forall|j: int|
                                0 <= j < i ==> exact_host((#[trigger] entries@[j]).0@) is Ok
                                    && entries@[j].1 != 0
                            &&& match exact_host((#[trigger] entries@[i]).0@) {
                                Ok(_) => entries@[i].1 == 0 && error
                                    == TlsLoopbackRouteError::ZeroPort,
                                Err(fault) => error == TlsLoopbackRouteError::Host(fault),
                            }
                        }
                },
            },
    {
        let ghost views = entry_views(entries@);
        let mut routes = TlsLoopbackRoutes::default();
        let mut i: usize = 0;
        assert(views.take(0) =~= Seq::empty());
        while i < entries.len()
            invariant
                i <= entries.len(),
                views == entry_views(entries@),
                forall|j: int|
                    0 <= j < i ==> exact_host((#[trigger] entries@[j]).0@) is Ok && entries@[j].1
                        != 0,
                load(views.take(i as int)) == Ok::<Map<Seq<char>, u16>, TlsLoopbackRouteError>(
                    routes@,
                ),
            decreases entries.len() - i,
        {
            assert(views.take(i + 1).drop_last() =~= views.take(i as int));
            assert(views.take(i + 1).last() == (entries@[i as int].0@, entries@[i as int].1));
            match <TlsLoopbackHost as std::str::FromStr>::from_str(entries[i].0.as_str()) {
                Ok(host) => match NonZeroPort::new(entries[i].1) {
                    Some(port) => {
                        routes.insert(host, port);
                    },
                    None => {
                        proof {
                            lemma_first_fault_decides(views, i + 1);
                        }
                        return Err(TlsLoopbackRouteError::ZeroPort);
                    },
                },
                Err(error) => {
                    proof {
                        lemma_first_fault_decides(views, i + 1);
                    }
                    return Err(TlsLoopbackRouteError::Host(error));
                },
            }
            i += 1;
        }
        assert(views.take(i as int) =~= views);
        proof {
            law_entries_that_load(views);
            assert forall|k: int| 0 <= k < entries.len() implies {
                &&& exact_host((#[trigger] entries@[k]).0@) is Ok
                &&& entries@[k].1 != 0
                &&& routes@.contains_key(exact_host(entries@[k].0@)->Ok_0)
            } by {
                assert(views[k] == (entries@[k].0@, entries@[k].1));
                law_every_entry_is_routed(views, exact_host(entries@[k].0@)->Ok_0);
            }
            assert forall|name: Seq<char>| #[trigger] routes@.contains_key(name) implies exists|
                k: int,
            |
                0 <= k < entries.len() && exact_host((#[trigger] entries@[k]).0@) == Ok::<
                    Seq<char>,
                    TlsLoopbackHostError,
                >(name) by {
                law_every_entry_is_routed(views, name);
                let k = choose|k: int|
                    0 <= k < views.len() && exact_host((#[trigger] views[k]).0) == Ok::<
                        Seq<char>,
                        TlsLoopbackHostError,
                    >(name);
                assert(views[k] == (entries@[k].0@, entries@[k].1));
            }
            assert forall|k: int|
                0 <= k < entries.len() && (forall|j: int|
                    k < j < entries.len() ==> exact_host((#[trigger] entries@[j]).0@)
                        != exact_host(entries@[k].0@)) implies routes@[exact_host(
                (#[trigger] entries@[k]).0@,
            )->Ok_0] == entries@[k].1 by {
                assert(forall|j: int|
                    k < j < views.len() ==> (#[trigger] views[j]) == (
                        entries@[j].0@,
                        entries@[j].1,
                    ));
                assert(views[k] == (entries@[k].0@, entries@[k].1));
                law_last_entry_decides(views, k);
            }
        }
        Ok(routes)
    }

    /// Return the routes as entries, in the order of their hostnames.
    pub fn to_entries(&self) -> (entries: Vec<(String, u16)>)
        ensures
            entry_views(entries@) == self.routes(),
            is_ordered(self.routes()),
            is_routable(self.routes()),
            forall|i: int|
                0 <= i < entries.len() ==> {
                    &&& self@.contains_key((#[trigger] entries@[i]).0@)
                    &&& self@[entries@[i].0@] == entries@[i].1
                    &&& entries@[i].1 != 0
                    &&& exact_host(entries@[i].0@) == Ok::<Seq<char>, TlsLoopbackHostError>(
                        entries@[i].0@,
                    )
                },
            forall|name: Seq<char>| #[trigger]
                self@.contains_key(name) ==> exists|i: int|
                    0 <= i < entries.len() && (#[trigger] entries@[i]).0@ == name,
            forall|i: int, j: int|
                0 <= i < j < entries.len() ==> precedes(
                    (#[trigger] entries@[i]).0@,
                    (#[trigger] entries@[j]).0@,
                ),
    {
        proof {
            use_type_invariant(self);
        }
        let mut entries: Vec<(String, u16)> = Vec::new();
        let mut i: usize = 0;
        while i < self.entries.len()
            invariant
                i <= self.entries.len(),
                self.routes().len() == self.entries.len(),
                entry_views(entries@) == self.routes().take(i as int),
            decreases self.entries.len() - i,
        {
            let entry = (self.entries[i].0.as_str().to_owned(), self.entries[i].1.get());
            assert(entry_views(entries@.push(entry)) =~= entry_views(entries@).push(
                (entry.0@, entry.1),
            ));
            assert(self.routes().take(i + 1) =~= self.routes().take(i as int).push(
                self.routes()[i as int],
            ));
            entries.push(entry);
            i += 1;
        }
        assert(self.routes().take(i as int) =~= self.routes());
        proof {
            let routes = self.routes();
            assert forall|k: int| 0 <= k < entries.len() implies {
                &&& self@.contains_key((#[trigger] entries@[k]).0@)
                &&& self@[entries@[k].0@] == entries@[k].1
                &&& entries@[k].1 != 0
                &&& exact_host(entries@[k].0@) == Ok::<Seq<char>, TlsLoopbackHostError>(
                    entries@[k].0@,
                )
            } by {
                assert(entry_views(entries@)[k] == (entries@[k].0@, entries@[k].1));
                assert(routes[k] == (entries@[k].0@, entries@[k].1));
                lemma_table_at(routes, k);
            }
            assert forall|name: Seq<char>| #[trigger] self@.contains_key(name) implies exists|
                k: int,
            | 0 <= k < entries.len() && (#[trigger] entries@[k]).0@ == name by {
                let k = choose|k: int| 0 <= k < routes.len() && (#[trigger] routes[k]).0 == name;
                assert(entry_views(entries@)[k] == (entries@[k].0@, entries@[k].1));
            }
            assert forall|k: int, j: int| 0 <= k < j < entries.len() implies precedes(
                (#[trigger] entries@[k]).0@,
                (#[trigger] entries@[j]).0@,
            ) by {
                assert(routes[k] == entry_views(entries@)[k]);
                assert(routes[j] == entry_views(entries@)[j]);
            }
        }
        entries
    }
}

impl Default for TlsLoopbackRoutes {
    /// No routes.
    fn default() -> (routes: Self)
        ensures
            routes@ == Map::<Seq<char>, u16>::empty(),
            routes.routes() == Seq::<(Seq<char>, u16)>::empty(),
    {
        let routes = TlsLoopbackRoutes { entries: Vec::new() };
        assert(routes@ =~= Map::empty());
        routes
    }
}

impl Clone for TlsLoopbackRoutes {
    fn clone(&self) -> (copy: Self)
        ensures
            copy.routes() == self.routes(),
            copy@ == self@,
    {
        proof {
            use_type_invariant(self);
        }
        let mut entries: Vec<(TlsLoopbackHost, NonZeroPort)> = Vec::new();
        let mut i: usize = 0;
        while i < self.entries.len()
            invariant
                i <= self.entries.len(),
                entries.len() == i,
                forall|j: int|
                    0 <= j < i ==> (#[trigger] entries@[j]).0@ == self.entries@[j].0@
                        && entries@[j].1 == self.entries@[j].1,
            decreases self.entries.len() - i,
        {
            let entry = (self.entries[i].0.clone(), self.entries[i].1);
            entries.push(entry);
            i += 1;
        }
        assert(entries@.map_values(
            |entry: (TlsLoopbackHost, NonZeroPort)| (entry.0@, entry.1@),
        ) =~= self.routes());
        TlsLoopbackRoutes { entries }
    }
}

/// A hostname that all others precede or follow is not in the table.
proof fn lemma_absent(routes: Seq<(Seq<char>, u16)>, i: int, name: Seq<char>)
    requires
        forall|j: int| 0 <= j < i ==> precedes((#[trigger] routes[j]).0, name),
        forall|j: int| i <= j < routes.len() ==> precedes(name, (#[trigger] routes[j]).0),
    ensures
        !table(routes).contains_key(name),
{
    lemma_precedes_irreflexive(name);
}

/// Entries after one that is at fault do not matter.
proof fn lemma_first_fault_decides(entries: Seq<(Seq<char>, u16)>, count: int)
    requires
        0 <= count <= entries.len(),
        load(entries.take(count)) is Err,
    ensures
        load(entries) == load(entries.take(count)),
    decreases entries.len(),
{
    if count == entries.len() {
        assert(entries.take(count) =~= entries);
    } else {
        assert(entries.drop_last().take(count) =~= entries.take(count));
        lemma_first_fault_decides(entries.drop_last(), count);
    }
}

/// An exact host is written in ASCII.
proof fn lemma_exact_host_is_ascii(name: &str)
    requires
        is_exact_host(name@),
    ensures
        is_ascii(name),
{
    law_canonical_alphabet(name@);
    assert forall|i: int| 0 <= i < name@.len() implies '\0' <= #[trigger] name@[i]
        <= '\u{7f}' by {
        assert(canonical_name(name@)->Ok_0[i] == name@[i]);
    }
}

/// In an ordered list a hostname stands at one place only.
proof fn lemma_ordered_unique(routes: Seq<(Seq<char>, u16)>, i: int, j: int)
    requires
        is_ordered(routes),
        0 <= i < routes.len(),
        0 <= j < routes.len(),
        routes[i].0 == routes[j].0,
    ensures
        i == j,
{
    lemma_precedes_irreflexive(routes[i].0);
}

/// An ordered list routes each of its hostnames to the port beside it.
proof fn lemma_table_at(routes: Seq<(Seq<char>, u16)>, i: int)
    requires
        is_ordered(routes),
        0 <= i < routes.len(),
    ensures
        table(routes).contains_key(routes[i].0),
        table(routes)[routes[i].0] == routes[i].1,
{
    let name = routes[i].0;
    assert(table(routes).contains_key(name));
    let j = choose|j: int| 0 <= j < routes.len() && (#[trigger] routes[j]).0 == name;
    lemma_ordered_unique(routes, i, j);
}

/// A map that agrees with an ordered list at each place, and holds nothing else, is the
/// table of that list.
proof fn lemma_table_is(routes: Seq<(Seq<char>, u16)>, expected: Map<Seq<char>, u16>)
    requires
        is_ordered(routes),
        forall|j: int|
            0 <= j < routes.len() ==> expected.contains_key((#[trigger] routes[j]).0)
                && expected[routes[j].0] == routes[j].1,
        forall|name: Seq<char>| #[trigger]
            expected.contains_key(name) ==> table(routes).contains_key(name),
    ensures
        table(routes) == expected,
{
    assert forall|name: Seq<char>| #[trigger] table(routes).contains_key(name) implies table(
        routes,
    )[name] == expected[name] && expected.contains_key(name) by {
        let j = choose|j: int| 0 <= j < routes.len() && (#[trigger] routes[j]).0 == name;
        lemma_table_at(routes, j);
    }
    assert(table(routes) =~= expected);
}

/// Changing one port of an ordered list replaces one route.
proof fn lemma_table_replace(routes: Seq<(Seq<char>, u16)>, i: int, port: u16)
    requires
        is_ordered(routes),
        is_routable(routes),
        0 <= i < routes.len(),
        port != 0,
    ensures
        is_ordered(routes.update(i, (routes[i].0, port))),
        is_routable(routes.update(i, (routes[i].0, port))),
        table(routes.update(i, (routes[i].0, port))) == table(routes).insert(routes[i].0, port),
{
    let name = routes[i].0;
    let after = routes.update(i, (name, port));
    let expected = table(routes).insert(name, port);
    assert(forall|j: int| 0 <= j < routes.len() ==> (#[trigger] after[j]).0 == routes[j].0);
    assert forall|j: int| 0 <= j < after.len() implies expected.contains_key((#[trigger] after[j]).0)
        && expected[after[j].0] == after[j].1 by {
        lemma_table_at(routes, j);
        if after[j].0 == name {
            lemma_ordered_unique(routes, i, j);
        }
    }
    assert forall|key: Seq<char>| #[trigger] expected.contains_key(key) implies table(
        after,
    ).contains_key(key) by {
        if key == name {
            assert(after[i].0 == key);
        } else {
            let j = choose|j: int| 0 <= j < routes.len() && (#[trigger] routes[j]).0 == key;
            assert(after[j].0 == key);
        }
    }
    lemma_table_is(after, expected);
}

/// Putting a new hostname where it belongs adds one route.
proof fn lemma_table_insert(routes: Seq<(Seq<char>, u16)>, i: int, name: Seq<char>, port: u16)
    requires
        is_ordered(routes),
        is_routable(routes),
        0 <= i <= routes.len(),
        is_exact_host(name),
        port != 0,
        forall|j: int| 0 <= j < i ==> precedes((#[trigger] routes[j]).0, name),
        forall|j: int| i <= j < routes.len() ==> precedes(name, (#[trigger] routes[j]).0),
    ensures
        is_ordered(routes.insert(i, (name, port))),
        is_routable(routes.insert(i, (name, port))),
        table(routes.insert(i, (name, port))) == table(routes).insert(name, port),
{
    let after = routes.insert(i, (name, port));
    let expected = table(routes).insert(name, port);
    lemma_precedes_irreflexive(name);
    assert forall|j: int| 0 <= j < after.len() implies expected.contains_key((#[trigger] after[j]).0)
        && expected[after[j].0] == after[j].1 by {
        if j < i {
            lemma_table_at(routes, j);
        } else if j > i {
            assert(after[j] == routes[j - 1]);
            lemma_table_at(routes, j - 1);
        }
    }
    assert forall|key: Seq<char>| #[trigger] expected.contains_key(key) implies table(
        after,
    ).contains_key(key) by {
        if key == name {
            assert(after[i].0 == key);
        } else {
            let j = choose|j: int| 0 <= j < routes.len() && (#[trigger] routes[j]).0 == key;
            assert(after[if j < i { j } else { j + 1 }].0 == key);
        }
    }
    lemma_table_is(after, expected);
}

/// Adding a route changes where that host goes, in every spelling of it, and where no
/// other host goes.
pub proof fn law_insert_routes_one_host(
    routes: Map<Seq<char>, u16>,
    name: Seq<char>,
    port: u16,
    text: Seq<char>,
)
    ensures
        exact_host(text) == Ok::<Seq<char>, TlsLoopbackHostError>(name) ==> route(
            routes.insert(name, port),
            text,
        ) == Some(port),
        exact_host(text) != Ok::<Seq<char>, TlsLoopbackHostError>(name) ==> route(
            routes.insert(name, port),
            text,
        ) == route(routes, text),
{
}

/// The last port that was set for a host is the one that counts, and routes of different
/// hosts can be added in any order.
pub proof fn law_insert_order(
    routes: Map<Seq<char>, u16>,
    a: Seq<char>,
    b: Seq<char>,
    first: u16,
    second: u16,
)
    ensures
        a == b ==> routes.insert(a, first).insert(b, second) == routes.insert(b, second),
        a != b ==> routes.insert(a, first).insert(b, second) == routes.insert(b, second).insert(
            a,
            first,
        ),
{
    if a == b {
        assert(routes.insert(a, first).insert(b, second) =~= routes.insert(b, second));
    } else {
        assert(routes.insert(a, first).insert(b, second) =~= routes.insert(b, second).insert(
            a,
            first,
        ));
    }
}

/// A hostname is routed the same in upper and in lower case.
pub proof fn law_route_ignores_case(routes: Map<Seq<char>, u16>, text: Seq<char>)
    ensures
        route(routes, lower_case(text)) == route(routes, text),
{
    law_host_ignores_case(text);
}

/// A hostname is routed the same with the dot of the root and without it.
pub proof fn law_route_ignores_root_dot(routes: Map<Seq<char>, u16>, text: Seq<char>)
    requires
        text.len() > 0,
        text.last() != '.',
    ensures
        route(routes, text.push('.')) == route(routes, text),
{
    law_host_ignores_root_dot(text);
}

/// Nothing with a wildcard is ever routed.
pub proof fn law_wildcard_is_not_routed(routes: Map<Seq<char>, u16>, text: Seq<char>)
    requires
        text.contains('*'),
    ensures
        route(routes, text) is None,
{
}

/// A route for a host covers no name below that host: such a name goes where it went
/// before.
pub proof fn law_route_covers_no_subdomain(
    routes: Map<Seq<char>, u16>,
    name: Seq<char>,
    port: u16,
    prefix: Seq<char>,
)
    requires
        exact_host(name) == Ok::<Seq<char>, TlsLoopbackHostError>(name),
    ensures
        route(routes.insert(name, port), prefix.push('.') + name) == route(
            routes,
            prefix.push('.') + name,
        ),
{
    let text = prefix.push('.') + name;
    law_canonical_alphabet(name);
    assert(without_root(name).len() == name.len());
    assert(text.last() == name.last());
    assert(without_root(text) == text);
}

/// A table without routes routes nothing.
pub proof fn law_empty_table_routes_nothing(text: Seq<char>)
    ensures
        route(Map::empty(), text) is None,
{
}

/// A text is routed exactly where it spells a host that the table has a port for, and to
/// that port.
pub proof fn law_routing_is_lookup(routes: Map<Seq<char>, u16>, text: Seq<char>, port: u16)
    ensures
        route(routes, text) == Some(port) <==> exists|name: Seq<char>|
            {
                &&& exact_host(text) == Ok::<Seq<char>, TlsLoopbackHostError>(name)
                &&& #[trigger] routes.contains_key(name)
                &&& routes[name] == port
            },
{
    if route(routes, text) == Some(port) {
        assert(routes.contains_key(exact_host(text)->Ok_0));
    }
}

/// Two spellings of one host are routed alike, whatever the table.
pub proof fn law_spellings_of_a_host_are_routed_alike(
    routes: Map<Seq<char>, u16>,
    a: Seq<char>,
    b: Seq<char>,
)
    requires
        exact_host(a) == exact_host(b),
    ensures
        route(routes, a) == route(routes, b),
{
}

/// A list in which no host occurs twice holds exactly its own hosts, each with the port
/// beside it.
pub proof fn law_table_holds_the_list(routes: Seq<(Seq<char>, u16)>, name: Seq<char>)
    requires
        forall|i: int, j: int|
            0 <= i < j < routes.len() ==> (#[trigger] routes[i]).0 != (#[trigger] routes[j]).0,
    ensures
        table(routes).contains_key(name) <==> exists|i: int|
            0 <= i < routes.len() && (#[trigger] routes[i]).0 == name,
        forall|i: int|
            0 <= i < routes.len() && (#[trigger] routes[i]).0 == name ==> table(routes)[name]
                == routes[i].1,
{
    assert forall|i: int| 0 <= i < routes.len() && (#[trigger] routes[i]).0 == name implies table(
        routes,
    )[name] == routes[i].1 by {
        let j = choose|j: int| 0 <= j < routes.len() && (#[trigger] routes[j]).0 == name;
        assert(i == j);
    }
}

/// The view of a list of entries keeps each text and each number, in their order.
pub proof fn law_entry_views_keep_the_entries(entries: Seq<(String, u16)>)
    ensures
        entry_views(entries).len() == entries.len(),
        forall|i: int|
            0 <= i < entries.len() ==> (#[trigger] entry_views(entries)[i]).0 == entries[i].0@
                && entry_views(entries)[i].1 == entries[i].1,
{
}

/// A list of entries loads exactly where every entry has an exact host and a port other
/// than zero.
pub proof fn law_entries_that_load(entries: Seq<(Seq<char>, u16)>)
    ensures
        load(entries) is Ok <==> forall|i: int|
            0 <= i < entries.len() ==> exact_host((#[trigger] entries[i]).0) is Ok && entries[i].1
                != 0,
    decreases entries.len(),
{
    if entries.len() > 0 {
        let init = entries.drop_last();
        law_entries_that_load(init);
        assert(forall|i: int| 0 <= i < init.len() ==> #[trigger] entries[i] == init[i]);
        assert(forall|i: int| 0 <= i < init.len() ==> entries[i] == #[trigger] init[i]);
        assert(entries[entries.len() - 1] == entries.last());
    }
}

/// Of a list that loads every host is routed, in whatever order the list stands, and no
/// other is.
pub proof fn law_every_entry_is_routed(entries: Seq<(Seq<char>, u16)>, name: Seq<char>)
    requires
        load(entries) is Ok,
    ensures
        load(entries)->Ok_0.contains_key(name) <==> exists|i: int|
            0 <= i < entries.len() && exact_host((#[trigger] entries[i]).0) == Ok::<
                Seq<char>,
                TlsLoopbackHostError,
            >(name),
    decreases entries.len(),
{
    if entries.len() > 0 {
        let init = entries.drop_last();
        law_every_entry_is_routed(init, name);
        assert(forall|i: int| 0 <= i < init.len() ==> #[trigger] entries[i] == init[i]);
        assert(forall|i: int| 0 <= i < init.len() ==> entries[i] == #[trigger] init[i]);
        assert(entries[entries.len() - 1] == entries.last());
    }
}

/// Each host of a list that loads goes to the port of the last entry that spells it.
pub proof fn law_last_entry_decides(entries: Seq<(Seq<char>, u16)>, i: int)
    requires
        load(entries) is Ok,
        0 <= i < entries.len(),
        forall|j: int|
            i < j < entries.len() ==> exact_host((#[trigger] entries[j]).0) != exact_host(
                entries[i].0,
            ),
    ensures
        exact_host(entries[i].0) is Ok,
        load(entries)->Ok_0.contains_key(exact_host(entries[i].0)->Ok_0),
        load(entries)->Ok_0[exact_host(entries[i].0)->Ok_0] == entries[i].1,
    decreases entries.len(),
{
    if i < entries.len() - 1 {
        let init = entries.drop_last();
        assert(entries[entries.len() - 1] == entries.last());
        assert(forall|j: int| 0 <= j < init.len() ==> entries[j] == #[trigger] init[j]);
        law_last_entry_decides(init, i);
    }
}

/// The first entry at fault decides the error, whatever follows it: its host is looked at
/// before its port.
pub proof fn law_first_fault_is_reported(entries: Seq<(Seq<char>, u16)>, i: int)
    requires
        0 <= i < entries.len(),
        forall|j: int|
            0 <= j < i ==> exact_host((#[trigger] entries[j]).0) is Ok && entries[j].1 != 0,
    ensures
        match exact_host(entries[i].0) {
            Err(fault) => load(entries) == Err::<Map<Seq<char>, u16>, TlsLoopbackRouteError>(
                TlsLoopbackRouteError::Host(fault),
            ),
            Ok(_) => entries[i].1 == 0 ==> load(entries) == Err::<
                Map<Seq<char>, u16>,
                TlsLoopbackRouteError,
            >(TlsLoopbackRouteError::ZeroPort),
        },
{
    let head = entries.take(i + 1);
    assert(head.drop_last() =~= entries.take(i));
    assert(forall|j: int| 0 <= j < i ==> entries[j] == #[trigger] entries.take(i)[j]);
    law_entries_that_load(entries.take(i));
    assert(head.last() == entries[i]);
    if load(head) is Err {
        lemma_first_fault_decides(entries, i + 1);
    }
}

/// Writing routes out as entries and reading them back gives the same routes.
pub proof fn law_entries_round_trip(routes: Seq<(Seq<char>, u16)>)
    requires
        is_ordered(routes),
        is_routable(routes),
    ensures
        load(routes) == Ok::<Map<Seq<char>, u16>, TlsLoopbackRouteError>(table(routes)),
    decreases routes.len(),
{
    if routes.len() == 0 {
        assert(table(routes) =~= Map::empty());
    } else {
        let init = routes.drop_last();
        let last = routes.last();
        law_entries_round_trip(init);
        assert(routes[routes.len() - 1] == last);
        lemma_table_insert(init, init.len() as int, last.0, last.1);
        assert(init.insert(init.len() as int, last) =~= routes);
    }
}

/// A table is written out in one way only: equal tables have the same list of routes.
pub proof fn law_list_is_determined(a: Seq<(Seq<char>, u16)>, b: Seq<(Seq<char>, u16)>)
    requires
        is_ordered(a),
        is_ordered(b),
        table(a) == table(b),
    ensures
        a == b,
    decreases a.len(),
{
    if a.len() == 0 || b.len() == 0 {
        if a.len() > 0 {
            lemma_table_at(a, 0);
        }
        if b.len() > 0 {
            lemma_table_at(b, 0);
        }
        assert(a =~= b);
    } else {
        let last = a.last();
        lemma_last_is_greatest(a, b);
        lemma_last_is_greatest(b, a);
        if last.0 != b.last().0 {
            lemma_precedes_transitive(last.0, b.last().0, last.0);
            lemma_precedes_irreflexive(last.0);
        }
        lemma_table_at(a, a.len() - 1);
        lemma_table_at(b, b.len() - 1);
        lemma_table_drop_last(a);
        lemma_table_drop_last(b);
        law_list_is_determined(a.drop_last(), b.drop_last());
        assert(a =~= a.drop_last().push(last));
        assert(b =~= b.drop_last().push(last));
    }
}

/// No hostname of an equal table comes after the last one of a list.
proof fn lemma_last_is_greatest(a: Seq<(Seq<char>, u16)>, b: Seq<(Seq<char>, u16)>)
    requires
        is_ordered(a),
        is_ordered(b),
        table(a) == table(b),
        a.len() > 0,
        b.len() > 0,
    ensures
        b.last().0 == a.last().0 || precedes(b.last().0, a.last().0),
{
    let name = b.last().0;
    lemma_table_at(b, b.len() - 1);
    assert(table(a).contains_key(name));
    let i = choose|i: int| 0 <= i < a.len() && (#[trigger] a[i]).0 == name;
    if i < a.len() - 1 {
        assert(precedes(a[i].0, a[a.len() - 1].0));
    }
}

/// Without its last route, an ordered list holds the table without that host.
proof fn lemma_table_drop_last(routes: Seq<(Seq<char>, u16)>)
    requires
        is_ordered(routes),
        routes.len() > 0,
    ensures
        is_ordered(routes.drop_last()),
        table(routes.drop_last()) == table(routes).remove(routes.last().0),
{
    let init = routes.drop_last();
    let name = routes.last().0;
    let expected = table(routes).remove(name);
    assert(forall|j: int| 0 <= j < init.len() ==> #[trigger] init[j] == routes[j]);
    assert forall|j: int| 0 <= j < init.len() implies expected.contains_key((#[trigger] init[j]).0)
        && expected[init[j].0] == init[j].1 by {
        lemma_table_at(routes, j);
        if init[j].0 == name {
            lemma_ordered_unique(routes, j, routes.len() - 1);
        }
    }
    assert forall|key: Seq<char>| #[trigger] expected.contains_key(key) implies table(
        init,
    ).contains_key(key) by {
        let j = choose|j: int| 0 <= j < routes.len() && (#[trigger] routes[j]).0 == key;
        assert(init[j].0 == key);
    }
    lemma_table_is(init, expected);
}

/// Whatever entries are read, every route goes from an exact host in its canonical
/// spelling to a port other than zero.
pub proof fn law_loaded_routes_are_valid(entries: Seq<(Seq<char>, u16)>, name: Seq<char>)
    requires
        load(entries) is Ok,
        load(entries)->Ok_0.contains_key(name),
    ensures
        is_exact_host(name),
        load(entries)->Ok_0[name] != 0,
    decreases entries.len(),
{
    let before = load(entries.drop_last())->Ok_0;
    let last = exact_host(entries.last().0)->Ok_0;
    law_host_round_trip(entries.last().0);
    if name != last {
        law_loaded_routes_are_valid(entries.drop_last(), name);
    }
}

} // verus!
