//! The application and its route registry: routes are bound to their
//! declared verbs at startup and the finished table is then read-only. On a
//! duplicate (path, verb) registration the later registration wins: the
//! table is searched newest-first.

use vstd::prelude::*;

use crate::routes::CollectionRoute;
use crate::routes::SingleRoute;
use crate::routes::Verb;
use crate::store::Database;

verus! {

/// One registered route: a single-item route or a collection route.
pub enum RouteConfig {
    Single(SingleRoute),
    Collection(CollectionRoute),
}

/// The path pattern a route serves.
pub open spec fn config_path(c: RouteConfig) -> Seq<char> {
    match c {
        RouteConfig::Single(s) => s.path@,
        RouteConfig::Collection(s) => s.path@,
    }
}

/// The verbs a route accepts.
pub open spec fn config_methods(c: RouteConfig) -> Seq<Verb> {
    match c {
        RouteConfig::Single(s) => s.methods@,
        RouteConfig::Collection(s) => s.methods@,
    }
}

/// The route bound under `(path, verb)`: the most recent binding wins.
pub open spec fn lookup_route(
    bs: Seq<(Verb, RouteConfig)>,
    path: Seq<char>,
    verb: Verb,
) -> Option<RouteConfig>
    decreases bs.len(),
{
    if bs.len() == 0 {
        None
    } else if bs.last().0 == verb && config_path(bs.last().1) == path {
        Some(bs.last().1)
    } else {
        lookup_route(bs.drop_last(), path, verb)
    }
}

/// The application: the shared handle to the database port together with
/// the route registry the transport layer dispatches through.
pub struct Application<DB: Database> {
    pub data_source: DB,
    routes: Vec<RouteConfig>,
    bindings: Vec<(usize, Verb)>,
}

impl<DB: Database> Application<DB> {
    /// Every binding points into the route list.
    pub closed spec fn routes_wf(&self) -> bool {
        forall|i: int|
            0 <= i < self.bindings@.len() ==> (#[trigger] self.bindings@[i]).0
                < self.routes@.len()
    }

    /// The database port handle the application was built over.
    pub closed spec fn spec_data_source(&self) -> DB {
        self.data_source
    }

    /// The registered bindings in registration order: each verb of each
    /// registered route, paired with that route.
    pub closed spec fn bindings_model(&self) -> Seq<(Verb, RouteConfig)> {
        let routes = self.routes@;
        self.bindings@.map_values(|b: (usize, Verb)| (b.1, routes[b.0 as int]))
    }

    /// An application over `data_source` with no routes registered.
    pub fn new(data_source: DB) -> (r: Self)
        ensures
            r.routes_wf(),
            r.bindings_model() == Seq::<(Verb, RouteConfig)>::empty(),
            r.spec_data_source() == data_source,
    {
        let r = Application { data_source, routes: Vec::new(), bindings: Vec::new() };
        proof {
            assert(r.bindings_model() =~= Seq::<(Verb, RouteConfig)>::empty());
        }
        r
    }

    /// Registers `route` under each of its declared verbs. A later
    /// registration of the same (path, verb) overrides an earlier one.
    pub fn add_route(&mut self, route: RouteConfig)
        requires
            old(self).routes_wf(),
        ensures
            final(self).routes_wf(),
            final(self).spec_data_source() == old(self).spec_data_source(),
            final(self).bindings_model() == old(self).bindings_model() + config_methods(
                route,
            ).map_values(|v: Verb| (v, route)),
    {
        let ghost old_model = self.bindings_model();
        let idx = self.routes.len();
        let mut verbs: Vec<Verb> = Vec::new();
        {
            let ms = match &route {
                RouteConfig::Single(s) => &s.methods,
                RouteConfig::Collection(s) => &s.methods,
            };
            let mut i: usize = 0;
            while i < ms.len()
                invariant
                    0 <= i <= ms@.len(),
                    verbs@ =~= ms@.take(i as int),
                decreases ms.len() - i,
            {
                verbs.push(ms[i]);
                i = i + 1;
            }
            proof {
                assert(ms@.take(ms@.len() as int) =~= ms@);
            }
        }
        proof {
            assert(verbs@ == config_methods(route));
        }
        self.routes.push(route);
        proof {
            assert(self.bindings_model() =~= old_model);
        }
        let mut i: usize = 0;
        proof {
            assert(self.bindings_model() =~= old_model + verbs@.take(0).map_values(
                |v: Verb| (v, route),
            ));
        }
        while i < verbs.len()
            invariant
                0 <= i <= verbs@.len(),
                idx < self.routes@.len(),
                self.routes@[idx as int] == route,
                self.routes_wf(),
                self.spec_data_source() == old(self).spec_data_source(),
                verbs@ == config_methods(route),
                self.bindings_model() == old_model + verbs@.take(i as int).map_values(
                    |v: Verb| (v, route),
                ),
            decreases verbs.len() - i,
        {
            let ghost bm_before = self.bindings_model();
            self.bindings.push((idx, verbs[i]));
            proof {
                let curr = self.bindings_model();
                assert forall|j: int| 0 <= j < bm_before.len() implies curr[j] == bm_before[j] by {
                    let b = self.bindings@[j];
                    assert(curr[j] == (b.1, self.routes@[b.0 as int]));
                }
                assert(curr.last() == (verbs@[i as int], route));
                assert(curr =~= bm_before.push((verbs@[i as int], route)));
                assert(verbs@.take(i as int + 1) =~= verbs@.take(i as int).push(verbs@[i as int]));
                assert(old_model + verbs@.take(i as int + 1).map_values(|v: Verb| (v, route))
                    =~= bm_before.push((verbs@[i as int], route)));
            }
            i = i + 1;
        }
        proof {
            assert(verbs@.take(verbs@.len() as int) =~= verbs@);
        }
    }

    /// The route bound under `(path, verb)`, newest registration first.
    pub fn dispatch(&self, path: &str, verb: Verb) -> (r: Option<&RouteConfig>)
        requires
            self.routes_wf(),
        ensures
            match r {
                Some(c) => lookup_route(self.bindings_model(), path@, verb) == Some(*c),
                None => lookup_route(self.bindings_model(), path@, verb) is None,
            },
    {
        let path_owned: String = path.to_owned();
        let ghost bm = self.bindings_model();
        let mut i: usize = self.bindings.len();
        proof {
            assert(bm.take(i as int) =~= bm);
        }
        while i > 0
            invariant
                0 <= i <= self.bindings@.len(),
                self.routes_wf(),
                bm == self.bindings_model(),
                bm.len() == self.bindings@.len(),
                path_owned@ == path@,
                lookup_route(bm, path@, verb) == lookup_route(bm.take(i as int), path@, verb),
            decreases i,
        {
            i = i - 1;
            let (idx, bound_verb) = self.bindings[i];
            let candidate = &self.routes[idx];
            let candidate_path = match candidate {
                RouteConfig::Single(s) => &s.path,
                RouteConfig::Collection(s) => &s.path,
            };
            proof {
                let b = self.bindings@[i as int];
                assert(bm[i as int] == (b.1, self.routes@[b.0 as int]));
                assert(bm.take(i as int + 1).last() == bm[i as int]);
                assert(bm.take(i as int + 1).drop_last() =~= bm.take(i as int));
            }
            if bound_verb == verb && *candidate_path == path_owned {
                return Some(candidate);
            }
        }
        proof {
            assert(bm.take(0) =~= Seq::<(Verb, RouteConfig)>::empty());
        }
        None
    }
}

} // verus!
