//! The service registry: every discovered service definition, plus the
//! ordered route table built from the dynamic ones. Built once, at startup,
//! from the definitions the surrounding program read off disk; request
//! handling never mutates it.

use vstd::prelude::*;
use crate::config::RouteConfig;
use crate::pattern::{CompiledRoute, compiled_from, pattern_wf};

verus! {

/// What a service serves: a stored document, or a parameterized template
/// with a transformer script.
pub enum ServiceType {
    /// One stored JSON document, served verbatim.
    Static { content: String },
    /// A JSON template rendered against path parameters, then transformed.
    Dynamic { template: String, transformer: String, route_config: RouteConfig },
}

/// One discovered service definition.
pub struct ServiceConfig {
    /// The unique service name (its directory name).
    pub name: String,
    /// Static or dynamic behaviour.
    pub service_type: ServiceType,
    /// Where the definition was found, for diagnostics.
    pub path: String,
}

/// One row of the route table: a compiled matcher, the service it belongs
/// to, and the method it answers.
pub struct RouteEntry {
    pub route: CompiledRoute,
    pub service_name: String,
    pub method: String,
}

/// The registry: all service definitions, and the route table in
/// registration order, which is match-priority order.
pub struct ServiceRegistry {
    pub services: Vec<ServiceConfig>,
    pub route_patterns: Vec<RouteEntry>,
}

/// The name-to-definition mapping described by a definition list, a later
/// definition of the same name winning.
pub open spec fn services_map(s: Seq<ServiceConfig>) -> Map<Seq<char>, ServiceConfig>
    decreases s.len(),
{
    if s.len() == 0 {
        Map::empty()
    } else {
        services_map(s.drop_last()).insert(s.last().name@, s.last())
    }
}

/// A name is in the mapping exactly when some definition carries it.
pub proof fn lemma_services_map_contains(s: Seq<ServiceConfig>, k: Seq<char>)
    ensures
        services_map(s).contains_key(k) <==> exists|i: int| 0 <= i < s.len() && s[i].name@ == k,
    decreases s.len(),
{
    if s.len() > 0 {
        lemma_services_map_contains(s.drop_last(), k);
        if services_map(s).contains_key(k) {
            if s.last().name@ == k {
                assert(s[s.len() - 1].name@ == k);
            } else {
                let i = choose|i: int|
                    0 <= i < s.drop_last().len() && s.drop_last()[i].name@ == k;
                assert(s[i].name@ == k);
            }
        }
        if exists|i: int| 0 <= i < s.len() && s[i].name@ == k {
            let i = choose|i: int| 0 <= i < s.len() && s[i].name@ == k;
            if i < s.len() - 1 {
                assert(s.drop_last()[i].name@ == k);
            }
        }
    }
}

/// The mapping sends a name to the last definition that carries it.
pub proof fn lemma_services_map_last(s: Seq<ServiceConfig>, i: int)
    requires
        0 <= i < s.len(),
        forall|j: int| i < j < s.len() ==> s[j].name@ != s[i].name@,
    ensures
        services_map(s).contains_key(s[i].name@),
        services_map(s)[s[i].name@] == s[i],
    decreases s.len(),
{
    if i == s.len() - 1 {
    } else {
        assert(s.drop_last()[i] == s[i]);
        assert forall|j: int| i < j < s.drop_last().len() implies s.drop_last()[j].name@
            != s.drop_last()[i].name@ by {
            assert(s.drop_last()[j] == s[j]);
        }
        lemma_services_map_last(s.drop_last(), i);
        assert(s.last().name@ != s[i].name@);
    }
}

/// A dynamic definition whose pattern compiles gets a row in the route
/// table; everything else does not.
pub open spec fn registrable(c: ServiceConfig) -> bool {
    match c.service_type {
        ServiceType::Dynamic { route_config, .. } => pattern_wf(route_config.pattern@),
        ServiceType::Static { .. } => false,
    }
}

/// The indices, in order, of the definitions that get a route-table row.
pub open spec fn dynamic_idxs(s: Seq<ServiceConfig>) -> Seq<int>
    decreases s.len(),
{
    if s.len() == 0 {
        Seq::empty()
    } else {
        dynamic_idxs(s.drop_last()) + if registrable(s.last()) {
            seq![s.len() - 1]
        } else {
            Seq::empty()
        }
    }
}

/// The route-table row `e` is the one registered for definition `c`.
pub open spec fn entry_registers(e: RouteEntry, c: ServiceConfig) -> bool {
    match c.service_type {
        ServiceType::Dynamic { route_config, .. } => {
            &&& e.service_name@ == c.name@
            &&& e.method@ == route_config.method@
            &&& compiled_from(e.route, route_config.pattern@)
        },
        ServiceType::Static { .. } => false,
    }
}

impl ServiceRegistry {
    /// An empty registry.
    pub fn new() -> (r: ServiceRegistry)
        ensures
            r.services@.len() == 0,
            r.route_patterns@.len() == 0,
    {
        ServiceRegistry { services: Vec::new(), route_patterns: Vec::new() }
    }

    /// Build the registry from discovered definitions: keep them all, and
    /// give each dynamic definition whose pattern compiles a route-table
    /// row, in discovery order. A dynamic definition whose pattern does not
    /// compile stays registered but gets no row, so it is unreachable by
    /// dynamic dispatch.
    pub fn build(configs: Vec<ServiceConfig>) -> (r: ServiceRegistry)
        ensures
            r.services@ == configs@,
            r.route_patterns@.len() == dynamic_idxs(configs@).len(),
            forall|k: int|
                0 <= k < r.route_patterns@.len() ==> 0 <= #[trigger] dynamic_idxs(
                    configs@,
                )[k] < configs@.len(),
            forall|k: int|
                0 <= k < r.route_patterns@.len() ==> entry_registers(
                    #[trigger] r.route_patterns@[k],
                    configs@[dynamic_idxs(configs@)[k]],
                ),
    {
        let n = configs.len();
        let mut table: Vec<RouteEntry> = Vec::new();
        let mut i: usize = 0;
        proof {
            assert(dynamic_idxs(configs@.take(0)) =~= Seq::<int>::empty());
            assert(table@ =~= Seq::<RouteEntry>::empty());
        }
        while i < n
            invariant
                n == configs.len(),
                0 <= i <= n,
                table@.len() == dynamic_idxs(configs@.take(i as int)).len(),
                forall|k: int|
                    0 <= k < table@.len() ==> 0 <= #[trigger] dynamic_idxs(
                        configs@.take(i as int),
                    )[k] < i,
                forall|k: int|
                    0 <= k < table@.len() ==> entry_registers(
                        #[trigger] table@[k],
                        configs@[dynamic_idxs(configs@.take(i as int))[k]],
                    ),
            decreases n - i,
        {
            let ghost pre = configs@.take(i as int);
            let ghost cur = configs@.take(i + 1);
            proof {
                assert(cur.drop_last() =~= pre);
                assert(cur.last() == configs@[i as int]);
            }
            match &configs[i].service_type {
                ServiceType::Dynamic { route_config, .. } => {
                    match CompiledRoute::compile(route_config.pattern.as_str()) {
                        Ok(route) => {
                            let entry = RouteEntry {
                                route,
                                service_name: configs[i].name.clone(),
                                method: route_config.method.clone(),
                            };
                            let ghost tpre = table@;
                            let ghost ev = entry;
                            proof {
                                assert(entry_registers(ev, configs@[i as int]));
                            }
                            table.push(entry);
                            proof {
                                assert(registrable(configs@[i as int]));
                                assert(dynamic_idxs(cur) =~= dynamic_idxs(pre).push(i as int));
                                assert(table@ =~= tpre.push(ev));
                                assert forall|k: int| 0 <= k < table@.len() implies {
                                    &&& 0 <= #[trigger] dynamic_idxs(cur)[k] < i + 1
                                    &&& entry_registers(
                                        #[trigger] table@[k],
                                        configs@[dynamic_idxs(cur)[k]],
                                    )
                                } by {
                                    if k < tpre.len() {
                                        assert(dynamic_idxs(cur)[k] == dynamic_idxs(pre)[k]);
                                        assert(table@[k] == tpre[k]);
                                    } else {
                                        assert(dynamic_idxs(cur)[k] == i as int);
                                        assert(table@[k] == ev);
                                    }
                                }
                            }
                        },
                        Err(_) => {
                            proof {
                                assert(!registrable(configs@[i as int]));
                                assert(dynamic_idxs(cur) =~= dynamic_idxs(pre));
                            }
                        },
                    }
                },
                ServiceType::Static { .. } => {
                    proof {
                        assert(!registrable(configs@[i as int]));
                        assert(dynamic_idxs(cur) =~= dynamic_idxs(pre));
                    }
                },
            }
            i += 1;
        }
        proof {
            assert(configs@.take(n as int) =~= configs@);
        }
        ServiceRegistry { services: configs, route_patterns: table }
    }

    /// Look up a service definition by name; with duplicate names, the one
    /// discovered last wins, as in the name-keyed mapping.
    pub fn get_service(&self, name: &str) -> (r: Option<&ServiceConfig>)
        ensures
            r is Some <==> services_map(self.services@).contains_key(name@),
            r matches Some(c) ==> *c == services_map(self.services@)[name@],
    {
        let n = self.services.len();
        let mut i: usize = n;
        proof {
            lemma_services_map_contains(self.services@, name@);
        }
        while i > 0
            invariant
                n == self.services.len(),
                0 <= i <= n,
                forall|j: int| i <= j < n ==> self.services@[j].name@ != name@,
            decreases i,
        {
            i = i - 1;
            if crate::text::str_eq(self.services[i].name.as_str(), name) {
                proof {
                    lemma_services_map_last(self.services@, i as int);
                }
                return Some(&self.services[i]);
            }
        }
        proof {
            lemma_services_map_contains(self.services@, name@);
        }
        None
    }
}

} // verus!
