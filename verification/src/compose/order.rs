//! The order in which the services of a project start: every service after
//! the services it waits for.

use crate::compose::{dependency_names, ComposeError, ComposeFile, Service};
use crate::text::{str_eq, string_views};
use vstd::prelude::*;

verus! {

/// Whether the file defines a service of this name.
pub open spec fn is_defined(services: Seq<Service>, name: Seq<char>) -> bool {
    exists|i: int| 0 <= i < services.len() && (#[trigger] services[i]).name@ == name
}

/// Whether `i` is the place of the first service of this name.
pub open spec fn is_first_named(services: Seq<Service>, name: Seq<char>, i: int) -> bool {
    &&& 0 <= i < services.len()
    &&& services[i].name@ == name
    &&& forall|j: int| 0 <= j < i ==> (#[trigger] services[j]).name@ != name
}

/// Whether the service `a` waits for the service `b`: `b` is among the
/// names under `depends_on` of the first service named `a`.
pub open spec fn waits_for(services: Seq<Service>, a: Seq<char>, b: Seq<char>) -> bool {
    exists|i: int| #[trigger]
        is_first_named(services, a, i) && dependency_names(
            services[i].config.depends_on,
        ).contains(b)
}

/// Whether each service of `chain` waits for the next.
pub open spec fn is_chain(services: Seq<Service>, chain: Seq<Seq<char>>) -> bool {
    forall|k: int|
        0 <= k < chain.len() - 1 ==> waits_for(services, #[trigger] chain[k], chain[k + 1])
}

/// Whether some service waits, directly or through others, for itself.
pub open spec fn has_cycle(services: Seq<Service>) -> bool {
    exists|chain: Seq<Seq<char>>|
        chain.len() >= 2 && #[trigger] is_chain(services, chain) && chain[0] == chain.last()
}

/// Whether `order` is an order in which the services can start: it names
/// every defined service once and no other; no service waits for one that
/// is not defined; and, unless some service waits for itself, every service
/// stands after all the services it waits for.
pub open spec fn is_start_order(services: Seq<Service>, order: Seq<Seq<char>>) -> bool {
    &&& order.no_duplicates()
    &&& forall|name: Seq<char>| #[trigger] order.contains(name) <==> is_defined(services, name)
    &&& forall|a: Seq<char>, b: Seq<char>|
        is_defined(services, a) && #[trigger] waits_for(services, a, b) ==> is_defined(
            services,
            b,
        )
    &&& !has_cycle(services) ==> forall|i: int, d: Seq<char>|
        0 <= i < order.len() && #[trigger] waits_for(services, order[i], d) ==> exists|j: int|
            0 <= j < i && order[j] == d
}

/// What holds while the services are visited: `visited` are the services
/// that are ordered or under way, and `stack` are those under way, each
/// waiting for the next.
pub open spec fn visiting(
    services: Seq<Service>,
    visited: Seq<Seq<char>>,
    order: Seq<Seq<char>>,
    stack: Seq<Seq<char>>,
) -> bool {
    &&& visited.no_duplicates()
    &&& order.no_duplicates()
    &&& stack.no_duplicates()
    &&& forall|x: Seq<char>| #[trigger]
        visited.contains(x) <==> (order.contains(x) || stack.contains(x))
    &&& forall|x: Seq<char>| #[trigger] visited.contains(x) ==> is_defined(services, x)
    &&& forall|x: Seq<char>| !(order.contains(x) && #[trigger] stack.contains(x))
    &&& is_chain(services, stack)
    &&& forall|i: int, d: Seq<char>|
        0 <= i < order.len() && #[trigger] waits_for(services, order[i], d) ==> visited.contains(
            d,
        )
    &&& has_cycle(services) || forall|i: int, d: Seq<char>|
        0 <= i < order.len() && #[trigger] waits_for(services, order[i], d) ==> exists|j: int|
            0 <= j < i && order[j] == d
}

/// Whether `longer` begins with the names of `shorter`.
pub open spec fn begins_with(longer: Seq<Seq<char>>, shorter: Seq<Seq<char>>) -> bool {
    shorter.len() <= longer.len() && forall|i: int|
        0 <= i < shorter.len() ==> longer[i] == shorter[i]
}

fn contains_name(list: &Vec<String>, name: &str) -> (r: bool)
    ensures
        r == string_views(list@).contains(name@),
{
    let mut i: usize = 0;
    while i < list.len()
        invariant
            i <= list.len(),
            forall|j: int| 0 <= j < i ==> string_views(list@)[j] != name@,
        decreases list.len() - i,
    {
        if str_eq(list[i].as_str(), name) {
            proof {
                assert(string_views(list@)[i as int] == name@);
            }
            return true;
        }
        i += 1;
    }
    false
}

/// The place of the first service of this name.
pub fn find_service(services: &Vec<Service>, name: &str) -> (r: Option<usize>)
    ensures
        match r {
            Some(i) => is_first_named(services@, name@, i as int),
            None => !is_defined(services@, name@),
        },
{
    let mut i: usize = 0;
    while i < services.len()
        invariant
            i <= services.len(),
            forall|j: int| 0 <= j < i ==> (#[trigger] services@[j]).name@ != name@,
        decreases services.len() - i,
    {
        if str_eq(services[i].name.as_str(), name) {
            return Some(i);
        }
        i += 1;
    }
    None
}

/// Names that are all different and all defined are no more than there are
/// services.
proof fn lemma_defined_names_are_few(services: Seq<Service>, names: Seq<Seq<char>>)
    requires
        names.no_duplicates(),
        forall|x: Seq<char>| #[trigger] names.contains(x) ==> is_defined(services, x),
    ensures
        names.len() <= services.len(),
{
    let all = Seq::new(services.len(), |i: int| services[i].name@);
    names.unique_seq_to_set();
    all.lemma_cardinality_of_set();
    assert forall|x: Seq<char>| names.to_set().contains(x) implies all.to_set().contains(x) by {
        assert(names.contains(x));
        let i = choose|i: int| 0 <= i < services.len() && (#[trigger] services[i]).name@ == x;
        assert(all[i] == x);
    }
    vstd::set_lib::lemma_len_subset(names.to_set(), all.to_set());
}

/// A service under way that is waited for by the service on top of the
/// stack closes a circle.
proof fn lemma_waiting_for_the_stack_is_a_cycle(
    services: Seq<Service>,
    stack: Seq<Seq<char>>,
    d: Seq<char>,
)
    requires
        stack.len() > 0,
        is_chain(services, stack),
        stack.contains(d),
        waits_for(services, stack.last(), d),
    ensures
        has_cycle(services),
{
    let k = choose|k: int| 0 <= k < stack.len() && stack[k] == d;
    let chain = stack.subrange(k, stack.len() as int).push(d);
    assert forall|m: int| 0 <= m < chain.len() - 1 implies waits_for(
        services,
        #[trigger] chain[m],
        chain[m + 1],
    ) by {
        if m < chain.len() - 2 {
            assert(chain[m] == stack[k + m]);
            assert(chain[m + 1] == stack[k + m + 1]);
        } else {
            assert(chain[m] == stack.last());
            assert(chain[m + 1] == d);
        }
    }
    assert(is_chain(services, chain));
    assert(chain[0] == d);
    assert(chain.last() == d);
}

fn visit(
    name: &str,
    services: &Vec<Service>,
    visited: &mut Vec<String>,
    order: &mut Vec<String>,
    Ghost(stack): Ghost<Seq<Seq<char>>>,
) -> (r: Result<(), ComposeError>)
    requires
        visiting(services@, string_views(old(visited)@), string_views(old(order)@), stack),
        stack.len() > 0 ==> waits_for(services@, stack.last(), name@),
    ensures
        match r {
            Ok(_) => {
                &&& visiting(
                    services@,
                    string_views(final(visited)@),
                    string_views(final(order)@),
                    stack,
                )
                &&& begins_with(string_views(final(visited)@), string_views(old(visited)@))
                &&& begins_with(string_views(final(order)@), string_views(old(order)@))
                &&& string_views(final(visited)@).contains(name@)
            },
            Err(e) => {
                &&& e matches ComposeError::UndefinedService(missing)
                &&& !is_defined(services@, missing@)
                &&& (missing@ == name@ || exists|a: Seq<char>|
                    is_defined(services@, a) && waits_for(services@, a, missing@))
            },
        },
    decreases services.len() - old(visited).len(),
{
    let ghost g = services@;
    let ghost visited0 = string_views(visited@);
    let ghost order0 = string_views(order@);
    if contains_name(visited, name) {
        return Ok(());
    }
    let index = match find_service(services, name) {
        Some(index) => index,
        None => {
            return Err(ComposeError::UndefinedService(name.to_owned()));
        },
    };
    visited.push(name.to_owned());
    let ghost under_way = stack.push(name@);
    let ghost visited1 = string_views(visited@);
    proof {
        assert(visited1 =~= visited0.push(name@));
        assert(g[index as int].name@ == name@);
        assert forall|x: Seq<char>| #[trigger]
            visited1.contains(x) <==> (order0.contains(x) || under_way.contains(x)) by {
            if visited1.contains(x) {
                let i = choose|i: int| 0 <= i < visited1.len() && visited1[i] == x;
                if i < visited0.len() {
                    assert(visited0[i] == x);
                    assert(visited0.contains(x));
                    if stack.contains(x) {
                        let k = choose|k: int| 0 <= k < stack.len() && stack[k] == x;
                        assert(under_way[k] == x);
                    }
                } else {
                    assert(under_way[stack.len() as int] == x);
                }
            }
            if order0.contains(x) {
                assert(visited0.contains(x));
                let i = choose|i: int| 0 <= i < visited0.len() && visited0[i] == x;
                assert(visited1[i] == x);
            }
            if under_way.contains(x) {
                let k = choose|k: int| 0 <= k < under_way.len() && under_way[k] == x;
                if k < stack.len() {
                    assert(stack[k] == x);
                    assert(stack.contains(x));
                    assert(visited0.contains(x));
                    let i = choose|i: int| 0 <= i < visited0.len() && visited0[i] == x;
                    assert(visited1[i] == x);
                } else {
                    assert(visited1[visited0.len() as int] == x);
                }
            }
        }
        assert forall|x: Seq<char>| #[trigger] visited1.contains(x) implies is_defined(g, x) by {
            let i = choose|i: int| 0 <= i < visited1.len() && visited1[i] == x;
            if i < visited0.len() {
                assert(visited0[i] == x);
                assert(visited0.contains(x));
            }
        }
        assert forall|x: Seq<char>| !(order0.contains(x) && #[trigger] under_way.contains(x)) by {
            if order0.contains(x) && under_way.contains(x) {
                let k = choose|k: int| 0 <= k < under_way.len() && under_way[k] == x;
                if k < stack.len() {
                    assert(stack[k] == x);
                    assert(stack.contains(x));
                } else {
                    assert(visited0.contains(x));
                }
            }
        }
        assert(under_way.no_duplicates()) by {
            assert forall|a: int, b: int|
                0 <= a < under_way.len() && 0 <= b < under_way.len() && a != b implies under_way[a]
                != under_way[b] by {
                if a == stack.len() {
                    if under_way[b] == name@ {
                        assert(stack[b] == name@);
                        assert(stack.contains(name@));
                        assert(visited0.contains(name@));
                    }
                } else if b == stack.len() {
                    if under_way[a] == name@ {
                        assert(stack[a] == name@);
                        assert(stack.contains(name@));
                        assert(visited0.contains(name@));
                    }
                } else {
                    assert(stack[a] != stack[b]);
                }
            }
        }
        assert(is_chain(g, under_way)) by {
            assert forall|k: int| 0 <= k < under_way.len() - 1 implies waits_for(
                g,
                #[trigger] under_way[k],
                under_way[k + 1],
            ) by {
                if k < stack.len() - 1 {
                    assert(under_way[k] == stack[k]);
                    assert(under_way[k + 1] == stack[k + 1]);
                } else {
                    assert(under_way[k] == stack.last());
                }
            }
        }
        assert forall|i: int, d: Seq<char>|
            0 <= i < order0.len() && #[trigger] waits_for(g, order0[i], d) implies visited1.contains(
            d,
        ) by {
            assert(visited0.contains(d));
            let k = choose|k: int| 0 <= k < visited0.len() && visited0[k] == d;
            assert(visited1[k] == d);
        }
        assert(visiting(g, visited1, order0, under_way));
    }
    let deps = services[index].config.depends_on.service_names();
    let mut k: usize = 0;
    while k < deps.len()
        invariant
            k <= deps.len(),
            g == services@,
            index < services.len(),
            is_first_named(g, name@, index as int),
            string_views(deps@) == dependency_names(g[index as int].config.depends_on),
            under_way == stack.push(name@),
            visiting(g, string_views(visited@), string_views(order@), under_way),
            begins_with(string_views(visited@), visited1),
            visited1 == visited0.push(name@),
            begins_with(string_views(order@), order0),
            old(visited)@.len() < visited@.len(),
            forall|j: int| 0 <= j < k ==> string_views(visited@).contains(string_views(deps@)[j]),
        decreases deps.len() - k,
    {
        let ghost before_visited = string_views(visited@);
        let ghost before_order = string_views(order@);
        proof {
            assert(under_way.last() == name@);
            assert(string_views(deps@)[k as int] == deps[k as int]@);
            assert(dependency_names(g[index as int].config.depends_on).contains(deps[k as int]@));
            assert(waits_for(g, name@, deps[k as int]@));
            lemma_defined_names_are_few(g, before_visited);
            assert(before_visited.len() == visited@.len());
            assert(visited@.len() <= services.len());
        }
        match visit(deps[k].as_str(), services, visited, order, Ghost(under_way)) {
            Ok(_) => {},
            Err(e) => {
                proof {
                    assert(is_defined(g, name@));
                }
                return Err(e);
            },
        }
        proof {
            let now = string_views(visited@);
            assert forall|j: int| 0 <= j < k + 1 implies now.contains(string_views(deps@)[j]) by {
                if j < k {
                    let x = string_views(deps@)[j];
                    assert(before_visited.contains(x));
                    let i = choose|i: int|
                        0 <= i < before_visited.len() && before_visited[i] == x;
                    assert(now[i] == x);
                }
            }
        }
        k += 1;
    }
    let ghost visited2 = string_views(visited@);
    let ghost order2 = string_views(order@);
    order.push(name.to_owned());
    proof {
        let order3 = string_views(order@);
        assert(order3 =~= order2.push(name@));
        assert(under_way.contains(name@)) by {
            assert(under_way[stack.len() as int] == name@);
        }
        assert(!order2.contains(name@));
        assert(order3.no_duplicates()) by {
            assert forall|a: int, b: int|
                0 <= a < order3.len() && 0 <= b < order3.len() && a != b implies order3[a]
                != order3[b] by {
                if a == order2.len() {
                    assert(order2[b] == order3[b]);
                    assert(order2.contains(order2[b]));
                } else if b == order2.len() {
                    assert(order2[a] == order3[a]);
                    assert(order2.contains(order2[a]));
                } else {
                    assert(order2[a] != order2[b]);
                }
            }
        }
        assert forall|x: Seq<char>| #[trigger]
            visited2.contains(x) <==> (order3.contains(x) || stack.contains(x)) by {
            if visited2.contains(x) {
                if order2.contains(x) {
                    let i = choose|i: int| 0 <= i < order2.len() && order2[i] == x;
                    assert(order3[i] == x);
                } else {
                    assert(under_way.contains(x));
                    let m = choose|m: int| 0 <= m < under_way.len() && under_way[m] == x;
                    if m < stack.len() {
                        assert(stack[m] == x);
                    } else {
                        assert(order3[order2.len() as int] == x);
                    }
                }
            }
            if order3.contains(x) {
                let i = choose|i: int| 0 <= i < order3.len() && order3[i] == x;
                if i < order2.len() {
                    assert(order2[i] == x);
                    assert(order2.contains(x));
                } else {
                    assert(under_way.contains(x));
                }
            }
            if stack.contains(x) {
                let m = choose|m: int| 0 <= m < stack.len() && stack[m] == x;
                assert(under_way[m] == x);
                assert(under_way.contains(x));
            }
        }
        assert forall|x: Seq<char>| !(order3.contains(x) && #[trigger] stack.contains(x)) by {
            if order3.contains(x) && stack.contains(x) {
                let m = choose|m: int| 0 <= m < stack.len() && stack[m] == x;
                assert(under_way[m] == x);
                assert(under_way.contains(x));
                let i = choose|i: int| 0 <= i < order3.len() && order3[i] == x;
                if i < order2.len() {
                    assert(order2[i] == x);
                    assert(order2.contains(x));
                } else {
                    assert(under_way[stack.len() as int] == x);
                    assert(m != stack.len());
                }
            }
        }
        assert(is_chain(g, stack)) by {
            assert forall|m: int| 0 <= m < stack.len() - 1 implies waits_for(
                g,
                #[trigger] stack[m],
                stack[m + 1],
            ) by {
                assert(under_way[m] == stack[m]);
                assert(under_way[m + 1] == stack[m + 1]);
            }
        }
        assert(stack.no_duplicates()) by {
            assert forall|a: int, b: int|
                0 <= a < stack.len() && 0 <= b < stack.len() && a != b implies stack[a]
                != stack[b] by {
                assert(under_way[a] == stack[a]);
                assert(under_way[b] == stack[b]);
            }
        }
        assert forall|i: int, d: Seq<char>|
            0 <= i < order3.len() && #[trigger] waits_for(g, order3[i], d) implies visited2.contains(
            d,
        ) by {
            if i < order2.len() {
                assert(order3[i] == order2[i]);
            } else {
                let w = choose|w: int| #[trigger]
                    is_first_named(g, name@, w) && dependency_names(
                        g[w].config.depends_on,
                    ).contains(d);
                assert(w == index);
                let j = choose|j: int|
                    0 <= j < string_views(deps@).len() && string_views(deps@)[j] == d;
                assert(visited2.contains(string_views(deps@)[j]));
            }
        }
        if !has_cycle(g) {
            assert forall|i: int, d: Seq<char>|
                0 <= i < order3.len() && #[trigger] waits_for(g, order3[i], d) implies exists|
                j: int,
            |
                0 <= j < i && order3[j] == d by {
                if i < order2.len() {
                    assert(order3[i] == order2[i]);
                    let j = choose|j: int| 0 <= j < i && order2[j] == d;
                    assert(order3[j] == d);
                } else {
                    assert(visited2.contains(d));
                    if under_way.contains(d) {
                        lemma_waiting_for_the_stack_is_a_cycle(g, under_way, d);
                    }
                    assert(order2.contains(d));
                    let j = choose|j: int| 0 <= j < order2.len() && order2[j] == d;
                    assert(order3[j] == d);
                }
            }
        }
        assert(string_views(visited@).contains(name@)) by {
            assert(visited1[visited0.len() as int] == name@);
            assert(visited2[visited0.len() as int] == name@);
        }
    }
    Ok(())
}

/// The services of `compose` in an order in which they can start: each
/// after the services it waits for. The order is refused where a service
/// waits for one that the file does not define; the error names it.
pub fn sorted_services(compose: &ComposeFile) -> (r: Result<Vec<String>, ComposeError>)
    ensures
        match r {
            Ok(order) => is_start_order(compose.services@, string_views(order@)),
            Err(e) => {
                &&& e matches ComposeError::UndefinedService(missing)
                &&& !is_defined(compose.services@, missing@)
                &&& exists|a: Seq<char>|
                    is_defined(compose.services@, a) && waits_for(
                        compose.services@,
                        a,
                        missing@,
                    )
            },
        },
{
    let services = &compose.services;
    let ghost g = services@;
    let ghost nothing = Seq::<Seq<char>>::empty();
    let mut visited: Vec<String> = Vec::new();
    let mut order: Vec<String> = Vec::new();
    let mut i: usize = 0;
    proof {
        assert(string_views(visited@) =~= nothing);
        assert(string_views(order@) =~= nothing);
    }
    while i < services.len()
        invariant
            i <= services.len(),
            g == services@,
            services@ == compose.services@,
            nothing == Seq::<Seq<char>>::empty(),
            visiting(g, string_views(visited@), string_views(order@), nothing),
            forall|j: int| 0 <= j < i ==> string_views(visited@).contains(g[j].name@),
        decreases services.len() - i,
    {
        let ghost before = string_views(visited@);
        match visit(services[i].name.as_str(), services, &mut visited, &mut order, Ghost(nothing)) {
            Ok(_) => {},
            Err(e) => {
                proof {
                    assert(is_defined(g, g[i as int].name@));
                }
                return Err(e);
            },
        }
        proof {
            let now = string_views(visited@);
            assert forall|j: int| 0 <= j < i + 1 implies now.contains(g[j].name@) by {
                if j < i {
                    let x = g[j].name@;
                    assert(before.contains(x));
                    let m = choose|m: int| 0 <= m < before.len() && before[m] == x;
                    assert(now[m] == x);
                }
            }
        }
        i += 1;
    }
    proof {
        let v = string_views(visited@);
        let o = string_views(order@);
        assert forall|name: Seq<char>| #[trigger] o.contains(name) <==> is_defined(g, name) by {
            if o.contains(name) {
                assert(v.contains(name));
            }
            if is_defined(g, name) {
                let j = choose|j: int| 0 <= j < g.len() && (#[trigger] g[j]).name@ == name;
                assert(v.contains(g[j].name@));
                assert(!nothing.contains(name));
            }
        }
        assert forall|a: Seq<char>, b: Seq<char>|
            is_defined(g, a) && #[trigger] waits_for(g, a, b) implies is_defined(g, b) by {
            assert(o.contains(a));
            let m = choose|m: int| 0 <= m < o.len() && o[m] == a;
            assert(waits_for(g, o[m], b));
            assert(v.contains(b));
        }
        if !has_cycle(g) {
            assert forall|m: int, d: Seq<char>|
                0 <= m < o.len() && #[trigger] waits_for(g, o[m], d) implies exists|j: int|
                0 <= j < m && o[j] == d by {}
        }
    }
    Ok(order)
}

} // verus!
