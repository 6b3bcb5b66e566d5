//! The laws the assembler obeys, stated and proved over the crate's
//! specification functions.

use vstd::prelude::*;

use crate::HandlerDocumentationView;
use crate::RouteInfoView;
use crate::openapi::{InfoView, TagView};
use crate::parse::{spec_auth_sentinel, spec_filter_auth};
use crate::resolve::{spec_reach, spec_ref_from, spec_reg_has};
use crate::router::{spec_assembled_doc, spec_filtered_schemas, spec_has_auth, spec_has_code,
    spec_openapi_json, spec_operation_for, spec_params_of_raw, spec_unused_list,
    spec_group_keys_upto, spec_built_paths, spec_seed_set, spec_session_requirement,
    spec_used_set};

verus! {

/// The assembled document text is a function of the info section, the
/// declared tags, the route table and the two registries alone: two
/// assemblers with the same inputs produce the same text, whatever their
/// earlier assembly runs left behind.
pub proof fn law_assembly_deterministic(
    info1: InfoView,
    tags1: Seq<TagView>,
    routes1: Seq<RouteInfoView>,
    hs1: Seq<HandlerDocumentationView>,
    reg1: Seq<(Seq<char>, Seq<char>)>,
    info2: InfoView,
    tags2: Seq<TagView>,
    routes2: Seq<RouteInfoView>,
    hs2: Seq<HandlerDocumentationView>,
    reg2: Seq<(Seq<char>, Seq<char>)>,
)
    requires
        info1 == info2,
        tags1 == tags2,
        routes1 == routes2,
        hs1 == hs2,
        reg1 == reg2,
    ensures
        spec_openapi_json(info1, tags1, routes1, hs1, reg1) == spec_openapi_json(
            info2,
            tags2,
            routes2,
            hs2,
            reg2,
        ),
{
}

/// The schemas section holds an entry for every used registered name
/// whose first occurrence has not yet been passed.
proof fn lemma_filtered_contains(
    reg: Seq<(Seq<char>, Seq<char>)>,
    used: Set<Seq<char>>,
    n: Seq<char>,
    i: int,
)
    requires
        0 <= i <= reg.len(),
        used.contains(n),
        !crate::router::spec_name_seen(reg, n, i),
        exists|j: int| i <= j < reg.len() && (#[trigger] reg[j]).0 == n,
    ensures
        exists|t: int|
            0 <= t < spec_filtered_schemas(reg, used, i).len() && (#[trigger] spec_filtered_schemas(
                reg,
                used,
                i,
            )[t]).0 == n,
    decreases reg.len() - i,
{
    let fs = spec_filtered_schemas(reg, used, i);
    if reg[i].0 == n {
        assert(fs[0].0 == n);
    } else {
        let j = choose|j: int| i <= j < reg.len() && (#[trigger] reg[j]).0 == n;
        assert(j != i);
        assert(!crate::router::spec_name_seen(reg, n, i + 1)) by {
            if crate::router::spec_name_seen(reg, n, i + 1) {
                let j2 = choose|j2: int| 0 <= j2 < i + 1 && (#[trigger] reg[j2]).0 == n;
                assert(j2 == i || crate::router::spec_name_seen(reg, n, i));
            }
        }
        lemma_filtered_contains(reg, used, n, i + 1);
        let t = choose|t: int|
            0 <= t < spec_filtered_schemas(reg, used, i + 1).len() && (
            #[trigger] spec_filtered_schemas(reg, used, i + 1)[t]).0 == n;
        if used.contains(reg[i].0) && !crate::router::spec_name_seen(reg, reg[i].0, i) {
            assert(fs[t + 1].0 == n);
        } else {
            assert(fs[t].0 == n);
        }
    }
}

/// Transitive closure completeness: when an operation uses schema `a`,
/// whose text refers to registered schema `b`, whose text refers to
/// registered schema `c`, the assembled components section holds entries
/// for `a`, `b` and `c`.
pub proof fn law_transitive_closure_complete(
    routes: Seq<RouteInfoView>,
    hs: Seq<HandlerDocumentationView>,
    reg: Seq<(Seq<char>, Seq<char>)>,
    a: Seq<char>,
    b: Seq<char>,
    c: Seq<char>,
)
    requires
        spec_seed_set(routes, hs, reg).contains(a),
        spec_reg_has(reg, a),
        spec_ref_from(reg, a, b),
        spec_reg_has(reg, b),
        spec_ref_from(reg, b, c),
        spec_reg_has(reg, c),
    ensures
        ({
            let comps = spec_assembled_doc(
                arbitrary(),
                arbitrary(),
                routes,
                hs,
                reg,
            ).components;
            comps is Some && contains_schema_entry(comps->0.schemas, a) && contains_schema_entry(
                comps->0.schemas,
                b,
            ) && contains_schema_entry(comps->0.schemas, c)
        }),
{
    let s0 = spec_seed_set(routes, hs, reg);
    let used = spec_used_set(routes, hs, reg);
    assert(spec_reach(reg, s0, a, 0));
    assert(spec_reach(reg, s0, b, 1));
    assert(spec_reach(reg, s0, c, 2));
    assert(used.contains(a));
    assert(used.contains(b));
    assert(used.contains(c));
    lemma_used_name_in_filtered(reg, used, a);
    lemma_used_name_in_filtered(reg, used, b);
    lemma_used_name_in_filtered(reg, used, c);
    let fs = spec_filtered_schemas(reg, used, 0);
    assert(fs.len() > 0) by {
        let t = choose|t: int|
            0 <= t < spec_filtered_schemas(reg, used, 0).len() && (
            #[trigger] spec_filtered_schemas(reg, used, 0)[t]).0 == a;
    }
}

/// Does the schemas section hold an entry for the given name?
pub open spec fn contains_schema_entry(schemas: Seq<(Seq<char>, Seq<char>)>, n: Seq<char>) -> bool {
    exists|t: int| 0 <= t < schemas.len() && (#[trigger] schemas[t]).0 == n
}

/// Every used registered name appears in the schemas section.
pub proof fn lemma_used_name_in_filtered(
    reg: Seq<(Seq<char>, Seq<char>)>,
    used: Set<Seq<char>>,
    n: Seq<char>,
)
    requires
        used.contains(n),
        spec_reg_has(reg, n),
    ensures
        contains_schema_entry(spec_filtered_schemas(reg, used, 0), n),
{
    let j = choose|j: int| 0 <= j < reg.len() && (#[trigger] reg[j]).0 == n;
    assert(!crate::router::spec_name_seen(reg, n, 0));
    lemma_filtered_contains(reg, used, n, 0);
}

/// The unused-schema complement: a name is reported unused exactly when
/// it is registered and outside the used set.
pub proof fn law_unused_complement(
    reg: Seq<(Seq<char>, Seq<char>)>,
    used: Set<Seq<char>>,
    n: Seq<char>,
)
    ensures
        spec_unused_list(reg, used, 0).contains(n) <==> (spec_reg_has(reg, n) && !used.contains(
            n,
        )),
{
    lemma_unused_from(reg, used, n, 0);
}

/// The unused list from `i` holds exactly the later registered names
/// outside the used set.
proof fn lemma_unused_from(
    reg: Seq<(Seq<char>, Seq<char>)>,
    used: Set<Seq<char>>,
    n: Seq<char>,
    i: int,
)
    requires
        0 <= i <= reg.len(),
    ensures
        spec_unused_list(reg, used, i).contains(n) <==> ((exists|j: int|
            i <= j < reg.len() && (#[trigger] reg[j]).0 == n) && !used.contains(n)),
    decreases reg.len() - i,
{
    if i < reg.len() {
        lemma_unused_from(reg, used, n, i + 1);
        let ul = spec_unused_list(reg, used, i);
        let rest = spec_unused_list(reg, used, i + 1);
        if !used.contains(reg[i].0) {
            assert(ul =~= seq![reg[i].0] + rest);
            if ul.contains(n) {
                let t = choose|t: int| 0 <= t < ul.len() && ul[t] == n;
                if t == 0 {
                    assert(reg[i].0 == n);
                } else {
                    assert(rest[t - 1] == n);
                    assert(rest.contains(n));
                }
            }
            if reg[i].0 == n {
                assert(ul[0] == n);
                assert(ul.contains(n));
            } else if rest.contains(n) {
                let t = choose|t: int| 0 <= t < rest.len() && rest[t] == n;
                assert(ul[t + 1] == n);
                assert(ul.contains(n));
            }
        } else {
            assert(ul =~= rest);
            if (exists|j: int| i <= j < reg.len() && (#[trigger] reg[j]).0 == n) && !used.contains(
                n,
            ) {
                let j = choose|j: int| i <= j < reg.len() && (#[trigger] reg[j]).0 == n;
                assert(j != i);
            }
        }
    }
}

/// The authentication sentinel: it never survives into the parameter
/// list; an operation whose record carries it is assembled with the fixed
/// security requirement and with an unauthorised response declared; and a
/// document with such an endpoint carries a non-empty security-schemes
/// section.
pub proof fn law_auth_sentinel(
    route: RouteInfoView,
    d: HandlerDocumentationView,
    routes: Seq<RouteInfoView>,
    hs: Seq<HandlerDocumentationView>,
    reg: Seq<(Seq<char>, Seq<char>)>,
    items: Seq<Seq<char>>,
)
    requires
        spec_params_of_raw(d.parameters).1,
        spec_has_auth(routes, hs, 0),
    ensures
        ({
            let op = spec_operation_for(route, Some(d), reg);
            op.security == Some(seq![spec_session_requirement()]) && spec_has_code(
                op.responses,
                ("401")@,
            )
        }),
        forall|j: int|
            0 <= j < spec_filter_auth(items, 0).len() ==> #[trigger] spec_filter_auth(
                items,
                0,
            )[j] != spec_auth_sentinel(),
        ({
            let comps = spec_assembled_doc(arbitrary(), arbitrary(), routes, hs, reg).components;
            comps is Some && comps->0.security_schemes == Some(
                seq![(("sessionAuth")@, crate::router::spec_fixed_scheme())],
            )
        }),
{
    let op = spec_operation_for(route, Some(d), reg);
    let (responses0, _u) = crate::resolve::spec_responses_of_raw(d.responses, reg);
    if !spec_has_code(responses0, ("401")@) {
        let rs = responses0.push(crate::router::spec_401_response());
        assert(rs[rs.len() - 1].0 == ("401")@);
        assert(spec_has_code(rs, ("401")@));
    }
    lemma_filter_auth_clean(items, 0);
}

/// The sentinel never survives the filter.
proof fn lemma_filter_auth_clean(items: Seq<Seq<char>>, i: int)
    ensures
        forall|j: int|
            0 <= j < spec_filter_auth(items, i).len() ==> #[trigger] spec_filter_auth(
                items,
                i,
            )[j] != spec_auth_sentinel(),
    decreases items.len() - i,
{
    if 0 <= i < items.len() {
        lemma_filter_auth_clean(items, i + 1);
        let f = spec_filter_auth(items, i);
        let rest = spec_filter_auth(items, i + 1);
        assert forall|j: int| 0 <= j < f.len() implies #[trigger] f[j] != spec_auth_sentinel() by {
            if items[i] == spec_auth_sentinel() {
                assert(f =~= rest);
            } else {
                assert(f =~= seq![items[i]] + rest);
                if j > 0 {
                    assert(f[j] == rest[j - 1]);
                }
            }
        }
    }
}

/// Empty-input determinism: with no routes and empty registries the
/// assembled document has an empty paths section and neither a components
/// nor a tags section.
pub proof fn law_empty_inputs(info: InfoView)
    ensures
        ({
            let doc = spec_assembled_doc(
                info,
                Seq::<TagView>::empty(),
                Seq::<RouteInfoView>::empty(),
                Seq::<HandlerDocumentationView>::empty(),
                Seq::<(Seq<char>, Seq<char>)>::empty(),
            );
            doc.paths == Seq::<(Seq<char>, crate::openapi::PathItemView)>::empty() && doc.components
                is None && doc.tags is None && doc.info == info && doc.openapi == ("3.0.0")@
        }),
{
    let routes = Seq::<RouteInfoView>::empty();
    let hs = Seq::<HandlerDocumentationView>::empty();
    let reg = Seq::<(Seq<char>, Seq<char>)>::empty();
    assert(spec_group_keys_upto(routes, 0) =~= Seq::<Seq<char>>::empty());
    assert(spec_built_paths(routes, hs, reg, 0) =~= Seq::<
        (Seq<char>, crate::openapi::PathItemView),
    >::empty());
    assert(spec_filtered_schemas(reg, spec_used_set(routes, hs, reg), 0) =~= Seq::<
        (Seq<char>, Seq<char>),
    >::empty());
    assert(!spec_has_auth(routes, hs, 0));
}

} // verus!
