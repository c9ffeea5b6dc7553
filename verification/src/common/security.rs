//! Security requirement validation, shared by both OpenAPI versions.
use vstd::prelude::*;
use crate::common::context::{error_line, Context};
use crate::common::entries::{get_entry, lookup};
use crate::common::model::{scheme_type_name, OAuth2Flows, SecurityRequirement, SecurityScheme};
use crate::common::patterns::views;
use crate::common::text::{concat, decimal, decimal_string, push_str, str_equal};
use crate::v3_0::reference::{is_internal, resolve_in_entries, resolved_in_map, RefOr};
use crate::common::text::starts_with;

verus! {

/// The OpenAPI version whose rules apply.
#[derive(Clone, Copy, Debug, PartialEq, Eq, Structural)]
pub enum Dialect {
    /// OpenAPI 3.0: only OAuth2 and OpenID Connect requirements may list scopes.
    V3_0,
    /// OpenAPI 3.1: any requirement may list roles; only OAuth2 scopes are checked.
    V3_1,
}

/// The marker of a visited security scheme.
pub open spec fn scheme_marker(name: Seq<char>) -> Seq<char> {
    "#/components/securitySchemes/"@ + name
}

/// The marker of a visited OAuth2 scope of a scheme.
pub open spec fn scope_marker(name: Seq<char>, scope: Seq<char>) -> Seq<char> {
    scheme_marker(name) + "/"@ + scope
}

/// How the scheme named by a requirement was found.
pub enum SchemeLookup {
    /// The document declares no `components.securitySchemes`.
    NoMap,
    /// `components.securitySchemes` has no such name.
    Undeclared,
    /// The entry is a `$ref` that does not resolve to a scheme.
    Unresolved,
    /// The scheme.
    Found(SecurityScheme),
}

/// How `name` is looked up in `components.securitySchemes`.
pub open spec fn lookup_scheme(
    schemes: Option<Seq<(String, RefOr<SecurityScheme>)>>,
    name: Seq<char>,
) -> SchemeLookup {
    match schemes {
        None => SchemeLookup::NoMap,
        Some(entries) => match lookup(entries, name) {
            None => SchemeLookup::Undeclared,
            Some(RefOr::Item(s)) => SchemeLookup::Found(s),
            Some(RefOr::Ref(r)) => if is_internal(r.reference@) {
                match resolved_in_map(
                    Some(entries),
                    r.reference@,
                    "#/components/securitySchemes/"@,
                ) {
                    Some(s) => SchemeLookup::Found(s),
                    None => SchemeLookup::Unresolved,
                }
            } else {
                SchemeLookup::Unresolved
            },
        },
    }
}

/// The scope names of an optional flow.
pub open spec fn flow_has(flow: Option<Vec<String>>, scope: Seq<char>) -> bool {
    match flow {
        None => false,
        Some(scopes) => views(scopes@).contains(scope),
    }
}

/// `scope` is declared by one of the flows.
pub open spec fn in_any_flow(flows: OAuth2Flows, scope: Seq<char>) -> bool {
    flow_has(flows.implicit, scope) || flow_has(flows.password, scope)
        || flow_has(flows.client_credentials, scope) || flow_has(flows.authorization_code, scope)
}

/// The start of every diagnostic about the requirement entry `name` of the
/// `i`-th requirement.
pub open spec fn entry_head(i: nat, name: Seq<char>) -> Seq<char> {
    "["@ + decimal(i) + "].`"@ + name + "`: "@
}

/// The diagnostics of the scopes of an OAuth2 requirement entry.
pub open spec fn scope_errors(
    path: Seq<char>,
    head: Seq<char>,
    flows: OAuth2Flows,
    scopes: Seq<Seq<char>>,
) -> Seq<Seq<char>>
    decreases scopes.len(),
{
    if scopes.len() == 0 {
        seq![]
    } else {
        let prev = scope_errors(path, head, flows, scopes.drop_last());
        if in_any_flow(flows, scopes.last()) {
            prev
        } else {
            prev.push(
                error_line(path, head + "scope `"@ + scopes.last() + "` not declared in any flow's scopes"@),
            )
        }
    }
}

/// The scopes of an OAuth2 requirement entry get no diagnostic exactly when
/// each of them is declared by one of the four flows (implicit, password,
/// client credentials, authorization code); each undeclared scope gets one.
pub proof fn law_scopes_declared_by_any_flow(
    path: Seq<char>,
    head: Seq<char>,
    flows: OAuth2Flows,
    scopes: Seq<Seq<char>>,
)
    ensures
        scope_errors(path, head, flows, scopes).len() == 0 <==> forall|i: int|
            #![trigger scopes[i]]
            0 <= i < scopes.len() ==> {
                ||| (flows.implicit matches Some(v) && views(v@).contains(scopes[i]))
                ||| (flows.password matches Some(v) && views(v@).contains(scopes[i]))
                ||| (flows.client_credentials matches Some(v) && views(v@).contains(scopes[i]))
                ||| (flows.authorization_code matches Some(v) && views(v@).contains(scopes[i]))
            },
        scope_errors(path, head, flows, scopes) == scopes.filter(
            |s: Seq<char>|
                !((flows.implicit matches Some(v) && views(v@).contains(s)) || (flows.password matches Some(v) && views(
                    v@,
                ).contains(s)) || (flows.client_credentials matches Some(v) && views(v@).contains(s)) || (
                flows.authorization_code matches Some(v) && views(v@).contains(s))),
        ).map_values(|s: Seq<char>| error_line(path, head + "scope `"@ + s + "` not declared in any flow's scopes"@)),
    decreases scopes.len(),
{
    let undeclared = |s: Seq<char>|
        !((flows.implicit matches Some(v) && views(v@).contains(s)) || (flows.password matches Some(v) && views(
            v@,
        ).contains(s)) || (flows.client_credentials matches Some(v) && views(v@).contains(s)) || (
        flows.authorization_code matches Some(v) && views(v@).contains(s)));
    let line = |s: Seq<char>| error_line(path, head + "scope `"@ + s + "` not declared in any flow's scopes"@);
    reveal_with_fuel(Seq::filter, 1);
    if scopes.len() > 0 {
        let init = scopes.drop_last();
        law_scopes_declared_by_any_flow(path, head, flows, init);
        assert forall|i: int| 0 <= i < init.len() implies init[i] == scopes[i] by {}
        let f = init.filter(undeclared);
        if undeclared(scopes.last()) {
            assert(f.push(scopes.last()).map_values(line) =~= f.map_values(line).push(line(scopes.last())));
        }
    } else {
        assert(scopes.filter(undeclared).map_values(line) =~= Seq::<Seq<char>>::empty());
    }
}

/// The diagnostics of the requirement entry `name` (with its `scopes`) of the
/// `i`-th requirement.
pub open spec fn entry_errors(
    dialect: Dialect,
    path: Seq<char>,
    i: nat,
    name: Seq<char>,
    scopes: Seq<Seq<char>>,
    schemes: Option<Seq<(String, RefOr<SecurityScheme>)>>,
) -> Seq<Seq<char>> {
    let head = entry_head(i, name);
    match lookup_scheme(schemes, name) {
        SchemeLookup::NoMap => seq![
            error_line(path, head + "no `components.securitySchemes` on the spec to resolve against"@),
        ],
        SchemeLookup::Undeclared => seq![
            error_line(path, head + "not declared in `components.securitySchemes`"@),
        ],
        SchemeLookup::Unresolved => seq![],
        SchemeLookup::Found(SecurityScheme::OAuth2(flows)) => scope_errors(path, head, flows, scopes),
        SchemeLookup::Found(SecurityScheme::OpenIdConnect) => seq![],
        SchemeLookup::Found(s) => if dialect == Dialect::V3_0 && scopes.len() > 0 {
            seq![
                error_line(
                    path,
                    head + "scheme of type `"@ + scheme_type_name(s) + "` requires an empty scope list, found "@
                        + decimal(scopes.len()),
                ),
            ]
        } else {
            seq![]
        },
    }
}

/// The markers that checking the requirement entry `name` visits.
pub open spec fn entry_markers(
    name: Seq<char>,
    scopes: Seq<Seq<char>>,
    schemes: Option<Seq<(String, RefOr<SecurityScheme>)>>,
) -> Set<Seq<char>> {
    match lookup_scheme(schemes, name) {
        SchemeLookup::Found(SecurityScheme::OAuth2(_)) => scopes.map_values(
            |s: Seq<char>| scope_marker(name, s),
        ).to_set().insert(scheme_marker(name)),
        _ => set![scheme_marker(name)],
    }
}

/// A requirement entry is reported once when the document has no
/// `components.securitySchemes`, or when the name is not declared there; an
/// OAuth2 scheme's scopes are checked against its flows; an OpenID Connect
/// scheme takes any scopes; any other scheme is reported, once, exactly when
/// it lists scopes under the 3.0 rules.
pub proof fn law_requirement_entry(
    dialect: Dialect,
    path: Seq<char>,
    i: nat,
    name: Seq<char>,
    scopes: Seq<Seq<char>>,
    schemes: Option<Seq<(String, RefOr<SecurityScheme>)>>,
)
    ensures
        schemes is None ==> entry_errors(dialect, path, i, name, scopes, schemes).len() == 1,
        (schemes matches Some(e) && lookup(e, name) is None) ==> entry_errors(dialect, path, i, name, scopes, schemes).len()
            == 1,
        (schemes matches Some(e) && lookup(e, name) == Some(RefOr::Item(SecurityScheme::OpenIdConnect))) ==> entry_errors(
            dialect,
            path,
            i,
            name,
            scopes,
            schemes,
        ).len() == 0,
        schemes matches Some(e) ==> (lookup(e, name) matches Some(RefOr::Item(SecurityScheme::OAuth2(f))) ==> entry_errors(
            dialect,
            path,
            i,
            name,
            scopes,
            schemes,
        ) == scope_errors(path, entry_head(i, name), f, scopes)),
        (schemes matches Some(e) && (lookup(e, name) == Some(RefOr::Item(SecurityScheme::ApiKey)) || lookup(e, name)
            == Some(RefOr::Item(SecurityScheme::Http)) || lookup(e, name) == Some(RefOr::Item(SecurityScheme::MutualTls))))
            ==> (entry_errors(dialect, path, i, name, scopes, schemes).len() > 0 <==> (dialect == Dialect::V3_0
            && scopes.len() > 0)),
{
}

/// The diagnostics of the entries of the `i`-th requirement, in order.
pub open spec fn requirement_errors(
    dialect: Dialect,
    path: Seq<char>,
    i: nat,
    req: Seq<(String, Vec<String>)>,
    schemes: Option<Seq<(String, RefOr<SecurityScheme>)>>,
) -> Seq<Seq<char>>
    decreases req.len(),
{
    if req.len() == 0 {
        seq![]
    } else {
        requirement_errors(dialect, path, i, req.drop_last(), schemes) + entry_errors(
            dialect,
            path,
            i,
            req.last().0@,
            views(req.last().1@),
            schemes,
        )
    }
}

/// The markers that checking the entries of a requirement visits.
pub open spec fn requirement_markers(
    req: Seq<(String, Vec<String>)>,
    schemes: Option<Seq<(String, RefOr<SecurityScheme>)>>,
) -> Set<Seq<char>>
    decreases req.len(),
{
    if req.len() == 0 {
        Set::empty()
    } else {
        requirement_markers(req.drop_last(), schemes).union(
            entry_markers(req.last().0@, views(req.last().1@), schemes),
        )
    }
}

/// The diagnostics of a list of requirements, in order.
pub open spec fn requirements_errors(
    dialect: Dialect,
    path: Seq<char>,
    reqs: Seq<SecurityRequirement>,
    schemes: Option<Seq<(String, RefOr<SecurityScheme>)>>,
) -> Seq<Seq<char>>
    decreases reqs.len(),
{
    if reqs.len() == 0 {
        seq![]
    } else {
        requirements_errors(dialect, path, reqs.drop_last(), schemes) + requirement_errors(
            dialect,
            path,
            (reqs.len() - 1) as nat,
            reqs.last()@,
            schemes,
        )
    }
}

/// The markers that checking a list of requirements visits.
pub open spec fn requirements_markers(
    reqs: Seq<SecurityRequirement>,
    schemes: Option<Seq<(String, RefOr<SecurityScheme>)>>,
) -> Set<Seq<char>>
    decreases reqs.len(),
{
    if reqs.len() == 0 {
        Set::empty()
    } else {
        requirements_markers(reqs.drop_last(), schemes).union(
            requirement_markers(reqs.last()@, schemes),
        )
    }
}

/// The markers of each entry of a requirement are among those of the
/// requirement.
proof fn lemma_entry_markers_in_requirement(
    req: Seq<(String, Vec<String>)>,
    schemes: Option<Seq<(String, RefOr<SecurityScheme>)>>,
    j: int,
)
    requires
        0 <= j < req.len(),
    ensures
        entry_markers(req[j].0@, views(req[j].1@), schemes).subset_of(requirement_markers(req, schemes)),
    decreases req.len(),
{
    if j < req.len() - 1 {
        lemma_entry_markers_in_requirement(req.drop_last(), schemes, j);
        assert(req.drop_last()[j] == req[j]);
    }
}

/// The markers of each requirement are among those of the list.
proof fn lemma_requirement_markers_in_list(
    reqs: Seq<SecurityRequirement>,
    schemes: Option<Seq<(String, RefOr<SecurityScheme>)>>,
    i: int,
)
    requires
        0 <= i < reqs.len(),
    ensures
        requirement_markers(reqs[i]@, schemes).subset_of(requirements_markers(reqs, schemes)),
    decreases reqs.len(),
{
    if i < reqs.len() - 1 {
        lemma_requirement_markers_in_list(reqs.drop_last(), schemes, i);
        assert(reqs.drop_last()[i] == reqs[i]);
    }
}

/// Checking security requirements visits every scheme that an entry names,
/// whether the document declares it or not; when the name resolves to an
/// OAuth2 scheme, it visits each scope the entry lists too.
pub proof fn law_requirements_visit_schemes(
    reqs: Seq<SecurityRequirement>,
    schemes: Option<Seq<(String, RefOr<SecurityScheme>)>>,
    i: int,
    j: int,
)
    requires
        0 <= i < reqs.len(),
        0 <= j < reqs[i]@.len(),
    ensures
        requirements_markers(reqs, schemes).contains(scheme_marker(reqs[i]@[j].0@)),
        lookup_scheme(schemes, reqs[i]@[j].0@) matches SchemeLookup::Found(SecurityScheme::OAuth2(_)) ==> forall|
            s: Seq<char>,
        |
            views(reqs[i]@[j].1@).contains(s) ==> requirements_markers(reqs, schemes).contains(
                #[trigger] scope_marker(reqs[i]@[j].0@, s),
            ),
{
    let req = reqs[i]@;
    let name = req[j].0@;
    let scopes = views(req[j].1@);
    lemma_entry_markers_in_requirement(req, schemes, j);
    lemma_requirement_markers_in_list(reqs, schemes, i);
    assert(entry_markers(name, scopes, schemes).contains(scheme_marker(name)));
    if lookup_scheme(schemes, name) matches SchemeLookup::Found(SecurityScheme::OAuth2(_)) {
        assert forall|s: Seq<char>| scopes.contains(s) implies requirements_markers(reqs, schemes).contains(
            #[trigger] scope_marker(name, s),
        ) by {
            let k = choose|k: int| 0 <= k < scopes.len() && scopes[k] == s;
            let m = scopes.map_values(|x: Seq<char>| scope_marker(name, x));
            assert(m[k] == scope_marker(name, s));
            assert(m.to_set().contains(scope_marker(name, s)));
            assert(entry_markers(name, scopes, schemes).contains(scope_marker(name, s)));
        }
    }
}

/// The view of an optional borrowed map.
pub open spec fn opt_entries<V>(m: Option<&Vec<(String, V)>>) -> Option<Seq<(String, V)>> {
    match m {
        None => None,
        Some(v) => Some(v@),
    }
}

/// Whether `scope` is declared by the optional flow.
fn flow_declares(flow: &Option<Vec<String>>, scope: &str) -> (res: bool)
    ensures
        res == flow_has(*flow, scope@),
{
    match flow {
        None => false,
        Some(scopes) => {
            let mut k: usize = 0;
            while k < scopes.len()
                invariant
                    k <= scopes.len(),
                    *flow == Some(*scopes),
                    forall|j: int| 0 <= j < k ==> scopes@[j]@ != scope@,
                decreases scopes.len() - k,
            {
                if str_equal(scopes[k].as_str(), scope) {
                    assert(views(scopes@)[k as int] == scope@);
                    return true;
                }
                k = k + 1;
            }
            proof {
                if views(scopes@).contains(scope@) {
                    let j = choose|j: int| 0 <= j < views(scopes@).len() && views(scopes@)[j] == scope@;
                    assert(scopes@[j]@ == scope@);
                }
            }
            false
        },
    }
}

/// The start of every diagnostic about a requirement entry.
fn make_entry_head(i: usize, name: &str) -> (res: String)
    ensures
        res@ == entry_head(i as nat, name@),
{
    let mut s = concat("[", decimal_string(i).as_str());
    push_str(&mut s, "].`");
    push_str(&mut s, name);
    push_str(&mut s, "`: ");
    s
}

/// Checks the scopes of an OAuth2 requirement entry against the flows.
fn check_oauth2_scopes<S>(
    ctx: &mut Context<'_, S>,
    path: &str,
    head: &str,
    name: &str,
    flows: &OAuth2Flows,
    scopes: &Vec<String>,
)
    ensures
        final(ctx).errors_view() == old(ctx).errors_view() + scope_errors(path@, head@, *flows, views(scopes@)),
        final(ctx).visited_set() == old(ctx).visited_set().union(
            views(scopes@).map_values(|s: Seq<char>| scope_marker(name@, s)).to_set(),
        ),
        final(ctx).spec == old(ctx).spec,
        final(ctx).options == old(ctx).options,
{
    let mut k: usize = 0;
    while k < scopes.len()
        invariant
            k <= scopes.len(),
            ctx.spec == old(ctx).spec,
            ctx.options == old(ctx).options,
            ctx.errors_view() == old(ctx).errors_view() + scope_errors(
                path@,
                head@,
                *flows,
                views(scopes@).take(k as int),
            ),
            ctx.visited_set() == old(ctx).visited_set().union(
                views(scopes@).take(k as int).map_values(|s: Seq<char>| scope_marker(name@, s)).to_set(),
            ),
        decreases scopes.len() - k,
    {
        let scope = scopes[k].as_str();
        let mut marker = concat("#/components/securitySchemes/", name);
        push_str(&mut marker, "/");
        push_str(&mut marker, scope);
        let ghost before_visited = ctx.visited_set();
        let ghost before_errors = ctx.errors_view();
        ctx.visit(marker);
        let declared = flow_declares(&flows.implicit, scope) || flow_declares(&flows.password, scope)
            || flow_declares(&flows.client_credentials, scope) || flow_declares(
            &flows.authorization_code,
            scope,
        );
        if !declared {
            let mut msg = concat(head, "scope `");
            push_str(&mut msg, scope);
            push_str(&mut msg, "` not declared in any flow's scopes");
            ctx.error(path, msg.as_str());
        }
        proof {
            let taken = views(scopes@).take(k as int);
            let next = views(scopes@).take(k + 1);
            assert(next.drop_last() =~= taken);
            assert(next.last() == scopes@[k as int]@);
            let f = |s: Seq<char>| scope_marker(name@, s);
            assert(next.map_values(f) =~= taken.map_values(f).push(scope_marker(name@, scopes@[k as int]@)));
            taken.map_values(f).lemma_push_to_set_commute(scope_marker(name@, scopes@[k as int]@));
            assert(ctx.visited_set() =~= old(ctx).visited_set().union(next.map_values(f).to_set()));
        }
        k = k + 1;
    }
    assert(views(scopes@).take(scopes.len() as int) =~= views(scopes@));
}

/// Checks one requirement entry: the scheme `name` with its `scopes`, in the
/// `i`-th requirement.
fn check_requirement_entry<S>(
    ctx: &mut Context<'_, S>,
    dialect: Dialect,
    path: &str,
    i: usize,
    name: &str,
    scopes: &Vec<String>,
    schemes: Option<&Vec<(String, RefOr<SecurityScheme>)>>,
)
    ensures
        final(ctx).errors_view() == old(ctx).errors_view() + entry_errors(
            dialect,
            path@,
            i as nat,
            name@,
            views(scopes@),
            opt_entries(schemes),
        ),
        final(ctx).visited_set() == old(ctx).visited_set().union(
            entry_markers(name@, views(scopes@), opt_entries(schemes)),
        ),
        final(ctx).spec == old(ctx).spec,
        final(ctx).options == old(ctx).options,
{
    let head = make_entry_head(i, name);
    let marker = concat("#/components/securitySchemes/", name);
    ctx.visit(marker);
    let ghost after_visit = ctx.visited_set();
    let ghost look = lookup_scheme(opt_entries(schemes), name@);
    match schemes {
        None => {
            let msg = concat(head.as_str(), "no `components.securitySchemes` on the spec to resolve against");
            ctx.error(path, msg.as_str());
            assert(ctx.visited_set() =~= old(ctx).visited_set().union(set![scheme_marker(name@)]));
        },
        Some(map) => match get_entry(map, name) {
            None => {
                let msg = concat(head.as_str(), "not declared in `components.securitySchemes`");
                ctx.error(path, msg.as_str());
                assert(ctx.visited_set() =~= old(ctx).visited_set().union(set![scheme_marker(name@)]));
            },
            Some(entry) => {
                let scheme: Option<&SecurityScheme> = match entry {
                    RefOr::Item(s) => Some(s),
                    RefOr::Ref(r) => if starts_with(r.reference.as_str(), "#/") {
                        resolve_in_entries(map, r.reference.as_str(), "#/components/securitySchemes/")
                    } else {
                        None
                    },
                };
                assert(scheme is None <==> look is Unresolved);
                assert(scheme matches Some(sc) ==> look == SchemeLookup::Found(*sc));
                match scheme {
                    None => {
                        assert(ctx.errors_view() =~= old(ctx).errors_view() + seq![]);
                        assert(ctx.visited_set() =~= old(ctx).visited_set().union(set![scheme_marker(name@)]));
                    },
                    Some(SecurityScheme::OAuth2(flows)) => {
                        check_oauth2_scopes(ctx, path, head.as_str(), name, flows, scopes);
                        assert(ctx.visited_set() =~= old(ctx).visited_set().union(
                            entry_markers(name@, views(scopes@), opt_entries(schemes)),
                        ));
                    },
                    Some(SecurityScheme::OpenIdConnect) => {
                        assert(ctx.errors_view() =~= old(ctx).errors_view() + seq![]);
                        assert(ctx.visited_set() =~= old(ctx).visited_set().union(set![scheme_marker(name@)]));
                    },
                    Some(sc) => {
                        if dialect == Dialect::V3_0 && scopes.len() > 0 {
                            let mut msg = concat(head.as_str(), "scheme of type `");
                            push_str(&mut msg, sc.kind_name());
                            push_str(&mut msg, "` requires an empty scope list, found ");
                            push_str(&mut msg, decimal_string(scopes.len()).as_str());
                            ctx.error(path, msg.as_str());
                        } else {
                            assert(ctx.errors_view() =~= old(ctx).errors_view() + seq![]);
                        }
                        assert(ctx.visited_set() =~= old(ctx).visited_set().union(set![scheme_marker(name@)]));
                    },
                }
            },
        },
    }
}

/// Checks the entries of the `i`-th requirement, in order.
fn check_requirement<S>(
    ctx: &mut Context<'_, S>,
    dialect: Dialect,
    path: &str,
    i: usize,
    req: &SecurityRequirement,
    schemes: Option<&Vec<(String, RefOr<SecurityScheme>)>>,
)
    ensures
        final(ctx).errors_view() == old(ctx).errors_view() + requirement_errors(
            dialect,
            path@,
            i as nat,
            req@,
            opt_entries(schemes),
        ),
        final(ctx).visited_set() == old(ctx).visited_set().union(
            requirement_markers(req@, opt_entries(schemes)),
        ),
        final(ctx).spec == old(ctx).spec,
        final(ctx).options == old(ctx).options,
{
    let mut j: usize = 0;
    assert(req@.take(0) =~= Seq::<(String, Vec<String>)>::empty());
    assert(old(ctx).errors_view() + seq![] =~= old(ctx).errors_view());
    assert(old(ctx).visited_set().union(Set::empty()) =~= old(ctx).visited_set());
    while j < req.len()
        invariant
            j <= req.len(),
            ctx.spec == old(ctx).spec,
            ctx.options == old(ctx).options,
            ctx.errors_view() == old(ctx).errors_view() + requirement_errors(
                dialect,
                path@,
                i as nat,
                req@.take(j as int),
                opt_entries(schemes),
            ),
            ctx.visited_set() == old(ctx).visited_set().union(
                requirement_markers(req@.take(j as int), opt_entries(schemes)),
            ),
        decreases req.len() - j,
    {
        let ghost e0 = ctx.errors_view();
        let ghost v0 = ctx.visited_set();
        check_requirement_entry(ctx, dialect, path, i, req[j].0.as_str(), &req[j].1, schemes);
        proof {
            let next = req@.take(j + 1);
            assert(next.drop_last() =~= req@.take(j as int));
            assert(next.last() == req@[j as int]);
            assert(ctx.errors_view() =~= old(ctx).errors_view() + requirement_errors(
                dialect,
                path@,
                i as nat,
                next,
                opt_entries(schemes),
            ));
            assert(ctx.visited_set() =~= old(ctx).visited_set().union(
                requirement_markers(next, opt_entries(schemes)),
            ));
        }
        j = j + 1;
    }
    assert(req@.take(req.len() as int) =~= req@);
}

/// Checks a list of security requirements: each named scheme must be declared
/// in `components.securitySchemes`; an OAuth2 requirement may only list
/// scopes that one of the scheme's flows declares; under OpenAPI 3.0 an
/// `apiKey` or `http` requirement must list no scopes. Every named scheme
/// (declared or not) and every OAuth2 scope is marked visited.
pub fn validate_security_requirements_in<S>(
    ctx: &mut Context<'_, S>,
    dialect: Dialect,
    path: &str,
    requirements: &Vec<SecurityRequirement>,
    schemes: Option<&Vec<(String, RefOr<SecurityScheme>)>>,
)
    ensures
        final(ctx).errors_view() == old(ctx).errors_view() + requirements_errors(
            dialect,
            path@,
            requirements@,
            opt_entries(schemes),
        ),
        final(ctx).visited_set() == old(ctx).visited_set().union(
            requirements_markers(requirements@, opt_entries(schemes)),
        ),
        final(ctx).spec == old(ctx).spec,
        final(ctx).options == old(ctx).options,
{
    let mut i: usize = 0;
    assert(requirements@.take(0) =~= Seq::<SecurityRequirement>::empty());
    assert(old(ctx).errors_view() + seq![] =~= old(ctx).errors_view());
    assert(old(ctx).visited_set().union(Set::empty()) =~= old(ctx).visited_set());
    while i < requirements.len()
        invariant
            i <= requirements.len(),
            ctx.spec == old(ctx).spec,
            ctx.options == old(ctx).options,
            ctx.errors_view() == old(ctx).errors_view() + requirements_errors(
                dialect,
                path@,
                requirements@.take(i as int),
                opt_entries(schemes),
            ),
            ctx.visited_set() == old(ctx).visited_set().union(
                requirements_markers(requirements@.take(i as int), opt_entries(schemes)),
            ),
        decreases requirements.len() - i,
    {
        check_requirement(ctx, dialect, path, i, &requirements[i], schemes);
        proof {
            let next = requirements@.take(i + 1);
            assert(next.drop_last() =~= requirements@.take(i as int));
            assert(next.last() == requirements@[i as int]);
            assert(ctx.errors_view() =~= old(ctx).errors_view() + requirements_errors(
                dialect,
                path@,
                next,
                opt_entries(schemes),
            ));
            assert(ctx.visited_set() =~= old(ctx).visited_set().union(
                requirements_markers(next, opt_entries(schemes)),
            ));
        }
        i = i + 1;
    }
    assert(requirements@.take(requirements.len() as int) =~= requirements@);
}

} // verus!
