//! Holds a set of reusable objects for different aspects of the OAS (3.1).
use vstd::prelude::*;
use crate::common::checks::{report_unused, unused_errors};
use crate::common::sections::{check_entry_head, check_opt_section, entry_head_errors, opt_section_checks};
use crate::common::context::{Context, OptionSet, Options, ValidateWithContext};
use crate::common::model::{Callback, OAuth2Flows, Parameter, PathItem, SecurityScheme};
use crate::common::reference::{ResolveError, ResolveReference};
use crate::v3_0::reference::item_of;
use crate::common::patterns::views;
use crate::common::entries::{keyed, keys_of};
use crate::common::order::is_sorted_strict;
use crate::common::text::{concat, push_str};
use crate::v3_0::reference::RefOr;
use crate::v3_1::example::Example;
use crate::v3_1::link::Link;
use crate::v3_1::response::Response;
use crate::v3_1::schema::Schema;
use crate::v3_1::spec::Spec;

verus! {

/// The reusable objects of a v3.1 document, keyed by component name. Request
/// bodies and headers are held by name only: only their names and use are
/// checked here.
#[derive(Debug)]
pub struct Components {
    pub schemas: Option<Vec<(String, RefOr<Schema>)>>,
    pub responses: Option<Vec<(String, RefOr<Response>)>>,
    pub parameters: Option<Vec<(String, RefOr<Parameter>)>>,
    pub examples: Option<Vec<(String, RefOr<Example>)>>,
    pub request_bodies: Option<Vec<String>>,
    pub headers: Option<Vec<String>>,
    pub security_schemes: Option<Vec<(String, RefOr<SecurityScheme>)>>,
    pub links: Option<Vec<(String, RefOr<Link>)>>,
    pub callbacks: Option<Vec<(String, RefOr<Callback>)>>,
    pub path_items: Option<Vec<(String, PathItem)>>,
}

/// The names of an optional section held by name only are in strictly
/// increasing order, so that no name occurs twice.
pub open spec fn names_keyed(names: Option<Vec<String>>) -> bool {
    match names {
        None => true,
        Some(v) => is_sorted_strict(views(v@)),
    }
}

impl Components {
    /// Each section lists its entries in strictly increasing name order, so
    /// that no name occurs twice.
    pub open spec fn well_formed(self) -> bool {
        &&& keyed(self.schemas)
        &&& keyed(self.responses)
        &&& keyed(self.parameters)
        &&& keyed(self.examples)
        &&& names_keyed(self.request_bodies)
        &&& names_keyed(self.headers)
        &&& keyed(self.security_schemes)
        &&& keyed(self.links)
        &&& keyed(self.callbacks)
        &&& keyed(self.path_items)
    }
}

impl Spec {
    /// The document's maps list their entries in strictly increasing key
    /// order: the paths, the webhooks and each section of the components.
    pub open spec fn well_formed(self) -> bool {
        &&& match self.paths {
            None => true,
            Some(p) => is_sorted_strict(keys_of(p.paths@)),
        }
        &&& match self.webhooks {
            None => true,
            Some(p) => is_sorted_strict(keys_of(p.paths@)),
        }
        &&& match self.components {
            None => true,
            Some(c) => c.well_formed(),
        }
    }
}

/// The diagnostics of the first `n` names of a section held by name only:
/// each name's use and validity (see [`entry_head_errors`]).
pub open spec fn names_errors(
    options: OptionSet,
    vis: Set<Seq<char>>,
    names: Seq<String>,
    n: nat,
    prefix: Seq<char>,
    section: Seq<char>,
    path: Seq<char>,
    option: Options,
) -> Seq<Seq<char>>
    decreases n,
{
    if n == 0 || n > names.len() {
        seq![]
    } else {
        names_errors(options, vis, names, (n - 1) as nat, prefix, section, path, option) + entry_head_errors(
            options,
            vis,
            names[n - 1]@,
            prefix,
            section,
            path,
            option,
        )
    }
}

/// [`names_errors`] of an optional section held by name only.
pub open spec fn opt_names_errors(
    options: OptionSet,
    vis: Set<Seq<char>>,
    names: Option<Vec<String>>,
    prefix: Seq<char>,
    section: Seq<char>,
    path: Seq<char>,
    option: Options,
) -> Seq<Seq<char>> {
    match names {
        None => seq![],
        Some(v) => names_errors(options, vis, v@, v@.len(), prefix, section, path, option),
    }
}

/// The scope names of an optional flow.
pub open spec fn flow_scopes(flow: Option<Vec<String>>) -> Seq<Seq<char>> {
    match flow {
        None => seq![],
        Some(v) => views(v@),
    }
}

/// The diagnostics of the first `n` scopes of a flow of the security scheme
/// `marker`: each one whose marker `<marker>/<scope>` is not visited is
/// reported unused, unless `ignore`.
pub open spec fn scopes_errors(marker: Seq<char>, vis: Set<Seq<char>>, ignore: bool, scopes: Seq<Seq<char>>, n: nat) -> Seq<Seq<char>>
    decreases n,
{
    if n == 0 || n > scopes.len() {
        seq![]
    } else {
        scopes_errors(marker, vis, ignore, scopes, (n - 1) as nat) + unused_errors(marker + "/"@ + scopes[n - 1], vis, ignore)
    }
}

/// The diagnostics of the unused scopes of every flow of an OAuth2 scheme,
/// flow by flow: implicit, password, client credentials, authorization code.
pub open spec fn flows_errors(marker: Seq<char>, vis: Set<Seq<char>>, ignore: bool, f: OAuth2Flows) -> Seq<Seq<char>> {
    let a = flow_scopes(f.implicit);
    let b = flow_scopes(f.password);
    let c = flow_scopes(f.client_credentials);
    let d = flow_scopes(f.authorization_code);
    scopes_errors(marker, vis, ignore, a, a.len()) + scopes_errors(marker, vis, ignore, b, b.len()) + scopes_errors(
        marker,
        vis,
        ignore,
        c,
        c.len(),
    ) + scopes_errors(marker, vis, ignore, d, d.len())
}

/// The first `n` scopes of a flow get no "unused" diagnostic exactly when the
/// switch is on or each of their markers `<marker>/<scope>` was visited.
pub proof fn law_scopes_unused(marker: Seq<char>, vis: Set<Seq<char>>, ignore: bool, scopes: Seq<Seq<char>>, n: nat)
    requires
        n <= scopes.len(),
    ensures
        scopes_errors(marker, vis, ignore, scopes, n).len() == 0 <==> (ignore || forall|i: int|
            0 <= i < n ==> vis.contains(marker + "/"@ + #[trigger] scopes[i])),
        scopes_errors(marker, vis, ignore, scopes, n).len() <= n,
    decreases n,
{
    if n > 0 {
        law_scopes_unused(marker, vis, ignore, scopes, (n - 1) as nat);
    }
}

/// An OAuth2 scheme gets no "unused scope" diagnostic exactly when the switch
/// is on or every scope that any of its four flows declares was used (its
/// marker `<marker>/<scope>` visited).
pub proof fn law_flows_unused(marker: Seq<char>, vis: Set<Seq<char>>, ignore: bool, f: OAuth2Flows)
    ensures
        flows_errors(marker, vis, ignore, f).len() == 0 <==> (ignore || forall|s: Seq<char>|
            #![trigger vis.contains(marker + "/"@ + s)]
            ((f.implicit matches Some(v) && views(v@).contains(s)) || (f.password matches Some(v) && views(v@).contains(s))
                || (f.client_credentials matches Some(v) && views(v@).contains(s)) || (f.authorization_code matches Some(
                v,
            ) && views(v@).contains(s))) ==> vis.contains(marker + "/"@ + s)),
{
    let a = flow_scopes(f.implicit);
    let b = flow_scopes(f.password);
    let c = flow_scopes(f.client_credentials);
    let d = flow_scopes(f.authorization_code);
    law_scopes_unused(marker, vis, ignore, a, a.len());
    law_scopes_unused(marker, vis, ignore, b, b.len());
    law_scopes_unused(marker, vis, ignore, c, c.len());
    law_scopes_unused(marker, vis, ignore, d, d.len());
    let all = forall|s: Seq<char>|
        #![trigger vis.contains(marker + "/"@ + s)]
        ((f.implicit matches Some(v) && views(v@).contains(s)) || (f.password matches Some(v) && views(v@).contains(s))
            || (f.client_credentials matches Some(v) && views(v@).contains(s)) || (f.authorization_code matches Some(v)
            && views(v@).contains(s))) ==> vis.contains(marker + "/"@ + s);
    if !ignore && flows_errors(marker, vis, ignore, f).len() == 0 {
        assert forall|s: Seq<char>|
            ((f.implicit matches Some(v) && views(v@).contains(s)) || (f.password matches Some(v) && views(
                v@,
            ).contains(s)) || (f.client_credentials matches Some(v) && views(v@).contains(s)) || (
            f.authorization_code matches Some(v) && views(v@).contains(s))) implies vis.contains(
            marker + "/"@ + s,
        ) by {
            if f.implicit matches Some(v) && views(v@).contains(s) {
                let i = choose|i: int| 0 <= i < a.len() && a[i] == s;
            } else if f.password matches Some(v) && views(v@).contains(s) {
                let i = choose|i: int| 0 <= i < b.len() && b[i] == s;
            } else if f.client_credentials matches Some(v) && views(v@).contains(s) {
                let i = choose|i: int| 0 <= i < c.len() && c[i] == s;
            } else {
                let i = choose|i: int| 0 <= i < d.len() && d[i] == s;
            }
        }
    }
    if !ignore && all {
        assert forall|i: int| 0 <= i < a.len() implies vis.contains(marker + "/"@ + #[trigger] a[i]) by {
            assert(a.contains(a[i]));
        }
        assert forall|i: int| 0 <= i < b.len() implies vis.contains(marker + "/"@ + #[trigger] b[i]) by {
            assert(b.contains(b[i]));
        }
        assert forall|i: int| 0 <= i < c.len() implies vis.contains(marker + "/"@ + #[trigger] c[i]) by {
            assert(c.contains(c[i]));
        }
        assert forall|i: int| 0 <= i < d.len() implies vis.contains(marker + "/"@ + #[trigger] d[i]) by {
            assert(d.contains(d[i]));
        }
    }
}

/// What the security scheme entry `entry` of the document `spec` is, once
/// its `$ref` is followed.
pub open spec fn scheme_of(spec: Spec, entry: RefOr<SecurityScheme>) -> Result<SecurityScheme, ResolveError> {
    item_of(entry, spec.resolved(entry->Ref_0.reference@))
}

/// The flows of the security scheme entry `entry`, if it is (or its `$ref`
/// names) an OAuth2 scheme.
pub open spec fn oauth2_flows_of(spec: Spec, entry: RefOr<SecurityScheme>) -> Option<OAuth2Flows> {
    match scheme_of(spec, entry) {
        Ok(SecurityScheme::OAuth2(flows)) => Some(flows),
        _ => None,
    }
}

/// The diagnostics of the first `n` security schemes: each one's use and
/// name, then, for an OAuth2 scheme, its unused scopes.
pub open spec fn schemes_errors(
    spec: Spec,
    options: OptionSet,
    vis: Set<Seq<char>>,
    entries: Seq<(String, RefOr<SecurityScheme>)>,
    n: nat,
    path: Seq<char>,
) -> Seq<Seq<char>>
    decreases n,
{
    if n == 0 || n > entries.len() {
        seq![]
    } else {
        let name = entries[n - 1].0@;
        let marker = "#/components/securitySchemes/"@ + name;
        schemes_errors(spec, options, vis, entries, (n - 1) as nat, path) + entry_head_errors(
            options,
            vis,
            name,
            "#/components/securitySchemes/"@,
            "securitySchemes"@,
            path,
            Options::IgnoreUnusedSecuritySchemes,
        ) + match oauth2_flows_of(spec, entries[n - 1].1) {
            Some(f) => flows_errors(marker, vis, options.has(Options::IgnoreUnusedSecuritySchemes), f),
            None => seq![],
        }
    }
}

/// [`schemes_errors`] of the optional security schemes section.
pub open spec fn opt_schemes_errors(
    spec: Spec,
    options: OptionSet,
    vis: Set<Seq<char>>,
    entries: Option<Vec<(String, RefOr<SecurityScheme>)>>,
    path: Seq<char>,
) -> Seq<Seq<char>> {
    match entries {
        None => seq![],
        Some(es) => schemes_errors(spec, options, vis, es@, es@.len(), path),
    }
}

/// What checking the components `c`, found at `path`, does to a pass that
/// had visited `vis` and reported `errs`, section by section: schemas,
/// responses, parameters, examples, request bodies and headers (by name),
/// security schemes (with the scopes of their OAuth2 flows), path items,
/// links, callbacks.
pub open spec fn components_checks(
    c: Components,
    spec: Spec,
    options: OptionSet,
    vis: Set<Seq<char>>,
    errs: Seq<Seq<char>>,
    path: Seq<char>,
    after: (Seq<Seq<char>>, Set<Seq<char>>),
) -> bool {
    exists|s1: (Seq<Seq<char>>, Set<Seq<char>>), s2: (Seq<Seq<char>>, Set<Seq<char>>), s3: (Seq<Seq<char>>, Set<Seq<char>>)|
        #[trigger] opt_section_checks(spec, options, vis, errs, c.schemas, "#/components/schemas/"@, "schemas"@, path, Options::IgnoreUnusedSchemas, s1)
        && #[trigger] opt_section_checks(spec, options, s1.1, s1.0, c.responses, "#/components/responses/"@, "responses"@, path, Options::IgnoreUnusedResponses, s2)
        && #[trigger] opt_section_checks(spec, options, s2.1, s2.0, c.parameters, "#/components/parameters/"@, "parameters"@, path, Options::IgnoreUnusedParameters, s3)
        && components_tail_checks(c, spec, options, s3.1, s3.0, path, after)
}

/// The diagnostics of the sections of the components checked by name (request
/// bodies, headers) and of the security schemes, which visit nothing.
pub open spec fn named_sections_errors(c: Components, spec: Spec, options: OptionSet, vis: Set<Seq<char>>, path: Seq<char>) -> Seq<Seq<char>> {
    opt_names_errors(options, vis, c.request_bodies, "#/components/requestBodies/"@, "requestBodies"@, path, Options::IgnoreUnusedRequestBodies)
        + opt_names_errors(options, vis, c.headers, "#/components/headers/"@, "headers"@, path, Options::IgnoreUnusedHeaders)
        + opt_schemes_errors(spec, options, vis, c.security_schemes, path)
}

/// The sections of [`components_checks`] from the examples on.
pub open spec fn components_tail_checks(
    c: Components,
    spec: Spec,
    options: OptionSet,
    vis: Set<Seq<char>>,
    errs: Seq<Seq<char>>,
    path: Seq<char>,
    after: (Seq<Seq<char>>, Set<Seq<char>>),
) -> bool {
    exists|s4: (Seq<Seq<char>>, Set<Seq<char>>), s7: (Seq<Seq<char>>, Set<Seq<char>>), s8: (Seq<Seq<char>>, Set<Seq<char>>)|
        #[trigger] opt_section_checks(spec, options, vis, errs, c.examples, "#/components/examples/"@, "examples"@, path, Options::IgnoreUnusedExamples, s4)
        && #[trigger] opt_section_checks(spec, options, s4.1, s4.0 + named_sections_errors(c, spec, options, s4.1, path), c.path_items, "#/components/pathItems/"@, "pathItems"@, path, Options::IgnoreUnusedPathItems, s7)
        && #[trigger] opt_section_checks(spec, options, s7.1, s7.0, c.links, "#/components/links/"@, "links"@, path, Options::IgnoreUnusedLinks, s8)
        && opt_section_checks(spec, options, s8.1, s8.0, c.callbacks, "#/components/callbacks/"@, "callbacks"@, path, Options::IgnoreUnusedCallbacks, after)
}

/// [`components_tail_checks`] from the states each of its sections leaves.
pub proof fn lemma_tail(
    c: Components,
    spec: Spec,
    options: OptionSet,
    s3: (Seq<Seq<char>>, Set<Seq<char>>),
    s4: (Seq<Seq<char>>, Set<Seq<char>>),
    s7: (Seq<Seq<char>>, Set<Seq<char>>),
    s8: (Seq<Seq<char>>, Set<Seq<char>>),
    path: Seq<char>,
    after: (Seq<Seq<char>>, Set<Seq<char>>),
)
    requires
        opt_section_checks(spec, options, s3.1, s3.0, c.examples, "#/components/examples/"@, "examples"@, path, Options::IgnoreUnusedExamples, s4),
        opt_section_checks(spec, options, s4.1, s4.0 + named_sections_errors(c, spec, options, s4.1, path), c.path_items, "#/components/pathItems/"@, "pathItems"@, path, Options::IgnoreUnusedPathItems, s7),
        opt_section_checks(spec, options, s7.1, s7.0, c.links, "#/components/links/"@, "links"@, path, Options::IgnoreUnusedLinks, s8),
        opt_section_checks(spec, options, s8.1, s8.0, c.callbacks, "#/components/callbacks/"@, "callbacks"@, path, Options::IgnoreUnusedCallbacks, after),
    ensures
        components_tail_checks(c, spec, options, s3.1, s3.0, path, after),
{
}

/// [`components_checks`] from the states each of its sections leaves.
pub proof fn lemma_components(
    c: Components,
    spec: Spec,
    options: OptionSet,
    vis: Set<Seq<char>>,
    errs: Seq<Seq<char>>,
    s1: (Seq<Seq<char>>, Set<Seq<char>>),
    s2: (Seq<Seq<char>>, Set<Seq<char>>),
    s3: (Seq<Seq<char>>, Set<Seq<char>>),
    path: Seq<char>,
    after: (Seq<Seq<char>>, Set<Seq<char>>),
)
    requires
        opt_section_checks(spec, options, vis, errs, c.schemas, "#/components/schemas/"@, "schemas"@, path, Options::IgnoreUnusedSchemas, s1),
        opt_section_checks(spec, options, s1.1, s1.0, c.responses, "#/components/responses/"@, "responses"@, path, Options::IgnoreUnusedResponses, s2),
        opt_section_checks(spec, options, s2.1, s2.0, c.parameters, "#/components/parameters/"@, "parameters"@, path, Options::IgnoreUnusedParameters, s3),
        components_tail_checks(c, spec, options, s3.1, s3.0, path, after),
    ensures
        components_checks(c, spec, options, vis, errs, path, after),
{
}

/// `extends` chains.
pub proof fn lemma_extends_trans(a: Context<'_, Spec>, b: Context<'_, Spec>, c: Context<'_, Spec>)
    requires
        b.extends(&a),
        c.extends(&b),
    ensures
        c.extends(&a),
{
    assert(a.errors_view().is_prefix_of(c.errors_view())) by {
        assert forall|i: int| 0 <= i < a.errors_view().len() implies a.errors_view()[i] == c.errors_view()[i] by {
            assert(b.errors_view()[i] == a.errors_view()[i]);
        }
    }
}

/// Checks the names and use of an optional section held by name only.
fn check_opt_names(
    ctx: &mut Context<'_, Spec>,
    names: &Option<Vec<String>>,
    prefix: &str,
    section: &str,
    path: &str,
    option: Options,
)
    ensures
        final(ctx).errors_view() == old(ctx).errors_view() + opt_names_errors(
            old(ctx).options,
            old(ctx).visited_set(),
            *names,
            prefix@,
            section@,
            path@,
            option,
        ),
        final(ctx).visited == old(ctx).visited,
        final(ctx).spec == old(ctx).spec,
        final(ctx).options == old(ctx).options,
{
    let ghost e0 = old(ctx).errors_view();
    let ghost opts = old(ctx).options;
    let ghost vis = old(ctx).visited_set();
    if let Some(v) = names {
        assert(e0 =~= e0 + names_errors(opts, vis, v@, 0, prefix@, section@, path@, option));
        let mut i: usize = 0;
        while i < v.len()
            invariant
                i <= v.len(),
                *names == Some(*v),
                opts == old(ctx).options,
                vis == old(ctx).visited_set(),
                ctx.visited == old(ctx).visited,
                ctx.spec == old(ctx).spec,
                ctx.options == old(ctx).options,
                ctx.errors_view() == e0 + names_errors(opts, vis, v@, i as nat, prefix@, section@, path@, option),
            decreases v.len() - i,
        {
            check_entry_head(ctx, v[i].as_str(), prefix, section, path, option);
            assert(ctx.errors_view() =~= e0 + names_errors(opts, vis, v@, (i + 1) as nat, prefix@, section@, path@, option));
            i = i + 1;
        }
    } else {
        assert(e0 =~= e0 + Seq::<Seq<char>>::empty());
    }
}

/// Reports the scopes of one flow of the security scheme `marker` that
/// nothing visited.
fn check_unused_scopes(ctx: &mut Context<'_, Spec>, marker: &str, flow: &Option<Vec<String>>)
    ensures
        final(ctx).errors_view() == old(ctx).errors_view() + scopes_errors(
            marker@,
            old(ctx).visited_set(),
            old(ctx).has_option(Options::IgnoreUnusedSecuritySchemes),
            flow_scopes(*flow),
            flow_scopes(*flow).len(),
        ),
        final(ctx).visited == old(ctx).visited,
        final(ctx).spec == old(ctx).spec,
        final(ctx).options == old(ctx).options,
{
    let ghost e0 = old(ctx).errors_view();
    let ghost vis = old(ctx).visited_set();
    let ghost ig = old(ctx).has_option(Options::IgnoreUnusedSecuritySchemes);
    if let Some(scopes) = flow {
        let ghost sc = flow_scopes(*flow);
        assert(e0 =~= e0 + scopes_errors(marker@, vis, ig, sc, 0));
        let mut i: usize = 0;
        while i < scopes.len()
            invariant
                i <= scopes.len(),
                *flow == Some(*scopes),
                sc == flow_scopes(*flow),
                vis == old(ctx).visited_set(),
                ig == old(ctx).has_option(Options::IgnoreUnusedSecuritySchemes),
                ctx.visited == old(ctx).visited,
                ctx.spec == old(ctx).spec,
                ctx.options == old(ctx).options,
                ctx.errors_view() == e0 + scopes_errors(marker@, vis, ig, sc, i as nat),
            decreases scopes.len() - i,
        {
            let mut r = concat(marker, "/");
            push_str(&mut r, scopes[i].as_str());
            report_unused(ctx, r.as_str(), Options::IgnoreUnusedSecuritySchemes);
            assert(sc[i as int] == scopes@[i as int]@);
            assert(ctx.errors_view() =~= e0 + scopes_errors(marker@, vis, ig, sc, (i + 1) as nat));
            i = i + 1;
        }
    } else {
        assert(e0 =~= e0 + Seq::<Seq<char>>::empty());
    }
}

/// Checks the security schemes: each name and use, and, for an OAuth2
/// scheme, the use of each scope of each flow.
fn check_security_schemes(ctx: &mut Context<'_, Spec>, entries: &Vec<(String, RefOr<SecurityScheme>)>, path: &str)
    ensures
        final(ctx).errors_view() == old(ctx).errors_view() + schemes_errors(
            *old(ctx).spec,
            old(ctx).options,
            old(ctx).visited_set(),
            entries@,
            entries@.len(),
            path@,
        ),
        final(ctx).visited == old(ctx).visited,
        final(ctx).spec == old(ctx).spec,
        final(ctx).options == old(ctx).options,
{
    let ghost spec = *old(ctx).spec;
    let ghost opts = old(ctx).options;
    let ghost vis = old(ctx).visited_set();
    let ghost e0 = old(ctx).errors_view();
    assert(e0 =~= e0 + schemes_errors(spec, opts, vis, entries@, 0, path@));
    let mut i: usize = 0;
    while i < entries.len()
        invariant
            i <= entries.len(),
            spec == *old(ctx).spec,
            opts == old(ctx).options,
            vis == old(ctx).visited_set(),
            ctx.visited == old(ctx).visited,
            ctx.spec == old(ctx).spec,
            ctx.options == old(ctx).options,
            ctx.errors_view() == e0 + schemes_errors(spec, opts, vis, entries@, i as nat, path@),
        decreases entries.len() - i,
    {
        let (name, obj) = &entries[i];
        check_entry_head(ctx, name.as_str(), "#/components/securitySchemes/", "securitySchemes", path, Options::IgnoreUnusedSecuritySchemes);
        let ghost e1 = ctx.errors_view();
        let marker = concat("#/components/securitySchemes/", name.as_str());
        let spec_ref = ctx.spec;
        match obj.get_item(spec_ref) {
            Ok(SecurityScheme::OAuth2(flows)) => {
                check_unused_scopes(ctx, marker.as_str(), &flows.implicit);
                check_unused_scopes(ctx, marker.as_str(), &flows.password);
                check_unused_scopes(ctx, marker.as_str(), &flows.client_credentials);
                check_unused_scopes(ctx, marker.as_str(), &flows.authorization_code);
            },
            _ => {
                assert(e1 =~= e1 + Seq::<Seq<char>>::empty());
            },
        }
        assert(ctx.errors_view() =~= e0 + schemes_errors(spec, opts, vis, entries@, (i + 1) as nat, path@));
        i = i + 1;
    }
}

impl Components {
    /// Checks the components found at `path`, section by section: each
    /// component is reported when nothing referenced it before its check
    /// (unless the section's `IgnoreUnused...` switch is on) and when its
    /// name is not a valid component name, and each is then checked itself
    /// (request bodies and headers are held by name only); each scope of an
    /// OAuth2 scheme's flows that nothing visited is reported too.
    #[verifier::spinoff_prover]
    #[verifier::rlimit(60)]
    pub fn validate(&self, ctx: &mut Context<'_, Spec>, path: String)
        ensures
            final(ctx).extends(old(ctx)),
            components_checks(
                *self,
                *old(ctx).spec,
                old(ctx).options,
                old(ctx).visited_set(),
                old(ctx).errors_view(),
                path@,
                (final(ctx).errors_view(), final(ctx).visited_set()),
            ),
    {
        let ghost spec = *old(ctx).spec;
        let ghost opts = old(ctx).options;
        let ghost c0 = *ctx;
        check_opt_section(ctx, &self.schemas, "#/components/schemas/", "schemas", path.as_str(), Options::IgnoreUnusedSchemas);
        let ghost c1 = *ctx;
        check_opt_section(ctx, &self.responses, "#/components/responses/", "responses", path.as_str(), Options::IgnoreUnusedResponses);
        let ghost c2 = *ctx;
        check_opt_section(ctx, &self.parameters, "#/components/parameters/", "parameters", path.as_str(), Options::IgnoreUnusedParameters);
        let ghost c3 = *ctx;
        check_opt_section(ctx, &self.examples, "#/components/examples/", "examples", path.as_str(), Options::IgnoreUnusedExamples);
        let ghost c4 = *ctx;
        check_opt_names(ctx, &self.request_bodies, "#/components/requestBodies/", "requestBodies", path.as_str(), Options::IgnoreUnusedRequestBodies);
        check_opt_names(ctx, &self.headers, "#/components/headers/", "headers", path.as_str(), Options::IgnoreUnusedHeaders);
        match &self.security_schemes {
            Some(es) => check_security_schemes(ctx, es, path.as_str()),
            None => {},
        }
        let ghost c6 = *ctx;
        proof {
            assert(c6.errors_view() =~= c4.errors_view() + named_sections_errors(*self, spec, opts, c4.visited_set(), path@));
            assert(c6.visited_set() == c4.visited_set());
            assert(c6.extends(&c4));
        }
        check_opt_section(ctx, &self.path_items, "#/components/pathItems/", "pathItems", path.as_str(), Options::IgnoreUnusedPathItems);
        let ghost c7 = *ctx;
        check_opt_section(ctx, &self.links, "#/components/links/", "links", path.as_str(), Options::IgnoreUnusedLinks);
        let ghost c8 = *ctx;
        check_opt_section(ctx, &self.callbacks, "#/components/callbacks/", "callbacks", path.as_str(), Options::IgnoreUnusedCallbacks);
        proof {
            let s7 = (c7.errors_view(), c7.visited_set());
            let s8 = (c8.errors_view(), c8.visited_set());
            let s4 = (c4.errors_view(), c4.visited_set());
            let s1 = (c1.errors_view(), c1.visited_set());
            let s2 = (c2.errors_view(), c2.visited_set());
            let s3 = (c3.errors_view(), c3.visited_set());
            let fin = (ctx.errors_view(), ctx.visited_set());
            lemma_tail(*self, spec, opts, s3, s4, s7, s8, path@, fin);
            lemma_components(*self, spec, opts, c0.visited_set(), c0.errors_view(), s1, s2, s3, path@, fin);
            lemma_extends_trans(c7, c8, *ctx);
            lemma_extends_trans(c6, c7, *ctx);
            lemma_extends_trans(c4, c6, *ctx);
            lemma_extends_trans(c3, c4, *ctx);
            lemma_extends_trans(c2, c3, *ctx);
            lemma_extends_trans(c1, c2, *ctx);
            lemma_extends_trans(c0, c1, *ctx);
        }
    }
}

impl ValidateWithContext<Spec> for Components {
    open spec fn checks(
        &self,
        spec: Spec,
        options: OptionSet,
        visited: Set<Seq<char>>,
        errors: Seq<Seq<char>>,
        path: Seq<char>,
        after: (Seq<Seq<char>>, Set<Seq<char>>),
    ) -> bool {
        components_checks(*self, spec, options, visited, errors, path, after)
    }

    fn validate_with_context(&self, ctx: &mut Context<'_, Spec>, path: String) {
        self.validate(ctx, path);
    }
}

} // verus!
