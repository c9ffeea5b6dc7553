//! The Responses and Response objects (OpenAPI 3.1).
use vstd::prelude::*;
use crate::common::checks::{required_string_errors, validate_required_string};
use crate::common::context::{error_line, lemma_prefix_trans, walked, Context, OptionSet, Options, ValidateWithContext};
use crate::common::reference::ResolveReference;
use crate::v3_0::link::opt_text;
use crate::v3_0::link::link_errors;
use crate::v3_1::link::{link_ref_outcome, link_server_errors};
use crate::common::patterns::{is_status_range, status_range_matches};
use crate::common::text::{chars_of, concat, push_str, starts_with, str_equal};
use crate::v3_0::reference::{empty_ref_errors, item_of, ref_or_checks, unresolved_ref_errors, RefOr};
use crate::v3_1::link::Link;
use crate::v3_1::spec::Spec;

verus! {

/// `c` is an ASCII decimal digit.
pub open spec fn is_digit(c: char) -> bool {
    '0' <= c && c <= '9'
}

/// `s` is a 3-digit HTTP status code in `100..=599`: three ASCII digits, the
/// first of them `1` to `5`.
pub open spec fn is_status_code(s: Seq<char>) -> bool {
    s.len() == 3 && '1' <= s[0] && s[0] <= '5' && is_digit(s[1]) && is_digit(s[2])
}

/// A key of the Responses object that names responses: a 3-digit status
/// code in `100..=599`, or one of the ranges `1XX` .. `5XX`.
pub open spec fn is_response_code(s: Seq<char>) -> bool {
    is_status_code(s) || is_status_range(s)
}

/// A key of three ASCII digits names responses exactly when its value lies in
/// `100..=599`; a key `<d>XX` exactly when `d` is one of `1`..`5`; a key of
/// any other length never (so `+200` and `0200` are refused).
pub proof fn law_response_code_keys(s: Seq<char>)
    ensures
        s.len() != 3 ==> !is_response_code(s),
        s.len() == 3 && ('0' <= s[0] && s[0] <= '9') && ('0' <= s[1] && s[1] <= '9') && ('0' <= s[2] && s[2] <= '9')
            ==> (is_response_code(s) <==> ({
            let value = 100 * (s[0] as int - '0' as int) + 10 * (s[1] as int - '0' as int) + (s[2] as int - '0' as int);
            100 <= value && value <= 599
        })),
        s.len() == 3 && s[1] == 'X' && s[2] == 'X' ==> (is_response_code(s) <==> ('1' <= s[0] && s[0] <= '5')),
{
}

/// Whether `key` names responses in a Responses object: a 3-digit status
/// code in `100..=599` or one of `1XX` .. `5XX`.
pub fn is_response_code_key(key: &str) -> (res: bool)
    ensures
        res == is_response_code(key@),
{
    let cs = chars_of(key);
    let code = cs.len() == 3 && '1' <= cs[0] && cs[0] <= '5' && '0' <= cs[1] && cs[1] <= '9' && '0' <= cs[2]
        && cs[2] <= '9';
    if code {
        true
    } else {
        status_range_matches(key)
    }
}

/// Describes a single response from an API Operation: the fields that
/// validation reads.
#[derive(Debug)]
pub struct Response {
    /// **Required** A description of the response.
    pub description: String,
    /// A map of operations links that can be followed from the response.
    pub links: Option<Vec<(String, RefOr<Link>)>>,
}

/// A container for the expected responses of an operation.
#[derive(Debug)]
pub struct Responses {
    /// The documentation of responses other than the ones declared for
    /// specific HTTP response codes.
    pub default: Option<RefOr<Response>>,
    /// Responses keyed by status code or status code range.
    pub responses: Option<Vec<(String, RefOr<Response>)>>,
}

/// What the link `l`, found at `path`, reports on a pass with the markers
/// `vis` visited (see [`Link::validate`]).
pub open spec fn link_pass(spec: Spec, opts: OptionSet, vis: Set<Seq<char>>, l: Link, path: Seq<char>) -> Seq<Seq<char>> {
    link_errors(
        path,
        opt_text(l.operation_ref),
        opt_text(l.operation_id),
        vis,
        opts.has(Options::IgnoreExternalReferences),
        link_ref_outcome(spec, l.operation_ref),
    ) + link_server_errors(path, l.server, opts.has(Options::IgnoreUnusedServerVariables))
}

/// What checking the link or `$ref` `r`, found at `path`, reports on a pass
/// with the markers `vis` visited before it, and the markers visited
/// afterwards: a `$ref` is reported if empty; the first time it is met it is
/// visited and followed, and the link it names checked at the location the
/// `$ref` names, or the failure to follow it reported.
pub open spec fn link_ref_pass(spec: Spec, opts: OptionSet, vis: Set<Seq<char>>, r: RefOr<Link>, path: Seq<char>) -> (
    Seq<Seq<char>>,
    Set<Seq<char>>,
) {
    match r {
        RefOr::Item(l) => (link_pass(spec, opts, vis, l, path), vis),
        RefOr::Ref(x) => {
            let reference = x.reference@;
            let pre = empty_ref_errors(path, reference);
            if vis.contains(reference) {
                (pre, vis)
            } else {
                match item_of(r, <Spec as ResolveReference<Link>>::resolved(&spec, reference)) {
                    Ok(d) => (pre + link_pass(spec, opts, vis.insert(reference), d, reference), vis.insert(reference)),
                    Err(e) => (
                        pre + unresolved_ref_errors(path, e, opts.has(Options::IgnoreExternalReferences)),
                        vis.insert(reference),
                    ),
                }
            }
        },
    }
}

/// A check of a link or `$ref` is [`link_ref_pass`].
pub proof fn lemma_link_ref(
    spec: Spec,
    opts: OptionSet,
    vis: Set<Seq<char>>,
    errors: Seq<Seq<char>>,
    r: RefOr<Link>,
    path: Seq<char>,
    after: (Seq<Seq<char>>, Set<Seq<char>>),
)
    requires
        ref_or_checks(r, spec, opts, vis, errors, path, after),
    ensures
        after == (errors + link_ref_pass(spec, opts, vis, r, path).0, link_ref_pass(spec, opts, vis, r, path).1),
{
    let w = link_ref_pass(spec, opts, vis, r, path);
    match r {
        RefOr::Item(l) => {
            assert(after.0 =~= errors + w.0);
        },
        RefOr::Ref(x) => {
            assert(after.0 =~= errors + w.0);
        },
    }
}

/// What checking the first `n` links of `links` reports, each found at
/// `<path>.links[<name>]`.
pub open spec fn links_pass(
    spec: Spec,
    opts: OptionSet,
    vis: Set<Seq<char>>,
    links: Seq<(String, RefOr<Link>)>,
    n: nat,
    path: Seq<char>,
) -> (Seq<Seq<char>>, Set<Seq<char>>)
    decreases n,
{
    if n == 0 || n > links.len() {
        (seq![], vis)
    } else {
        let (e1, v1) = links_pass(spec, opts, vis, links, (n - 1) as nat, path);
        let (e2, v2) = link_ref_pass(spec, opts, v1, links[n - 1].1, path + ".links["@ + links[n - 1].0@ + "]"@);
        (e1 + e2, v2)
    }
}

/// The diagnostics of the description of a response at `path`.
pub open spec fn description_errors(opts: OptionSet, r: Response, path: Seq<char>) -> Seq<Seq<char>> {
    if opts.has(Options::IgnoreEmptyResponseDescription) {
        seq![]
    } else {
        required_string_errors(path + ".description"@, r.description@)
    }
}

/// A response's description is reported, once, exactly when it is empty and
/// `IgnoreEmptyResponseDescription` is off; a key is reported, once, exactly
/// when it is not a response code.
pub proof fn law_response_description_and_key(opts: OptionSet, r: Response, path: Seq<char>, key: Seq<char>)
    ensures
        description_errors(opts, r, path).len() > 0 <==> (r.description@.len() == 0 && !opts.has(
            Options::IgnoreEmptyResponseDescription,
        )),
        description_errors(opts, r, path).len() <= 1,
        response_key_errors(path, key).len() > 0 <==> !is_response_code(key),
        response_key_errors(path, key).len() <= 1,
{
}

/// What checking the response `r`, found at `path`, reports: a non-empty
/// description (unless `IgnoreEmptyResponseDescription`), then each link.
pub open spec fn response_pass(spec: Spec, opts: OptionSet, vis: Set<Seq<char>>, r: Response, path: Seq<char>) -> (
    Seq<Seq<char>>,
    Set<Seq<char>>,
) {
    let w = match r.links {
        Some(l) => links_pass(spec, opts, vis, l@, l@.len(), path),
        None => (seq![], vis),
    };
    (description_errors(opts, r, path) + w.0, w.1)
}

impl Response {
    /// Checks the response found at `path`: a non-empty description (unless
    /// `IgnoreEmptyResponseDescription`), then each link.
    pub fn validate(&self, ctx: &mut Context<'_, Spec>, path: String)
        ensures
            final(ctx).extends(old(ctx)),
            walked(*old(ctx), *final(ctx), response_pass(*old(ctx).spec, old(ctx).options, old(ctx).visited_set(), *self, path@)),
    {
        let ghost spec = *old(ctx).spec;
        let ghost opts = old(ctx).options;
        let ghost vis = old(ctx).visited_set();
        if !ctx.is_option(Options::IgnoreEmptyResponseDescription) {
            let p = concat(path.as_str(), ".description");
            validate_required_string(ctx, self.description.as_str(), p.as_str());
        } else {
            assert(ctx.errors_view() + Seq::<Seq<char>>::empty() =~= ctx.errors_view());
        }
        let ghost mid = ctx.errors_view();
        assert(mid.is_prefix_of(mid));
        if let Some(links) = &self.links {
            assert(mid =~= mid + links_pass(spec, opts, vis, links@, 0, path@).0);
            let mut i: usize = 0;
            while i < links.len()
                invariant
                    i <= links.len(),
                    spec == *old(ctx).spec,
                    opts == old(ctx).options,
                    vis == old(ctx).visited_set(),
                    ctx.extends(old(ctx)),
                    mid.is_prefix_of(ctx.errors_view()),
                    ctx.errors_view() == mid + links_pass(spec, opts, vis, links@, i as nat, path@).0,
                    ctx.visited_set() == links_pass(spec, opts, vis, links@, i as nat, path@).1,
                decreases links.len() - i,
            {
                let (name, link) = &links[i];
                let mut p = concat(path.as_str(), ".links[");
                push_str(&mut p, name.as_str());
                push_str(&mut p, "]");
                let ghost c0 = *ctx;
                link.validate_with_context(ctx, p);
                proof {
                    lemma_prefix_trans(mid, c0.errors_view(), ctx.errors_view());
                    lemma_link_ref(spec, opts, c0.visited_set(), c0.errors_view(), links@[i as int].1, p@, (ctx.errors_view(), ctx.visited_set()));
                    assert(ctx.errors_view() =~= mid + links_pass(spec, opts, vis, links@, (i + 1) as nat, path@).0);
                }
                i = i + 1;
            }
            assert(ctx.errors_view() =~= old(ctx).errors_view() + response_pass(spec, opts, vis, *self, path@).0);
        } else {
            assert(ctx.errors_view() =~= old(ctx).errors_view() + response_pass(spec, opts, vis, *self, path@).0);
        }
    }
}

impl ValidateWithContext<Spec> for Response {
    open spec fn checks(
        &self,
        spec: Spec,
        options: OptionSet,
        visited: Set<Seq<char>>,
        errors: Seq<Seq<char>>,
        path: Seq<char>,
        after: (Seq<Seq<char>>, Set<Seq<char>>),
    ) -> bool {
        let w = response_pass(spec, options, visited, *self, path);
        after == (errors + w.0, w.1)
    }

    fn validate_with_context(&self, ctx: &mut Context<'_, Spec>, path: String) {
        self.validate(ctx, path);
    }
}

/// The diagnostic of a Responses object at `path` that declares no response.
pub open spec fn no_response_errors(path: Seq<char>, has_default: bool, n_codes: nat) -> Seq<Seq<char>> {
    if !has_default && n_codes == 0 {
        seq![
            error_line(
                path,
                "must declare at least one response (`default` or a status code like `200` / wildcard like `2XX`)"@,
            ),
        ]
    } else {
        seq![]
    }
}

/// What checking the response or `$ref` `r`, found at `path`, reports (see
/// [`link_ref_pass`]); a response is checked as [`response_pass`] says.
pub open spec fn response_ref_pass(spec: Spec, opts: OptionSet, vis: Set<Seq<char>>, r: RefOr<Response>, path: Seq<char>) -> (
    Seq<Seq<char>>,
    Set<Seq<char>>,
) {
    match r {
        RefOr::Item(x) => response_pass(spec, opts, vis, x, path),
        RefOr::Ref(x) => {
            let reference = x.reference@;
            let pre = empty_ref_errors(path, reference);
            if vis.contains(reference) {
                (pre, vis)
            } else {
                match item_of(r, <Spec as ResolveReference<Response>>::resolved(&spec, reference)) {
                    Ok(d) => {
                        let w = response_pass(spec, opts, vis.insert(reference), d, reference);
                        (pre + w.0, w.1)
                    },
                    Err(e) => (
                        pre + unresolved_ref_errors(path, e, opts.has(Options::IgnoreExternalReferences)),
                        vis.insert(reference),
                    ),
                }
            }
        },
    }
}

/// A check of a response or `$ref` is [`response_ref_pass`].
pub proof fn lemma_response_ref(
    spec: Spec,
    opts: OptionSet,
    vis: Set<Seq<char>>,
    errors: Seq<Seq<char>>,
    r: RefOr<Response>,
    path: Seq<char>,
    after: (Seq<Seq<char>>, Set<Seq<char>>),
)
    requires
        ref_or_checks(r, spec, opts, vis, errors, path, after),
    ensures
        after == (errors + response_ref_pass(spec, opts, vis, r, path).0, response_ref_pass(spec, opts, vis, r, path).1),
{
    let w = response_ref_pass(spec, opts, vis, r, path);
    match r {
        RefOr::Item(x) => {},
        RefOr::Ref(x) => {
            assert(after.0 =~= errors + w.0);
        },
    }
}

/// The diagnostic of a Responses key `key` at `path` that names no status
/// code or range.
pub open spec fn response_key_errors(path: Seq<char>, key: Seq<char>) -> Seq<Seq<char>> {
    if is_response_code(key) {
        seq![]
    } else {
        seq![
            error_line(
                path,
                "key must be a 3-digit status code (100-599) or one of `1XX/2XX/3XX/4XX/5XX`, found `"@ + key + "`"@,
            ),
        ]
    }
}

/// What checking the first `n` entries of a Responses map reports: each key,
/// then its response, found at `<path>.<key>`.
pub open spec fn responses_pass(
    spec: Spec,
    opts: OptionSet,
    vis: Set<Seq<char>>,
    rs: Seq<(String, RefOr<Response>)>,
    n: nat,
    path: Seq<char>,
) -> (Seq<Seq<char>>, Set<Seq<char>>)
    decreases n,
{
    if n == 0 || n > rs.len() {
        (seq![], vis)
    } else {
        let (e1, v1) = responses_pass(spec, opts, vis, rs, (n - 1) as nat, path);
        let (e2, v2) = response_ref_pass(spec, opts, v1, rs[n - 1].1, path + "."@ + rs[n - 1].0@);
        (e1 + response_key_errors(path, rs[n - 1].0@) + e2, v2)
    }
}

/// What checking the optional default response of a Responses object found
/// at `path` reports, at `<path>.default`.
pub open spec fn default_pass(spec: Spec, opts: OptionSet, vis: Set<Seq<char>>, d: Option<RefOr<Response>>, path: Seq<char>) -> (
    Seq<Seq<char>>,
    Set<Seq<char>>,
) {
    match d {
        Some(d) => response_ref_pass(spec, opts, vis, d, path + ".default"@),
        None => (seq![], vis),
    }
}

/// What checking the Responses object `r`, found at `path`, reports: at
/// least one response is declared; the default response; each key and its
/// response.
pub open spec fn responses_object_pass(spec: Spec, opts: OptionSet, vis: Set<Seq<char>>, r: Responses, path: Seq<char>) -> (
    Seq<Seq<char>>,
    Set<Seq<char>>,
) {
    let e0 = no_response_errors(path, r.default is Some, match r.responses { Some(x) => x@.len(), None => 0 });
    let w1 = default_pass(spec, opts, vis, r.default, path);
    let w2 = match r.responses {
        Some(x) => responses_pass(spec, opts, w1.1, x@, x@.len(), path),
        None => (seq![], w1.1),
    };
    (e0 + w1.0 + w2.0, w2.1)
}

/// A Responses object that declares neither `default` nor a status code gets
/// exactly one diagnostic, at its own location, that it must declare one; an
/// object that declares either never gets that diagnostic, and what its
/// responses report follows.
pub proof fn law_responses_must_declare_one(spec: Spec, opts: OptionSet, vis: Set<Seq<char>>, r: Responses, path: Seq<char>)
    ensures
        ({
            let n = match r.responses {
                Some(x) => x@.len(),
                None => 0,
            };
            let line = error_line(
                path,
                "must declare at least one response (`default` or a status code like `200` / wildcard like `2XX`)"@,
            );
            let errs = responses_object_pass(spec, opts, vis, r, path).0;
            &&& (r.default is None && n == 0) ==> errs == seq![line]
            &&& !(r.default is None && n == 0) ==> no_response_errors(path, r.default is Some, n) == Seq::<Seq<char>>::empty()
            &&& no_response_errors(path, r.default is Some, n).is_prefix_of(errs)
        }),
{
    let n = match r.responses {
        Some(x) => x@.len(),
        None => 0,
    };
    let e0 = no_response_errors(path, r.default is Some, n);
    let errs = responses_object_pass(spec, opts, vis, r, path).0;
    assert(errs.subrange(0, e0.len() as int) =~= e0);
    if r.default is None && n == 0 {
        assert(errs =~= e0);
    }
}

impl Responses {
    /// Checks the responses found at `path`: at least one response is
    /// declared; each key is a status code or range; each response is
    /// checked.
    pub fn validate(&self, ctx: &mut Context<'_, Spec>, path: String)
        ensures
            final(ctx).extends(old(ctx)),
            walked(*old(ctx), *final(ctx), responses_object_pass(*old(ctx).spec, old(ctx).options, old(ctx).visited_set(), *self, path@)),
    {
        let ghost spec = *old(ctx).spec;
        let ghost opts = old(ctx).options;
        let ghost vis = old(ctx).visited_set();
        let has_default = self.default.is_some();
        let has_status_code = match &self.responses {
            Some(m) => m.len() > 0,
            None => false,
        };
        if !has_default && !has_status_code {
            ctx.error(
                path.as_str(),
                "must declare at least one response (`default` or a status code like `200` / wildcard like `2XX`)",
            );
        } else {
            assert(ctx.errors_view() + Seq::<Seq<char>>::empty() =~= ctx.errors_view());
        }
        let ghost first = ctx.errors_view();
        if let Some(response) = &self.default {
            let p = concat(path.as_str(), ".default");
            response.validate_with_context(ctx, p);
            proof {
                lemma_response_ref(spec, opts, vis, first, *response, path@ + ".default"@, (ctx.errors_view(), ctx.visited_set()));
            }
        } else {
            assert(first =~= first + Seq::<Seq<char>>::empty());
        }
        let ghost w1 = default_pass(spec, opts, vis, self.default, path@);
        let ghost second = ctx.errors_view();
        assert(second == first + w1.0);
        if let Some(responses) = &self.responses {
            assert(second =~= second + responses_pass(spec, opts, w1.1, responses@, 0, path@).0);
            let mut i: usize = 0;
            while i < responses.len()
                invariant
                    i <= responses.len(),
                    spec == *old(ctx).spec,
                    opts == old(ctx).options,
                    ctx.extends(old(ctx)),
                    ctx.errors_view() == second + responses_pass(spec, opts, w1.1, responses@, i as nat, path@).0,
                    ctx.visited_set() == responses_pass(spec, opts, w1.1, responses@, i as nat, path@).1,
                decreases responses.len() - i,
            {
                let (name, response) = &responses[i];
                let ghost before = ctx.errors_view();
                if !is_response_code_key(name.as_str()) {
                    let mut m = concat(
                        "key must be a 3-digit status code (100-599) or one of `1XX/2XX/3XX/4XX/5XX`, found `",
                        name.as_str(),
                    );
                    push_str(&mut m, "`");
                    ctx.error(path.as_str(), m.as_str());
                } else {
                    assert(before =~= before + Seq::<Seq<char>>::empty());
                }
                let ghost mid = ctx.errors_view();
                assert(mid =~= before + response_key_errors(path@, name@));
                let mut p = concat(path.as_str(), ".");
                push_str(&mut p, name.as_str());
                let ghost c0 = *ctx;
                response.validate_with_context(ctx, p);
                proof {
                    lemma_prefix_trans(old(ctx).errors_view(), c0.errors_view(), ctx.errors_view());
                    lemma_response_ref(spec, opts, c0.visited_set(), c0.errors_view(), responses@[i as int].1, p@, (ctx.errors_view(), ctx.visited_set()));
                    assert(ctx.errors_view() =~= second + responses_pass(spec, opts, w1.1, responses@, (i + 1) as nat, path@).0);
                }
                i = i + 1;
            }
            assert(ctx.errors_view() =~= old(ctx).errors_view() + responses_object_pass(spec, opts, vis, *self, path@).0);
        } else {
            assert(ctx.errors_view() =~= old(ctx).errors_view() + responses_object_pass(spec, opts, vis, *self, path@).0);
        }
    }
}

impl ValidateWithContext<Spec> for Responses {
    open spec fn checks(
        &self,
        spec: Spec,
        options: OptionSet,
        visited: Set<Seq<char>>,
        errors: Seq<Seq<char>>,
        path: Seq<char>,
        after: (Seq<Seq<char>>, Set<Seq<char>>),
    ) -> bool {
        let w = responses_object_pass(spec, options, visited, *self, path);
        after == (errors + w.0, w.1)
    }

    fn validate_with_context(&self, ctx: &mut Context<'_, Spec>, path: String) {
        self.validate(ctx, path);
    }
}

} // verus!
