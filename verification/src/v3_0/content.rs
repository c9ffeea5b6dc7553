//! The checks of examples, headers, media types, encodings and request
//! bodies. A header's content holds media types, whose encodings hold headers
//! again, directly or by `$ref`: each `$ref` is followed at most once per
//! pass, which bounds how far the checks go.
use vstd::prelude::*;
use crate::common::checks::{optional_url_errors, validate_optional_url};
use crate::common::context::{error_line, lemma_prefix_trans, walked, Context, OptionSet, Options, ValidateWithContext};
use crate::common::reach::{lemma_unvisited_mono, lemma_unvisited_strict, lemma_within_concat, unvisited, within};
use crate::common::reference::{ResolveError, ResolveReference};
use crate::common::text::{concat, decimal, decimal_string, push_str};
use crate::v3_0::components::{Encoding, Example, Header, MediaType, RequestBody};
use crate::v3_0::link::opt_text;
use crate::v3_0::reference::{empty_ref_errors, item_of, ref_or_checks, unresolved_ref_errors, RefOr};
use crate::v3_0::schema::{schema_universe, walk_schema, Schema};
use crate::v3_0::spec::Spec;

verus! {

/// The diagnostics of an Example found at `path`: `value` and
/// `externalValue` are mutually exclusive, and `externalValue` is a URL.
pub open spec fn example_errors(path: Seq<char>, e: Example, ignore_invalid: bool) -> Seq<Seq<char>> {
    (if e.has_value && e.external_value is Some {
        seq![error_line(path, "value and externalValue are mutually exclusive"@)]
    } else {
        seq![]
    }) + optional_url_errors(path + ".externalValue"@, opt_text(e.external_value), ignore_invalid)
}

impl Example {
    /// Checks the example found at `path`.
    pub fn validate(&self, ctx: &mut Context<'_, Spec>, path: String)
        ensures
            final(ctx).errors_view() == old(ctx).errors_view() + example_errors(
                path@,
                *self,
                old(ctx).has_option(Options::IgnoreInvalidUrls),
            ),
            final(ctx).visited == old(ctx).visited,
            final(ctx).spec == old(ctx).spec,
            final(ctx).options == old(ctx).options,
    {
        let ghost e0 = ctx.errors_view();
        if self.has_value && self.external_value.is_some() {
            ctx.error(path.as_str(), "value and externalValue are mutually exclusive");
        }
        let p = concat(path.as_str(), ".externalValue");
        validate_optional_url(ctx, &self.external_value, p.as_str());
        assert(ctx.errors_view() =~= e0 + example_errors(path@, *self, ctx.has_option(Options::IgnoreInvalidUrls)));
    }
}

impl ValidateWithContext<Spec> for Example {
    open spec fn checks(
        &self,
        spec: Spec,
        options: OptionSet,
        visited: Set<Seq<char>>,
        errors: Seq<Seq<char>>,
        path: Seq<char>,
        after: (Seq<Seq<char>>, Set<Seq<char>>),
    ) -> bool {
        after == (errors + example_errors(
                path,
                *self,
                options.has(Options::IgnoreInvalidUrls),
            ), visited)
    }

    fn validate_with_context(&self, ctx: &mut Context<'_, Spec>, path: String)
        ensures
            final(ctx).errors_view() == old(ctx).errors_view() + example_errors(
                path@,
                *self,
                old(ctx).has_option(Options::IgnoreInvalidUrls),
            ),
            final(ctx).visited == old(ctx).visited,
            final(ctx).spec == old(ctx).spec,
            final(ctx).options == old(ctx).options,
    {
        self.validate(ctx, path);
    }
}

// The `$ref`s to headers that checking a header, a media type or an encoding
// can follow.

/// The header `$ref`s of a header.
pub open spec fn header_refs(h: Header) -> Seq<Seq<char>>
    decreases h,
{
    match h.content {
        Some(c) => media_entries_refs(c@),
        None => seq![],
    }
}

/// The header `$ref`s of a map of media types.
pub open spec fn media_entries_refs(v: Seq<(String, MediaType)>) -> Seq<Seq<char>>
    decreases v,
{
    if v.len() == 0 {
        seq![]
    } else {
        media_entries_refs(v.subrange(0, v.len() - 1)) + media_refs(v[v.len() - 1].1)
    }
}

/// The header `$ref`s of a media type.
pub open spec fn media_refs(m: MediaType) -> Seq<Seq<char>>
    decreases m,
{
    match m.encoding {
        Some(e) => encoding_entries_refs(e@),
        None => seq![],
    }
}

/// The header `$ref`s of a map of encodings.
pub open spec fn encoding_entries_refs(v: Seq<(String, Encoding)>) -> Seq<Seq<char>>
    decreases v,
{
    if v.len() == 0 {
        seq![]
    } else {
        encoding_entries_refs(v.subrange(0, v.len() - 1)) + encoding_refs(v[v.len() - 1].1)
    }
}

/// The header `$ref`s of an encoding.
pub open spec fn encoding_refs(e: Encoding) -> Seq<Seq<char>>
    decreases e,
{
    match e.headers {
        Some(h) => header_entries_refs(h@),
        None => seq![],
    }
}

/// The header `$ref`s of a map of headers.
pub open spec fn header_entries_refs(v: Seq<(String, RefOr<Header>)>) -> Seq<Seq<char>>
    decreases v,
{
    if v.len() == 0 {
        seq![]
    } else {
        header_entries_refs(v.subrange(0, v.len() - 1)) + header_ref_refs(v[v.len() - 1].1)
    }
}

/// The header `$ref`s of a header or `$ref`.
pub open spec fn header_ref_refs(r: RefOr<Header>) -> Seq<Seq<char>>
    decreases r,
{
    match r {
        RefOr::Ref(x) => seq![x.reference@],
        RefOr::Item(h) => header_refs(h),
    }
}

/// The header `$ref`s of the headers of `components.headers`.
pub open spec fn comp_header_refs(spec: Spec) -> Seq<Seq<char>> {
    match spec.components {
        Some(c) => match c.headers {
            Some(h) => header_entries_refs(h@),
            None => seq![],
        },
        None => seq![],
    }
}

/// What the checks of headers may assume: the `$ref`s `u` hold every header
/// `$ref` that checking `refs` can follow.
pub open spec fn covered_headers(u: Seq<Seq<char>>, spec: Spec, refs: Seq<Seq<char>>) -> bool {
    within(refs, u) && within(comp_header_refs(spec), u)
}

proof fn lemma_within_media(v: Seq<(String, MediaType)>, u: Seq<Seq<char>>, k: int)
    requires
        within(media_entries_refs(v), u),
        0 <= k < v.len(),
    ensures
        within(media_refs(v[k].1), u),
    decreases v.len(),
{
    let init = v.subrange(0, v.len() - 1);
    lemma_within_concat(media_entries_refs(init), media_refs(v[v.len() - 1].1), u);
    if k < v.len() - 1 {
        lemma_within_media(init, u, k);
        assert(init[k] == v[k]);
    }
}

proof fn lemma_within_encodings(v: Seq<(String, Encoding)>, u: Seq<Seq<char>>, k: int)
    requires
        within(encoding_entries_refs(v), u),
        0 <= k < v.len(),
    ensures
        within(encoding_refs(v[k].1), u),
    decreases v.len(),
{
    let init = v.subrange(0, v.len() - 1);
    lemma_within_concat(encoding_entries_refs(init), encoding_refs(v[v.len() - 1].1), u);
    if k < v.len() - 1 {
        lemma_within_encodings(init, u, k);
        assert(init[k] == v[k]);
    }
}

proof fn lemma_within_headers(v: Seq<(String, RefOr<Header>)>, u: Seq<Seq<char>>, k: int)
    requires
        within(header_entries_refs(v), u),
        0 <= k < v.len(),
    ensures
        within(header_ref_refs(v[k].1), u),
    decreases v.len(),
{
    let init = v.subrange(0, v.len() - 1);
    lemma_within_concat(header_entries_refs(init), header_ref_refs(v[v.len() - 1].1), u);
    if k < v.len() - 1 {
        lemma_within_headers(init, u, k);
        assert(init[k] == v[k]);
    }
}

/// A header that a `$ref` names holds only `$ref`s of `components.headers`.
proof fn lemma_header_target_within(spec: Spec, r: Seq<char>, u: Seq<Seq<char>>)
    requires
        within(comp_header_refs(spec), u),
        <Spec as ResolveReference<Header>>::resolved(&spec, r) is Some,
    ensures
        within(header_refs(<Spec as ResolveReference<Header>>::resolved(&spec, r)->0), u),
{
    let c = spec.components->0;
    let es = c.headers->0@;
    let key = crate::common::text::trim_start_all(r, "#/components/headers/"@);
    crate::v3_1::path_lookup::lemma_chain_in(es, "#/components/headers/"@, key, es.len());
    let t = <Spec as ResolveReference<Header>>::resolved(&spec, r)->0;
    let vals = crate::v3_1::path_lookup::entry_values(es);
    let k = choose|k: int| 0 <= k < vals.len() && vals[k] == RefOr::<Header>::Item(t);
    assert(es[k].1 == RefOr::<Header>::Item(t));
    lemma_within_headers(es, u, k);
}

/// The diagnostics that a header at `path` gets before any of its examples
/// or media types is checked: `example` and `examples` exclude each other,
/// and exactly one of `schema` and `content` is given.
pub open spec fn header_head_errors(path: Seq<char>, h: Header) -> Seq<Seq<char>> {
    (if h.has_example && h.examples is Some {
        seq![error_line(path, "example and examples are mutually exclusive"@)]
    } else {
        seq![]
    }) + if h.schema is Some && h.content is Some {
        seq![error_line(path, "schema and content are mutually exclusive"@)]
    } else if h.schema is None && h.content is None {
        seq![error_line(path, "must define either `schema` or `content`"@)]
    } else {
        seq![]
    }
}

/// The rules of a header's own fields: `example` and `examples` are reported
/// exactly when both are given; `schema` and `content` exactly when both
/// are given; and a header that gives neither is reported for that, exactly
/// then.
pub proof fn law_header_rules(path: Seq<char>, h: Header)
    ensures
        header_head_errors(path, h).contains(error_line(path, "example and examples are mutually exclusive"@)) <==> (
        h.has_example && h.examples is Some),
        header_head_errors(path, h).contains(error_line(path, "schema and content are mutually exclusive"@)) <==> (
        h.schema is Some && h.content is Some),
        header_head_errors(path, h).contains(error_line(path, "must define either `schema` or `content`"@)) <==> (
        h.schema is None && h.content is None),
{
    reveal_strlit("example and examples are mutually exclusive");
    reveal_strlit("schema and content are mutually exclusive");
    reveal_strlit("must define either `schema` or `content`");
    reveal_strlit(".");
    let a = error_line(path, "example and examples are mutually exclusive"@);
    let b = error_line(path, "schema and content are mutually exclusive"@);
    let c = error_line(path, "must define either `schema` or `content`"@);
    assert(!crate::common::text::is_prefix_of("."@, "example and examples are mutually exclusive"@)) by {
        assert("example and examples are mutually exclusive"@.subrange(0, 1)[0] == 'e');
    }
    assert(!crate::common::text::is_prefix_of("."@, "schema and content are mutually exclusive"@)) by {
        assert("schema and content are mutually exclusive"@.subrange(0, 1)[0] == 's');
    }
    assert(!crate::common::text::is_prefix_of("."@, "must define either `schema` or `content`"@)) by {
        assert("must define either `schema` or `content`"@.subrange(0, 1)[0] == 'm');
    }
    assert(a.len() != b.len() && a.len() != c.len() && b.len() != c.len());
    let e = header_head_errors(path, h);
    if e.contains(a) {
        let k = choose|k: int| 0 <= k < e.len() && e[k] == a;
    }
    if e.contains(b) {
        let k = choose|k: int| 0 <= k < e.len() && e[k] == b;
    }
    if e.contains(c) {
        let k = choose|k: int| 0 <= k < e.len() && e[k] == c;
    }
    if h.has_example && h.examples is Some {
        assert(e[0] == a);
    }
    if h.schema is Some && h.content is Some {
        assert(e[e.len() - 1] == b);
    }
    if h.schema is None && h.content is None {
        assert(e[e.len() - 1] == c);
    }
}

/// The diagnostic of a header's `content` map with `n` entries, which must
/// be one.
pub open spec fn content_size_error(path: Seq<char>, n: nat) -> Seq<char> {
    error_line(path, ".content: must contain exactly one media type entry, found "@ + decimal(n))
}

/// What checking the example or `$ref` `r`, found at `path`, reports on a
/// pass with the markers `vis` visited before it, and the markers visited
/// afterwards: a `$ref` is reported if empty; the first time it is met it is
/// visited and followed, and the example it names checked at the location
/// the `$ref` names, or the failure to follow it reported.
pub open spec fn example_ref_pass(spec: Spec, opts: OptionSet, vis: Set<Seq<char>>, r: RefOr<Example>, path: Seq<char>) -> (
    Seq<Seq<char>>,
    Set<Seq<char>>,
) {
    let ii = opts.has(Options::IgnoreInvalidUrls);
    match r {
        RefOr::Item(e) => (example_errors(path, e, ii), vis),
        RefOr::Ref(x) => {
            let reference = x.reference@;
            let pre = empty_ref_errors(path, reference);
            if vis.contains(reference) {
                (pre, vis)
            } else {
                match item_of(r, <Spec as ResolveReference<Example>>::resolved(&spec, reference)) {
                    Ok(d) => (pre + example_errors(reference, d, ii), vis.insert(reference)),
                    Err(e) => (
                        pre + unresolved_ref_errors(path, e, opts.has(Options::IgnoreExternalReferences)),
                        vis.insert(reference),
                    ),
                }
            }
        },
    }
}

/// What checking the schema or `$ref` `r`, found at `path`, reports (see
/// [`example_ref_pass`]); a schema is checked as [`walk_schema`] says.
pub open spec fn schema_ref_pass(spec: Spec, opts: OptionSet, vis: Set<Seq<char>>, r: RefOr<Schema>, path: Seq<char>) -> (
    Seq<Seq<char>>,
    Set<Seq<char>>,
) {
    match r {
        RefOr::Item(s) => walk_schema(spec, opts, schema_universe(spec, s), vis, s, path),
        RefOr::Ref(x) => {
            let reference = x.reference@;
            let pre = empty_ref_errors(path, reference);
            if vis.contains(reference) {
                (pre, vis)
            } else {
                match item_of(r, <Spec as ResolveReference<Schema>>::resolved(&spec, reference)) {
                    Ok(d) => {
                        let w = walk_schema(spec, opts, schema_universe(spec, d), vis.insert(reference), d, reference);
                        (pre + w.0, w.1)
                    },
                    Err(e) => (
                        pre + unresolved_ref_errors(path, e, opts.has(Options::IgnoreExternalReferences)),
                        vis.insert(reference),
                    ),
                }
            }
        },
    }
}

/// What checking an optional schema or `$ref` at `path` reports.
pub open spec fn opt_schema_pass(spec: Spec, opts: OptionSet, vis: Set<Seq<char>>, o: Option<RefOr<Schema>>, path: Seq<char>) -> (
    Seq<Seq<char>>,
    Set<Seq<char>>,
) {
    match o {
        Some(r) => schema_ref_pass(spec, opts, vis, r, path),
        None => (seq![], vis),
    }
}

/// A check of an example or `$ref` is [`example_ref_pass`].
pub proof fn lemma_example_ref(
    spec: Spec,
    opts: OptionSet,
    vis: Set<Seq<char>>,
    errors: Seq<Seq<char>>,
    r: RefOr<Example>,
    path: Seq<char>,
    after: (Seq<Seq<char>>, Set<Seq<char>>),
)
    requires
        ref_or_checks(r, spec, opts, vis, errors, path, after),
    ensures
        after == (errors + example_ref_pass(spec, opts, vis, r, path).0, example_ref_pass(spec, opts, vis, r, path).1),
{
    let w = example_ref_pass(spec, opts, vis, r, path);
    match r {
        RefOr::Item(e) => {},
        RefOr::Ref(x) => {
            let reference = x.reference@;
            let pre = empty_ref_errors(path, reference);
            assert(after.0 =~= errors + w.0);
        },
    }
}

/// A check of a schema or `$ref` is [`schema_ref_pass`].
pub proof fn lemma_schema_ref(
    spec: Spec,
    opts: OptionSet,
    vis: Set<Seq<char>>,
    errors: Seq<Seq<char>>,
    r: RefOr<Schema>,
    path: Seq<char>,
    after: (Seq<Seq<char>>, Set<Seq<char>>),
)
    requires
        ref_or_checks(r, spec, opts, vis, errors, path, after),
    ensures
        after == (errors + schema_ref_pass(spec, opts, vis, r, path).0, schema_ref_pass(spec, opts, vis, r, path).1),
{
    let w = schema_ref_pass(spec, opts, vis, r, path);
    match r {
        RefOr::Item(e) => {},
        RefOr::Ref(x) => {
            assert(after.0 =~= errors + w.0);
        },
    }
}

/// What checking the first `n` examples of the map `ex` reports, each found
/// at `<path>.examples[<name>]`.
pub open spec fn examples_pass(
    spec: Spec,
    opts: OptionSet,
    vis: Set<Seq<char>>,
    ex: Seq<(String, RefOr<Example>)>,
    n: nat,
    path: Seq<char>,
) -> (Seq<Seq<char>>, Set<Seq<char>>)
    decreases n,
{
    if n == 0 || n > ex.len() {
        (seq![], vis)
    } else {
        let (e1, v1) = examples_pass(spec, opts, vis, ex, (n - 1) as nat, path);
        let (e2, v2) = example_ref_pass(spec, opts, v1, ex[n - 1].1, path + ".examples["@ + ex[n - 1].0@ + "]"@);
        (e1 + e2, v2)
    }
}

/// What checking an optional map of examples reports.
pub open spec fn opt_examples_pass(
    spec: Spec,
    opts: OptionSet,
    vis: Set<Seq<char>>,
    ex: Option<Vec<(String, RefOr<Example>)>>,
    path: Seq<char>,
) -> (Seq<Seq<char>>, Set<Seq<char>>) {
    match ex {
        Some(e) => examples_pass(spec, opts, vis, e@, e@.len(), path),
        None => (seq![], vis),
    }
}

// What checking headers, media types and encodings reports on one pass.
// Each answers the diagnostics appended and the markers visited afterwards;
// `u` holds every header `$ref` the pass can follow, and the comparisons of
// `unvisited` counts (which hold on every pass) bound how often one is
// followed.

/// What checking the header `h`, found at `path`, reports: `example` and
/// `examples` exclude each other; exactly one of `schema` and `content`;
/// each example; a `content` map with exactly one entry; each media type of
/// the map.
pub open spec fn walk_header(spec: Spec, opts: OptionSet, u: Seq<Seq<char>>, vis: Set<Seq<char>>, h: Header, path: Seq<char>) -> (
    Seq<Seq<char>>,
    Set<Seq<char>>,
)
    decreases unvisited(u, vis), h, 2nat, 0nat,
{
    let head = header_head_errors(path, h);
    let (e1, v1) = opt_examples_pass(spec, opts, vis, h.examples, path);
    match h.content {
        None => (head + e1, v1),
        Some(c) => {
            let size = if c@.len() != 1 {
                seq![content_size_error(path, c@.len())]
            } else {
                seq![]
            };
            if unvisited(u, v1) <= unvisited(u, vis) {
                proof {
                    assert(decreases_to!(h => h.content));
                    assert(decreases_to!(h.content => h.content->Some_0));
                    assert(decreases_to!(c => c@));
                }
                let (e2, v2) = walk_media_entries(spec, opts, u, v1, c@, c@.len(), path);
                (head + e1 + size + e2, v2)
            } else {
                (head + e1 + size, v1)
            }
        },
    }
}

/// What checking the first `n` media types of the map `v` reports, each
/// found at `<path>.content[<name>]`.
pub open spec fn walk_media_entries(
    spec: Spec,
    opts: OptionSet,
    u: Seq<Seq<char>>,
    vis: Set<Seq<char>>,
    v: Seq<(String, MediaType)>,
    n: nat,
    path: Seq<char>,
) -> (Seq<Seq<char>>, Set<Seq<char>>)
    decreases unvisited(u, vis), v, 0nat, n,
{
    if n == 0 || n > v.len() {
        (seq![], vis)
    } else {
        let (e1, v1) = walk_media_entries(spec, opts, u, vis, v, (n - 1) as nat, path);
        if unvisited(u, v1) <= unvisited(u, vis) {
            proof {
                assert(decreases_to!(v => v[n - 1]));
                assert(decreases_to!(v[n - 1] => v[n - 1].1));
            }
            let (e2, v2) = walk_media(spec, opts, u, v1, v[n - 1].1, path + ".content["@ + v[n - 1].0@ + "]"@);
            (e1 + e2, v2)
        } else {
            (e1, v1)
        }
    }
}

/// What checking the media type `m`, found at `path`, reports: its schema,
/// each example, each encoding.
pub open spec fn walk_media(spec: Spec, opts: OptionSet, u: Seq<Seq<char>>, vis: Set<Seq<char>>, m: MediaType, path: Seq<char>) -> (
    Seq<Seq<char>>,
    Set<Seq<char>>,
)
    decreases unvisited(u, vis), m, 2nat, 0nat,
{
    let (e1, v1) = opt_schema_pass(spec, opts, vis, m.schema, path + ".schema"@);
    let (e2, v2) = opt_examples_pass(spec, opts, v1, m.examples, path);
    match m.encoding {
        Some(en) => if unvisited(u, v2) <= unvisited(u, vis) {
            proof {
                assert(decreases_to!(m => m.encoding));
                assert(decreases_to!(m.encoding => m.encoding->Some_0));
                assert(decreases_to!(en => en@));
            }
            let (e3, v3) = walk_encoding_entries(spec, opts, u, v2, en@, en@.len(), path);
            (e1 + e2 + e3, v3)
        } else {
            (e1 + e2, v2)
        },
        None => (e1 + e2, v2),
    }
}

/// What checking the first `n` encodings of the map `v` reports, each found
/// at `<path>.encoding[<name>]`.
pub open spec fn walk_encoding_entries(
    spec: Spec,
    opts: OptionSet,
    u: Seq<Seq<char>>,
    vis: Set<Seq<char>>,
    v: Seq<(String, Encoding)>,
    n: nat,
    path: Seq<char>,
) -> (Seq<Seq<char>>, Set<Seq<char>>)
    decreases unvisited(u, vis), v, 0nat, n,
{
    if n == 0 || n > v.len() {
        (seq![], vis)
    } else {
        let (e1, v1) = walk_encoding_entries(spec, opts, u, vis, v, (n - 1) as nat, path);
        if unvisited(u, v1) <= unvisited(u, vis) {
            proof {
                assert(decreases_to!(v => v[n - 1]));
                assert(decreases_to!(v[n - 1] => v[n - 1].1));
            }
            let (e2, v2) = walk_encoding(spec, opts, u, v1, v[n - 1].1, path + ".encoding["@ + v[n - 1].0@ + "]"@);
            (e1 + e2, v2)
        } else {
            (e1, v1)
        }
    }
}

/// What checking the encoding `e`, found at `path`, reports: each of its
/// headers.
pub open spec fn walk_encoding(spec: Spec, opts: OptionSet, u: Seq<Seq<char>>, vis: Set<Seq<char>>, e: Encoding, path: Seq<char>) -> (
    Seq<Seq<char>>,
    Set<Seq<char>>,
)
    decreases unvisited(u, vis), e, 2nat, 0nat,
{
    match e.headers {
        Some(h) => {
            proof {
                assert(decreases_to!(e => e.headers));
                assert(decreases_to!(e.headers => e.headers->Some_0));
                assert(decreases_to!(h => h@));
            }
            walk_header_entries(spec, opts, u, vis, h@, h@.len(), path)
        },
        None => (seq![], vis),
    }
}

/// What checking the first `n` headers of the map `v` reports, each found
/// at `<path>.headers[<name>]`.
pub open spec fn walk_header_entries(
    spec: Spec,
    opts: OptionSet,
    u: Seq<Seq<char>>,
    vis: Set<Seq<char>>,
    v: Seq<(String, RefOr<Header>)>,
    n: nat,
    path: Seq<char>,
) -> (Seq<Seq<char>>, Set<Seq<char>>)
    decreases unvisited(u, vis), v, 0nat, n,
{
    if n == 0 || n > v.len() {
        (seq![], vis)
    } else {
        let (e1, v1) = walk_header_entries(spec, opts, u, vis, v, (n - 1) as nat, path);
        if unvisited(u, v1) <= unvisited(u, vis) {
            proof {
                assert(decreases_to!(v => v[n - 1]));
                assert(decreases_to!(v[n - 1] => v[n - 1].1));
            }
            let (e2, v2) = walk_header_ref(spec, opts, u, v1, v[n - 1].1, path + ".headers["@ + v[n - 1].0@ + "]"@);
            (e1 + e2, v2)
        } else {
            (e1, v1)
        }
    }
}

/// What checking the header or `$ref` `r`, found at `path`, reports: a
/// `$ref` is reported if empty; the first time it is met it is visited and
/// followed, and the header it names checked at the location the `$ref`
/// names, or the failure to follow it reported.
pub open spec fn walk_header_ref(spec: Spec, opts: OptionSet, u: Seq<Seq<char>>, vis: Set<Seq<char>>, r: RefOr<Header>, path: Seq<char>) -> (
    Seq<Seq<char>>,
    Set<Seq<char>>,
)
    decreases unvisited(u, vis), r, 2nat, 0nat,
{
    match r {
        RefOr::Item(h) => walk_header(spec, opts, u, vis, h, path),
        RefOr::Ref(x) => {
            let reference = x.reference@;
            let pre = empty_ref_errors(path, reference);
            let v0 = vis.insert(reference);
            if vis.contains(reference) {
                (pre, vis)
            } else {
                match item_of(r, <Spec as ResolveReference<Header>>::resolved(&spec, reference)) {
                    Ok(d) => if unvisited(u, v0) < unvisited(u, vis) {
                        let (e1, v1) = walk_header(spec, opts, u, v0, d, reference);
                        (pre + e1, v1)
                    } else {
                        (pre, v0)
                    },
                    Err(e) => (pre + unresolved_ref_errors(path, e, opts.has(Options::IgnoreExternalReferences)), v0),
                }
            }
        },
    }
}

/// What checking the media types `v` of a request body, found at `path`,
/// reports, each at `<path>.content[<name>]` and with the header `$ref`s it
/// holds and those of `components.headers`.
pub open spec fn request_body_pass(
    spec: Spec,
    opts: OptionSet,
    vis: Set<Seq<char>>,
    v: Seq<(String, MediaType)>,
    n: nat,
    path: Seq<char>,
) -> (Seq<Seq<char>>, Set<Seq<char>>)
    decreases n,
{
    if n == 0 || n > v.len() {
        (seq![], vis)
    } else {
        let (e1, v1) = request_body_pass(spec, opts, vis, v, (n - 1) as nat, path);
        let m = v[n - 1].1;
        let (e2, v2) = walk_media(
            spec,
            opts,
            media_refs(m) + comp_header_refs(spec),
            v1,
            m,
            path + ".content["@ + v[n - 1].0@ + "]"@,
        );
        (e1 + e2, v2)
    }
}

/// What checking the request body or `$ref` `r`, found at `path`, reports
/// (see [`example_ref_pass`]); a request body is checked as
/// [`request_body_pass`] says.
#[verifier::opaque]
pub open spec fn request_body_ref_pass(
    spec: Spec,
    opts: OptionSet,
    vis: Set<Seq<char>>,
    r: RefOr<RequestBody>,
    path: Seq<char>,
) -> (Seq<Seq<char>>, Set<Seq<char>>) {
    match r {
        RefOr::Item(b) => request_body_pass(spec, opts, vis, b.content@, b.content@.len(), path),
        RefOr::Ref(x) => {
            let reference = x.reference@;
            let pre = empty_ref_errors(path, reference);
            if vis.contains(reference) {
                (pre, vis)
            } else {
                match item_of(r, <Spec as ResolveReference<RequestBody>>::resolved(&spec, reference)) {
                    Ok(b) => {
                        let w = request_body_pass(spec, opts, vis.insert(reference), b.content@, b.content@.len(), reference);
                        (pre + w.0, w.1)
                    },
                    Err(e) => (
                        pre + unresolved_ref_errors(path, e, opts.has(Options::IgnoreExternalReferences)),
                        vis.insert(reference),
                    ),
                }
            }
        },
    }
}

/// What checking an optional request body or `$ref` at `path` reports.
#[verifier::opaque]
pub open spec fn opt_request_body_pass(
    spec: Spec,
    opts: OptionSet,
    vis: Set<Seq<char>>,
    o: Option<RefOr<RequestBody>>,
    path: Seq<char>,
) -> (Seq<Seq<char>>, Set<Seq<char>>) {
    match o {
        None => (seq![], vis),
        Some(r) => request_body_ref_pass(spec, opts, vis, r, path),
    }
}

/// A check of a request body or `$ref` is [`request_body_ref_pass`].
pub proof fn lemma_request_body_ref(
    spec: Spec,
    opts: OptionSet,
    vis: Set<Seq<char>>,
    errors: Seq<Seq<char>>,
    r: RefOr<RequestBody>,
    path: Seq<char>,
    after: (Seq<Seq<char>>, Set<Seq<char>>),
)
    requires
        ref_or_checks(r, spec, opts, vis, errors, path, after),
    ensures
        after == (errors + request_body_ref_pass(spec, opts, vis, r, path).0, request_body_ref_pass(spec, opts, vis, r, path).1),
{
    reveal(request_body_ref_pass);
    let w = request_body_ref_pass(spec, opts, vis, r, path);
    match r {
        RefOr::Item(b) => {},
        RefOr::Ref(x) => {
            assert(after.0 =~= errors + w.0);
        },
    }
}

/// `<path><open><name>]`.
fn member_path(path: &str, open: &str, name: &str) -> (res: String)
    ensures
        res@ == path@ + open@ + name@ + "]"@,
{
    let mut p = concat(path, open);
    push_str(&mut p, name);
    push_str(&mut p, "]");
    p
}

/// Checks each example of a map found at `<path>.examples[<name>]`.
fn validate_examples(ctx: &mut Context<'_, Spec>, examples: &Vec<(String, RefOr<Example>)>, path: &str)
    ensures
        final(ctx).extends(old(ctx)),
        walked(
            *old(ctx),
            *final(ctx),
            examples_pass(*old(ctx).spec, old(ctx).options, old(ctx).visited_set(), examples@, examples@.len(), path@),
        ),
{
    let ghost spec = *old(ctx).spec;
    let ghost opts = old(ctx).options;
    let ghost vis = old(ctx).visited_set();
    assert(old(ctx).errors_view() =~= old(ctx).errors_view() + examples_pass(spec, opts, vis, examples@, 0, path@).0);
    let mut i: usize = 0;
    while i < examples.len()
        invariant
            i <= examples.len(),
            spec == *old(ctx).spec,
            opts == old(ctx).options,
            vis == old(ctx).visited_set(),
            ctx.extends(old(ctx)),
            walked(*old(ctx), *ctx, examples_pass(spec, opts, vis, examples@, i as nat, path@)),
        decreases examples.len() - i,
    {
        let p = member_path(path, ".examples[", examples[i].0.as_str());
        let ghost c0 = *ctx;
        examples[i].1.validate_with_context(ctx, p);
        proof {
            lemma_prefix_trans(old(ctx).errors_view(), c0.errors_view(), ctx.errors_view());
            lemma_example_ref(
                spec,
                opts,
                c0.visited_set(),
                c0.errors_view(),
                examples@[i as int].1,
                p@,
                (ctx.errors_view(), ctx.visited_set()),
            );
            assert(ctx.errors_view() =~= old(ctx).errors_view() + examples_pass(spec, opts, vis, examples@, (i + 1) as nat, path@).0);
        }
        i = i + 1;
    }
}

/// Checks an optional map of examples found at `<path>.examples[<name>]`.
fn validate_opt_examples(ctx: &mut Context<'_, Spec>, examples: &Option<Vec<(String, RefOr<Example>)>>, path: &str)
    ensures
        final(ctx).extends(old(ctx)),
        walked(*old(ctx), *final(ctx), opt_examples_pass(*old(ctx).spec, old(ctx).options, old(ctx).visited_set(), *examples, path@)),
{
    if let Some(ex) = examples {
        validate_examples(ctx, ex, path);
    } else {
        assert(old(ctx).errors_view() =~= old(ctx).errors_view() + Seq::<Seq<char>>::empty());
    }
}

/// Checks each media type of the `content` map of the header `host`, found
/// at `<path>.content[<name>]`.
fn validate_content_map(
    ctx: &mut Context<'_, Spec>,
    content: &Vec<(String, MediaType)>,
    path: &str,
    Ghost(u): Ghost<Seq<Seq<char>>>,
    Ghost(host): Ghost<Header>,
)
    requires
        host.content == Some(*content),
        covered_headers(u, *old(ctx).spec, header_refs(host)),
    ensures
        final(ctx).extends(old(ctx)),
        walked(
            *old(ctx),
            *final(ctx),
            walk_media_entries(*old(ctx).spec, old(ctx).options, u, old(ctx).visited_set(), content@, content@.len(), path@),
        ),
        unvisited(u, final(ctx).visited_set()) <= unvisited(u, old(ctx).visited_set()),
    decreases unvisited(u, old(ctx).visited_set()), host, 2nat,
{
    let ghost spec = *old(ctx).spec;
    let ghost opts = old(ctx).options;
    let ghost vis = old(ctx).visited_set();
    let ghost e0 = old(ctx).errors_view();
    assert(e0 =~= e0 + walk_media_entries(spec, opts, u, vis, content@, 0, path@).0);
    let mut i: usize = 0;
    while i < content.len()
        invariant
            i <= content.len(),
            host.content == Some(*content),
            spec == *old(ctx).spec,
            opts == old(ctx).options,
            vis == old(ctx).visited_set(),
            e0 == old(ctx).errors_view(),
            ctx.extends(old(ctx)),
            covered_headers(u, *old(ctx).spec, header_refs(host)),
            unvisited(u, ctx.visited_set()) <= unvisited(u, vis),
            walked(*old(ctx), *ctx, walk_media_entries(spec, opts, u, vis, content@, i as nat, path@)),
        decreases content.len() - i,
    {
        proof {
            lemma_within_media(content@, u, i as int);
            assert(decreases_to!(host => host.content));
            assert(decreases_to!(host.content => host.content->Some_0));
            assert(decreases_to!(*content => content[i as int]));
            assert(decreases_to!(content[i as int] => content[i as int].1));
        }
        let p = member_path(path, ".content[", content[i].0.as_str());
        let ghost c0 = *ctx;
        validate_media_type(ctx, &content[i].1, p, Ghost(u));
        proof {
            lemma_prefix_trans(old(ctx).errors_view(), c0.errors_view(), ctx.errors_view());
            lemma_unvisited_mono(u, c0.visited_set(), ctx.visited_set());
            assert(ctx.errors_view() =~= e0 + walk_media_entries(spec, opts, u, vis, content@, (i + 1) as nat, path@).0);
        }
        i = i + 1;
    }
}

/// Checks a header found at `path`: `example` and `examples` exclude each
/// other; exactly one of `schema` and `content`; each example; a `content`
/// map with exactly one entry; each media type of the map.
#[verifier::spinoff_prover]
#[verifier::rlimit(50)]
pub fn validate_header(ctx: &mut Context<'_, Spec>, h: &Header, path: String, Ghost(u): Ghost<Seq<Seq<char>>>)
    requires
        covered_headers(u, *old(ctx).spec, header_refs(*h)),
    ensures
        final(ctx).extends(old(ctx)),
        walked(*old(ctx), *final(ctx), walk_header(*old(ctx).spec, old(ctx).options, u, old(ctx).visited_set(), *h, path@)),
        (old(ctx).errors_view() + header_head_errors(path@, *h)).is_prefix_of(final(ctx).errors_view()),
        h.content is Some && h.content->0@.len() != 1 ==> final(ctx).errors_view().contains(
            content_size_error(path@, h.content->0@.len()),
        ),
    decreases unvisited(u, old(ctx).visited_set()), h, 3nat,
{
    let ghost spec = *old(ctx).spec;
    let ghost opts = old(ctx).options;
    let ghost vis = old(ctx).visited_set();
    let ghost e0 = ctx.errors_view();
    if h.has_example && h.examples.is_some() {
        ctx.error(path.as_str(), "example and examples are mutually exclusive");
    }
    if h.schema.is_some() && h.content.is_some() {
        ctx.error(path.as_str(), "schema and content are mutually exclusive");
    } else if h.schema.is_none() && h.content.is_none() {
        ctx.error(path.as_str(), "must define either `schema` or `content`");
    }
    let ghost head = ctx.errors_view();
    assert(head =~= e0 + header_head_errors(path@, *h));
    assert(head.is_prefix_of(head));
    let ghost c0 = *ctx;
    validate_opt_examples(ctx, &h.examples, path.as_str());
    let ghost w1 = opt_examples_pass(spec, opts, vis, h.examples, path@);
    proof {
        lemma_prefix_trans(head, c0.errors_view(), ctx.errors_view());
        lemma_unvisited_mono(u, vis, ctx.visited_set());
    }
    let ghost e1 = ctx.errors_view();
    if let Some(content) = &h.content {
        if content.len() != 1 {
            let msg = concat(".content: must contain exactly one media type entry, found ", decimal_string(content.len()).as_str());
            ctx.error(path.as_str(), msg.as_str());
        }
        let ghost sized = ctx.errors_view();
        let ghost size = if content@.len() != 1 {
            seq![content_size_error(path@, content@.len())]
        } else {
            Seq::<Seq<char>>::empty()
        };
        assert(sized =~= e1 + size);
        assert(content@.len() != 1 ==> sized.contains(content_size_error(path@, content@.len()))) by {
            if content@.len() != 1 {
                assert(sized[sized.len() - 1] == content_size_error(path@, content@.len()));
            }
        };
        assert(head.is_prefix_of(sized));
        assert(sized.is_prefix_of(sized));
        validate_content_map(ctx, content, path.as_str(), Ghost(u), Ghost(*h));
        proof {
            lemma_prefix_trans(head, sized, ctx.errors_view());
            if content@.len() != 1 {
                let k = sized.len() - 1;
                assert(ctx.errors_view()[k] == sized[k]);
            }
            assert(ctx.errors_view() =~= e0 + walk_header(spec, opts, u, vis, *h, path@).0);
        }
    } else {
        assert(ctx.errors_view() =~= e0 + walk_header(spec, opts, u, vis, *h, path@).0);
    }
}

/// Checks a media type found at `path`: its schema, each example, each
/// encoding.
#[verifier::spinoff_prover]
#[verifier::rlimit(50)]
pub fn validate_media_type(ctx: &mut Context<'_, Spec>, m: &MediaType, path: String, Ghost(u): Ghost<Seq<Seq<char>>>)
    requires
        covered_headers(u, *old(ctx).spec, media_refs(*m)),
    ensures
        final(ctx).extends(old(ctx)),
        walked(*old(ctx), *final(ctx), walk_media(*old(ctx).spec, old(ctx).options, u, old(ctx).visited_set(), *m, path@)),
    decreases unvisited(u, old(ctx).visited_set()), m, 2nat,
{
    let ghost spec = *old(ctx).spec;
    let ghost opts = old(ctx).options;
    let ghost vis = old(ctx).visited_set();
    let ghost e0 = ctx.errors_view();
    if let Some(schema) = &m.schema {
        let p = concat(path.as_str(), ".schema");
        schema.validate_with_context(ctx, p);
        proof {
            lemma_schema_ref(spec, opts, vis, e0, *schema, path@ + ".schema"@, (ctx.errors_view(), ctx.visited_set()));
        }
    } else {
        assert(e0 =~= e0 + Seq::<Seq<char>>::empty());
    }
    let ghost w1 = opt_schema_pass(spec, opts, vis, m.schema, path@ + ".schema"@);
    let ghost c1 = *ctx;
    validate_opt_examples(ctx, &m.examples, path.as_str());
    let ghost w2 = opt_examples_pass(spec, opts, w1.1, m.examples, path@);
    proof {
        lemma_prefix_trans(old(ctx).errors_view(), c1.errors_view(), ctx.errors_view());
        lemma_unvisited_mono(u, old(ctx).visited_set(), ctx.visited_set());
    }
    let ghost e2 = ctx.errors_view();
    assert(e2 =~= e0 + (w1.0 + w2.0));
    if let Some(encoding) = &m.encoding {
        assert(e2 =~= e2 + walk_encoding_entries(spec, opts, u, w2.1, encoding@, 0, path@).0);
        let mut i: usize = 0;
        while i < encoding.len()
            invariant
                i <= encoding.len(),
                m.encoding == Some(*encoding),
                spec == *old(ctx).spec,
                opts == old(ctx).options,
                ctx.extends(old(ctx)),
                covered_headers(u, *old(ctx).spec, media_refs(*m)),
                unvisited(u, ctx.visited_set()) <= unvisited(u, w2.1),
                unvisited(u, w2.1) <= unvisited(u, old(ctx).visited_set()),
                ctx.errors_view() == e2 + walk_encoding_entries(spec, opts, u, w2.1, encoding@, i as nat, path@).0,
                ctx.visited_set() == walk_encoding_entries(spec, opts, u, w2.1, encoding@, i as nat, path@).1,
            decreases encoding.len() - i,
        {
            proof {
                lemma_within_encodings(encoding@, u, i as int);
                assert(decreases_to!(*m => m.encoding));
                assert(decreases_to!(m.encoding => m.encoding->Some_0));
                assert(decreases_to!(*encoding => encoding[i as int]));
                assert(decreases_to!(encoding[i as int] => encoding[i as int].1));
            }
            let p = member_path(path.as_str(), ".encoding[", encoding[i].0.as_str());
            let ghost c0 = *ctx;
            validate_encoding(ctx, &encoding[i].1, p, Ghost(u));
            proof {
                lemma_prefix_trans(old(ctx).errors_view(), c0.errors_view(), ctx.errors_view());
                lemma_unvisited_mono(u, c0.visited_set(), ctx.visited_set());
                assert(ctx.errors_view() =~= e2 + walk_encoding_entries(spec, opts, u, w2.1, encoding@, (i + 1) as nat, path@).0);
            }
            i = i + 1;
        }
        assert(ctx.errors_view() =~= e0 + walk_media(spec, opts, u, vis, *m, path@).0);
    } else {
        assert(ctx.errors_view() =~= e0 + walk_media(spec, opts, u, vis, *m, path@).0);
    }
}

/// Checks an encoding found at `path`: each of its headers.
pub fn validate_encoding(ctx: &mut Context<'_, Spec>, e: &Encoding, path: String, Ghost(u): Ghost<Seq<Seq<char>>>)
    requires
        covered_headers(u, *old(ctx).spec, encoding_refs(*e)),
    ensures
        final(ctx).extends(old(ctx)),
        walked(*old(ctx), *final(ctx), walk_encoding(*old(ctx).spec, old(ctx).options, u, old(ctx).visited_set(), *e, path@)),
    decreases unvisited(u, old(ctx).visited_set()), e, 1nat,
{
    let ghost spec = *old(ctx).spec;
    let ghost opts = old(ctx).options;
    let ghost vis = old(ctx).visited_set();
    let ghost e0 = ctx.errors_view();
    if let Some(headers) = &e.headers {
        assert(e0 =~= e0 + walk_header_entries(spec, opts, u, vis, headers@, 0, path@).0);
        let mut i: usize = 0;
        while i < headers.len()
            invariant
                i <= headers.len(),
                e.headers == Some(*headers),
                spec == *old(ctx).spec,
                opts == old(ctx).options,
                vis == old(ctx).visited_set(),
                e0 == old(ctx).errors_view(),
                ctx.extends(old(ctx)),
                covered_headers(u, *old(ctx).spec, encoding_refs(*e)),
                unvisited(u, ctx.visited_set()) <= unvisited(u, old(ctx).visited_set()),
                walked(*old(ctx), *ctx, walk_header_entries(spec, opts, u, vis, headers@, i as nat, path@)),
            decreases headers.len() - i,
        {
            proof {
                lemma_within_headers(headers@, u, i as int);
                assert(decreases_to!(*e => e.headers));
                assert(decreases_to!(e.headers => e.headers->Some_0));
                assert(decreases_to!(*headers => headers[i as int]));
                assert(decreases_to!(headers[i as int] => headers[i as int].1));
            }
            let p = member_path(path.as_str(), ".headers[", headers[i].0.as_str());
            let ghost c0 = *ctx;
            validate_header_ref(ctx, &headers[i].1, p, Ghost(u));
            proof {
                lemma_prefix_trans(old(ctx).errors_view(), c0.errors_view(), ctx.errors_view());
                lemma_unvisited_mono(u, c0.visited_set(), ctx.visited_set());
                assert(ctx.errors_view() =~= e0 + walk_header_entries(spec, opts, u, vis, headers@, (i + 1) as nat, path@).0);
            }
            i = i + 1;
        }
    } else {
        assert(e0 =~= e0 + Seq::<Seq<char>>::empty());
    }
}

/// Checks a header or a `$ref` to one, found at `path`: a `$ref` is reported
/// if empty, and followed the first time the pass meets it; its target is
/// then checked at the location that the `$ref` names.
#[verifier::spinoff_prover]
#[verifier::rlimit(50)]
pub fn validate_header_ref(ctx: &mut Context<'_, Spec>, r: &RefOr<Header>, path: String, Ghost(u): Ghost<Seq<Seq<char>>>)
    requires
        covered_headers(u, *old(ctx).spec, header_ref_refs(*r)),
    ensures
        final(ctx).extends(old(ctx)),
        walked(*old(ctx), *final(ctx), walk_header_ref(*old(ctx).spec, old(ctx).options, u, old(ctx).visited_set(), *r, path@)),
    decreases unvisited(u, old(ctx).visited_set()), r, 4nat,
{
    let ghost spec = *old(ctx).spec;
    let ghost opts = old(ctx).options;
    let ghost vis = old(ctx).visited_set();
    let ghost e0 = ctx.errors_view();
    match r {
        RefOr::Ref(x) => {
            let ghost pre = e0 + empty_ref_errors(path@, x.reference@);
            x.validate_with_context(ctx, path.clone());
            let ghost v0 = ctx.visited_set();
            if ctx.visit(x.reference.clone()) {
                let spec_ref: &Spec = ctx.spec;
                match r.get_item(spec_ref) {
                    Ok(d) => {
                        proof {
                            assert(header_ref_refs(*r)[0] == x.reference@);
                            lemma_unvisited_strict(u, v0, ctx.visited_set(), x.reference@);
                            lemma_unvisited_mono(u, old(ctx).visited_set(), v0);
                            lemma_header_target_within(*spec_ref, x.reference@, u);
                        }
                        let ghost c1 = *ctx;
                        validate_header(ctx, d, x.reference.clone(), Ghost(u));
                        proof {
                            lemma_prefix_trans(old(ctx).errors_view(), c1.errors_view(), ctx.errors_view());
                        }
                        assert(ctx.errors_view() =~= e0 + walk_header_ref(spec, opts, u, vis, *r, path@).0);
                    },
                    Err(ResolveError::NotFound(reference)) => {
                        let mut msg = concat(".$ref: `", reference.as_str());
                        push_str(&mut msg, "` not found");
                        ctx.error(path.as_str(), msg.as_str());
                        assert(ctx.errors_view() =~= e0 + walk_header_ref(spec, opts, u, vis, *r, path@).0);
                    },
                    Err(e) => {
                        if !ctx.is_option(Options::IgnoreExternalReferences) {
                            let msg = concat(".$ref: ", e.message().as_str());
                            ctx.error(path.as_str(), msg.as_str());
                        }
                        assert(ctx.errors_view() =~= e0 + walk_header_ref(spec, opts, u, vis, *r, path@).0);
                    },
                }
            } else {
                assert(vis.insert(x.reference@) =~= vis);
            }
        },
        RefOr::Item(h) => {
            proof {
                assert(decreases_to!(*r => (*r)->Item_0));
            }
            validate_header(ctx, h, path, Ghost(u));
        },
    }
}

impl ValidateWithContext<Spec> for Header {
    open spec fn checks(
        &self,
        spec: Spec,
        options: OptionSet,
        visited: Set<Seq<char>>,
        errors: Seq<Seq<char>>,
        path: Seq<char>,
        after: (Seq<Seq<char>>, Set<Seq<char>>),
    ) -> bool {
        let w = walk_header(spec, options, header_refs(*self) + comp_header_refs(spec), visited, *self, path);
        after == (errors + w.0, w.1)
    }

    /// Checks the header found at `path` (see [`validate_header`]).
    fn validate_with_context(&self, ctx: &mut Context<'_, Spec>, path: String)
        ensures
            (old(ctx).errors_view() + header_head_errors(path@, *self)).is_prefix_of(final(ctx).errors_view()),
            self.content is Some && self.content->0@.len() != 1 ==> final(ctx).errors_view().contains(
                content_size_error(path@, self.content->0@.len()),
            ),
    {
        let ghost u = header_refs(*self) + comp_header_refs(*ctx.spec);
        proof {
            crate::common::reach::lemma_within_both(header_refs(*self), comp_header_refs(*ctx.spec));
        }
        validate_header(ctx, self, path, Ghost(u));
    }
}

impl ValidateWithContext<Spec> for MediaType {
    open spec fn checks(
        &self,
        spec: Spec,
        options: OptionSet,
        visited: Set<Seq<char>>,
        errors: Seq<Seq<char>>,
        path: Seq<char>,
        after: (Seq<Seq<char>>, Set<Seq<char>>),
    ) -> bool {
        let w = walk_media(spec, options, media_refs(*self) + comp_header_refs(spec), visited, *self, path);
        after == (errors + w.0, w.1)
    }

    /// Checks the media type found at `path` (see [`validate_media_type`]).
    #[verifier::spinoff_prover]
    fn validate_with_context(&self, ctx: &mut Context<'_, Spec>, path: String) {
        let ghost spec = *ctx.spec;
        let ghost u = media_refs(*self) + comp_header_refs(spec);
        proof {
            crate::common::reach::lemma_within_both(media_refs(*self), comp_header_refs(spec));
        }
        validate_media_type(ctx, self, path, Ghost(u));
        proof {
            let w = walk_media(spec, old(ctx).options, u, old(ctx).visited_set(), *self, path@);
            assert(ctx.errors_view() == old(ctx).errors_view() + w.0);
            assert(ctx.visited_set() == w.1);
            assert(self.checks(
                spec,
                old(ctx).options,
                old(ctx).visited_set(),
                old(ctx).errors_view(),
                path@,
                (ctx.errors_view(), ctx.visited_set()),
            ));
        }
    }
}

impl ValidateWithContext<Spec> for Encoding {
    open spec fn checks(
        &self,
        spec: Spec,
        options: OptionSet,
        visited: Set<Seq<char>>,
        errors: Seq<Seq<char>>,
        path: Seq<char>,
        after: (Seq<Seq<char>>, Set<Seq<char>>),
    ) -> bool {
        let w = walk_encoding(spec, options, encoding_refs(*self) + comp_header_refs(spec), visited, *self, path);
        after == (errors + w.0, w.1)
    }

    /// Checks the encoding found at `path` (see [`validate_encoding`]).
    fn validate_with_context(&self, ctx: &mut Context<'_, Spec>, path: String) {
        let ghost u = encoding_refs(*self) + comp_header_refs(*ctx.spec);
        proof {
            crate::common::reach::lemma_within_both(encoding_refs(*self), comp_header_refs(*ctx.spec));
        }
        validate_encoding(ctx, self, path, Ghost(u));
    }
}

impl ValidateWithContext<Spec> for RequestBody {
    open spec fn checks(
        &self,
        spec: Spec,
        options: OptionSet,
        visited: Set<Seq<char>>,
        errors: Seq<Seq<char>>,
        path: Seq<char>,
        after: (Seq<Seq<char>>, Set<Seq<char>>),
    ) -> bool {
        let w = request_body_pass(spec, options, visited, self.content@, self.content@.len(), path);
        after == (errors + w.0, w.1)
    }

    /// Checks each media type of the request body's content, found at
    /// `<path>.content[<media type>]`.
    fn validate_with_context(&self, ctx: &mut Context<'_, Spec>, path: String) {
        let ghost spec = *old(ctx).spec;
        let ghost opts = old(ctx).options;
        let ghost vis = old(ctx).visited_set();
        let ghost e0 = old(ctx).errors_view();
        assert(e0 =~= e0 + request_body_pass(spec, opts, vis, self.content@, 0, path@).0);
        let mut i: usize = 0;
        while i < self.content.len()
            invariant
                i <= self.content.len(),
                spec == *old(ctx).spec,
                opts == old(ctx).options,
                vis == old(ctx).visited_set(),
                e0 == old(ctx).errors_view(),
                ctx.extends(old(ctx)),
                walked(*old(ctx), *ctx, request_body_pass(spec, opts, vis, self.content@, i as nat, path@)),
            decreases self.content.len() - i,
        {
            let p = member_path(path.as_str(), ".content[", self.content[i].0.as_str());
            let ghost c0 = *ctx;
            self.content[i].1.validate_with_context(ctx, p);
            proof {
                lemma_prefix_trans(old(ctx).errors_view(), c0.errors_view(), ctx.errors_view());
                assert(ctx.errors_view() =~= e0 + request_body_pass(spec, opts, vis, self.content@, (i + 1) as nat, path@).0);
            }
            i = i + 1;
        }
    }
}

} // verus!
