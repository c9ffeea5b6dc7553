//! v3.0 Reference Object: exactly one field, `$ref`.
use vstd::prelude::*;
use crate::common::context::{error_line, Context, OptionSet, Options, ValidateWithContext};
use crate::common::entries::{get_entry, lookup};
use crate::common::reference::{resolve_error_text, ResolveError, ResolveReference};
use crate::common::text::{
    concat, is_prefix_of, push_str, starts_with, trim_start_all, trim_start_matches,
};

verus! {

/// v3.0 Reference Object: `{ "$ref": "..." }`.
#[derive(Debug, PartialEq, Eq)]
pub struct Ref {
    /// **Required** The reference identifier. MUST be a URI.
    pub reference: String,
}

/// Either a `$ref` or an inline value of `T`.
#[derive(Debug, PartialEq, Eq)]
pub enum RefOr<T> {
    Ref(Ref),
    Item(T),
}

/// `r` is an internal reference: it starts with `#/`.
pub open spec fn is_internal(r: Seq<char>) -> bool {
    is_prefix_of("#/"@, r)
}

/// The diagnostics of an empty `$ref` found at `path`.
pub open spec fn empty_ref_errors(path: Seq<char>, r: Seq<char>) -> Seq<Seq<char>> {
    if r.len() == 0 {
        seq![error_line(path, ".$ref: must not be empty"@)]
    } else {
        seq![]
    }
}

/// A `$ref` is reported, once, exactly when it is empty.
pub proof fn law_empty_ref(path: Seq<char>, r: Seq<char>)
    ensures
        empty_ref_errors(path, r).len() > 0 <==> r.len() == 0,
        empty_ref_errors(path, r).len() <= 1,
{
}

/// What `RefOr::get_item` answers, given what the document resolves the
/// reference to.
pub open spec fn item_of<D>(x: RefOr<D>, resolved: Option<D>) -> Result<D, ResolveError> {
    match x {
        RefOr::Item(d) => Ok(d),
        RefOr::Ref(r) => if is_internal(r.reference@) {
            match resolved {
                Some(d) => Ok(d),
                None => Err(ResolveError::NotFound(r.reference)),
            }
        } else {
            Err(ResolveError::ExternalUnsupported(r.reference))
        },
    }
}

impl Ref {
    /// A reference to `reference`.
    pub fn new(reference: String) -> (res: Ref)
        ensures
            res.reference == reference,
    {
        Ref { reference }
    }

    /// Reports an empty `$ref`.
    pub fn validate_with_context<T>(&self, ctx: &mut Context<'_, T>, path: String)
        ensures
            final(ctx).errors_view() == old(ctx).errors_view() + empty_ref_errors(path@, self.reference@),
            final(ctx).visited == old(ctx).visited,
            final(ctx).spec == old(ctx).spec,
            final(ctx).options == old(ctx).options,
    {
        if self.reference.as_str().is_empty() {
            ctx.error(path.as_str(), ".$ref: must not be empty");
        } else {
            assert(old(ctx).errors_view() + seq![] =~= old(ctx).errors_view());
        }
    }
}

/// Follows the chain of `$ref` aliases of the entries from `key`, for at most
/// `fuel` look-ups: the item it ends at, if it ends at one.
pub open spec fn resolve_chain<D>(
    entries: Seq<(String, RefOr<D>)>,
    prefix: Seq<char>,
    key: Seq<char>,
    fuel: nat,
) -> Option<D>
    decreases fuel,
{
    if fuel == 0 {
        None
    } else {
        match lookup(entries, key) {
            None => None,
            Some(RefOr::Item(d)) => Some(d),
            Some(RefOr::Ref(r)) => if is_internal(r.reference@) {
                resolve_chain(entries, prefix, trim_start_all(r.reference@, prefix), (fuel - 1) as nat)
            } else {
                None
            },
        }
    }
}

/// What `reference` names in a component map whose keys are referenced as
/// `prefix` + key. A chain of aliases is followed until it reaches an item; a
/// chain that loops, leaves the map or leaves the document names nothing. A
/// chain that reaches an item without looping visits each entry at most once,
/// so as many look-ups as there are entries suffice.
pub open spec fn resolved_in_map<D>(
    map: Option<Seq<(String, RefOr<D>)>>,
    reference: Seq<char>,
    prefix: Seq<char>,
) -> Option<D> {
    match map {
        None => None,
        Some(entries) => resolve_chain(entries, prefix, trim_start_all(reference, prefix), entries.len()),
    }
}

/// The entries of an optional map, as a sequence.
pub open spec fn map_view<V>(map: Option<Vec<(String, V)>>) -> Option<Seq<(String, V)>> {
    match map {
        None => None,
        Some(v) => Some(v@),
    }
}

/// Resolve a `$ref` against the entries of a component map whose keys are
/// referenced as `prefix` + key, following aliases from one entry to another.
pub fn resolve_in_entries<'a, D>(
    entries: &'a Vec<(String, RefOr<D>)>,
    reference: &str,
    prefix: &str,
) -> (res: Option<&'a D>)
    ensures
        match res {
            Some(d) => resolved_in_map(Some(entries@), reference@, prefix@) == Some(*d),
            None => resolved_in_map(Some(entries@), reference@, prefix@) is None,
        },
{
    let mut key = trim_start_matches(reference, prefix);
    let mut fuel: usize = entries.len();
    loop
        invariant
            fuel <= entries.len(),
            resolve_chain(entries@, prefix@, key@, fuel as nat)
                == resolved_in_map(Some(entries@), reference@, prefix@),
        decreases fuel,
    {
        if fuel == 0 {
            return None;
        }
        match get_entry(entries, key.as_str()) {
            None => return None,
            Some(RefOr::Item(d)) => return Some(d),
            Some(RefOr::Ref(r)) => {
                if starts_with(r.reference.as_str(), "#/") {
                    key = trim_start_matches(r.reference.as_str(), prefix);
                    fuel = fuel - 1;
                } else {
                    return None;
                }
            },
        }
    }
}

/// Resolve a `$ref` against an optional component map whose keys are
/// referenced as `prefix` + key, following aliases from one entry to another
/// (see [`resolved_in_map`]). This is how a document resolves its own `$ref`s.
pub fn resolve_in_optional_entries<'a, D>(
    map: &'a Option<Vec<(String, RefOr<D>)>>,
    reference: &str,
    prefix: &str,
) -> (res: Option<&'a D>)
    ensures
        match res {
            Some(d) => resolved_in_map(map_view(*map), reference@, prefix@) == Some(*d),
            None => resolved_in_map(map_view(*map), reference@, prefix@) is None,
        },
{
    match map {
        Some(entries) => resolve_in_entries(entries, reference, prefix),
        None => None,
    }
}

/// What [`resolve_in_map`] gives: nothing where the map is absent or has no
/// entry for the key (`reference` without the leading `prefix`s); the item of
/// an inline entry; for a `$ref` entry, what the document `spec` resolves
/// that `$ref` to (an external `$ref` resolves to nothing).
pub open spec fn resolved_via_document<T: ResolveReference<D>, D>(
    spec: T,
    reference: Seq<char>,
    prefix: Seq<char>,
    map: Option<Seq<(String, RefOr<D>)>>,
) -> Option<D> {
    match map {
        None => None,
        Some(entries) => match lookup(entries, trim_start_all(reference, prefix)) {
            None => None,
            Some(RefOr::Item(d)) => Some(d),
            Some(RefOr::Ref(r)) => match item_of(RefOr::Ref(r), spec.resolved(r.reference@)) {
                Ok(d) => Some(d),
                Err(_) => None,
            },
        },
    }
}

/// Resolve a `$ref` against a component map of the document `spec`: the
/// entry for the key, if inline, or else what the document resolves the
/// entry's own `$ref` to (see [`resolved_via_document`]).
pub fn resolve_in_map<'a, T, D>(
    spec: &'a T,
    reference: &str,
    prefix: &str,
    map: &'a Option<Vec<(String, RefOr<D>)>>,
) -> (res: Option<&'a D>)
    where T: ResolveReference<D>,
    ensures
        match res {
            Some(d) => resolved_via_document(*spec, reference@, prefix@, map_view(*map)) == Some(*d),
            None => resolved_via_document(*spec, reference@, prefix@, map_view(*map)) is None,
        },
{
    match map {
        None => None,
        Some(entries) => {
            let key = trim_start_matches(reference, prefix);
            match get_entry(entries, key.as_str()) {
                None => None,
                Some(entry) => match entry.get_item(spec) {
                    Ok(d) => Some(d),
                    Err(_) => None,
                },
            }
        },
    }
}

impl<D> RefOr<D> {
    /// A `$ref` to `reference`.
    pub fn new_ref(reference: String) -> (res: RefOr<D>)
        ensures
            res == RefOr::<D>::Ref(Ref { reference }),
    {
        RefOr::Ref(Ref::new(reference))
    }

    /// An inline `item`.
    pub fn new_item(item: D) -> (res: RefOr<D>)
        ensures
            res == RefOr::Item(item),
    {
        RefOr::Item(item)
    }

    /// The inline item, or what the document `spec` resolves the `$ref` to.
    /// Only internal (`#/...`) references are followed.
    pub fn get_item<'a, T: ResolveReference<D>>(&'a self, spec: &'a T) -> (res: Result<&'a D, ResolveError>)
        ensures
            match res {
                Ok(d) => item_of(*self, spec.resolved(self->Ref_0.reference@)) == Ok::<D, ResolveError>(*d),
                Err(e) => item_of(*self, spec.resolved(self->Ref_0.reference@)) == Err::<D, ResolveError>(e),
            },
    {
        match self {
            RefOr::Item(d) => Ok(d),
            RefOr::Ref(r) => {
                if starts_with(r.reference.as_str(), "#/") {
                    match spec.resolve_reference(r.reference.as_str()) {
                        Some(d) => Ok(d),
                        None => Err(ResolveError::NotFound(r.reference.clone())),
                    }
                } else {
                    Err(ResolveError::ExternalUnsupported(r.reference.clone()))
                }
            },
        }
    }
}

/// The diagnostic of a `$ref` at `path` that `RefOr::validate_with_context`
/// could not follow, if it reports one.
pub open spec fn unresolved_ref_errors(
    path: Seq<char>,
    e: ResolveError,
    ignore_external: bool,
) -> Seq<Seq<char>> {
    match e {
        ResolveError::NotFound(r) => seq![error_line(path, ".$ref: `"@ + r@ + "` not found"@)],
        ResolveError::ExternalUnsupported(_) => if ignore_external {
            seq![]
        } else {
            seq![error_line(path, ".$ref: "@ + resolve_error_text(e))]
        },
    }
}

/// What checking the `$ref` or item `r`, found at `path`, does to a pass over
/// `spec` with the switches `options`, which had visited `visited` and
/// reported `errors` before (see [`ValidateWithContext::checks`]): a `$ref` is
/// reported if empty; the first time the pass meets it, it is visited and
/// followed, and its target checked at the location the `$ref` names, or the
/// failure to follow it reported.
pub open spec fn ref_or_checks<T, D>(
    r: RefOr<D>,
    spec: T,
    options: OptionSet,
    visited: Set<Seq<char>>,
    errors: Seq<Seq<char>>,
    path: Seq<char>,
    after: (Seq<Seq<char>>, Set<Seq<char>>),
) -> bool where T: ResolveReference<D>, D: ValidateWithContext<T> {
    match r {
        RefOr::Item(d) => d.checks(spec, options, visited, errors, path, after),
        RefOr::Ref(x) => {
            let reference = x.reference@;
            let pre = errors + empty_ref_errors(path, reference);
            if visited.contains(reference) {
                after == (pre, visited)
            } else {
                match item_of(r, spec.resolved(reference)) {
                    Ok(d) => d.checks(spec, options, visited.insert(reference), pre, reference, after),
                    Err(e) => after == (
                        pre + unresolved_ref_errors(path, e, options.has(Options::IgnoreExternalReferences)),
                        visited.insert(reference),
                    ),
                }
            }
        },
    }
}

impl<D> RefOr<D> {
    /// Checks the `$ref` (non-empty, resolvable) or the inline item. A `$ref`
    /// is followed, and its target checked, only the first time the pass meets
    /// it; the target is checked at the location named by the `$ref` itself.
    pub fn validate_with_context<T>(&self, ctx: &mut Context<'_, T>, path: String)
        where T: ResolveReference<D>, D: ValidateWithContext<T>,
        ensures
            final(ctx).extends(old(ctx)),
            ref_or_checks(
                *self,
                *old(ctx).spec,
                old(ctx).options,
                old(ctx).visited_set(),
                old(ctx).errors_view(),
                path@,
                (final(ctx).errors_view(), final(ctx).visited_set()),
            ),
            self is Ref ==> {
                let r = self->Ref_0.reference@;
                let pre = old(ctx).errors_view() + empty_ref_errors(path@, r);
                let outcome = item_of(*self, old(ctx).spec.resolved(r));
                &&& final(ctx).visited_set().contains(r)
                &&& pre.is_prefix_of(final(ctx).errors_view())
                &&& old(ctx).visited_set().contains(r) ==> {
                    &&& final(ctx).errors_view() == pre
                    &&& final(ctx).visited_set() == old(ctx).visited_set()
                }
                &&& !old(ctx).visited_set().contains(r) && outcome is Err ==> {
                    &&& final(ctx).errors_view() == pre + unresolved_ref_errors(
                        path@,
                        outcome->Err_0,
                        old(ctx).has_option(Options::IgnoreExternalReferences),
                    )
                    &&& final(ctx).visited_set() == old(ctx).visited_set().insert(r)
                }
            },
    {
        match self {
            RefOr::Ref(r) => {
                let ghost reference = r.reference@;
                let ghost pre = old(ctx).errors_view() + empty_ref_errors(path@, reference);
                let ghost vis = old(ctx).visited_set();
                r.validate_with_context(ctx, path.clone());
                if ctx.visit(r.reference.clone()) {
                    let spec = ctx.spec;
                    match self.get_item(spec) {
                        Ok(d) => {
                            d.validate_with_context(ctx, r.reference.clone());
                        },
                        Err(ResolveError::NotFound(reference)) => {
                            let mut msg = concat(".$ref: `", reference.as_str());
                            push_str(&mut msg, "` not found");
                            ctx.error(path.as_str(), msg.as_str());
                            assert(ctx.errors_view() =~= pre + unresolved_ref_errors(
                                path@,
                                ResolveError::NotFound(reference),
                                old(ctx).has_option(Options::IgnoreExternalReferences),
                            ));
                        },
                        Err(e) => {
                            if !ctx.is_option(Options::IgnoreExternalReferences) {
                                let msg = concat(".$ref: ", e.message().as_str());
                                ctx.error(path.as_str(), msg.as_str());
                            } else {
                                assert(ctx.errors_view() + seq![] =~= ctx.errors_view());
                            }
                            assert(ctx.errors_view() =~= pre + unresolved_ref_errors(
                                path@,
                                e,
                                old(ctx).has_option(Options::IgnoreExternalReferences),
                            ));
                        },
                    }
                } else {
                    assert(vis.insert(reference) =~= vis);
                }
            },
            RefOr::Item(d) => d.validate_with_context(ctx, path),
        }
    }
}


impl<T, D> ValidateWithContext<T> for RefOr<D> where T: ResolveReference<D>, D: ValidateWithContext<T> {
    open spec fn checks(
        &self,
        spec: T,
        options: OptionSet,
        visited: Set<Seq<char>>,
        errors: Seq<Seq<char>>,
        path: Seq<char>,
        after: (Seq<Seq<char>>, Set<Seq<char>>),
    ) -> bool {
        ref_or_checks(*self, spec, options, visited, errors, path, after)
    }

    fn validate_with_context(&self, ctx: &mut Context<'_, T>, path: String) {
        RefOr::<D>::validate_with_context(self, ctx, path);
    }
}

} // verus!
