//! Represents a possible design-time link for a response.
use vstd::prelude::*;
use crate::common::context::{error_line, Context, OptionSet, Options, ValidateWithContext};
use crate::v3_0::server::{server_errors, Server};
use crate::common::entries::{get_entry, lookup};
use crate::common::model::PathItem;
use crate::common::patterns::{lowercase, to_lowercase};
use crate::common::pointer::{unescape_pointer_token, unescaped_token};
use crate::common::text::{concat, push_str, rsplit_once, rsplit_once_spec, starts_with, strip_prefix, strip_prefix_of};
use crate::v3_0::spec::Spec;

verus! {

/// Outcome of attempting to resolve an internal `#/paths/...` operationRef.
#[derive(Debug)]
pub enum OperationRefResolution {
    /// The ref resolves to a defined Operation.
    Resolved,
    /// The ref is structurally invalid or its target path/method is missing.
    Invalid(String),
    /// The PathItem reached has a `$ref` that points outside this document;
    /// the caller decides whether that is an error.
    ExternalPathItemRef(String),
}

/// The outcome of resolving an operationRef, as texts.
pub enum RefOutcome {
    Found,
    Problem(Seq<char>),
    External(Seq<char>),
}

/// The view of an [`OperationRefResolution`].
pub open spec fn outcome_of(r: OperationRefResolution) -> RefOutcome {
    match r {
        OperationRefResolution::Resolved => RefOutcome::Found,
        OperationRefResolution::Invalid(m) => RefOutcome::Problem(m@),
        OperationRefResolution::ExternalPathItemRef(t) => RefOutcome::External(t@),
    }
}

/// Whether the optional operation map has the method `m`.
pub open spec fn has_method(item: PathItem, m: Seq<char>) -> bool {
    match item.operations {
        None => false,
        Some(ops) => lookup(ops@, m) is Some,
    }
}

/// What resolving the operationRef `reference` against `Spec.paths` gives:
/// the path item `#/paths/<token>` (following its own `$ref` once, within
/// `#/paths`) must declare the operation `<method>` (compared in lowercase).
pub open spec fn operation_ref_outcome(spec: Spec, reference: Seq<char>) -> RefOutcome {
    match strip_prefix_of(reference, "#/paths/"@) {
        None => RefOutcome::Problem("must start with `#/paths/`, found `"@ + reference + "`"@),
        Some(after) => match rsplit_once_spec(after, '/') {
            None => RefOutcome::Problem(
                "must point to `#/paths/<encoded path>/<method>`, found `"@ + reference + "`"@,
            ),
            Some((token, method)) => {
                let path = unescaped_token(token);
                match lookup(spec.paths.paths@, path) {
                    None => RefOutcome::Problem("path `"@ + path + "` not declared in `#/paths`"@),
                    Some(item) => {
                        let target: Result<PathItem, RefOutcome> = match item.reference {
                            None => Ok(item),
                            Some(r) => match strip_prefix_of(r@, "#/paths/"@) {
                                Some(after_paths) => match lookup(spec.paths.paths@, unescaped_token(after_paths)) {
                                    Some(t) => Ok(t),
                                    None => Err(RefOutcome::Problem(
                                        "path `"@ + path + "` is a `$ref` to `"@ + r@
                                            + "`, which is not declared in `#/paths`"@,
                                    )),
                                },
                                None => if r@.len() == 0 {
                                    Err(RefOutcome::Problem("path `"@ + path + "` carries an empty `$ref`"@))
                                } else {
                                    Err(RefOutcome::External(r@))
                                },
                            },
                        };
                        match target {
                            Err(o) => o,
                            Ok(t) => if has_method(t, lowercase(method)) {
                                RefOutcome::Found
                            } else {
                                RefOutcome::Problem(
                                    "method `"@ + method + "` not declared on path `"@ + path + "`"@,
                                )
                            },
                        }
                    },
                }
            },
        },
    }
}

/// Whether the path item declares the operation `method`.
pub fn declares_method(item: &PathItem, method: &str) -> (res: bool)
    ensures
        res == has_method(*item, method@),
{
    match &item.operations {
        None => false,
        Some(ops) => get_entry(ops, method).is_some(),
    }
}

/// Resolve an internal `#/paths/...` operationRef against `Spec.paths`.
///
/// A PathItem may itself be a `$ref` to another PathItem; in that case the
/// methods live on the target, so one hop of an internal `#/paths/` ref is
/// followed.
pub fn resolve_internal_operation_ref(spec: &Spec, reference: &str) -> (res: OperationRefResolution)
    ensures
        outcome_of(res) == operation_ref_outcome(*spec, reference@),
{
    let after = match strip_prefix(reference, "#/paths/") {
        Some(rest) => rest,
        None => {
            let mut m = concat("must start with `#/paths/`, found `", reference);
            push_str(&mut m, "`");
            return OperationRefResolution::Invalid(m);
        },
    };
    let (path_token, method) = match rsplit_once(after.as_str(), '/') {
        Some(parts) => parts,
        None => {
            let mut m = concat("must point to `#/paths/<encoded path>/<method>`, found `", reference);
            push_str(&mut m, "`");
            return OperationRefResolution::Invalid(m);
        },
    };
    let path = unescape_pointer_token(path_token.as_str());
    let item = match get_entry(&spec.paths.paths, path.as_str()) {
        Some(item) => item,
        None => {
            let mut m = concat("path `", path.as_str());
            push_str(&mut m, "` not declared in `#/paths`");
            return OperationRefResolution::Invalid(m);
        },
    };
    let target_item = match &item.reference {
        None => item,
        Some(ref_str) => {
            if let Some(after_paths) = strip_prefix(ref_str.as_str(), "#/paths/") {
                let target_path = unescape_pointer_token(after_paths.as_str());
                match get_entry(&spec.paths.paths, target_path.as_str()) {
                    Some(t) => t,
                    None => {
                        let mut m = concat("path `", path.as_str());
                        push_str(&mut m, "` is a `$ref` to `");
                        push_str(&mut m, ref_str.as_str());
                        push_str(&mut m, "`, which is not declared in `#/paths`");
                        return OperationRefResolution::Invalid(m);
                    },
                }
            } else if ref_str.as_str().is_empty() {
                let mut m = concat("path `", path.as_str());
                push_str(&mut m, "` carries an empty `$ref`");
                return OperationRefResolution::Invalid(m);
            } else {
                return OperationRefResolution::ExternalPathItemRef(ref_str.clone());
            }
        },
    };
    let method_lower = to_lowercase(method.as_str());
    if !declares_method(target_item, method_lower.as_str()) {
        let mut m = concat("method `", method.as_str());
        push_str(&mut m, "` not declared on path `");
        push_str(&mut m, path.as_str());
        push_str(&mut m, "`");
        return OperationRefResolution::Invalid(m);
    }
    OperationRefResolution::Resolved
}

/// The Link object represents a possible design-time link for a response:
/// the fields that validation reads.
#[derive(Debug)]
pub struct Link {
    /// A relative or absolute URI reference to an OAS operation.
    pub operation_ref: Option<String>,
    /// The name of an existing, resolvable OAS operation.
    pub operation_id: Option<String>,
    /// A server object to be used by the target operation.
    pub server: Option<Server>,
}

/// The diagnostics of the optional server of a link at `path`.
pub open spec fn link_server_errors(path: Seq<char>, server: Option<Server>, ignore_unused: bool) -> Seq<Seq<char>> {
    match server {
        Some(s) => server_errors(path + ".server"@, s, ignore_unused),
        None => seq![],
    }
}

/// The marker that a pass visits for an operation with the id `id`.
pub open spec fn operation_marker(id: Seq<char>) -> Seq<char> {
    "#/paths/operations/"@ + id
}

/// The diagnostics of the `operationRef` `r` of a link at `path`, given what
/// resolving it gives.
pub open spec fn operation_ref_errors(
    path: Seq<char>,
    r: Seq<char>,
    ignore_external: bool,
    outcome: RefOutcome,
) -> Seq<Seq<char>> {
    if r.len() == 0 {
        seq![error_line(path, ".operationRef: must not be empty"@)]
    } else if crate::v3_0::reference::is_internal(r) {
        match outcome {
            RefOutcome::Found => seq![],
            RefOutcome::Problem(m) => seq![error_line(path, ".operationRef: "@ + m)],
            RefOutcome::External(t) => if ignore_external {
                seq![]
            } else {
                seq![
                    error_line(
                        path,
                        ".operationRef: target PathItem is a `$ref` to external document `"@ + t
                            + "`, which is not supported"@,
                    ),
                ]
            },
        }
    } else if ignore_external {
        seq![]
    } else {
        seq![error_line(path, ".operationRef: external reference `"@ + r + "` is not supported"@)]
    }
}

/// The diagnostics of a Link found at `path`: exactly one of `operationRef`
/// and `operationId`; a known `operationId`; an `operationRef` that is not
/// empty, resolves when internal, and is internal unless
/// `IgnoreExternalReferences` is on.
pub open spec fn link_errors(
    path: Seq<char>,
    operation_ref: Option<Seq<char>>,
    operation_id: Option<Seq<char>>,
    visited: Set<Seq<char>>,
    ignore_external: bool,
    outcome: RefOutcome,
) -> Seq<Seq<char>> {
    let xor = if operation_ref is Some && operation_id is Some {
        seq![error_line(path, "operationRef and operationId are mutually exclusive"@)]
    } else if operation_ref is None && operation_id is None {
        seq![error_line(path, "must specify exactly one of operationRef or operationId"@)]
    } else {
        seq![]
    };
    let id = match operation_id {
        Some(id) => if !visited.contains(operation_marker(id)) {
            seq![error_line(path, ".operationId: missing operation with id `"@ + id + "`"@)]
        } else {
            seq![]
        },
        None => seq![],
    };
    let oref = match operation_ref {
        None => seq![],
        Some(r) => operation_ref_errors(path, r, ignore_external, outcome),
    };
    xor + id + oref
}

/// An `operationRef` gets no diagnostic exactly when it is not empty and,
/// if internal (`#/...`), resolves to an operation or leads to another
/// document while `IgnoreExternalReferences` is on, and, if external, that
/// switch is on.
pub proof fn law_operation_ref_rules(path: Seq<char>, r: Seq<char>, ignore_external: bool, outcome: RefOutcome)
    ensures
        operation_ref_errors(path, r, ignore_external, outcome).len() == 0 <==> (r.len() > 0 && (
        crate::common::text::is_prefix_of("#/"@, r) ==> (outcome is Found || (outcome is External && ignore_external)))
            && (!crate::common::text::is_prefix_of("#/"@, r) ==> ignore_external)),
        operation_ref_errors(path, r, ignore_external, outcome).len() <= 1,
{
}

/// A link gets no diagnostic exactly when it gives exactly one of
/// `operationRef` and `operationId`, its `operationId` (if any) names an
/// operation the pass has met, and its `operationRef` (if any) gets none.
pub proof fn law_link_rules(
    path: Seq<char>,
    operation_ref: Option<Seq<char>>,
    operation_id: Option<Seq<char>>,
    visited: Set<Seq<char>>,
    ignore_external: bool,
    outcome: RefOutcome,
)
    ensures
        link_errors(path, operation_ref, operation_id, visited, ignore_external, outcome).len() == 0 <==> ((
        operation_ref is Some) != (operation_id is Some) && (operation_id matches Some(id) ==> visited.contains(
            "#/paths/operations/"@ + id,
        )) && (operation_ref matches Some(r) ==> operation_ref_errors(path, r, ignore_external, outcome).len() == 0)),
{
}

/// What resolving a link's optional operationRef gives.
pub open spec fn link_ref_outcome(spec: Spec, r: Option<String>) -> RefOutcome {
    match r {
        Some(r) => operation_ref_outcome(spec, r@),
        None => RefOutcome::Found,
    }
}

/// The view of an optional string.
pub open spec fn opt_text(s: Option<String>) -> Option<Seq<char>> {
    match s {
        None => None,
        Some(x) => Some(x@),
    }
}

/// Checks the operation reference part of a link.
fn validate_link_operation_ref(ctx: &mut Context<'_, Spec>, path: &str, operation_ref: &String)
    ensures
        final(ctx).errors_view() == old(ctx).errors_view() + operation_ref_errors(
            path@,
            operation_ref@,
            old(ctx).has_option(Options::IgnoreExternalReferences),
            operation_ref_outcome(*old(ctx).spec, operation_ref@),
        ),
        final(ctx).visited == old(ctx).visited,
        final(ctx).spec == old(ctx).spec,
        final(ctx).options == old(ctx).options,
{
    let ghost expected = operation_ref_errors(
        path@,
        operation_ref@,
        old(ctx).has_option(Options::IgnoreExternalReferences),
        operation_ref_outcome(*old(ctx).spec, operation_ref@),
    );
    if operation_ref.as_str().is_empty() {
        ctx.error(path, ".operationRef: must not be empty");
        assert(expected =~= seq![error_line(path@, ".operationRef: must not be empty"@)]);
    } else if starts_with(operation_ref.as_str(), "#/") {
        let spec = ctx.spec;
        match resolve_internal_operation_ref(spec, operation_ref.as_str()) {
            OperationRefResolution::Resolved => {
                assert(expected =~= Seq::<Seq<char>>::empty());
                assert(ctx.errors_view() =~= old(ctx).errors_view() + expected);
            },
            OperationRefResolution::Invalid(msg) => {
                let m = concat(".operationRef: ", msg.as_str());
                ctx.error(path, m.as_str());
                assert(expected =~= seq![error_line(path@, ".operationRef: "@ + msg@)]);
            },
            OperationRefResolution::ExternalPathItemRef(target) => {
                if !ctx.is_option(Options::IgnoreExternalReferences) {
                    let mut m = concat(".operationRef: target PathItem is a `$ref` to external document `", target.as_str());
                    push_str(&mut m, "`, which is not supported");
                    ctx.error(path, m.as_str());
                    assert(expected =~= seq![error_line(path@, m@)]);
                } else {
                    assert(expected =~= Seq::<Seq<char>>::empty());
                    assert(ctx.errors_view() =~= old(ctx).errors_view() + expected);
                }
            },
        }
    } else if !ctx.is_option(Options::IgnoreExternalReferences) {
        let mut m = concat(".operationRef: external reference `", operation_ref.as_str());
        push_str(&mut m, "` is not supported");
        ctx.error(path, m.as_str());
        assert(expected =~= seq![error_line(path@, m@)]);
    } else {
        assert(expected =~= Seq::<Seq<char>>::empty());
        assert(ctx.errors_view() =~= old(ctx).errors_view() + expected);
    }
}

impl Link {
    /// Checks the link, found at `path`: exactly one of `operationRef` and
    /// `operationId`; an `operationId` that some operation declares (those are
    /// visited before links are checked); an `operationRef` that resolves.
    pub fn validate(&self, ctx: &mut Context<'_, Spec>, path: String)
        ensures
            final(ctx).errors_view() == old(ctx).errors_view() + link_errors(
                path@,
                opt_text(self.operation_ref),
                opt_text(self.operation_id),
                old(ctx).visited_set(),
                old(ctx).has_option(Options::IgnoreExternalReferences),
                link_ref_outcome(*old(ctx).spec, self.operation_ref),
            ) + link_server_errors(path@, self.server, old(ctx).has_option(Options::IgnoreUnusedServerVariables)),
            final(ctx).visited == old(ctx).visited,
            final(ctx).spec == old(ctx).spec,
            final(ctx).options == old(ctx).options,
    {
        let ghost outcome = link_ref_outcome(*old(ctx).spec, self.operation_ref);
        let ghost ignore = old(ctx).has_option(Options::IgnoreExternalReferences);
        let ghost all = link_errors(
            path@,
            opt_text(self.operation_ref),
            opt_text(self.operation_id),
            old(ctx).visited_set(),
            ignore,
            outcome,
        );
        if self.operation_ref.is_some() && self.operation_id.is_some() {
            ctx.error(path.as_str(), "operationRef and operationId are mutually exclusive");
        } else if self.operation_ref.is_none() && self.operation_id.is_none() {
            ctx.error(path.as_str(), "must specify exactly one of operationRef or operationId");
        }
        let ghost e1 = ctx.errors_view();
        if let Some(operation_id) = &self.operation_id {
            let marker = concat("#/paths/operations/", operation_id.as_str());
            if !ctx.is_visited(marker.as_str()) {
                let mut m = concat(".operationId: missing operation with id `", operation_id.as_str());
                push_str(&mut m, "`");
                ctx.error(path.as_str(), m.as_str());
            }
        }
        let ghost e2 = ctx.errors_view();
        if let Some(operation_ref) = &self.operation_ref {
            validate_link_operation_ref(ctx, path.as_str(), operation_ref);
        }
        assert(ctx.errors_view() =~= old(ctx).errors_view() + all);
        if let Some(server) = &self.server {
            let sp = concat(path.as_str(), ".server");
            server.validate(ctx, sp);
        }
    }
}


impl ValidateWithContext<Spec> for Link {
    open spec fn checks(
        &self,
        spec: Spec,
        options: OptionSet,
        visited: Set<Seq<char>>,
        errors: Seq<Seq<char>>,
        path: Seq<char>,
        after: (Seq<Seq<char>>, Set<Seq<char>>),
    ) -> bool {
        after == (errors + link_errors(
                path,
                opt_text(self.operation_ref),
                opt_text(self.operation_id),
                visited,
                options.has(Options::IgnoreExternalReferences),
                link_ref_outcome(spec, self.operation_ref),
            ) + link_server_errors(path, self.server, options.has(Options::IgnoreUnusedServerVariables)), visited)
    }

    fn validate_with_context(&self, ctx: &mut Context<'_, Spec>, path: String)
        ensures
            final(ctx).errors_view() == old(ctx).errors_view() + link_errors(
                path@,
                opt_text(self.operation_ref),
                opt_text(self.operation_id),
                old(ctx).visited_set(),
                old(ctx).has_option(Options::IgnoreExternalReferences),
                link_ref_outcome(*old(ctx).spec, self.operation_ref),
            ) + link_server_errors(path@, self.server, old(ctx).has_option(Options::IgnoreUnusedServerVariables)),
            final(ctx).visited == old(ctx).visited,
            final(ctx).spec == old(ctx).spec,
            final(ctx).options == old(ctx).options,
    {
        self.validate(ctx, path);
    }
}

} // verus!
