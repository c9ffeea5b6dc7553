//! The Server and Server Variable objects (OpenAPI 3.0).
use vstd::prelude::*;
use crate::common::checks::{required_string_errors, validate_required_string};
use crate::common::context::{error_line, Context, OptionSet, Options, ValidateWithContext};
use crate::common::entries::list_contains;
use crate::common::patterns::{server_url_variables, server_vars, views};
use crate::common::text::{concat, push_str, str_equal, to_owned_string};
use crate::common::uniqueness::{debug_list, debug_string_list, entry_keys};
use crate::v3_0::spec::Spec;

verus! {

/// An object representing a Server.
#[derive(Debug)]
pub struct Server {
    /// **Required** A URL to the target host; variables are named in `{brackets}`.
    pub url: String,
    /// An optional string describing the host designated by the URL.
    pub description: Option<String>,
    /// The variables for substitution in the URL template, by name.
    pub variables: Option<Vec<(String, ServerVariable)>>,
}

/// An object representing a Server Variable for server URL template substitution.
#[derive(Debug)]
pub struct ServerVariable {
    /// An enumeration of string values to be used if the substitution options are from a limited set.
    pub enum_values: Option<Vec<String>>,
    /// **Required** The default value to use for substitution.
    pub default: String,
    /// An optional description for the server variable.
    pub description: Option<String>,
}

/// The diagnostics of a server variable found at `path`: a non-empty
/// default, which is one of the enumerated values if there are any.
pub open spec fn server_variable_errors(path: Seq<char>, v: ServerVariable) -> Seq<Seq<char>> {
    required_string_errors(path + ".default"@, v.default@) + match v.enum_values {
        Some(values) => if views(values@).contains(v.default@) {
            seq![]
        } else {
            seq![
                error_line(
                    path,
                    ".default: `"@ + v.default@ + "` must be in enum values: "@ + debug_list(views(values@)),
                ),
            ]
        },
        None => seq![],
    }
}

/// A server variable gets an enum diagnostic exactly when it lists enum
/// values and its default is none of them (compared with every value, not
/// only the first); its other diagnostics are those of a required default.
pub proof fn law_default_among_enum_values(path: Seq<char>, v: ServerVariable)
    ensures
        ({
            let listed = match v.enum_values {
                None => true,
                Some(values) => exists|i: int| 0 <= i < values@.len() && #[trigger] values@[i]@ == v.default@,
            };
            server_variable_errors(path, v).len() == required_string_errors(path + ".default"@, v.default@).len() + (if listed {
                0int
            } else {
                1int
            })
        }),
{
    if let Some(values) = v.enum_values {
        let vs = views(values@);
        if exists|i: int| 0 <= i < values@.len() && #[trigger] values@[i]@ == v.default@ {
            let i = choose|i: int| 0 <= i < values@.len() && #[trigger] values@[i]@ == v.default@;
            assert(vs[i] == v.default@);
        } else {
            if vs.contains(v.default@) {
                let i = choose|i: int| 0 <= i < vs.len() && vs[i] == v.default@;
                assert(values@[i]@ == v.default@);
            }
        }
    }
}

impl ServerVariable {
    /// Checks the server variable found at `path`.
    pub fn validate<S>(&self, ctx: &mut Context<'_, S>, path: String)
        ensures
            final(ctx).errors_view() == old(ctx).errors_view() + server_variable_errors(path@, *self),
            final(ctx).visited == old(ctx).visited,
            final(ctx).spec == old(ctx).spec,
            final(ctx).options == old(ctx).options,
    {
        let ghost e0 = ctx.errors_view();
        let p = concat(path.as_str(), ".default");
        validate_required_string(ctx, self.default.as_str(), p.as_str());
        if let Some(values) = &self.enum_values {
            let found = list_contains(values, self.default.as_str());
            proof {
                assert(views(values@).to_set().contains(self.default@) == views(values@).contains(self.default@));
            }
            if !found {
                let mut m = concat(".default: `", self.default.as_str());
                push_str(&mut m, "` must be in enum values: ");
                push_str(&mut m, debug_string_list(values).as_str());
                ctx.error(path.as_str(), m.as_str());
            }
        }
        assert(ctx.errors_view() =~= e0 + server_variable_errors(path@, *self));
    }
}

/// The diagnostics of the variables of a server URL at `path`: of the first
/// `k` names that the URL uses, each one the server does not declare (a
/// declared name may be used any number of times).
pub open spec fn url_variable_errors(path: Seq<char>, declared: Seq<Seq<char>>, used: Seq<Seq<char>>, k: nat) -> Seq<Seq<char>>
    decreases k,
{
    if k == 0 {
        seq![]
    } else {
        let n = used[k - 1];
        url_variable_errors(path, declared, used, (k - 1) as nat) + if declared.contains(n) {
            seq![]
        } else {
            seq![error_line(path, ".url: `"@ + n + "` is not defined in `variables`"@)]
        }
    }
}

/// The diagnostics of the first `k` declared variables of a server at `path`
/// that its URL does not use.
pub open spec fn unused_variable_errors(path: Seq<char>, declared: Seq<Seq<char>>, used: Seq<Seq<char>>, k: nat) -> Seq<Seq<char>>
    decreases k,
{
    if k == 0 {
        seq![]
    } else {
        let n = declared[k - 1];
        unused_variable_errors(path, declared, used, (k - 1) as nat) + if used.contains(n) {
            seq![]
        } else {
            seq![error_line(path, ".variables["@ + n + "]: unused in `url`"@)]
        }
    }
}

/// The names a server URL uses get no diagnostic exactly when each of them is
/// declared; each undeclared use gets one.
pub proof fn law_url_variables_declared(path: Seq<char>, declared: Seq<Seq<char>>, used: Seq<Seq<char>>, k: nat)
    requires
        k <= used.len(),
    ensures
        url_variable_errors(path, declared, used, k).len() == 0 <==> forall|i: int|
            0 <= i < k ==> declared.contains(#[trigger] used[i]),
        url_variable_errors(path, declared, used, k).len() <= k,
    decreases k,
{
    if k > 0 {
        law_url_variables_declared(path, declared, used, (k - 1) as nat);
    }
}

/// The declared variables of a server get no "unused" diagnostic exactly
/// when the URL uses each of them; each unused one gets one.
pub proof fn law_declared_variables_used(path: Seq<char>, declared: Seq<Seq<char>>, used: Seq<Seq<char>>, k: nat)
    requires
        k <= declared.len(),
    ensures
        unused_variable_errors(path, declared, used, k).len() == 0 <==> forall|i: int|
            0 <= i < k ==> used.contains(#[trigger] declared[i]),
        unused_variable_errors(path, declared, used, k).len() <= k,
    decreases k,
{
    if k > 0 {
        law_declared_variables_used(path, declared, used, (k - 1) as nat);
    }
}

/// The names of the declared variables of a server.
pub open spec fn declared_variables(s: Server) -> Seq<Seq<char>> {
    match s.variables {
        None => seq![],
        Some(v) => entry_keys(v@),
    }
}

/// The diagnostics of the variables themselves, in order.
pub open spec fn variables_errors(path: Seq<char>, vars: Seq<(String, ServerVariable)>) -> Seq<Seq<char>>
    decreases vars.len(),
{
    if vars.len() == 0 {
        seq![]
    } else {
        variables_errors(path, vars.drop_last()) + server_variable_errors(
            path + ".variables["@ + vars.last().0@ + "]"@,
            vars.last().1,
        )
    }
}

/// The diagnostics of a server found at `path`: a non-empty URL, each
/// variable, each name the URL uses without declaring it,
/// then, unless `IgnoreUnusedServerVariables`, each declared variable the URL
/// does not use (in name order).
pub open spec fn server_errors(path: Seq<char>, s: Server, ignore_unused: bool) -> Seq<Seq<char>> {
    let declared = declared_variables(s);
    let used = server_vars(s.url@);
    required_string_errors(path + ".url"@, s.url@) + (match s.variables {
        None => seq![],
        Some(v) => variables_errors(path, v@),
    }) + url_variable_errors(path, declared, used, used.len()) + if ignore_unused {
        seq![]
    } else {
        unused_variable_errors(path, declared, used, declared.len())
    }
}

/// The names of the declared variables, as a list.
fn declared_names(s: &Server) -> (res: Vec<String>)
    ensures
        views(res@) == declared_variables(*s),
{
    let mut names: Vec<String> = Vec::new();
    if let Some(vars) = &s.variables {
        let mut i: usize = 0;
        while i < vars.len()
            invariant
                i <= vars.len(),
                s.variables == Some(*vars),
                names.len() == i,
                views(names@) == entry_keys(vars@.take(i as int)),
            decreases vars.len() - i,
        {
            let ghost before = names@;
            names.push(to_owned_string(vars[i].0.as_str()));
            proof {
                assert(vars@.take(i + 1) =~= vars@.take(i as int).push(vars@[i as int]));
                assert forall|j: int| 0 <= j < i + 1 implies #[trigger] views(names@)[j] == entry_keys(vars@.take(i + 1))[j] by {
                    if j < i {
                        assert(names@[j] == before[j]);
                        assert(views(before)[j] == entry_keys(vars@.take(i as int))[j]);
                    }
                }
                assert(views(names@) =~= entry_keys(vars@.take(i + 1)));
            }
            i = i + 1;
        }
        assert(vars@.take(vars.len() as int) =~= vars@);
    } else {
        assert(views(names@) =~= Seq::<Seq<char>>::empty());
    }
    names
}

impl Server {
    /// Checks the server found at `path`.
    pub fn validate<S>(&self, ctx: &mut Context<'_, S>, path: String)
        ensures
            final(ctx).errors_view() == old(ctx).errors_view() + server_errors(
                path@,
                *self,
                old(ctx).has_option(Options::IgnoreUnusedServerVariables),
            ),
            final(ctx).visited == old(ctx).visited,
            final(ctx).spec == old(ctx).spec,
            final(ctx).options == old(ctx).options,
    {
        let ghost e0 = ctx.errors_view();
        let p = concat(path.as_str(), ".url");
        validate_required_string(ctx, self.url.as_str(), p.as_str());
        let ghost e1 = ctx.errors_view();
        if let Some(vars) = &self.variables {
            let mut i: usize = 0;
            while i < vars.len()
                invariant
                    i <= vars.len(),
                    ctx.errors_view() == e1 + variables_errors(path@, vars@.take(i as int)),
                    ctx.visited == old(ctx).visited,
                    ctx.spec == old(ctx).spec,
                    ctx.options == old(ctx).options,
                decreases vars.len() - i,
            {
                let (name, var) = &vars[i];
                let mut vp = concat(path.as_str(), ".variables[");
                push_str(&mut vp, name.as_str());
                push_str(&mut vp, "]");
                var.validate(ctx, vp);
                proof {
                    assert(vars@.take(i + 1).drop_last() =~= vars@.take(i as int));
                }
                i = i + 1;
            }
            assert(vars@.take(vars.len() as int) =~= vars@);
        } else {
            assert(ctx.errors_view() =~= e1 + Seq::<Seq<char>>::empty());
        }
        let ghost e2 = ctx.errors_view();
        let declared = declared_names(self);
        let used = server_url_variables(self.url.as_str());
        let mut k: usize = 0;
        while k < used.len()
            invariant
                k <= used.len(),
                views(declared@) == declared_variables(*self),
                views(used@) == server_vars(self.url@),
                ctx.errors_view() == e2 + url_variable_errors(path@, views(declared@), views(used@), k as nat),
                ctx.visited == old(ctx).visited,
                ctx.spec == old(ctx).spec,
                ctx.options == old(ctx).options,
            decreases used.len() - k,
        {
            let n = &used[k];
            let known = list_contains(&declared, n.as_str());
            proof {
                assert(views(declared@).to_set().contains(n@) == views(declared@).contains(n@));
                assert(views(used@)[k as int] == n@);
            }
            if !known {
                let mut m = concat(".url: `", n.as_str());
                push_str(&mut m, "` is not defined in `variables`");
                ctx.error(path.as_str(), m.as_str());
            }
            k = k + 1;
        }
        let ghost e3 = ctx.errors_view();
        if !ctx.is_option(Options::IgnoreUnusedServerVariables) {
            let mut j: usize = 0;
            while j < declared.len()
                invariant
                    j <= declared.len(),
                    views(declared@) == declared_variables(*self),
                    views(used@) == server_vars(self.url@),
                    ctx.errors_view() == e3 + unused_variable_errors(path@, views(declared@), views(used@), j as nat),
                    ctx.visited == old(ctx).visited,
                    ctx.spec == old(ctx).spec,
                    ctx.options == old(ctx).options,
                decreases declared.len() - j,
            {
                let n = &declared[j];
                let used_here = list_contains(&used, n.as_str());
                proof {
                    assert(views(used@).to_set().contains(n@) == views(used@).contains(n@));
                    assert(views(declared@)[j as int] == n@);
                }
                if !used_here {
                    let mut m = concat(".variables[", n.as_str());
                    push_str(&mut m, "]: unused in `url`");
                    ctx.error(path.as_str(), m.as_str());
                }
                j = j + 1;
            }
        } else {
            assert(ctx.errors_view() =~= e3 + Seq::<Seq<char>>::empty());
        }
        assert(ctx.errors_view() =~= e0 + server_errors(
            path@,
            *self,
            old(ctx).has_option(Options::IgnoreUnusedServerVariables),
        ));
    }
}

impl ValidateWithContext<Spec> for Server {
    open spec fn checks(
        &self,
        spec: Spec,
        options: OptionSet,
        visited: Set<Seq<char>>,
        errors: Seq<Seq<char>>,
        path: Seq<char>,
        after: (Seq<Seq<char>>, Set<Seq<char>>),
    ) -> bool {
        after == (errors + server_errors(
                path,
                *self,
                options.has(Options::IgnoreUnusedServerVariables),
            ), visited)
    }

    fn validate_with_context(&self, ctx: &mut Context<'_, Spec>, path: String)
        ensures
            final(ctx).errors_view() == old(ctx).errors_view() + server_errors(
                path@,
                *self,
                old(ctx).has_option(Options::IgnoreUnusedServerVariables),
            ),
            final(ctx).visited == old(ctx).visited,
            final(ctx).spec == old(ctx).spec,
            final(ctx).options == old(ctx).options,
    {
        self.validate(ctx, path);
    }
}

impl ValidateWithContext<Spec> for ServerVariable {
    open spec fn checks(
        &self,
        spec: Spec,
        options: OptionSet,
        visited: Set<Seq<char>>,
        errors: Seq<Seq<char>>,
        path: Seq<char>,
        after: (Seq<Seq<char>>, Set<Seq<char>>),
    ) -> bool {
        after == (errors + server_variable_errors(path, *self), visited)
    }

    fn validate_with_context(&self, ctx: &mut Context<'_, Spec>, path: String)
        ensures
            final(ctx).errors_view() == old(ctx).errors_view() + server_variable_errors(path@, *self),
            final(ctx).visited == old(ctx).visited,
            final(ctx).spec == old(ctx).spec,
            final(ctx).options == old(ctx).options,
    {
        self.validate(ctx, path);
    }
}

} // verus!
