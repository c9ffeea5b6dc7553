//! The sections of a Components object: each entry is reported unused when
//! nothing referenced it before its check, and when its name is not a valid
//! component name, then checked itself.
use vstd::prelude::*;
use crate::common::checks::{component_name_errors, report_unused, unused_errors, validate_component_name};
use crate::common::context::{error_line, Context, OptionSet, Options, ValidateWithContext};
use crate::common::patterns::is_component_name;
use crate::common::text::is_prefix_of;
use crate::common::text::{concat, push_str};

verus! {

/// What checking one entry `(name, obj)` of a section does to a pass that
/// had visited `vis` and reported `errs`: the entry is reported unused when
/// its marker `<prefix><name>` is not visited at that point and the switch
/// `option` is off; its name is reported when it is not a valid component
/// name (at `<path>.<section>[<name>]`); then the entry itself is checked at
/// `<path>.<section>[<name>]`, as its type's `checks` says.
pub open spec fn entry_checks<S, V: ValidateWithContext<S>>(
    spec: S,
    options: OptionSet,
    vis: Set<Seq<char>>,
    errs: Seq<Seq<char>>,
    name: Seq<char>,
    obj: V,
    prefix: Seq<char>,
    section: Seq<char>,
    path: Seq<char>,
    option: Options,
    after: (Seq<Seq<char>>, Set<Seq<char>>),
) -> bool {
    let head = errs + entry_head_errors(options, vis, name, prefix, section, path, option);
    obj.checks(spec, options, vis, head, path + "."@ + section + "["@ + name + "]"@, after)
}

/// The diagnostics of an entry's use and name (see [`entry_checks`]).
pub open spec fn entry_head_errors(
    options: OptionSet,
    vis: Set<Seq<char>>,
    name: Seq<char>,
    prefix: Seq<char>,
    section: Seq<char>,
    path: Seq<char>,
    option: Options,
) -> Seq<Seq<char>> {
    unused_errors(prefix + name, vis, options.has(option)) + component_name_errors(
        path + "."@ + section + "[<name>]"@,
        name,
    )
}

/// A component entry's own diagnostics, which come before its check: the
/// entry is reported `unused` exactly when its marker `<prefix><name>` was not
/// visited before its check and the section's switch is off, and its name is
/// reported, at `<path>.<section>[<name>]`, exactly when it does not match
/// `^[a-zA-Z0-9.\-_]+$`.
pub proof fn law_component_entry_diagnostics(
    options: OptionSet,
    vis: Set<Seq<char>>,
    name: Seq<char>,
    prefix: Seq<char>,
    section: Seq<char>,
    path: Seq<char>,
    option: Options,
)
    ensures
        entry_head_errors(options, vis, name, prefix, section, path, option).contains(
            error_line(prefix + name, "unused"@),
        ) <==> (!vis.contains(prefix + name) && !options.has(option)),
        entry_head_errors(options, vis, name, prefix, section, path, option).contains(
            error_line(
                path + "."@ + section + "[<name>]"@,
                "must match pattern `^[a-zA-Z0-9.\\-_]+$`, found `"@ + name + "`"@,
            ),
        ) <==> !is_component_name(name),
{
    let u = error_line(prefix + name, "unused"@);
    let msg = "must match pattern `^[a-zA-Z0-9.\\-_]+$`, found `"@ + name + "`"@;
    let n = error_line(path + "."@ + section + "[<name>]"@, msg);
    reveal_strlit("unused");
    reveal_strlit(".");
    reveal_strlit("`");
    reveal_strlit(": ");
    reveal_strlit("must match pattern `^[a-zA-Z0-9.\\-_]+$`, found `");
    assert(!is_prefix_of("."@, "unused"@)) by {
        assert("unused"@.subrange(0, 1)[0] == 'u');
    }
    assert(!is_prefix_of("."@, msg)) by {
        assert(msg.subrange(0, 1)[0] == 'm');
    }
    assert(u.last() == 'd');
    assert(n.last() == '`');
    assert(u != n);
    let head = entry_head_errors(options, vis, name, prefix, section, path, option);
    let a = unused_errors(prefix + name, vis, options.has(option));
    let b = component_name_errors(path + "."@ + section + "[<name>]"@, name);
    assert(head == a + b);
    if head.contains(u) {
        let k = choose|k: int| 0 <= k < head.len() && head[k] == u;
        if k >= a.len() {
            assert(b[k - a.len()] == u);
        }
    }
    if !vis.contains(prefix + name) && !options.has(option) {
        assert(head[0] == u);
    }
    if head.contains(n) {
        let k = choose|k: int| 0 <= k < head.len() && head[k] == n;
        if k < a.len() {
            assert(a[k] == n);
        }
    }
    if !is_component_name(name) {
        assert(head[a.len() as int] == n);
    }
}

/// `trace` holds the states of a pass between the first `n` entries of a
/// section: `trace[k + 1]` follows from `trace[k]` by checking entry `k`, as
/// [`entry_checks`] says.
pub open spec fn section_trace<S, V: ValidateWithContext<S>>(
    spec: S,
    options: OptionSet,
    entries: Seq<(String, V)>,
    n: nat,
    prefix: Seq<char>,
    section: Seq<char>,
    path: Seq<char>,
    option: Options,
    trace: Seq<(Seq<Seq<char>>, Set<Seq<char>>)>,
) -> bool {
    &&& n <= entries.len()
    &&& trace.len() == n + 1
    &&& forall|k: int| #![trigger trace[k + 1]]
        0 <= k < n ==> entry_checks(
            spec,
            options,
            trace[k].1,
            trace[k].0,
            entries[k].0@,
            entries[k].1,
            prefix,
            section,
            path,
            option,
            trace[k + 1],
        )
}

/// What checking the entries of a section does to a pass that had visited
/// `vis` and reported `errs`: each entry in turn, as [`entry_checks`] says,
/// from the state the entries before it left.
pub open spec fn section_checks<S, V: ValidateWithContext<S>>(
    spec: S,
    options: OptionSet,
    vis: Set<Seq<char>>,
    errs: Seq<Seq<char>>,
    entries: Seq<(String, V)>,
    prefix: Seq<char>,
    section: Seq<char>,
    path: Seq<char>,
    option: Options,
    after: (Seq<Seq<char>>, Set<Seq<char>>),
) -> bool {
    exists|trace: Seq<(Seq<Seq<char>>, Set<Seq<char>>)>|
        #[trigger] section_trace(spec, options, entries, entries.len(), prefix, section, path, option, trace)
            && trace[0] == (errs, vis) && trace[entries.len() as int] == after
}

/// [`section_checks`] of an optional section, over all its entries.
pub open spec fn opt_section_checks<S, V: ValidateWithContext<S>>(
    spec: S,
    options: OptionSet,
    vis: Set<Seq<char>>,
    errs: Seq<Seq<char>>,
    entries: Option<Vec<(String, V)>>,
    prefix: Seq<char>,
    section: Seq<char>,
    path: Seq<char>,
    option: Options,
    after: (Seq<Seq<char>>, Set<Seq<char>>),
) -> bool {
    match entries {
        None => after == (errs, vis),
        Some(es) => section_checks(spec, options, vis, errs, es@, prefix, section, path, option, after),
    }
}

/// `extends` chains.
pub proof fn lemma_extends_chain<S>(a: Context<'_, S>, b: Context<'_, S>, c: Context<'_, S>)
    requires
        b.extends(&a),
        c.extends(&b),
    ensures
        c.extends(&a),
{
    assert(a.errors_view().is_prefix_of(c.errors_view())) by {
        assert forall|i: int| 0 <= i < a.errors_view().len() implies a.errors_view()[i] == c.errors_view()[i] by {
            assert(b.errors_view()[i] == a.errors_view()[i]);
        }
    }
}

/// The diagnostics of the first `n` entries of a section whose entries are
/// checked by name only: each name's use and validity (see
/// [`entry_head_errors`]).
pub open spec fn entry_names_errors<V>(
    options: OptionSet,
    vis: Set<Seq<char>>,
    entries: Seq<(String, V)>,
    n: nat,
    prefix: Seq<char>,
    section: Seq<char>,
    path: Seq<char>,
    option: Options,
) -> Seq<Seq<char>>
    decreases n,
{
    if n == 0 || n > entries.len() {
        seq![]
    } else {
        entry_names_errors(options, vis, entries, (n - 1) as nat, prefix, section, path, option) + entry_head_errors(
            options,
            vis,
            entries[n - 1].0@,
            prefix,
            section,
            path,
            option,
        )
    }
}

/// [`entry_names_errors`] of an optional section.
pub open spec fn opt_entry_names_errors<V>(
    options: OptionSet,
    vis: Set<Seq<char>>,
    entries: Option<Vec<(String, V)>>,
    prefix: Seq<char>,
    section: Seq<char>,
    path: Seq<char>,
    option: Options,
) -> Seq<Seq<char>> {
    match entries {
        None => seq![],
        Some(es) => entry_names_errors(options, vis, es@, es@.len(), prefix, section, path, option),
    }
}

/// Checks the names and use of the entries of an optional section whose
/// entries are checked by name only.
pub fn check_opt_entry_names<S, V>(
    ctx: &mut Context<'_, S>,
    entries: &Option<Vec<(String, V)>>,
    prefix: &str,
    section: &str,
    path: &str,
    option: Options,
)
    ensures
        final(ctx).errors_view() == old(ctx).errors_view() + opt_entry_names_errors(
            old(ctx).options,
            old(ctx).visited_set(),
            *entries,
            prefix@,
            section@,
            path@,
            option,
        ),
        final(ctx).visited == old(ctx).visited,
        final(ctx).spec == old(ctx).spec,
        final(ctx).options == old(ctx).options,
{
    let ghost e0 = old(ctx).errors_view();
    let ghost opts = old(ctx).options;
    let ghost vis = old(ctx).visited_set();
    if let Some(v) = entries {
        assert(e0 =~= e0 + entry_names_errors(opts, vis, v@, 0, prefix@, section@, path@, option));
        let mut i: usize = 0;
        while i < v.len()
            invariant
                i <= v.len(),
                *entries == Some(*v),
                opts == old(ctx).options,
                vis == old(ctx).visited_set(),
                ctx.visited == old(ctx).visited,
                ctx.spec == old(ctx).spec,
                ctx.options == old(ctx).options,
                ctx.errors_view() == e0 + entry_names_errors(opts, vis, v@, i as nat, prefix@, section@, path@, option),
            decreases v.len() - i,
        {
            check_entry_head(ctx, v[i].0.as_str(), prefix, section, path, option);
            assert(ctx.errors_view() =~= e0 + entry_names_errors(opts, vis, v@, (i + 1) as nat, prefix@, section@, path@, option));
            i = i + 1;
        }
    } else {
        assert(e0 =~= e0 + Seq::<Seq<char>>::empty());
    }
}

/// Checks the use and the name of one entry (see [`entry_head_errors`]).
pub fn check_entry_head<S>(ctx: &mut Context<'_, S>, name: &str, prefix: &str, section: &str, path: &str, option: Options)
    ensures
        final(ctx).errors_view() == old(ctx).errors_view() + entry_head_errors(
            old(ctx).options,
            old(ctx).visited_set(),
            name@,
            prefix@,
            section@,
            path@,
            option,
        ),
        final(ctx).visited == old(ctx).visited,
        final(ctx).spec == old(ctx).spec,
        final(ctx).options == old(ctx).options,
{
    let marker = concat(prefix, name);
    report_unused(ctx, marker.as_str(), option);
    let mut p = concat(path, ".");
    push_str(&mut p, section);
    push_str(&mut p, "[<name>]");
    validate_component_name(ctx, name, p.as_str());
    assert(ctx.errors_view() =~= old(ctx).errors_view() + entry_head_errors(
        old(ctx).options,
        old(ctx).visited_set(),
        name@,
        prefix@,
        section@,
        path@,
        option,
    ));
}

/// Checks one section of the components: each entry's use and name, then
/// the entry itself, found at `<path>.<section>[<name>]`.
pub fn check_section<S, V: ValidateWithContext<S>>(
    ctx: &mut Context<'_, S>,
    entries: &Vec<(String, V)>,
    prefix: &str,
    section: &str,
    path: &str,
    option: Options,
)
    ensures
        final(ctx).extends(old(ctx)),
        section_checks(
            *old(ctx).spec,
            old(ctx).options,
            old(ctx).visited_set(),
            old(ctx).errors_view(),
            entries@,
            prefix@,
            section@,
            path@,
            option,
            (final(ctx).errors_view(), final(ctx).visited_set()),
        ),
{
    let ghost spec = *old(ctx).spec;
    let ghost opts = old(ctx).options;
    let ghost mut trace: Seq<(Seq<Seq<char>>, Set<Seq<char>>)> = seq![(old(ctx).errors_view(), old(ctx).visited_set())];
    let mut i: usize = 0;
    while i < entries.len()
        invariant
            i <= entries.len(),
            spec == *old(ctx).spec,
            opts == old(ctx).options,
            ctx.extends(old(ctx)),
            section_trace(spec, opts, entries@, i as nat, prefix@, section@, path@, option, trace),
            trace[0] == (old(ctx).errors_view(), old(ctx).visited_set()),
            trace[i as int] == (ctx.errors_view(), ctx.visited_set()),
        decreases entries.len() - i,
    {
        let (name, obj) = &entries[i];
        let ghost c0 = *ctx;
        check_entry_head(ctx, name.as_str(), prefix, section, path, option);
        let ghost c1 = *ctx;
        let mut p = concat(path, ".");
        push_str(&mut p, section);
        push_str(&mut p, "[");
        push_str(&mut p, name.as_str());
        push_str(&mut p, "]");
        obj.validate_with_context(ctx, p);
        proof {
            lemma_extends_chain(c0, c1, *ctx);
            lemma_extends_chain(*old(ctx), c0, *ctx);
            let next = (ctx.errors_view(), ctx.visited_set());
            assert(entry_checks(spec, opts, c0.visited_set(), c0.errors_view(), entries@[i as int].0@, entries@[i as int].1, prefix@, section@, path@, option, next));
            let old_trace = trace;
            trace = trace.push(next);
            assert forall|k: int| #![trigger trace[k + 1]]
                0 <= k < i + 1 implies entry_checks(
                    spec,
                    opts,
                    trace[k].1,
                    trace[k].0,
                    entries@[k].0@,
                    entries@[k].1,
                    prefix@,
                    section@,
                    path@,
                    option,
                    trace[k + 1],
                ) by {
                if k < i {
                    assert(trace[k] == old_trace[k]);
                    assert(trace[k + 1] == old_trace[k + 1]);
                    assert(old_trace[k + 1] == old_trace[k + 1]);
                }
            }
        }
        i = i + 1;
    }
    assert(section_trace(spec, opts, entries@, entries@.len(), prefix@, section@, path@, option, trace));
}

/// Checks an optional section held as entries; see [`check_section`].
pub fn check_opt_section<S, V: ValidateWithContext<S>>(
    ctx: &mut Context<'_, S>,
    entries: &Option<Vec<(String, V)>>,
    prefix: &str,
    section: &str,
    path: &str,
    option: Options,
)
    ensures
        final(ctx).extends(old(ctx)),
        opt_section_checks(
            *old(ctx).spec,
            old(ctx).options,
            old(ctx).visited_set(),
            old(ctx).errors_view(),
            *entries,
            prefix@,
            section@,
            path@,
            option,
            (final(ctx).errors_view(), final(ctx).visited_set()),
        ),
{
    match entries {
        Some(es) => check_section(ctx, es, prefix, section, path, option),
        None => {},
    }
}

} // verus!
