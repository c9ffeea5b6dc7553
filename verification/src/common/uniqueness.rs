//! Uniqueness rules over whole lists: tag names, and path templates that
//! differ only in the names of their placeholders.
use vstd::prelude::*;
use crate::common::context::{error_line, Context};
use crate::common::model::Tag;
use crate::common::patterns::{canonical_path, canonical_template, views};
use crate::common::text::{
    concat, debug_quoted, debug_string, decimal, decimal_string, is_prefix_of, push_str, starts_with, str_equal, to_owned_string,
};

verus! {

/// How many times `x` occurs in `s`.
pub open spec fn count_of(s: Seq<Seq<char>>, x: Seq<char>) -> nat
    decreases s.len(),
{
    if s.len() == 0 {
        0
    } else {
        count_of(s.drop_last(), x) + if s.last() == x {
            1nat
        } else {
            0nat
        }
    }
}

/// The diagnostic of a tag name found `n` times.
pub open spec fn duplicate_tag_line(name: Seq<char>, n: nat) -> Seq<char> {
    error_line("#.tags"@, "duplicate tag name `"@ + name + "` (found "@ + decimal(n) + " times)"@)
}

/// The diagnostics of the names of `names` that occur more than once: one per
/// name, at its first occurrence, considering the first `k` names.
pub open spec fn duplicate_tag_errors(names: Seq<Seq<char>>, k: nat) -> Seq<Seq<char>>
    decreases k,
{
    if k == 0 || k > names.len() {
        seq![]
    } else {
        let prev = duplicate_tag_errors(names, (k - 1) as nat);
        let name = names[k - 1];
        if !names.take(k - 1).contains(name) && count_of(names, name) > 1 {
            prev.push(duplicate_tag_line(name, count_of(names, name)))
        } else {
            prev
        }
    }
}

/// The names of a tag list.
pub open spec fn tag_names(tags: Seq<Tag>) -> Seq<Seq<char>> {
    tags.map_values(|t: Tag| t.name@)
}

/// How many tags are named `name`.
fn count_name(tags: &Vec<Tag>, name: &str) -> (res: usize)
    ensures
        res == count_of(tag_names(tags@), name@),
{
    let mut n: usize = 0;
    let mut i: usize = 0;
    while i < tags.len()
        invariant
            i <= tags.len(),
            n <= i,
            n == count_of(tag_names(tags@.take(i as int)), name@),
        decreases tags.len() - i,
    {
        assert(tag_names(tags@.take(i + 1)).drop_last() =~= tag_names(tags@.take(i as int)));
        if str_equal(tags[i].name.as_str(), name) {
            n = n + 1;
        }
        i = i + 1;
    }
    assert(tags@.take(tags.len() as int) =~= tags@);
    n
}

/// Whether one of the first `k` tags is named `name`.
fn named_before(tags: &Vec<Tag>, k: usize, name: &str) -> (res: bool)
    requires
        k <= tags.len(),
    ensures
        res == tag_names(tags@).take(k as int).contains(name@),
{
    let mut i: usize = 0;
    while i < k
        invariant
            i <= k <= tags.len(),
            forall|j: int| 0 <= j < i ==> tags@[j].name@ != name@,
        decreases k - i,
    {
        if str_equal(tags[i].name.as_str(), name) {
            assert(tag_names(tags@).take(k as int)[i as int] == name@);
            return true;
        }
        i = i + 1;
    }
    proof {
        if tag_names(tags@).take(k as int).contains(name@) {
            let j = choose|j: int| 0 <= j < k && tag_names(tags@).take(k as int)[j] == name@;
            assert(tags@[j].name@ == name@);
        }
    }
    false
}

/// Validate `Spec.tags`: every tag name MUST be unique. Each name found more
/// than once is reported once, with the number of times it occurs.
pub fn validate_tag_uniqueness_in<S>(ctx: &mut Context<'_, S>, tags: &Vec<Tag>)
    ensures
        final(ctx).errors_view() == old(ctx).errors_view() + duplicate_tag_errors(
            tag_names(tags@),
            tags@.len(),
        ),
        final(ctx).visited == old(ctx).visited,
        final(ctx).spec == old(ctx).spec,
        final(ctx).options == old(ctx).options,
{
    let ghost names = tag_names(tags@);
    let mut i: usize = 0;
    assert(old(ctx).errors_view() + seq![] =~= old(ctx).errors_view());
    while i < tags.len()
        invariant
            i <= tags.len(),
            names == tag_names(tags@),
            ctx.errors_view() == old(ctx).errors_view() + duplicate_tag_errors(names, i as nat),
            ctx.visited == old(ctx).visited,
            ctx.spec == old(ctx).spec,
            ctx.options == old(ctx).options,
        decreases tags.len() - i,
    {
        let name = tags[i].name.as_str();
        assert(names[i as int] == name@);
        if !named_before(tags, i, name) {
            let n = count_name(tags, name);
            if n > 1 {
                let mut msg = concat("duplicate tag name `", name);
                push_str(&mut msg, "` (found ");
                push_str(&mut msg, decimal_string(n).as_str());
                push_str(&mut msg, " times)");
                ctx.error("#.tags", msg.as_str());
            }
        }
        i = i + 1;
    }
}

/// The `Debug` texts of the strings `items`, separated by `, `.
pub open spec fn debug_items(items: Seq<Seq<char>>) -> Seq<char>
    decreases items.len(),
{
    if items.len() == 0 {
        seq![]
    } else if items.len() == 1 {
        debug_quoted(items[0])
    } else {
        debug_items(items.drop_last()) + ", "@ + debug_quoted(items.last())
    }
}

/// std's `Debug` text of a list of strings: `[`, the `Debug` text of each
/// string separated by `, `, then `]` (as in `["a", "b"]`).
pub open spec fn debug_list(items: Seq<Seq<char>>) -> Seq<char> {
    "["@ + debug_items(items) + "]"@
}

/// The `Debug` text of a list of strings (see [`debug_list`]).
pub fn debug_string_list(items: &Vec<String>) -> (res: String)
    ensures
        res@ == debug_list(views(items@)),
{
    let mut inner = to_owned_string("");
    let mut i: usize = 0;
    proof {
        reveal_strlit("");
        assert(views(items@).take(0) =~= Seq::<Seq<char>>::empty());
    }
    while i < items.len()
        invariant
            i <= items.len(),
            inner@ == debug_items(views(items@).take(i as int)),
        decreases items.len() - i,
    {
        if i > 0 {
            push_str(&mut inner, ", ");
        }
        let q = debug_string(items[i].as_str());
        push_str(&mut inner, q.as_str());
        proof {
            let t = views(items@).take(i + 1);
            assert(t.drop_last() =~= views(items@).take(i as int));
            assert(t.last() == items@[i as int]@);
            if i == 0 {
                reveal_strlit(", ");
                assert(inner@ =~= debug_quoted(t[0]));
            } else {
                assert(inner@ =~= debug_items(t.drop_last()) + ", "@ + debug_quoted(t.last()));
            }
        }
        i = i + 1;
    }
    proof {
        assert(views(items@).take(items@.len() as int) =~= views(items@));
    }
    let mut res = to_owned_string("[");
    push_str(&mut res, inner.as_str());
    push_str(&mut res, "]");
    res
}

/// The keys that are path templates (not `x-` extensions).
pub open spec fn template_keys(keys: Seq<Seq<char>>) -> Seq<Seq<char>> {
    keys.filter(|k: Seq<char>| !is_prefix_of("x-"@, k))
}

/// The template keys whose shape is `c`, in order.
pub open spec fn same_shape(keys: Seq<Seq<char>>, c: Seq<char>) -> Seq<Seq<char>> {
    template_keys(keys).filter(|k: Seq<char>| canonical_template(k) == c)
}

/// The diagnostic of the templates `group` that share the shape `c`.
pub open spec fn equivalent_templates_line(section: Seq<char>, group: Seq<Seq<char>>, c: Seq<char>) -> Seq<char> {
    error_line(
        section,
        "templated paths "@ + debug_list(group) + " collapse to the same shape `"@ + c
            + "`; OAS forbids equivalent templates"@,
    )
}

/// The diagnostics of the shapes shared by more than one template among the
/// first `k` keys: one per shape, at the first template of that shape.
pub open spec fn equivalent_templates_errors(section: Seq<char>, keys: Seq<Seq<char>>, k: nat) -> Seq<Seq<char>>
    decreases k,
{
    if k == 0 || k > keys.len() {
        seq![]
    } else {
        let prev = equivalent_templates_errors(section, keys, (k - 1) as nat);
        let key = keys[k - 1];
        let c = canonical_template(key);
        if !is_prefix_of("x-"@, key) && same_shape(keys.take(k - 1), c).len() == 0
            && same_shape(keys, c).len() > 1 {
            prev.push(equivalent_templates_line(section, same_shape(keys, c), c))
        } else {
            prev
        }
    }
}

/// The keys of a map held as entries.
pub open spec fn entry_keys<V>(paths: Seq<(String, V)>) -> Seq<Seq<char>> {
    paths.map_values(|e: (String, V)| e.0@)
}

/// The template keys among the first `k` entries whose shape is `c`.
fn templates_of_shape<V>(paths: &Vec<(String, V)>, k: usize, c: &str) -> (res: Vec<String>)
    requires
        k <= paths.len(),
    ensures
        views(res@) == same_shape(entry_keys(paths@).take(k as int), c@),
{
    let ghost keys = entry_keys(paths@);
    let ghost p1 = |x: Seq<char>| !is_prefix_of("x-"@, x);
    let ghost p2 = |x: Seq<char>| canonical_template(x) == c@;
    let mut res: Vec<String> = Vec::new();
    let mut i: usize = 0;
    assert(keys.take(0) =~= Seq::<Seq<char>>::empty());
    assert(views(res@) =~= same_shape(keys.take(0), c@));
    while i < k
        invariant
            i <= k <= paths.len(),
            keys == entry_keys(paths@),
            p1 == (|x: Seq<char>| !is_prefix_of("x-"@, x)),
            p2 == (|x: Seq<char>| canonical_template(x) == c@),
            views(res@) == same_shape(keys.take(i as int), c@),
        decreases k - i,
    {
        let key = paths[i].0.as_str();
        let ghost t = keys.take(i as int);
        assert(keys.take(i + 1) =~= t.push(key@));
        proof {
            t.lemma_filter_push(key@, p1);
            t.filter(p1).lemma_filter_push(key@, p2);
        }
        if !starts_with(key, "x-") {
            let shape = canonical_path(key);
            if str_equal(shape.as_str(), c) {
                let ghost before = views(res@);
                res.push(paths[i].0.clone());
                assert(views(res@) =~= before.push(key@));
            }
        }
        i = i + 1;
    }
    res
}

/// Validate that no two path templates of a map collapse to the same shape
/// once their placeholders are blanked (`/pets/{id}` and `/pets/{name}` are
/// equivalent). `x-` extension keys are skipped. Each shared shape is reported
/// once, listing its templates in key order.
pub fn validate_path_template_uniqueness_in<S, V>(
    ctx: &mut Context<'_, S>,
    section: &str,
    paths: &Vec<(String, V)>,
)
    ensures
        final(ctx).errors_view() == old(ctx).errors_view() + equivalent_templates_errors(
            section@,
            entry_keys(paths@),
            paths@.len(),
        ),
        final(ctx).visited == old(ctx).visited,
        final(ctx).spec == old(ctx).spec,
        final(ctx).options == old(ctx).options,
{
    let ghost keys = entry_keys(paths@);
    let mut i: usize = 0;
    assert(old(ctx).errors_view() + seq![] =~= old(ctx).errors_view());
    while i < paths.len()
        invariant
            i <= paths.len(),
            keys == entry_keys(paths@),
            ctx.errors_view() == old(ctx).errors_view() + equivalent_templates_errors(section@, keys, i as nat),
            ctx.visited == old(ctx).visited,
            ctx.spec == old(ctx).spec,
            ctx.options == old(ctx).options,
        decreases paths.len() - i,
    {
        let key = paths[i].0.as_str();
        assert(keys[i as int] == key@);
        assert(keys.take(i as int) == entry_keys(paths@).take(i as int));
        if !starts_with(key, "x-") {
            let shape = canonical_path(key);
            let earlier = templates_of_shape(paths, i, shape.as_str());
            if earlier.len() == 0 {
                let group = templates_of_shape(paths, paths.len(), shape.as_str());
                assert(keys.take(paths.len() as int) =~= keys);
                if group.len() > 1 {
                    let mut msg = concat("templated paths ", debug_string_list(&group).as_str());
                    push_str(&mut msg, " collapse to the same shape `");
                    push_str(&mut msg, shape.as_str());
                    push_str(&mut msg, "`; OAS forbids equivalent templates");
                    ctx.error(section, msg.as_str());
                }
            }
        }
        i = i + 1;
    }
}

/// An element that occurs at `i` is counted.
proof fn lemma_count_at(s: Seq<Seq<char>>, x: Seq<char>, i: int)
    requires
        0 <= i < s.len(),
        s[i] == x,
    ensures
        count_of(s, x) >= 1,
    decreases s.len(),
{
    if i < s.len() - 1 {
        lemma_count_at(s.drop_last(), x, i);
    }
}

/// An element that occurs at two places is counted twice.
proof fn lemma_count_twice(s: Seq<Seq<char>>, x: Seq<char>, i: int, j: int)
    requires
        0 <= i < j < s.len(),
        s[i] == x,
        s[j] == x,
    ensures
        count_of(s, x) >= 2,
    decreases s.len(),
{
    if j < s.len() - 1 {
        lemma_count_twice(s.drop_last(), x, i, j);
    } else {
        lemma_count_at(s.drop_last(), x, i);
    }
}

/// In a list without repeats, nothing is counted twice.
proof fn lemma_count_distinct(s: Seq<Seq<char>>, x: Seq<char>)
    requires
        forall|i: int, j: int| 0 <= i < j < s.len() ==> s[i] != s[j],
    ensures
        count_of(s, x) <= 1,
    decreases s.len(),
{
    if s.len() > 0 {
        let init = s.drop_last();
        lemma_count_distinct(init, x);
        if s.last() == x && count_of(init, x) >= 1 {
            lemma_count_positive(init, x);
            let i = choose|i: int| 0 <= i < init.len() && init[i] == x;
            assert(s[i] == s[s.len() - 1]);
        }
    }
}

/// A counted element occurs somewhere.
proof fn lemma_count_positive(s: Seq<Seq<char>>, x: Seq<char>)
    requires
        count_of(s, x) >= 1,
    ensures
        exists|i: int| 0 <= i < s.len() && s[i] == x,
    decreases s.len(),
{
    if s.last() == x {
        assert(s[s.len() - 1] == x);
    } else {
        lemma_count_positive(s.drop_last(), x);
        let i = choose|i: int| 0 <= i < s.drop_last().len() && s.drop_last()[i] == x;
        assert(s[i] == x);
    }
}

/// The diagnostics of the first `k` names come first among those of the
/// first `m` names.
proof fn lemma_duplicates_grow(names: Seq<Seq<char>>, k: nat, m: nat)
    requires
        k <= m <= names.len(),
    ensures
        duplicate_tag_errors(names, k).is_prefix_of(duplicate_tag_errors(names, m)),
    decreases m,
{
    if m > k {
        lemma_duplicates_grow(names, k, (m - 1) as nat);
    }
}

/// A list of tags draws a duplicate-name diagnostic exactly when two of its
/// tags share a name.
pub proof fn law_duplicate_tags_iff_shared_name(names: Seq<Seq<char>>)
    ensures
        duplicate_tag_errors(names, names.len()).len() == 0 <==> forall|i: int, j: int|
            0 <= i < j < names.len() ==> names[i] != names[j],
{
    if forall|i: int, j: int| 0 <= i < j < names.len() ==> names[i] != names[j] {
        lemma_no_duplicates(names, names.len());
    } else {
        let (i, j) = choose|i: int, j: int| 0 <= i < j < names.len() && names[i] == names[j];
        let x = names[i];
        lemma_first_occurrence(names, x, i);
        let f = choose|f: int| 0 <= f < names.len() && names[f] == x && forall|g: int| 0 <= g < f ==> names[g] != x;
        lemma_count_twice(names, x, i, j);
        assert(!names.take(f).contains(x));
        assert(duplicate_tag_errors(names, (f + 1) as nat).len() > 0);
        lemma_duplicates_grow(names, (f + 1) as nat, names.len());
    }
}

/// Without shared names, the first `k` names draw no diagnostic.
proof fn lemma_no_duplicates(names: Seq<Seq<char>>, k: nat)
    requires
        k <= names.len(),
        forall|i: int, j: int| 0 <= i < j < names.len() ==> names[i] != names[j],
    ensures
        duplicate_tag_errors(names, k).len() == 0,
    decreases k,
{
    if k > 0 {
        lemma_no_duplicates(names, (k - 1) as nat);
        lemma_count_distinct(names, names[k - 1]);
    }
}

/// A name that occurs has a first occurrence.
proof fn lemma_first_occurrence(names: Seq<Seq<char>>, x: Seq<char>, i: int)
    requires
        0 <= i < names.len(),
        names[i] == x,
    ensures
        exists|f: int| 0 <= f < names.len() && names[f] == x && forall|g: int| 0 <= g < f ==> names[g] != x,
    decreases i,
{
    if exists|g: int| 0 <= g < i && names[g] == x {
        let g = choose|g: int| 0 <= g < i && names[g] == x;
        lemma_first_occurrence(names, x, g);
    } else {
        assert(forall|g: int| 0 <= g < i ==> names[g] != x);
    }
}

} // verus!
