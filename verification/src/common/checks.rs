//! Checks shared by many objects: required strings, component names and
//! components that nothing references.
use vstd::prelude::*;
use crate::common::context::{error_line, Context, Options};
use crate::common::patterns::{component_name_matches, is_component_name};
use crate::common::text::{concat, push_str};

verus! {

/// The diagnostic of a required string `s` found at `path`, if it is empty.
pub open spec fn required_string_errors(path: Seq<char>, s: Seq<char>) -> Seq<Seq<char>> {
    if s.len() == 0 {
        seq![error_line(path, "must not be empty"@)]
    } else {
        seq![]
    }
}

/// A required string is reported, once, exactly when it is empty.
pub proof fn law_required_string(path: Seq<char>, s: Seq<char>)
    ensures
        required_string_errors(path, s).len() > 0 <==> s.len() == 0,
        required_string_errors(path, s).len() <= 1,
{
}

/// Reports the required string `s` found at `path` if it is empty.
pub fn validate_required_string<S>(ctx: &mut Context<'_, S>, s: &str, path: &str)
    ensures
        final(ctx).errors_view() == old(ctx).errors_view() + required_string_errors(path@, s@),
        final(ctx).visited == old(ctx).visited,
        final(ctx).spec == old(ctx).spec,
        final(ctx).options == old(ctx).options,
{
    if s.is_empty() {
        ctx.error(path, "must not be empty");
    } else {
        assert(ctx.errors_view() + Seq::<Seq<char>>::empty() =~= ctx.errors_view());
    }
}

/// The diagnostic of a component name that does not match
/// `^[a-zA-Z0-9.\-_]+$`, reported at `path`.
pub open spec fn component_name_errors(path: Seq<char>, name: Seq<char>) -> Seq<Seq<char>> {
    if is_component_name(name) {
        seq![]
    } else {
        seq![error_line(path, "must match pattern `^[a-zA-Z0-9.\\-_]+$`, found `"@ + name + "`"@)]
    }
}

/// Reports the component name `name` at `path` unless it matches
/// `^[a-zA-Z0-9.\-_]+$`.
pub fn validate_component_name<S>(ctx: &mut Context<'_, S>, name: &str, path: &str)
    ensures
        final(ctx).errors_view() == old(ctx).errors_view() + component_name_errors(path@, name@),
        final(ctx).visited == old(ctx).visited,
        final(ctx).spec == old(ctx).spec,
        final(ctx).options == old(ctx).options,
{
    if !component_name_matches(name) {
        let mut m = concat("must match pattern `^[a-zA-Z0-9.\\-_]+$`, found `", name);
        push_str(&mut m, "`");
        ctx.error(path, m.as_str());
    } else {
        assert(ctx.errors_view() + Seq::<Seq<char>>::empty() =~= ctx.errors_view());
    }
}

/// The diagnostic of a component whose marker `marker` nothing visited,
/// unless `ignore` is on.
pub open spec fn unused_errors(marker: Seq<char>, visited: Set<Seq<char>>, ignore: bool) -> Seq<Seq<char>> {
    if !visited.contains(marker) && !ignore {
        seq![error_line(marker, "unused"@)]
    } else {
        seq![]
    }
}

/// A marker is reported `unused`, once, exactly when it was not visited and
/// the switch is off.
pub proof fn law_unused(marker: Seq<char>, visited: Set<Seq<char>>, ignore: bool)
    ensures
        unused_errors(marker, visited, ignore).len() > 0 <==> (!visited.contains(marker) && !ignore),
        unused_errors(marker, visited, ignore).len() <= 1,
{
}

/// Reports the component `marker` as unused unless a reference to it was
/// visited or the switch `option` is on.
pub fn report_unused<S>(ctx: &mut Context<'_, S>, marker: &str, option: Options)
    ensures
        final(ctx).errors_view() == old(ctx).errors_view() + unused_errors(
            marker@,
            old(ctx).visited_set(),
            old(ctx).has_option(option),
        ),
        final(ctx).visited == old(ctx).visited,
        final(ctx).spec == old(ctx).spec,
        final(ctx).options == old(ctx).options,
{
    if !ctx.is_visited(marker) && !ctx.is_option(option) {
        ctx.error(marker, "unused");
    } else {
        assert(ctx.errors_view() + Seq::<Seq<char>>::empty() =~= ctx.errors_view());
    }
}


/// A character that may follow the first letter of a URI scheme.
pub open spec fn is_scheme_char(c: char) -> bool {
    ('a' <= c && c <= 'z') || ('A' <= c && c <= 'Z') || ('0' <= c && c <= '9') || c == '+' || c == '-'
        || c == '.'
}

/// `u` is a URL: it starts with a scheme (a letter, then letters, digits,
/// `+`, `-` or `.`) followed by `:`.
pub open spec fn is_url(u: Seq<char>) -> bool {
    exists|k: int| #![trigger u[k]]
        1 <= k < u.len() && u[k] == ':' && (('a' <= u[0] && u[0] <= 'z') || ('A' <= u[0] && u[0] <= 'Z'))
            && forall|j: int| 0 < j < k ==> is_scheme_char(#[trigger] u[j])
}

/// Whether `u` is a URL (see [`is_url`]).
pub fn url_is_valid(u: &str) -> (res: bool)
    ensures
        res == is_url(u@),
{
    let cs = crate::common::text::chars_of(u);
    if cs.len() == 0 {
        return false;
    }
    let c0 = cs[0];
    if !(('a' <= c0 && c0 <= 'z') || ('A' <= c0 && c0 <= 'Z')) {
        return false;
    }
    let mut i: usize = 1;
    while i < cs.len()
        invariant
            1 <= i <= cs.len(),
            cs@ == u@,
            ('a' <= cs@[0] && cs@[0] <= 'z') || ('A' <= cs@[0] && cs@[0] <= 'Z'),
            forall|j: int| 0 < j < i ==> is_scheme_char(#[trigger] cs@[j]),
        decreases cs.len() - i,
    {
        let c = cs[i];
        if c == ':' {
            assert(u@[i as int] == ':');
            return true;
        }
        if !(('a' <= c && c <= 'z') || ('A' <= c && c <= 'Z') || ('0' <= c && c <= '9') || c == '+' || c == '-'
            || c == '.') {
            proof {
                if is_url(u@) {
                    let k = choose|k: int| #![trigger u@[k]]
                        1 <= k < u@.len() && u@[k] == ':' && (('a' <= u@[0] && u@[0] <= 'z') || ('A' <= u@[0] && u@[0] <= 'Z'))
                            && forall|j: int| 0 < j < k ==> is_scheme_char(#[trigger] u@[j]);
                    if k > i {
                        assert(is_scheme_char(u@[i as int]));
                    }
                }
            }
            return false;
        }
        i = i + 1;
    }
    false
}

/// The diagnostic of a URL `u` found at `path` that is not well formed,
/// unless `ignore_invalid` is on.
pub open spec fn url_errors(path: Seq<char>, u: Seq<char>, ignore_invalid: bool) -> Seq<Seq<char>> {
    if ignore_invalid || is_url(u) {
        seq![]
    } else {
        seq![error_line(path, "must be a valid URL, found `"@ + u + "`"@)]
    }
}

/// A URL is reported, once, exactly when it is not well formed and
/// `IgnoreInvalidUrls` is off. Text with no `:` is never a URL; text that
/// starts with `http://` or `https://` always is.
pub proof fn law_url_shapes(path: Seq<char>, u: Seq<char>, ignore_invalid: bool)
    ensures
        url_errors(path, u, ignore_invalid).len() > 0 <==> (!ignore_invalid && !is_url(u)),
        url_errors(path, u, ignore_invalid).len() <= 1,
        (forall|i: int| 0 <= i < u.len() ==> #[trigger] u[i] != ':') ==> !is_url(u),
        (u.len() >= 7 && u.subrange(0, 7) =~= seq!['h', 't', 't', 'p', ':', '/', '/']) ==> is_url(u),
        (u.len() >= 8 && u.subrange(0, 8) =~= seq!['h', 't', 't', 'p', 's', ':', '/', '/']) ==> is_url(u),
{
    if u.len() >= 7 && u.subrange(0, 7) =~= seq!['h', 't', 't', 'p', ':', '/', '/'] {
        assert(u[4] == u.subrange(0, 7)[4]);
        assert forall|j: int| 0 < j < 4 implies is_scheme_char(#[trigger] u[j]) by {
            assert(u[j] == u.subrange(0, 7)[j]);
        }
    }
    if u.len() >= 8 && u.subrange(0, 8) =~= seq!['h', 't', 't', 'p', 's', ':', '/', '/'] {
        assert(u[5] == u.subrange(0, 8)[5]);
        assert forall|j: int| 0 < j < 5 implies is_scheme_char(#[trigger] u[j]) by {
            assert(u[j] == u.subrange(0, 8)[j]);
        }
    }
}

/// Reports the URL `u` found at `path` unless it is well formed or
/// `IgnoreInvalidUrls` is on.
pub fn validate_url<S>(ctx: &mut Context<'_, S>, u: &str, path: &str)
    ensures
        final(ctx).errors_view() == old(ctx).errors_view() + url_errors(
            path@,
            u@,
            old(ctx).has_option(Options::IgnoreInvalidUrls),
        ),
        final(ctx).visited == old(ctx).visited,
        final(ctx).spec == old(ctx).spec,
        final(ctx).options == old(ctx).options,
{
    if !ctx.is_option(Options::IgnoreInvalidUrls) && !url_is_valid(u) {
        let mut m = concat("must be a valid URL, found `", u);
        push_str(&mut m, "`");
        ctx.error(path, m.as_str());
    } else {
        assert(ctx.errors_view() + Seq::<Seq<char>>::empty() =~= ctx.errors_view());
    }
}

/// The diagnostics of an optional URL found at `path`.
pub open spec fn optional_url_errors(path: Seq<char>, u: Option<Seq<char>>, ignore_invalid: bool) -> Seq<Seq<char>> {
    match u {
        None => seq![],
        Some(u) => url_errors(path, u, ignore_invalid),
    }
}

/// Reports the optional URL `u` found at `path` if it is given and not well formed.
pub fn validate_optional_url<S>(ctx: &mut Context<'_, S>, u: &Option<String>, path: &str)
    ensures
        final(ctx).errors_view() == old(ctx).errors_view() + optional_url_errors(
            path@,
            match u { Some(x) => Some(x@), None => None },
            old(ctx).has_option(Options::IgnoreInvalidUrls),
        ),
        final(ctx).visited == old(ctx).visited,
        final(ctx).spec == old(ctx).spec,
        final(ctx).options == old(ctx).options,
{
    match u {
        Some(x) => validate_url(ctx, x.as_str(), path),
        None => {
            assert(ctx.errors_view() + Seq::<Seq<char>>::empty() =~= ctx.errors_view());
        },
    }
}

/// The diagnostics of a required URL found at `path`: empty (unless
/// `IgnoreEmptyExternalDocumentationUrl`) or not well formed.
pub open spec fn required_url_errors(path: Seq<char>, u: Seq<char>, ignore_empty: bool, ignore_invalid: bool) -> Seq<Seq<char>> {
    if u.len() == 0 {
        if ignore_empty {
            seq![]
        } else {
            seq![error_line(path, "must not be empty"@)]
        }
    } else {
        url_errors(path, u, ignore_invalid)
    }
}

/// Reports the required URL `u` found at `path` if it is empty or not well formed.
pub fn validate_required_url<S>(ctx: &mut Context<'_, S>, u: &str, path: &str)
    ensures
        final(ctx).errors_view() == old(ctx).errors_view() + required_url_errors(
            path@,
            u@,
            old(ctx).has_option(Options::IgnoreEmptyExternalDocumentationUrl),
            old(ctx).has_option(Options::IgnoreInvalidUrls),
        ),
        final(ctx).visited == old(ctx).visited,
        final(ctx).spec == old(ctx).spec,
        final(ctx).options == old(ctx).options,
{
    if u.is_empty() {
        if !ctx.is_option(Options::IgnoreEmptyExternalDocumentationUrl) {
            ctx.error(path, "must not be empty");
        } else {
            assert(ctx.errors_view() + Seq::<Seq<char>>::empty() =~= ctx.errors_view());
        }
    } else {
        validate_url(ctx, u, path);
    }
}


/// `e` is an email address: one `@`, with text before and after it, and no
/// space.
pub open spec fn is_email(e: Seq<char>) -> bool {
    &&& exists|k: int| #![trigger e[k]] 0 < k < e.len() - 1 && e[k] == '@'
    &&& forall|i: int, j: int| 0 <= i < e.len() && 0 <= j < e.len() && e[i] == '@' && e[j] == '@' ==> i == j
    &&& forall|i: int| 0 <= i < e.len() ==> #[trigger] e[i] != ' '
}

/// Whether `e` is an email address (see [`is_email`]).
pub fn email_is_valid(e: &str) -> (res: bool)
    ensures
        res == is_email(e@),
{
    let cs = crate::common::text::chars_of(e);
    let mut at: usize = cs.len();
    let mut i: usize = 0;
    while i < cs.len()
        invariant
            i <= cs.len(),
            at <= cs.len(),
            cs@ == e@,
            forall|j: int| 0 <= j < i ==> cs@[j] != ' ',
            at == cs.len() ==> forall|j: int| 0 <= j < i ==> cs@[j] != '@',
            at < cs.len() ==> at < i && cs@[at as int] == '@' && forall|j: int| 0 <= j < i && cs@[j] == '@' ==> j == at,
        decreases cs.len() - i,
    {
        let c = cs[i];
        if c == ' ' {
            assert(!(forall|j: int| 0 <= j < e@.len() ==> #[trigger] e@[j] != ' ')) by {
                assert(e@[i as int] == ' ');
            }
            return false;
        }
        if c == '@' {
            if at < cs.len() {
                assert(e@[at as int] == '@' && e@[i as int] == '@');
                return false;
            }
            at = i;
            assert forall|j: int| 0 <= j < i + 1 && cs@[j] == '@' implies j == at by {
                if j < i {
                    assert(cs@[j] != '@');
                }
            }
        }
        i = i + 1;
    }
    if at == cs.len() || at == 0 || at + 1 == cs.len() {
        proof {
            if is_email(e@) {
                let k = choose|k: int| #![trigger e@[k]] 0 < k < e@.len() - 1 && e@[k] == '@';
                if at < cs.len() {
                    assert(k == at);
                }
            }
        }
        return false;
    }
    assert(e@[at as int] == '@');
    true
}

/// The diagnostic of an optional email address found at `path` that is not
/// well formed.
pub open spec fn email_errors(path: Seq<char>, e: Option<Seq<char>>) -> Seq<Seq<char>> {
    match e {
        Some(e) => if is_email(e) {
            seq![]
        } else {
            seq![error_line(path, "must be a valid email address, found `"@ + e + "`"@)]
        },
        None => seq![],
    }
}

/// An email address is reported, once, exactly when it is given and not well
/// formed. An address is well formed exactly when it is `<local>@<domain>`
/// with both parts non-empty, one `@` in all, and no space.
pub proof fn law_email_shapes(path: Seq<char>, e: Option<Seq<char>>, local: Seq<char>, domain: Seq<char>)
    ensures
        email_errors(path, e).len() > 0 <==> (e is Some && !is_email(e->0)),
        email_errors(path, e).len() <= 1,
        (local.len() > 0 && domain.len() > 0 && !local.contains('@') && !domain.contains('@') && !local.contains(' ')
            && !domain.contains(' ')) ==> is_email(local + seq!['@'] + domain),
        e matches Some(t) ==> (!t.contains('@') ==> !is_email(t)),
        e matches Some(t) ==> (t.contains(' ') ==> !is_email(t)),
{
    let a = local + seq!['@'] + domain;
    if local.len() > 0 && domain.len() > 0 && !local.contains('@') && !domain.contains('@') && !local.contains(' ')
        && !domain.contains(' ') {
        let k = local.len() as int;
        assert(a[k] == '@');
        assert forall|i: int, j: int| 0 <= i < a.len() && 0 <= j < a.len() && a[i] == '@' && a[j] == '@' implies i == j by {
            if i < k {
                assert(local[i] == a[i]);
            }
            if i > k {
                assert(domain[i - k - 1] == a[i]);
            }
            if j < k {
                assert(local[j] == a[j]);
            }
            if j > k {
                assert(domain[j - k - 1] == a[j]);
            }
        }
        assert forall|i: int| 0 <= i < a.len() implies #[trigger] a[i] != ' ' by {
            if i < k {
                assert(local[i] == a[i]);
            }
            if i > k {
                assert(domain[i - k - 1] == a[i]);
            }
        }
    }
    if let Some(t) = e {
        if is_email(t) {
            let k = choose|k: int| #![trigger t[k]] 0 < k < t.len() - 1 && t[k] == '@';
            assert(t.contains('@'));
        }
        if t.contains(' ') {
            let k = choose|k: int| 0 <= k < t.len() && t[k] == ' ';
        }
    }
}

/// Reports an optional email address found at `path` that is not well formed.
pub fn validate_email<S>(ctx: &mut Context<'_, S>, e: &Option<String>, path: &str)
    ensures
        final(ctx).errors_view() == old(ctx).errors_view() + email_errors(
            path@,
            match e { Some(x) => Some(x@), None => None },
        ),
        final(ctx).visited == old(ctx).visited,
        final(ctx).spec == old(ctx).spec,
        final(ctx).options == old(ctx).options,
{
    match e {
        Some(x) => {
            if !email_is_valid(x.as_str()) {
                let mut m = concat("must be a valid email address, found `", x.as_str());
                push_str(&mut m, "`");
                ctx.error(path, m.as_str());
            } else {
                assert(ctx.errors_view() + Seq::<Seq<char>>::empty() =~= ctx.errors_view());
            }
        },
        None => {
            assert(ctx.errors_view() + Seq::<Seq<char>>::empty() =~= ctx.errors_view());
        },
    }
}


/// The diagnostic of a regular expression `p` found at `path` that the
/// `regex` crate does not compile.
pub open spec fn pattern_errors(path: Seq<char>, p: Seq<char>) -> Seq<Seq<char>> {
    if crate::common::patterns::regex_compiles(p) {
        seq![]
    } else {
        seq![error_line(path, "must be a valid regular expression, found `"@ + p + "`"@)]
    }
}

/// Reports the regular expression `p` found at `path` if it does not compile.
pub fn validate_pattern<S>(ctx: &mut Context<'_, S>, p: &str, path: &str)
    ensures
        final(ctx).errors_view() == old(ctx).errors_view() + pattern_errors(path@, p@),
        final(ctx).visited == old(ctx).visited,
        final(ctx).spec == old(ctx).spec,
        final(ctx).options == old(ctx).options,
{
    if !crate::common::patterns::pattern_compiles(p) {
        let mut m = concat("must be a valid regular expression, found `", p);
        push_str(&mut m, "`");
        ctx.error(path, m.as_str());
    } else {
        assert(ctx.errors_view() + Seq::<Seq<char>>::empty() =~= ctx.errors_view());
    }
}

} // verus!
