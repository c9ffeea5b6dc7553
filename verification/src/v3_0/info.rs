//! Provides metadata about the API (OpenAPI 3.0).
use vstd::prelude::*;
use crate::common::checks::{
    email_errors, optional_url_errors, required_string_errors, validate_email, validate_optional_url,
    validate_required_string,
};
use crate::common::context::{Context, OptionSet, Options, ValidateWithContext};
use crate::common::text::concat;
use crate::v3_0::link::opt_text;
use crate::v3_0::spec::Spec;

verus! {

/// The object provides metadata about the API.
#[derive(Debug)]
pub struct Info {
    /// **Required** The title of the API.
    pub title: String,
    /// A short description of the API.
    pub description: Option<String>,
    /// A URL to the Terms of Service for the API.
    pub terms_of_service: Option<String>,
    /// The contact information for the exposed API.
    pub contact: Option<Contact>,
    /// The license information for the exposed API.
    pub license: Option<License>,
    /// **Required** The version of the OpenAPI document.
    pub version: String,
}

/// Contact information for the exposed API.
#[derive(Debug)]
pub struct Contact {
    /// The identifying name of the contact person/organization.
    pub name: Option<String>,
    /// The URL pointing to the contact information.
    pub url: Option<String>,
    /// The email address of the contact person/organization.
    pub email: Option<String>,
}

/// License information for the exposed API.
#[derive(Debug)]
pub struct License {
    /// **Required** The license name used for the API.
    pub name: String,
    /// A URL to the license used for the API.
    pub url: Option<String>,
}

/// The diagnostics of a contact found at `path`.
pub open spec fn contact_errors(path: Seq<char>, c: Contact, ignore_invalid: bool) -> Seq<Seq<char>> {
    optional_url_errors(path + ".url"@, opt_text(c.url), ignore_invalid) + email_errors(path + ".email"@, opt_text(c.email))
}

/// The diagnostics of a license found at `path`.
pub open spec fn license_errors(path: Seq<char>, l: License, ignore_invalid: bool) -> Seq<Seq<char>> {
    required_string_errors(path + ".name"@, l.name@) + optional_url_errors(path + ".url"@, opt_text(l.url), ignore_invalid)
}

/// The diagnostics of the API metadata found at `path`.
pub open spec fn info_errors(path: Seq<char>, i: Info, ignore_title: bool, ignore_version: bool, ignore_invalid: bool) -> Seq<Seq<char>> {
    (if ignore_title { seq![] } else { required_string_errors(path + ".title"@, i.title@) }) + (if ignore_version {
        seq![]
    } else {
        required_string_errors(path + ".version"@, i.version@)
    }) + (match i.contact {
        Some(c) => contact_errors(path + ".contact"@, c, ignore_invalid),
        None => seq![],
    }) + match i.license {
        Some(l) => license_errors(path + ".license"@, l, ignore_invalid),
        None => seq![],
    }
}

/// An empty title is reported first unless `IgnoreEmptyInfoTitle`, and an
/// empty version unless `IgnoreEmptyInfoVersion`; API metadata with no
/// diagnostic has each of them, unless its switch is on.
pub proof fn law_info_title_and_version(path: Seq<char>, i: Info, ignore_title: bool, ignore_version: bool, ignore_invalid: bool)
    ensures
        (!ignore_title && i.title@.len() == 0) ==> info_errors(path, i, ignore_title, ignore_version, ignore_invalid)[0]
            == crate::common::context::error_line(path + ".title"@, "must not be empty"@),
        info_errors(path, i, ignore_title, ignore_version, ignore_invalid).len() == 0 ==> (ignore_title
            || i.title@.len() > 0) && (ignore_version || i.version@.len() > 0),
{
}

impl Contact {
    /// Checks the contact found at `path`: its URL and email address.
    pub fn validate<S>(&self, ctx: &mut Context<'_, S>, path: String)
        ensures
            final(ctx).errors_view() == old(ctx).errors_view() + contact_errors(
                path@,
                *self,
                old(ctx).has_option(Options::IgnoreInvalidUrls),
            ),
            final(ctx).visited == old(ctx).visited,
            final(ctx).spec == old(ctx).spec,
            final(ctx).options == old(ctx).options,
    {
        let ghost e0 = ctx.errors_view();
        let p = concat(path.as_str(), ".url");
        validate_optional_url(ctx, &self.url, p.as_str());
        let p = concat(path.as_str(), ".email");
        validate_email(ctx, &self.email, p.as_str());
        assert(ctx.errors_view() =~= e0 + contact_errors(path@, *self, old(ctx).has_option(Options::IgnoreInvalidUrls)));
    }
}

impl License {
    /// Checks the license found at `path`: a name, and its URL.
    pub fn validate<S>(&self, ctx: &mut Context<'_, S>, path: String)
        ensures
            final(ctx).errors_view() == old(ctx).errors_view() + license_errors(
                path@,
                *self,
                old(ctx).has_option(Options::IgnoreInvalidUrls),
            ),
            final(ctx).visited == old(ctx).visited,
            final(ctx).spec == old(ctx).spec,
            final(ctx).options == old(ctx).options,
    {
        let ghost e0 = ctx.errors_view();
        let p = concat(path.as_str(), ".name");
        validate_required_string(ctx, self.name.as_str(), p.as_str());
        let p = concat(path.as_str(), ".url");
        validate_optional_url(ctx, &self.url, p.as_str());
        assert(ctx.errors_view() =~= e0 + license_errors(path@, *self, old(ctx).has_option(Options::IgnoreInvalidUrls)));
    }
}

impl Info {
    /// Checks the metadata found at `path`: a title and a version (unless
    /// `IgnoreEmptyInfoTitle` / `IgnoreEmptyInfoVersion`), the contact and
    /// the license.
    #[verifier::spinoff_prover]
    #[verifier::rlimit(50)]
    pub fn validate<S>(&self, ctx: &mut Context<'_, S>, path: String)
        ensures
            final(ctx).errors_view() == old(ctx).errors_view() + info_errors(
                path@,
                *self,
                old(ctx).has_option(Options::IgnoreEmptyInfoTitle),
                old(ctx).has_option(Options::IgnoreEmptyInfoVersion),
                old(ctx).has_option(Options::IgnoreInvalidUrls),
            ),
            final(ctx).visited == old(ctx).visited,
            final(ctx).spec == old(ctx).spec,
            final(ctx).options == old(ctx).options,
    {
        let ghost e0 = ctx.errors_view();
        if !ctx.is_option(Options::IgnoreEmptyInfoTitle) {
            let p = concat(path.as_str(), ".title");
            validate_required_string(ctx, self.title.as_str(), p.as_str());
        }
        let ghost e1 = ctx.errors_view();
        if !ctx.is_option(Options::IgnoreEmptyInfoVersion) {
            let p = concat(path.as_str(), ".version");
            validate_required_string(ctx, self.version.as_str(), p.as_str());
        }
        let ghost e2 = ctx.errors_view();
        if let Some(contact) = &self.contact {
            let p = concat(path.as_str(), ".contact");
            contact.validate(ctx, p);
        }
        let ghost e3 = ctx.errors_view();
        if let Some(license) = &self.license {
            let p = concat(path.as_str(), ".license");
            license.validate(ctx, p);
        }
        assert(ctx.errors_view() =~= e0 + info_errors(
            path@,
            *self,
            old(ctx).has_option(Options::IgnoreEmptyInfoTitle),
            old(ctx).has_option(Options::IgnoreEmptyInfoVersion),
            old(ctx).has_option(Options::IgnoreInvalidUrls),
        ));
    }
}

impl ValidateWithContext<Spec> for Info {
    open spec fn checks(
        &self,
        spec: Spec,
        options: OptionSet,
        visited: Set<Seq<char>>,
        errors: Seq<Seq<char>>,
        path: Seq<char>,
        after: (Seq<Seq<char>>, Set<Seq<char>>),
    ) -> bool {
        after == (errors + info_errors(
                path,
                *self,
                options.has(Options::IgnoreEmptyInfoTitle),
                options.has(Options::IgnoreEmptyInfoVersion),
                options.has(Options::IgnoreInvalidUrls),
            ), visited)
    }

    fn validate_with_context(&self, ctx: &mut Context<'_, Spec>, path: String)
        ensures
            final(ctx).errors_view() == old(ctx).errors_view() + info_errors(
                path@,
                *self,
                old(ctx).has_option(Options::IgnoreEmptyInfoTitle),
                old(ctx).has_option(Options::IgnoreEmptyInfoVersion),
                old(ctx).has_option(Options::IgnoreInvalidUrls),
            ),
            final(ctx).visited == old(ctx).visited,
            final(ctx).spec == old(ctx).spec,
            final(ctx).options == old(ctx).options,
    {
        self.validate(ctx, path);
    }
}

impl ValidateWithContext<Spec> for Contact {
    open spec fn checks(
        &self,
        spec: Spec,
        options: OptionSet,
        visited: Set<Seq<char>>,
        errors: Seq<Seq<char>>,
        path: Seq<char>,
        after: (Seq<Seq<char>>, Set<Seq<char>>),
    ) -> bool {
        after == (errors + contact_errors(
                path,
                *self,
                options.has(Options::IgnoreInvalidUrls),
            ), visited)
    }

    fn validate_with_context(&self, ctx: &mut Context<'_, Spec>, path: String)
        ensures
            final(ctx).errors_view() == old(ctx).errors_view() + contact_errors(
                path@,
                *self,
                old(ctx).has_option(Options::IgnoreInvalidUrls),
            ),
            final(ctx).visited == old(ctx).visited,
            final(ctx).spec == old(ctx).spec,
            final(ctx).options == old(ctx).options,
    {
        self.validate(ctx, path);
    }
}

impl ValidateWithContext<Spec> for License {
    open spec fn checks(
        &self,
        spec: Spec,
        options: OptionSet,
        visited: Set<Seq<char>>,
        errors: Seq<Seq<char>>,
        path: Seq<char>,
        after: (Seq<Seq<char>>, Set<Seq<char>>),
    ) -> bool {
        after == (errors + license_errors(
                path,
                *self,
                options.has(Options::IgnoreInvalidUrls),
            ), visited)
    }

    fn validate_with_context(&self, ctx: &mut Context<'_, Spec>, path: String)
        ensures
            final(ctx).errors_view() == old(ctx).errors_view() + license_errors(
                path@,
                *self,
                old(ctx).has_option(Options::IgnoreInvalidUrls),
            ),
            final(ctx).visited == old(ctx).visited,
            final(ctx).spec == old(ctx).spec,
            final(ctx).options == old(ctx).options,
    {
        self.validate(ctx, path);
    }
}

} // verus!
