//! Discriminator Object (OpenAPI 3.0).
use vstd::prelude::*;
use crate::common::checks::{required_string_errors, validate_required_string};
use crate::common::context::{lemma_prefix_trans, walked, Context, OptionSet, ValidateWithContext};
use crate::common::text::concat;
use crate::common::reach::lemma_within_both;
use crate::v3_0::schema::{comp_refs, discriminator_refs, validate_mapping, walk_discriminator};
use crate::v3_0::spec::Spec;

verus! {

/// When request bodies or response payloads may be one of a number of
/// different schemas, a discriminator object names the property that tells
/// them apart, and may map its values to schemas.
#[derive(Debug)]
pub struct Discriminator {
    /// **Required** The name of the property in the payload that will hold the discriminator value.
    pub property_name: String,
    /// Mappings between payload values and schema names or references.
    pub mapping: Option<Vec<(String, String)>>,
}

impl Discriminator {
    /// Checks the discriminator found at `path`: a non-empty property name,
    /// then each mapping value as a `$ref` to `#/components/schemas/<value>`
    /// (visited, resolved and its schema checked the first time it is met).
    /// What the mapping reports does not depend on the schema that holds the
    /// discriminator, which the walk takes only to bound its recursion.
    pub fn validate(&self, ctx: &mut Context<'_, Spec>, path: String)
        ensures
            final(ctx).extends(old(ctx)),
            walked(
                *old(ctx),
                *final(ctx),
                walk_discriminator(
                    *old(ctx).spec,
                    old(ctx).options,
                    discriminator_universe(*old(ctx).spec, *self),
                    old(ctx).visited_set(),
                    *self,
                    path@,
                    arbitrary(),
                ),
            ),
            (old(ctx).errors_view() + required_string_errors(path@ + ".propertyName"@, self.property_name@))
                .is_prefix_of(final(ctx).errors_view()),
            forall|k: int| #![trigger self.mapping->0@[k]]
                self.mapping is Some && 0 <= k < self.mapping->0@.len() ==> final(ctx).visited_set().contains(
                    "#/components/schemas/"@ + self.mapping->0@[k].1@,
                ),
    {
        let p = concat(path.as_str(), ".propertyName");
        validate_required_string(ctx, self.property_name.as_str(), p.as_str());
        let ghost head = ctx.errors_view();
        let ghost u = discriminator_universe(*ctx.spec, *self);
        assert(head.is_prefix_of(head));
        proof {
            lemma_within_both(discriminator_refs(Some(*self)), comp_refs(*ctx.spec));
        }
        validate_mapping(ctx, self, path, Ghost(u), Ghost(arbitrary()));
        proof {
            lemma_prefix_trans(head, head, ctx.errors_view());
        }
        assert(ctx.errors_view() =~= old(ctx).errors_view() + walk_discriminator(
            *old(ctx).spec,
            old(ctx).options,
            u,
            old(ctx).visited_set(),
            *self,
            path@,
            arbitrary(),
        ).0);
    }
}

/// The `$ref`s that checking the discriminator `d` can follow in `spec`:
/// those its mapping names, and those of the schemas of `components.schemas`.
pub open spec fn discriminator_universe(spec: Spec, d: Discriminator) -> Seq<Seq<char>> {
    discriminator_refs(Some(d)) + comp_refs(spec)
}

impl ValidateWithContext<Spec> for Discriminator {
    open spec fn checks(
        &self,
        spec: Spec,
        options: OptionSet,
        visited: Set<Seq<char>>,
        errors: Seq<Seq<char>>,
        path: Seq<char>,
        after: (Seq<Seq<char>>, Set<Seq<char>>),
    ) -> bool {
        let w = walk_discriminator(
                    spec,
                    options,
                    discriminator_universe(spec, *self),
                    visited,
                    *self,
                    path,
                    arbitrary(),
                );
        after == (errors + w.0, w.1)
    }

    fn validate_with_context(&self, ctx: &mut Context<'_, Spec>, path: String)
        ensures
            final(ctx).extends(old(ctx)),
            walked(
                *old(ctx),
                *final(ctx),
                walk_discriminator(
                    *old(ctx).spec,
                    old(ctx).options,
                    discriminator_universe(*old(ctx).spec, *self),
                    old(ctx).visited_set(),
                    *self,
                    path@,
                    arbitrary(),
                ),
            ),
            (old(ctx).errors_view() + required_string_errors(path@ + ".propertyName"@, self.property_name@))
                .is_prefix_of(final(ctx).errors_view()),
            forall|k: int| #![trigger self.mapping->0@[k]]
                self.mapping is Some && 0 <= k < self.mapping->0@.len() ==> final(ctx).visited_set().contains(
                    "#/components/schemas/"@ + self.mapping->0@[k].1@,
                ),
    {
        self.validate(ctx, path);
    }
}

} // verus!
