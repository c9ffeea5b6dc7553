//! The state of one validation pass: the document, the options, the
//! references visited so far and the diagnostics collected so far.
use vstd::prelude::*;
use crate::common::patterns::views;
use crate::common::text::{is_prefix_of, push_str, starts_with, str_equal, to_owned_string};

verus! {

/// A switch that relaxes one family of validation rules.
#[derive(Clone, Copy, Debug, PartialEq, Eq, Structural)]
pub enum Options {
    /// Do not report `$ref`s that point outside the document.
    IgnoreExternalReferences,
    /// Do not report tags that no operation uses.
    IgnoreUnusedTags,
    /// Do not report unused `components.schemas` entries.
    IgnoreUnusedSchemas,
    /// Do not report unused `components.responses` entries.
    IgnoreUnusedResponses,
    /// Do not report unused `components.parameters` entries.
    IgnoreUnusedParameters,
    /// Do not report unused `components.examples` entries.
    IgnoreUnusedExamples,
    /// Do not report unused `components.requestBodies` entries.
    IgnoreUnusedRequestBodies,
    /// Do not report unused `components.headers` entries.
    IgnoreUnusedHeaders,
    /// Do not report unused security schemes and scopes.
    IgnoreUnusedSecuritySchemes,
    /// Do not report unused `components.pathItems` entries.
    IgnoreUnusedPathItems,
    /// Do not report unused `components.links` entries.
    IgnoreUnusedLinks,
    /// Do not report unused `components.callbacks` entries.
    IgnoreUnusedCallbacks,
    /// Do not report an empty response description.
    IgnoreEmptyResponseDescription,
    /// Do not report operation tags that `Spec.tags` does not declare.
    IgnoreMissingTags,
    /// Do not report an empty `info.title`.
    IgnoreEmptyInfoTitle,
    /// Do not report an empty `info.version`.
    IgnoreEmptyInfoVersion,
    /// Do not report an empty `externalDocs.url`.
    IgnoreEmptyExternalDocumentationUrl,
    /// Do not report URLs that are not well formed.
    IgnoreInvalidUrls,
    /// Do not report server variables that the server URL does not use.
    IgnoreUnusedServerVariables,
}

/// A set of [`Options`].
#[derive(Debug)]
pub struct OptionSet {
    pub members: Vec<Options>,
}

impl OptionSet {
    /// Whether `o` is in the set.
    pub open spec fn has(&self, o: Options) -> bool {
        self.members@.contains(o)
    }

    /// The empty set.
    pub fn new() -> (res: OptionSet)
        ensures
            forall|o: Options| !res.has(o),
    {
        OptionSet { members: Vec::new() }
    }

    /// The set that holds `o` alone.
    pub fn only(o: Options) -> (res: OptionSet)
        ensures
            forall|p: Options| res.has(p) <==> p == o,
    {
        let members = vec![o];
        assert(members@[0] == o);
        OptionSet { members }
    }

    /// Adds `o` to the set.
    pub fn insert(&mut self, o: Options)
        ensures
            forall|p: Options| final(self).has(p) <==> (old(self).has(p) || p == o),
    {
        self.members.push(o);
        proof {
            assert forall|p: Options| self.has(p) <==> (old(self).has(p) || p == o) by {
                if old(self).has(p) {
                    let k = choose|k: int| 0 <= k < old(self).members@.len() && old(self).members@[k] == p;
                    assert(self.members@[k] == p);
                }
                if p == o {
                    assert(self.members@[self.members@.len() - 1] == p);
                }
                if self.has(p) && p != o {
                    let k = choose|k: int| 0 <= k < self.members@.len() && self.members@[k] == p;
                    assert(old(self).members@[k] == p);
                }
            }
        }
    }

    /// Whether `o` is in the set.
    pub fn contains(&self, o: Options) -> (res: bool)
        ensures
            res == self.has(o),
    {
        let mut i: usize = 0;
        while i < self.members.len()
            invariant
                i <= self.members.len(),
                forall|j: int| 0 <= j < i ==> self.members@[j] != o,
            decreases self.members.len() - i,
        {
            if self.members[i] == o {
                return true;
            }
            i = i + 1;
        }
        false
    }
}

/// One diagnostic line: the location then the message; a message that names
/// a member of the location (it starts with `.`) follows the location
/// directly, any other follows a colon and a space.
pub open spec fn error_line(path: Seq<char>, msg: Seq<char>) -> Seq<char> {
    if is_prefix_of("."@, msg) {
        path + msg
    } else {
        path + ": "@ + msg
    }
}

/// The state of one validation pass over the document `spec`.
pub struct Context<'a, S> {
    /// The document being validated.
    pub spec: &'a S,
    /// The diagnostics collected so far, in the order they were found.
    pub errors: Vec<String>,
    /// The references (and other markers) visited so far.
    pub visited: Vec<String>,
    /// The switches of this pass.
    pub options: OptionSet,
}

impl<'a, S> Context<'a, S> {
    /// The diagnostics collected so far.
    pub open spec fn errors_view(&self) -> Seq<Seq<char>> {
        views(self.errors@)
    }

    /// The markers visited so far.
    pub open spec fn visited_set(&self) -> Set<Seq<char>> {
        views(self.visited@).to_set()
    }

    /// Whether `o` is switched on in this pass.
    pub open spec fn has_option(&self, o: Options) -> bool {
        self.options.has(o)
    }

    /// `self` follows from `prev` by more work of the same pass: the document and
    /// options are the same, diagnostics were only appended, markers only added.
    pub open spec fn extends(&self, prev: &Self) -> bool {
        &&& self.spec == prev.spec
        &&& self.options == prev.options
        &&& prev.errors_view().is_prefix_of(self.errors_view())
        &&& prev.visited_set().subset_of(self.visited_set())
    }

    /// A fresh pass over `spec` with the switches `options`.
    pub fn new(spec: &'a S, options: OptionSet) -> (res: Context<'a, S>)
        ensures
            res.spec == spec,
            res.options == options,
            res.errors_view() == Seq::<Seq<char>>::empty(),
            res.visited_set() == Set::<Seq<char>>::empty(),
    {
        let res = Context { spec, errors: Vec::new(), visited: Vec::new(), options };
        assert(res.errors_view() =~= Seq::<Seq<char>>::empty());
        assert(res.visited_set() =~= Set::<Seq<char>>::empty());
        res
    }

    /// Records the diagnostic `msg` at `path`.
    pub fn error(&mut self, path: &str, msg: &str)
        ensures
            final(self).errors_view() == old(self).errors_view().push(error_line(path@, msg@)),
            final(self).visited == old(self).visited,
            final(self).spec == old(self).spec,
            final(self).options == old(self).options,
    {
        let mut line = to_owned_string(path);
        if !starts_with(msg, ".") {
            push_str(&mut line, ": ");
        }
        push_str(&mut line, msg);
        let ghost before = self.errors@;
        self.errors.push(line);
        assert(views(self.errors@) =~= views(before).push(error_line(path@, msg@)));
    }

    /// Whether `marker` was visited in this pass.
    pub fn is_visited(&self, marker: &str) -> (res: bool)
        ensures
            res == self.visited_set().contains(marker@),
    {
        let mut i: usize = 0;
        while i < self.visited.len()
            invariant
                i <= self.visited.len(),
                forall|j: int| 0 <= j < i ==> self.visited@[j]@ != marker@,
            decreases self.visited.len() - i,
        {
            if str_equal(self.visited[i].as_str(), marker) {
                assert(views(self.visited@)[i as int] == marker@);
                return true;
            }
            i = i + 1;
        }
        proof {
            if views(self.visited@).to_set().contains(marker@) {
                let k = choose|k: int| 0 <= k < views(self.visited@).len() && views(self.visited@)[k] == marker@;
                assert(self.visited@[k]@ == marker@);
            }
        }
        false
    }

    /// Marks `marker` visited; answers whether it was new.
    pub fn visit(&mut self, marker: String) -> (res: bool)
        ensures
            res == !old(self).visited_set().contains(marker@),
            final(self).visited_set() == old(self).visited_set().insert(marker@),
            final(self).errors == old(self).errors,
            final(self).spec == old(self).spec,
            final(self).options == old(self).options,
    {
        if self.is_visited(marker.as_str()) {
            assert(self.visited_set().insert(marker@) =~= self.visited_set());
            false
        } else {
            let ghost before = self.visited@;
            let ghost m = marker@;
            self.visited.push(marker);
            assert(views(self.visited@) =~= views(before).push(m));
            proof {
                views(before).lemma_push_to_set_commute(m);
            }
            true
        }
    }

    /// Whether the switch `o` is on in this pass.
    pub fn is_option(&self, o: Options) -> (res: bool)
        ensures
            res == self.has_option(o),
    {
        self.options.contains(o)
    }
}

/// `after` follows from `before` by checks that report `w`: the diagnostics
/// `w.0` appended, and the markers `w.1` visited afterwards.
pub open spec fn walked<S>(before: Context<'_, S>, after: Context<'_, S>, w: (Seq<Seq<char>>, Set<Seq<char>>)) -> bool {
    &&& after.spec == before.spec
    &&& after.options == before.options
    &&& after.errors_view() == before.errors_view() + w.0
    &&& after.visited_set() == w.1
}

/// An object of the document that can check itself within a validation pass.
pub trait ValidateWithContext<S> {
    /// What checking `self`, found at `path`, does to a pass over `spec` with
    /// the switches `options`, which had visited `visited` and reported
    /// `errors` before: `after` holds the diagnostics and the visited markers
    /// afterwards. Each type says here what it states of its check.
    spec fn checks(
        &self,
        spec: S,
        options: OptionSet,
        visited: Set<Seq<char>>,
        errors: Seq<Seq<char>>,
        path: Seq<char>,
        after: (Seq<Seq<char>>, Set<Seq<char>>),
    ) -> bool;

    /// Checks `self`, found at `path`, recording what it finds in `ctx`.
    fn validate_with_context(&self, ctx: &mut Context<'_, S>, path: String)
        ensures
            final(ctx).extends(old(ctx)),
            self.checks(
                *old(ctx).spec,
                old(ctx).options,
                old(ctx).visited_set(),
                old(ctx).errors_view(),
                path@,
                (final(ctx).errors_view(), final(ctx).visited_set()),
            ),
    ;
}


/// Prefixes chain.
pub proof fn lemma_prefix_trans(a: Seq<Seq<char>>, b: Seq<Seq<char>>, c: Seq<Seq<char>>)
    requires
        a.is_prefix_of(b),
        b.is_prefix_of(c),
    ensures
        a.is_prefix_of(c),
{
    assert forall|i: int| 0 <= i < a.len() implies a[i] == c[i] by {
        assert(b[i] == a[i]);
    }
}

/// A diagnostic stays once recorded.
pub proof fn lemma_contains_grows(a: Seq<Seq<char>>, b: Seq<Seq<char>>, x: Seq<char>)
    requires
        a.is_prefix_of(b),
        a.contains(x),
    ensures
        b.contains(x),
{
    let j = choose|j: int| 0 <= j < a.len() && a[j] == x;
    assert(b[j] == a[j]);
}


/// The diagnostics of a validation pass that found problems.
#[derive(Debug)]
pub struct ValidationError {
    /// The diagnostics, in the order they were found.
    pub errors: Vec<String>,
}

impl<'a, S> Context<'a, S> {
    /// The outcome of the pass: success when it found nothing, else its diagnostics.
    pub fn into_result(self) -> (res: Result<(), ValidationError>)
        ensures
            match res {
                Ok(_) => self.errors_view().len() == 0,
                Err(e) => views(e.errors@) == self.errors_view() && self.errors_view().len() > 0,
            },
    {
        if self.errors.len() == 0 {
            Ok(())
        } else {
            Err(ValidationError { errors: self.errors })
        }
    }
}

} // verus!
