//! The matching engine: one parsed reference against the policy, on the
//! registry, tag and image axes.

use vstd::prelude::*;

use crate::reference::{effective_tag, parsed_reference, ImageRef, ImageRefView};
use crate::settings::{images_error, ref_set, Settings};
use crate::text::{contains_str, set_of};

verus! {

/// The registry axis: with no list every registry passes; a non-empty reject
/// list refuses what it holds; otherwise the allow list admits what it holds.
pub open spec fn registry_ok(registry: Seq<char>, s: Settings) -> bool {
    if s.registries.allow@.len() == 0 && s.registries.reject@.len() == 0 {
        true
    } else if s.registries.reject@.len() > 0 {
        !set_of(s.registries.reject@).contains(registry)
    } else {
        set_of(s.registries.allow@).contains(registry)
    }
}

/// The tag axis: a tag passes unless the reject list holds it.
pub open spec fn tag_ok(tag: Seq<char>, s: Settings) -> bool {
    !set_of(s.tags.reject@).contains(tag)
}

/// `registry/repository`, the name of a reference without tag or digest.
pub open spec fn registry_repository(r: ImageRefView) -> Seq<char> {
    r.registry + seq!['/'] + r.repository
}

/// A list matches a reference exactly, by its repository alone re-parsed, or
/// by `registry/repository` re-parsed.
pub open spec fn image_matches(list: Seq<ImageRef>, r: ImageRefView) -> bool {
    let set = ref_set(list);
    ||| set.contains(r)
    ||| (parsed_reference(r.repository) matches Some(x) && set.contains(x))
    ||| (parsed_reference(registry_repository(r)) matches Some(y) && set.contains(y))
}

/// The image axis: with no list every image passes; a non-empty reject list
/// refuses what it matches; otherwise the allow list admits what it matches.
pub open spec fn image_ok(r: ImageRefView, s: Settings) -> bool {
    if s.images.allow@.len() == 0 && s.images.reject@.len() == 0 {
        true
    } else if s.images.reject@.len() > 0 {
        !image_matches(s.images.reject@, r)
    } else {
        image_matches(s.images.allow@, r)
    }
}

/// The outcome on the three axes.
#[derive(PartialEq, Eq, Structural, Clone, Copy, Debug)]
pub struct Evaluation {
    pub registry_ok: bool,
    pub tag_ok: bool,
    pub image_ok: bool,
}

pub open spec fn evaluation(r: ImageRefView, s: Settings) -> Evaluation {
    Evaluation {
        registry_ok: registry_ok(r.registry, s),
        tag_ok: tag_ok(effective_tag(r), s),
        image_ok: image_ok(r, s),
    }
}

/// With neither registry list given, every registry passes.
pub proof fn lemma_no_registry_lists_allow_all(registry: Seq<char>, s: Settings)
    requires
        s.registries.allow@.len() == 0,
        s.registries.reject@.len() == 0,
    ensures
        registry_ok(registry, s),
{
}

/// An image that the allow list of a valid policy holds in its
/// repository-only form (the form that its own `registry/repository` parses
/// to) admits that repository under any tag and any digest.
pub proof fn lemma_allowed_repository_admits_any_tag(a: ImageRefView, c: ImageRefView, s: Settings)
    requires
        images_error(s.images) is None,
        ref_set(s.images.allow@).contains(a),
        parsed_reference(registry_repository(a)) == Some(a),
        c.registry == a.registry,
        c.repository == a.repository,
    ensures
        image_ok(c, s),
{
    let views = s.images.allow@.map_values(|x: ImageRef| x@);
    assert(views.contains(a));
    assert(s.images.allow@.len() > 0);
    assert(registry_repository(c) == registry_repository(a));
}

/// Judging one reference against one policy twice gives the same outcome:
/// the outcome depends on the two alone.
pub proof fn lemma_evaluation_repeatable(
    r: ImageRefView,
    s: Settings,
    first: Evaluation,
    second: Evaluation,
)
    requires
        first == evaluation(r, s),
        second == evaluation(r, s),
    ensures
        first == second,
{
}

/// Whether `v` holds a reference equal to `r`.
pub fn contains_ref(v: &Vec<ImageRef>, r: &ImageRef) -> (b: bool)
    ensures
        b == ref_set(v@).contains(r@),
{
    let mut i: usize = 0;
    while i < v.len()
        invariant
            i <= v@.len(),
            forall|j: int| 0 <= j < i ==> v@[j]@ != r@,
        decreases v@.len() - i,
    {
        if v[i].eq(r) {
            assert(v@.map_values(|x: ImageRef| x@)[i as int] == r@);
            return true;
        }
        i = i + 1;
    }
    proof {
        let views = v@.map_values(|x: ImageRef| x@);
        if views.contains(r@) {
            let k = choose|k: int| 0 <= k < views.len() && views[k] == r@;
            assert(v@[k]@ == r@);
        }
    }
    false
}

/// Whether the registry axis passes.
pub fn is_allowed_registry(registry: &str, settings: &Settings) -> (b: bool)
    ensures
        b == registry_ok(registry@, *settings),
{
    if settings.registries.allow.len() == 0 && settings.registries.reject.len() == 0 {
        return true;
    }
    if settings.registries.reject.len() > 0 {
        return !contains_str(&settings.registries.reject, registry);
    }
    contains_str(&settings.registries.allow, registry)
}

/// Whether the tag axis passes.
pub fn is_allowed_tag(tag: &str, settings: &Settings) -> (b: bool)
    ensures
        b == tag_ok(tag@, *settings),
{
    if settings.tags.reject.len() == 0 {
        proof {
            assert(settings.tags.reject@.map_values(|s: String| s@) =~= Seq::empty());
        }
        return true;
    }
    !contains_str(&settings.tags.reject, tag)
}

/// Whether `list` matches `image_ref` at any of the three levels.
pub fn matches_image(list: &Vec<ImageRef>, image_ref: &ImageRef) -> (b: bool)
    ensures
        b == image_matches(list@, image_ref@),
{
    if contains_ref(list, image_ref) {
        return true;
    }
    let by_repository = match ImageRef::parse(image_ref.repository()) {
        Ok(r) => contains_ref(list, &r),
        Err(_) => false,
    };
    if by_repository {
        return true;
    }
    let mut name = image_ref.registry.clone();
    name.append("/");
    name.append(image_ref.repository());
    proof {
        reveal_strlit("/");
        assert(name@ =~= registry_repository(image_ref@));
    }
    match ImageRef::parse(name.as_str()) {
        Ok(r) => contains_ref(list, &r),
        Err(_) => false,
    }
}

/// Whether the image axis passes.
pub fn is_allowed_image(image_ref: &ImageRef, settings: &Settings) -> (b: bool)
    ensures
        b == image_ok(image_ref@, *settings),
{
    if settings.images.allow.len() == 0 && settings.images.reject.len() == 0 {
        return true;
    }
    if settings.images.reject.len() > 0 {
        return !matches_image(&settings.images.reject, image_ref);
    }
    matches_image(&settings.images.allow, image_ref)
}

/// Judges one reference on all three axes.
pub fn evaluate(image_ref: &ImageRef, settings: &Settings) -> (e: Evaluation)
    ensures
        e == evaluation(image_ref@, *settings),
{
    let registry_ok = is_allowed_registry(image_ref.registry(), settings);
    let tag_ok = match image_ref.tag() {
        Some(t) => is_allowed_tag(t, settings),
        None => {
            proof {
                reveal_strlit("latest");
                assert("latest"@ =~= effective_tag(image_ref@));
            }
            is_allowed_tag("latest", settings)
        },
    };
    let image_ok = is_allowed_image(image_ref, settings);
    Evaluation { registry_ok, tag_ok, image_ok }
}

} // verus!
