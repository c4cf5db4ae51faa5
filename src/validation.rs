//! Image discovery in a pod specification, and the verdict over all of its
//! images.

use vstd::prelude::*;

use crate::matching::{evaluate, registry_ok, tag_ok, image_ok};
use crate::reference::{effective_tag, opt_view, parsed_reference, ImageRef};
use crate::settings::Settings;
use crate::text::{
    contains_str, insert_sorted, lemma_set_of_index, lemma_strictly_sorted_unique, lemma_set_of_push, set_of, views_of,
};
use crate::verdict::{PodRejectionReasons, PodSpecValidationResult};

verus! {

/// A container, as far as the policy reads it.
#[derive(Debug)]
pub struct Container {
    pub image: Option<String>,
}

/// The container lists of a pod.
#[derive(Debug)]
pub struct PodSpec {
    pub init_containers: Option<Vec<Container>>,
    pub ephemeral_containers: Option<Vec<Container>>,
    pub containers: Vec<Container>,
}

/// The images named by a list of containers; one without an image is skipped.
pub open spec fn container_images(cs: Seq<Container>) -> Set<Seq<char>> {
    Set::new(
        |x: Seq<char>|
            exists|i: int| 0 <= i < cs.len() && #[trigger] opt_view(cs[i].image) == Some(x),
    )
}

pub open spec fn optional_images(cs: Option<Vec<Container>>) -> Set<Seq<char>> {
    match cs {
        Some(v) => container_images(v@),
        None => Set::empty(),
    }
}

/// Every image of the pod: init, ephemeral and regular containers.
pub open spec fn pod_images(p: PodSpec) -> Set<Seq<char>> {
    optional_images(p.init_containers).union(optional_images(p.ephemeral_containers)).union(
        container_images(p.containers@),
    )
}

/// The reason, if any, that one raw image adds on the registry axis.
pub open spec fn registry_reason(raw: Seq<char>, s: Settings) -> Option<Seq<char>> {
    match parsed_reference(raw) {
        Some(r) => if !registry_ok(r.registry, s) {
            Some(r.registry)
        } else {
            None
        },
        None => None,
    }
}

/// The reason, if any, that one raw image adds on the tag axis.
pub open spec fn tag_reason(raw: Seq<char>, s: Settings) -> Option<Seq<char>> {
    match parsed_reference(raw) {
        Some(r) => if !tag_ok(effective_tag(r), s) {
            Some(effective_tag(r))
        } else {
            None
        },
        None => None,
    }
}

/// The reason, if any, that one raw image adds on the image axis: the raw
/// string itself.
pub open spec fn image_reason(raw: Seq<char>, s: Settings) -> Option<Seq<char>> {
    match parsed_reference(raw) {
        Some(r) => if !image_ok(r, s) {
            Some(raw)
        } else {
            None
        },
        None => None,
    }
}

/// The reasons that the images of `images` give by `f`.
pub open spec fn reasons(images: Set<Seq<char>>, f: spec_fn(Seq<char>) -> Option<Seq<char>>) -> Set<Seq<char>> {
    Set::new(|x: Seq<char>| exists|raw: Seq<char>| images.contains(raw) && #[trigger] f(raw) == Some(x))
}

/// One more image adds at most its own reason.
pub proof fn lemma_reasons_insert(
    images: Set<Seq<char>>,
    raw: Seq<char>,
    f: spec_fn(Seq<char>) -> Option<Seq<char>>,
)
    ensures
        reasons(images.insert(raw), f) == match f(raw) {
            Some(x) => reasons(images, f).insert(x),
            None => reasons(images, f),
        },
{
    let lhs = reasons(images.insert(raw), f);
    let rhs = match f(raw) {
        Some(x) => reasons(images, f).insert(x),
        None => reasons(images, f),
    };
    assert forall|x: Seq<char>| lhs.contains(x) implies rhs.contains(x) by {
        let w = choose|w: Seq<char>| images.insert(raw).contains(w) && #[trigger] f(w) == Some(x);
        if w != raw {
            assert(images.contains(w));
        }
    }
    assert forall|x: Seq<char>| rhs.contains(x) implies lhs.contains(x) by {
        if f(raw) == Some(x) {
            assert(images.insert(raw).contains(raw));
        } else {
            let w = choose|w: Seq<char>| images.contains(w) && #[trigger] f(w) == Some(x);
            assert(images.insert(raw).contains(w));
        }
    }
    assert(lhs =~= rhs);
}

/// The complete outcome over a set of raw image strings. Strings that do not
/// parse are left out of every axis.
pub open spec fn outcome_matches(
    images: Set<Seq<char>>,
    s: Settings,
    result: PodSpecValidationResult,
) -> bool {
    let regs = reasons(images, |raw: Seq<char>| registry_reason(raw, s));
    let tags = reasons(images, |raw: Seq<char>| tag_reason(raw, s));
    let imgs = reasons(images, |raw: Seq<char>| image_reason(raw, s));
    match result {
        PodSpecValidationResult::Allowed => regs.is_empty() && tags.is_empty() && imgs.is_empty(),
        PodSpecValidationResult::NotAllowed(r) => {
            &&& r.wf()
            &&& !r.spec_is_empty()
            &&& set_of(r.registries_not_allowed@) == regs
            &&& set_of(r.tags_not_allowed@) == tags
            &&& set_of(r.images_not_allowed@) == imgs
        },
    }
}

/// One more container adds at most its own image.
pub proof fn lemma_container_images_step(cs: Seq<Container>, i: int)
    requires
        0 <= i < cs.len(),
    ensures
        container_images(cs.take(i + 1)) == match opt_view(cs[i].image) {
            Some(x) => container_images(cs.take(i)).insert(x),
            None => container_images(cs.take(i)),
        },
{
    let lhs = container_images(cs.take(i + 1));
    let rhs = match opt_view(cs[i].image) {
        Some(x) => container_images(cs.take(i)).insert(x),
        None => container_images(cs.take(i)),
    };
    assert forall|x: Seq<char>| lhs.contains(x) implies rhs.contains(x) by {
        let k = choose|k: int| 0 <= k < i + 1 && #[trigger] opt_view(cs.take(i + 1)[k].image) == Some(x);
        if k < i {
            assert(cs.take(i)[k] == cs.take(i + 1)[k]);
        }
    }
    assert forall|x: Seq<char>| rhs.contains(x) implies lhs.contains(x) by {
        if opt_view(cs[i].image) == Some(x) {
            assert(cs.take(i + 1)[i] == cs[i]);
        } else {
            let k = choose|k: int| 0 <= k < i && #[trigger] opt_view(cs.take(i)[k].image) == Some(x);
            assert(cs.take(i)[k] == cs.take(i + 1)[k]);
        }
    }
    assert(lhs =~= rhs);
}

/// Adds to `out` each image of `cs` that it does not hold yet.
fn collect_images(cs: &Vec<Container>, out: &mut Vec<String>)
    requires
        views_of(old(out)@).no_duplicates(),
    ensures
        views_of(final(out)@).no_duplicates(),
        set_of(final(out)@) == set_of(old(out)@).union(container_images(cs@)),
{
    let ghost start = set_of(out@);
    assert(container_images(cs@.take(0)) =~= Set::empty());
    assert(start.union(Set::empty()) =~= start);
    let mut i: usize = 0;
    while i < cs.len()
        invariant
            i <= cs@.len(),
            views_of(out@).no_duplicates(),
            set_of(out@) == start.union(container_images(cs@.take(i as int))),
        decreases cs@.len() - i,
    {
        proof {
            lemma_container_images_step(cs@, i as int);
        }
        match &cs[i].image {
            Some(image) => {
                if !contains_str(out, image.as_str()) {
                    let ghost before = out@;
                    out.push(image.clone());
                    proof {
                        lemma_set_of_push(before, *image);
                        assert(views_of(out@) =~= views_of(before).push(image@));
                    }
                }
                assert(set_of(out@) =~= start.union(container_images(cs@.take(i + 1))));
            },
            None => {},
        }
        i = i + 1;
    }
    assert(cs@.take(cs@.len() as int) =~= cs@);
}

/// The images that a pod's containers name, each once.
pub fn discover_images(pod_spec: &PodSpec) -> (images: Vec<String>)
    ensures
        views_of(images@).no_duplicates(),
        set_of(images@) == pod_images(*pod_spec),
{
    let mut images: Vec<String> = Vec::new();
    assert(set_of(images@) =~= Set::empty());
    if let Some(cs) = &pod_spec.init_containers {
        collect_images(cs, &mut images);
    }
    if let Some(cs) = &pod_spec.ephemeral_containers {
        collect_images(cs, &mut images);
    }
    collect_images(&pod_spec.containers, &mut images);
    assert(set_of(images@) =~= pod_images(*pod_spec));
    images
}

/// Judges every image that a pod names.
pub fn validate_pod_spec(pod_spec: &PodSpec, settings: &Settings) -> (result: PodSpecValidationResult)
    ensures
        outcome_matches(pod_images(*pod_spec), *settings, result),
{
    let images = discover_images(pod_spec);
    validate_images(&images, settings)
}

/// The reason lists of an outcome, or `None` for an accepted workload.
pub open spec fn outcome_view(r: PodSpecValidationResult) -> Option<(Seq<Seq<char>>, Seq<Seq<char>>, Seq<Seq<char>>)> {
    match r {
        PodSpecValidationResult::Allowed => None,
        PodSpecValidationResult::NotAllowed(x) => Some(
            (
                views_of(x.registries_not_allowed@),
                views_of(x.tags_not_allowed@),
                views_of(x.images_not_allowed@),
            ),
        ),
    }
}

/// Judging the same images against the same policy twice gives the same
/// verdict, reasons and their order included.
pub proof fn lemma_outcome_repeatable(
    images: Set<Seq<char>>,
    s: Settings,
    first: PodSpecValidationResult,
    second: PodSpecValidationResult,
)
    requires
        outcome_matches(images, s, first),
        outcome_matches(images, s, second),
    ensures
        outcome_view(first) == outcome_view(second),
{
    if let PodSpecValidationResult::NotAllowed(x) = first {
        if let PodSpecValidationResult::NotAllowed(y) = second {
            lemma_strictly_sorted_unique(views_of(x.registries_not_allowed@), views_of(y.registries_not_allowed@));
            lemma_strictly_sorted_unique(views_of(x.tags_not_allowed@), views_of(y.tags_not_allowed@));
            lemma_strictly_sorted_unique(views_of(x.images_not_allowed@), views_of(y.images_not_allowed@));
        } else {
            lemma_empty_reasons(x);
        }
    } else if let PodSpecValidationResult::NotAllowed(y) = second {
        lemma_empty_reasons(y);
    }
}

proof fn lemma_empty_reasons(x: PodRejectionReasons)
    requires
        !x.spec_is_empty(),
    ensures
        !set_of(x.registries_not_allowed@).is_empty() || !set_of(x.tags_not_allowed@).is_empty()
            || !set_of(x.images_not_allowed@).is_empty(),
{
    if x.registries_not_allowed@.len() > 0 {
        lemma_set_of_index(x.registries_not_allowed@, 0);
    } else if x.tags_not_allowed@.len() > 0 {
        lemma_set_of_index(x.tags_not_allowed@, 0);
    } else {
        lemma_set_of_index(x.images_not_allowed@, 0);
    }
}

/// Judges every image and folds the outcomes into one verdict.
pub fn validate_images(images: &Vec<String>, settings: &Settings) -> (result: PodSpecValidationResult)
    ensures
        outcome_matches(set_of(images@), *settings, result),
{
    let ghost s = *settings;
    let ghost fr = |raw: Seq<char>| registry_reason(raw, s);
    let ghost ft = |raw: Seq<char>| tag_reason(raw, s);
    let ghost fi = |raw: Seq<char>| image_reason(raw, s);
    let mut r = PodRejectionReasons {
        registries_not_allowed: Vec::new(),
        tags_not_allowed: Vec::new(),
        images_not_allowed: Vec::new(),
    };
    proof {
        assert(set_of(r.registries_not_allowed@) =~= Set::empty());
        assert(set_of(r.tags_not_allowed@) =~= Set::empty());
        assert(set_of(r.images_not_allowed@) =~= Set::empty());
        assert(set_of(images@.take(0)) =~= Set::empty());
        assert(reasons(Set::empty(), fr) =~= Set::empty());
        assert(reasons(Set::empty(), ft) =~= Set::empty());
        assert(reasons(Set::empty(), fi) =~= Set::empty());
    }
    let mut i: usize = 0;
    while i < images.len()
        invariant
            i <= images@.len(),
            s == *settings,
            fr == (|raw: Seq<char>| registry_reason(raw, s)),
            ft == (|raw: Seq<char>| tag_reason(raw, s)),
            fi == (|raw: Seq<char>| image_reason(raw, s)),
            r.wf(),
            set_of(r.registries_not_allowed@) == reasons(set_of(images@.take(i as int)), fr),
            set_of(r.tags_not_allowed@) == reasons(set_of(images@.take(i as int)), ft),
            set_of(r.images_not_allowed@) == reasons(set_of(images@.take(i as int)), fi),
        decreases images@.len() - i,
    {
        let raw = &images[i];
        proof {
            assert(images@.take(i + 1) =~= images@.take(i as int).push(*raw));
            lemma_set_of_push(images@.take(i as int), *raw);
            lemma_reasons_insert(set_of(images@.take(i as int)), raw@, fr);
            lemma_reasons_insert(set_of(images@.take(i as int)), raw@, ft);
            lemma_reasons_insert(set_of(images@.take(i as int)), raw@, fi);
        }
        match ImageRef::parse(raw.as_str()) {
            Ok(image_ref) => {
                let e = evaluate(&image_ref, settings);
                if !e.registry_ok {
                    insert_sorted(&mut r.registries_not_allowed, image_ref.registry.clone());
                }
                if !e.tag_ok {
                    let tag = match image_ref.tag() {
                        Some(t) => String::from_str(t),
                        None => {
                            proof {
                                reveal_strlit("latest");
                                assert("latest"@ =~= effective_tag(image_ref@));
                            }
                            String::from_str("latest")
                        },
                    };
                    insert_sorted(&mut r.tags_not_allowed, tag);
                }
                if !e.image_ok {
                    insert_sorted(&mut r.images_not_allowed, raw.clone());
                }
            },
            Err(_) => {},
        }
        i = i + 1;
    }
    assert(images@.take(images@.len() as int) =~= images@);
    if r.is_empty() {
        proof {
            assert(set_of(r.registries_not_allowed@) =~= Set::empty());
            assert(set_of(r.tags_not_allowed@) =~= Set::empty());
            assert(set_of(r.images_not_allowed@) =~= Set::empty());
        }
        PodSpecValidationResult::Allowed
    } else {
        proof {
            if r.registries_not_allowed@.len() > 0 {
                lemma_set_of_index(r.registries_not_allowed@, 0);
            }
            if r.tags_not_allowed@.len() > 0 {
                lemma_set_of_index(r.tags_not_allowed@, 0);
            }
            if r.images_not_allowed@.len() > 0 {
                lemma_set_of_index(r.images_not_allowed@, 0);
            }
        }
        PodSpecValidationResult::NotAllowed(r)
    }
}

} // verus!
