//! The policy: registry, tag and image allow/reject lists, and the checks
//! that a policy must pass before any workload is judged against it.

use vstd::prelude::*;

use crate::reference::{parsed_reference, ImageRef, ImageRefView};
use crate::text::{join, join_strs, set_of, views_of};

verus! {

/// Registry hosts to allow or to reject; at most one of the lists is used.
#[derive(Debug)]
pub struct Registries {
    pub allow: Vec<String>,
    pub reject: Vec<String>,
}

/// Tags to reject.
#[derive(Debug)]
pub struct Tags {
    pub reject: Vec<String>,
}

/// Image references to allow or to reject; at most one of the lists is used.
#[derive(Debug)]
pub struct Images {
    pub allow: Vec<ImageRef>,
    pub reject: Vec<ImageRef>,
}

/// The whole policy.
#[derive(Debug)]
pub struct Settings {
    pub registries: Registries,
    pub tags: Tags,
    pub images: Images,
}

impl Default for Registries {
    fn default() -> (r: Registries)
        ensures
            r.allow@.len() == 0,
            r.reject@.len() == 0,
    {
        Registries { allow: Vec::new(), reject: Vec::new() }
    }
}

impl Default for Tags {
    fn default() -> (r: Tags)
        ensures
            r.reject@.len() == 0,
    {
        Tags { reject: Vec::new() }
    }
}

impl Default for Images {
    fn default() -> (r: Images)
        ensures
            r.allow@.len() == 0,
            r.reject@.len() == 0,
    {
        Images { allow: Vec::new(), reject: Vec::new() }
    }
}

impl Default for Settings {
    /// The empty policy, which lets everything through.
    fn default() -> (r: Settings)
        ensures
            r.registries.allow@.len() == 0,
            r.registries.reject@.len() == 0,
            r.tags.reject@.len() == 0,
            r.images.allow@.len() == 0,
            r.images.reject@.len() == 0,
    {
        Settings { registries: Registries::default(), tags: Tags::default(), images: Images::default() }
    }
}

/// The set of references that a list holds.
pub open spec fn ref_set(v: Seq<ImageRef>) -> Set<ImageRefView> {
    v.map_values(|r: ImageRef| r@).to_set()
}

pub open spec fn registries_message() -> Seq<char> {
    "only one of registries allow or reject can be provided"@
}

pub open spec fn images_message() -> Seq<char> {
    "only one of images allow or reject can be provided"@
}

/// What `registries` is found wrong with, if anything.
pub open spec fn registries_error(r: Registries) -> Option<Seq<char>> {
    if r.allow@.len() > 0 && r.reject@.len() > 0 {
        Some(registries_message())
    } else {
        None
    }
}

/// What `images` is found wrong with, if anything.
pub open spec fn images_error(i: Images) -> Option<Seq<char>> {
    if i.allow@.len() > 0 && i.reject@.len() > 0 {
        Some(images_message())
    } else {
        None
    }
}

/// The reference that a tag is checked through: `hello:<tag>`.
pub open spec fn tag_probe(tag: Seq<char>) -> Seq<char> {
    "hello:"@ + tag
}

/// The tags, in order, that do not make a valid reference as `hello:<tag>`.
pub open spec fn invalid_tags(tags: Seq<Seq<char>>) -> Seq<Seq<char>>
    decreases tags.len(),
{
    if tags.len() == 0 {
        Seq::empty()
    } else {
        let before = invalid_tags(tags.drop_last());
        if parsed_reference(tag_probe(tags.last())) is None {
            before.push(tags.last())
        } else {
            before
        }
    }
}

/// How `Debug` writes a string: quoted, with escapes.
pub uninterp spec fn debug_quoted(s: Seq<char>) -> Seq<char>;

/// `Debug` of a list of strings: `["a", "b"]`.
pub open spec fn debug_list(items: Seq<Seq<char>>) -> Seq<char> {
    "["@ + join(items.map_values(|s: Seq<char>| debug_quoted(s)), ", "@) + "]"@
}

pub open spec fn tags_message(invalid: Seq<Seq<char>>) -> Seq<char> {
    "tags "@ + debug_list(invalid) + " are invalid, they must be valid OCI tags"@
}

/// What `tags` is found wrong with, if anything.
pub open spec fn tags_error(t: Tags) -> Option<Seq<char>> {
    let invalid = invalid_tags(views_of(t.reject@));
    if invalid.len() > 0 {
        Some(tags_message(invalid))
    } else {
        None
    }
}

/// The problems of a policy, in the order registries, images, tags.
pub open spec fn settings_errors(s: Settings) -> Seq<Seq<char>> {
    let r = match registries_error(s.registries) {
        Some(m) => seq![m],
        None => Seq::empty(),
    };
    let i = match images_error(s.images) {
        Some(m) => seq![m],
        None => Seq::empty(),
    };
    let t = match tags_error(s.tags) {
        Some(m) => seq![m],
        None => Seq::empty(),
    };
    r + i + t
}

/// Relies on `<str as Debug>::fmt`, through `format!("{:?}")`, for the
/// quoted and escaped form of a string.
#[verifier::external_body]
fn debug_str(s: &str) -> (r: String)
    ensures
        r@ == debug_quoted(s@),
{
    format!("{:?}", s)
}

impl Registries {
    /// The allow and reject lists may not both be non-empty.
    pub fn validate(&self) -> (r: Result<(), String>)
        ensures
            r is Ok <==> registries_error(*self) is None,
            r matches Err(m) ==> registries_error(*self) == Some(m@),
    {
        if self.allow.len() > 0 && self.reject.len() > 0 {
            return Err(String::from_str("only one of registries allow or reject can be provided"));
        }
        Ok(())
    }
}

impl Images {
    /// The allow and reject lists may not both be non-empty.
    pub fn validate(&self) -> (r: Result<(), String>)
        ensures
            r is Ok <==> images_error(*self) is None,
            r matches Err(m) ==> images_error(*self) == Some(m@),
    {
        if self.allow.len() > 0 && self.reject.len() > 0 {
            return Err(String::from_str("only one of images allow or reject can be provided"));
        }
        Ok(())
    }
}

/// Whether `tag` makes a valid reference as `hello:<tag>`.
pub fn is_valid_tag(tag: &str) -> (r: bool)
    ensures
        r == parsed_reference(tag_probe(tag@)) is Some,
{
    let mut probe = String::from_str("hello:");
    probe.append(tag);
    ImageRef::parse(probe.as_str()).is_ok()
}

impl Tags {
    /// Every rejected tag must be a valid OCI tag.
    pub fn validate(&self) -> (r: Result<(), String>)
        ensures
            r is Ok <==> tags_error(*self) is None,
            r matches Err(m) ==> tags_error(*self) == Some(m@),
    {
        let mut invalid: Vec<String> = Vec::new();
        let mut i: usize = 0;
        while i < self.reject.len()
            invariant
                i <= self.reject@.len(),
                views_of(invalid@) == invalid_tags(views_of(self.reject@).take(i as int)),
            decreases self.reject@.len() - i,
        {
            let ghost before = views_of(self.reject@).take(i as int);
            if !is_valid_tag(self.reject[i].as_str()) {
                invalid.push(self.reject[i].clone());
            }
            proof {
                let after = views_of(self.reject@).take(i + 1);
                assert(after.drop_last() =~= before);
                assert(views_of(invalid@) =~= invalid_tags(after));
            }
            i = i + 1;
        }
        assert(views_of(self.reject@).take(self.reject@.len() as int) =~= views_of(self.reject@));
        if invalid.len() == 0 {
            return Ok(());
        }
        let mut quoted: Vec<String> = Vec::new();
        let mut j: usize = 0;
        while j < invalid.len()
            invariant
                j <= invalid@.len(),
                quoted@.len() == j,
                views_of(quoted@) =~= views_of(invalid@).take(j as int).map_values(
                    |s: Seq<char>| debug_quoted(s),
                ),
            decreases invalid@.len() - j,
        {
            let q = debug_str(invalid[j].as_str());
            let ghost prev = quoted@;
            quoted.push(q);
            proof {
                let want = views_of(invalid@).take(j + 1).map_values(|s: Seq<char>| debug_quoted(s));
                assert forall|k: int| 0 <= k < want.len() implies views_of(quoted@)[k] == want[k] by {
                    let old_want = views_of(invalid@).take(j as int).map_values(
                        |s: Seq<char>| debug_quoted(s),
                    );
                    if k < j {
                        assert(quoted@[k] == prev[k]);
                        assert(views_of(prev)[k] == old_want[k]);
                        assert(old_want[k] == debug_quoted(invalid@[k]@));
                    } else {
                        assert(quoted@[k]@ == debug_quoted(invalid@[k]@));
                    }
                }
                assert(views_of(quoted@) =~= want);
            }
            j = j + 1;
        }
        assert(views_of(invalid@).take(invalid@.len() as int) =~= views_of(invalid@));
        let mut m = String::from_str("tags [");
        m.append(join_strs(&quoted, ", ").as_str());
        m.append("] are invalid, they must be valid OCI tags");
        proof {
            reveal_strlit("tags [");
            reveal_strlit("tags ");
            reveal_strlit("[");
            reveal_strlit("]");
            reveal_strlit("] are invalid, they must be valid OCI tags");
            reveal_strlit(" are invalid, they must be valid OCI tags");
            assert(m@ =~= tags_message(views_of(invalid@)));
        }
        Err(m)
    }
}

impl Settings {
    /// Runs every check and reports all problems at once, joined by `, `.
    pub fn validate(&self) -> (r: Result<(), String>)
        ensures
            r is Ok <==> settings_errors(*self).len() == 0,
            r matches Err(m) ==> m@ == join(settings_errors(*self), ", "@),
    {
        let mut errors: Vec<String> = Vec::new();
        match self.registries.validate() {
            Err(m) => errors.push(m),
            Ok(()) => {},
        }
        match self.images.validate() {
            Err(m) => errors.push(m),
            Ok(()) => {},
        }
        match self.tags.validate() {
            Err(m) => errors.push(m),
            Ok(()) => {},
        }
        assert(views_of(errors@) =~= settings_errors(*self));
        if errors.len() == 0 {
            return Ok(());
        }
        Err(join_strs(&errors, ", "))
    }
}

} // verus!
