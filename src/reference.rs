//! Image references: a registry host, a repository path, and an optional
//! tag and content digest. Parsing is done by the OCI distribution grammar
//! of `oci_spec`.

use vstd::prelude::*;

use crate::text::str_equal;

verus! {

/// The registry that a reference without an explicit host resolves to.
pub open spec fn docker_hub() -> Seq<char> {
    seq!['d', 'o', 'c', 'k', 'e', 'r', '.', 'i', 'o']
}

/// The legacy name of the default registry, which the parser rewrites.
pub open spec fn docker_hub_legacy() -> Seq<char> {
    seq!['i', 'n', 'd', 'e', 'x', '.'] + docker_hub()
}

/// The tag that stands for a reference that names neither tag nor digest.
pub open spec fn latest() -> Seq<char> {
    seq!['l', 'a', 't', 'e', 's', 't']
}

/// The separator in front of a SHA-256 digest.
pub open spec fn sha256_marker() -> Seq<char> {
    seq!['@', 's', 'h', 'a', '2', '5', '6', ':']
}

pub open spec fn is_hex_digit(c: char) -> bool {
    ('0' <= c <= '9') || ('a' <= c <= 'f') || ('A' <= c <= 'F')
}

/// Exactly 64 hexadecimal digits.
pub open spec fn is_sha256_hex(h: Seq<char>) -> bool {
    h.len() == 64 && forall|i: int| 0 <= i < h.len() ==> is_hex_digit(#[trigger] h[i])
}

/// `s` names a SHA-256 digest whose hexadecimal part is not 64 hex digits.
pub open spec fn malformed_sha256_digest(s: Seq<char>) -> bool {
    exists|i: int|
        0 <= i && i + 8 <= s.len() && #[trigger] s.subrange(i, i + 8) == sha256_marker()
            && !is_sha256_hex(s.skip(i + 8))
}

/// The mathematical value of an image reference.
pub struct ImageRefView {
    pub registry: Seq<char>,
    pub repository: Seq<char>,
    pub tag: Option<Seq<char>>,
    pub digest: Option<Seq<char>>,
}

pub open spec fn opt_view(o: Option<String>) -> Option<Seq<char>> {
    match o {
        Some(s) => Some(s@),
        None => None,
    }
}

/// The tag that matching uses: the explicit one, else `latest`.
pub open spec fn effective_tag(r: ImageRefView) -> Seq<char> {
    match r.tag {
        Some(t) => t,
        None => latest(),
    }
}

/// The written form of a reference: `registry/repository:tag@digest`, each
/// separator standing only where something came before it.
pub open spec fn canonical(r: ImageRefView) -> Seq<char> {
    let head = if r.registry.len() > 0 && r.repository.len() > 0 {
        r.registry + seq!['/'] + r.repository
    } else {
        r.registry + r.repository
    };
    let with_tag = match r.tag {
        Some(t) => if head.len() > 0 {
            head + seq![':'] + t
        } else {
            t
        },
        None => head,
    };
    match r.digest {
        Some(d) => if head.len() > 0 || r.tag is Some {
            with_tag + seq!['@'] + d
        } else {
            d
        },
        None => with_tag,
    }
}

/// What the OCI reference grammar makes of `s`: `None` where it refuses it.
pub uninterp spec fn parsed_reference(s: Seq<char>) -> Option<ImageRefView>;

/// What the parser's source plainly shows of its result `r` on input `s`.
/// In its regular expression neither the name nor the tag holds `@`, the tag
/// and the digest hold no `/`, and a `:` inside the name only ends a
/// `host:port/` prefix.
pub open spec fn reference_facts(s: Seq<char>, r: Option<ImageRefView>) -> bool {
    // An empty string is refused outright.
    &&& (s.len() == 0 ==> r is None)
    // After the only `@` come `sha256:` and hex digits, whose count must be 64.
    &&& (malformed_sha256_digest(s) ==> r is None)
    &&& (r matches Some(v) ==> {
        // The registry is `docker.io` or a first segment with `.` or `:`;
        // the repository ends in a non-empty path component.
        &&& v.registry.len() > 0
        &&& v.repository.len() > 0
        &&& !v.repository.contains('@')
        // `latest` is filled in where neither tag nor digest is given.
        &&& (v.tag is Some || v.digest is Some)
        // Without `/` the name has no registry segment.
        &&& (!s.contains('/') ==> v.registry == docker_hub())
        &&& (!s.contains('@') ==> v.digest is None)
        &&& (!s.contains('@') && !s.contains(':') ==> v.tag == Some(latest()))
        // The first `/` of the string is the first `/` of the name.
        &&& forall|h: Seq<char>, rest: Seq<char>|
            #![trigger h + seq!['/'] + rest]
            s == h + seq!['/'] + rest && !h.contains('/') && (h.contains('.') || h.contains(
                ':',
            )) && h != docker_hub_legacy() ==> v.registry == h
        // A last `:` with no `/` after it starts the tag.
        &&& forall|p: Seq<char>, t: Seq<char>|
            #![trigger p + seq![':'] + t]
            s == p + seq![':'] + t && !s.contains('@') && !t.contains(':') && !t.contains('/')
                ==> v.tag == Some(t)
    })
}

/// `s` parses to `r`, with all that the parser shows of such a result.
pub open spec fn parses_to(s: Seq<char>, r: ImageRefView) -> bool {
    parsed_reference(s) == Some(r) && reference_facts(s, Some(r))
}

proof fn lemma_no_char(s: Seq<char>, c: char)
    requires
        forall|i: int| 0 <= i < s.len() ==> s[i] != c,
    ensures
        !s.contains(c),
{
}

/// A name that gives no registry, tag or digest resolves to the default
/// registry and the tag `latest`; its written form, parsed again, keeps that
/// registry and that tag.
pub proof fn lemma_implicit_defaults_round_trip(s: Seq<char>, r: ImageRefView, back: ImageRefView)
    requires
        !s.contains('/'),
        !s.contains(':'),
        !s.contains('@'),
        parses_to(s, r),
        parses_to(canonical(r), back),
    ensures
        r.registry == docker_hub(),
        r.tag == Some(latest()),
        r.digest is None,
        back.registry == r.registry,
        back.tag == r.tag,
        back.digest == r.digest,
{
    let c = canonical(r);
    let h = docker_hub();
    let rest = r.repository + seq![':'] + latest();
    let p = h + seq!['/'] + r.repository;
    assert(c =~= h + seq!['/'] + rest);
    assert(c =~= p + seq![':'] + latest());
    lemma_no_char(h, '/');
    lemma_no_char(h, '@');
    lemma_no_char(latest(), ':');
    lemma_no_char(latest(), '/');
    lemma_no_char(latest(), '@');
    assert(h[6] == '.');
    assert(h.contains('.'));
    assert(h.len() != docker_hub_legacy().len());
    assert forall|i: int| 0 <= i < c.len() implies c[i] != '@' by {
        if 10 <= i < 10 + r.repository.len() {
            assert(c[i] == r.repository[i - 10]);
        } else if i >= 11 + r.repository.len() {
            assert(c[i] == latest()[i - 11 - r.repository.len()]);
        }
    }
    lemma_no_char(c, '@');
}

/// A container image reference, as the OCI reference grammar splits it.
#[derive(Debug)]
pub struct ImageRef {
    pub registry: String,
    pub repository: String,
    pub tag: Option<String>,
    pub digest: Option<String>,
}

impl View for ImageRef {
    type V = ImageRefView;

    open spec fn view(&self) -> ImageRefView {
        ImageRefView {
            registry: self.registry@,
            repository: self.repository@,
            tag: opt_view(self.tag),
            digest: opt_view(self.digest),
        }
    }
}

/// An image string that the reference grammar refuses.
#[derive(Debug)]
pub struct ReferenceError {
    pub input: String,
    pub cause: oci_spec::distribution::ParseError,
}

#[verifier::external_type_specification]
#[verifier::external_body]
pub struct ExReferenceParseError(oci_spec::distribution::ParseError);

pub open spec fn ok_view(r: Result<ImageRef, oci_spec::distribution::ParseError>) -> Option<
    ImageRefView,
> {
    match r {
        Ok(v) => Some(v@),
        Err(_) => None,
    }
}

/// Relies on `oci_spec::distribution::Reference::from_str`, which matches the
/// OCI reference regular expression, fills in `latest` where neither tag nor
/// digest is given, splits the registry off the name (`docker.io`, with the
/// `library/` namespace for single names, where the first path segment holds
/// no `.` or `:` and is not `localhost`) and checks the digest length.
#[verifier::external_body]
fn reference_from_str(s: &str) -> (r: Result<ImageRef, oci_spec::distribution::ParseError>)
    ensures
        ok_view(r) == parsed_reference(s@),
        reference_facts(s@, ok_view(r)),
{
    match <oci_spec::distribution::Reference as std::str::FromStr>::from_str(s) {
        Ok(r) => Ok(ImageRef {
            registry: r.registry().to_owned(),
            repository: r.repository().to_owned(),
            tag: r.tag().map(str::to_owned),
            digest: r.digest().map(str::to_owned),
        }),
        Err(e) => Err(e),
    }
}

pub fn clone_opt(o: &Option<String>) -> (r: Option<String>)
    ensures
        opt_view(r) == opt_view(*o),
{
    match o {
        Some(s) => Some(s.clone()),
        None => None,
    }
}

fn opt_equal(a: &Option<String>, b: &Option<String>) -> (r: bool)
    ensures
        r == (opt_view(*a) == opt_view(*b)),
{
    match (a, b) {
        (Some(x), Some(y)) => str_equal(x.as_str(), y.as_str()),
        (None, None) => true,
        _ => false,
    }
}

impl ImageRef {
    /// Builds a reference from its parts, as they are.
    pub fn new(registry: String, repository: String, tag: Option<String>, digest: Option<String>) -> (r: ImageRef)
        ensures
            r@ == (ImageRefView {
                registry: registry@,
                repository: repository@,
                tag: opt_view(tag),
                digest: opt_view(digest),
            }),
    {
        ImageRef { registry, repository, tag, digest }
    }

    /// Parses an image string. A malformed SHA-256 digest is always refused.
    pub fn parse(s: &str) -> (r: Result<ImageRef, ReferenceError>)
        ensures
            r is Ok <==> parsed_reference(s@) is Some,
            r matches Ok(v) ==> parsed_reference(s@) == Some(v@),
            r matches Err(e) ==> e.input@ == s@,
            malformed_sha256_digest(s@) ==> r is Err,
            s@.len() == 0 ==> r is Err,
            r matches Ok(v) ==> parses_to(s@, v@),
    {
        match reference_from_str(s) {
            Ok(v) => Ok(v),
            Err(cause) => Err(ReferenceError { input: s.to_owned(), cause }),
        }
    }

    pub fn registry(&self) -> (r: &str)
        ensures
            r@ == self@.registry,
    {
        self.registry.as_str()
    }

    pub fn repository(&self) -> (r: &str)
        ensures
            r@ == self@.repository,
    {
        self.repository.as_str()
    }

    pub fn tag(&self) -> (r: Option<&str>)
        ensures
            r matches Some(t) ==> self@.tag == Some(t@),
            r is None ==> self@.tag is None,
    {
        match &self.tag {
            Some(t) => Some(t.as_str()),
            None => None,
        }
    }

    pub fn digest(&self) -> (r: Option<&str>)
        ensures
            r matches Some(d) ==> self@.digest == Some(d@),
            r is None ==> self@.digest is None,
    {
        match &self.digest {
            Some(d) => Some(d.as_str()),
            None => None,
        }
    }

    /// The written form `registry/repository:tag@digest`.
    pub fn whole(&self) -> (r: String)
        ensures
            r@ == canonical(self@),
    {
        let mut r = self.registry.clone();
        if self.registry.unicode_len() > 0 && self.repository.unicode_len() > 0 {
            r.append("/");
        }
        r.append(self.repository.as_str());
        let head_empty = r.unicode_len() == 0;
        proof {
            reveal_strlit("/");
        }
        if let Some(t) = &self.tag {
            if !head_empty {
                r.append(":");
            }
            r.append(t.as_str());
        }
        if let Some(d) = &self.digest {
            if !head_empty || self.tag.is_some() {
                r.append("@");
            }
            r.append(d.as_str());
        }
        proof {
            reveal_strlit(":");
            reveal_strlit("@");
        }
        r
    }
}

impl Clone for ImageRef {
    fn clone(&self) -> (r: ImageRef)
        ensures
            r@ == self@,
    {
        ImageRef {
            registry: self.registry.clone(),
            repository: self.repository.clone(),
            tag: clone_opt(&self.tag),
            digest: clone_opt(&self.digest),
        }
    }
}

impl PartialEq for ImageRef {
    fn eq(&self, other: &ImageRef) -> (r: bool)
        ensures
            r == (self@ == other@),
    {
        str_equal(self.registry.as_str(), other.registry.as_str())
            && str_equal(self.repository.as_str(), other.repository.as_str())
            && opt_equal(&self.tag, &other.tag)
            && opt_equal(&self.digest, &other.digest)
    }
}

impl vstd::std_specs::cmp::PartialEqSpecImpl for ImageRef {
    open spec fn obeys_eq_spec() -> bool {
        true
    }

    open spec fn eq_spec(&self, other: &ImageRef) -> bool {
        self@ == other@
    }
}

impl Eq for ImageRef {
}

} // verus!
