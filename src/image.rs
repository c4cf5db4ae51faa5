//! A loose image-string splitter: optional `host[:port]/` path prefix, a
//! name, an optional `:tag` and an optional `@sha256:<64 hex>` digest. The
//! host comes from reading the string as a `registry://` URL.

use vstd::prelude::*;

use crate::reference::{docker_hub, is_hex_digit, is_sha256_hex, opt_view};

verus! {

/// Length of the longest prefix of `x` holding neither `a` nor `b`.
pub open spec fn run_len(x: Seq<char>, a: char, b: char) -> nat
    decreases x.len(),
{
    if x.len() == 0 || x[0] == a || x[0] == b {
        0
    } else {
        1 + run_len(x.drop_first(), a, b)
    }
}

/// The parts that the grammar captures.
pub struct ImageParts {
    pub name: Seq<char>,
    pub tag: Option<Seq<char>>,
    pub sha256: Option<Seq<char>>,
}

/// The optional digest suffix: nothing, or `@sha256:` and 64 hex digits.
pub open spec fn digest_part(x: Seq<char>) -> Option<Option<Seq<char>>> {
    if x.len() == 0 {
        Some(None)
    } else if x.len() == 72 && x.take(8) == seq!['@', 's', 'h', 'a', '2', '5', '6', ':']
        && is_sha256_hex(x.skip(8)) {
        Some(Some(x.skip(8)))
    } else {
        None
    }
}

/// `name[:tag][@sha256:digest]`, the name free of `:` and `@`, the tag free
/// of `@`, both non-empty.
pub open spec fn tail_parts(x: Seq<char>) -> Option<ImageParts> {
    let n = run_len(x, ':', '@') as int;
    let rest = x.skip(n);
    if n == 0 {
        None
    } else if rest.len() > 0 && rest[0] == ':' {
        let t = run_len(rest.skip(1), '@', '@') as int;
        if t == 0 {
            None
        } else {
            match digest_part(rest.skip(1 + t)) {
                Some(d) => Some(ImageParts { name: x.take(n), tag: Some(rest.skip(1).take(t)), sha256: d }),
                None => None,
            }
        }
    } else {
        match digest_part(rest) {
            Some(d) => Some(ImageParts { name: x.take(n), tag: None, sha256: d }),
            None => None,
        }
    }
}

/// Leading non-empty `segment/` pieces, as many as leave a tail that the
/// tail grammar accepts, preferring more.
pub open spec fn chain_parts(x: Seq<char>) -> Option<ImageParts>
    decreases x.len(),
{
    let k = run_len(x, '/', '/') as int;
    if 0 < k < x.len() {
        match chain_parts(x.skip(k + 1)) {
            Some(p) => Some(p),
            None => tail_parts(x),
        }
    } else {
        tail_parts(x)
    }
}

pub open spec fn scheme() -> Seq<char> {
    seq!['r', 'e', 'g', 'i', 's', 't', 'r', 'y', ':', '/', '/']
}

/// What the grammar captures of an image string: with a `/` anywhere, an
/// optional `registry://` and path segments come first.
pub open spec fn image_parts(s: Seq<char>) -> Option<ImageParts> {
    if !s.contains('/') {
        tail_parts(s)
    } else if s.len() >= 11 && s.take(11) == scheme() {
        match chain_parts(s.skip(11)) {
            Some(p) => Some(p),
            None => chain_parts(s),
        }
    } else {
        chain_parts(s)
    }
}

/// Decimal digits.
pub open spec fn digits() -> Seq<char> {
    seq!['0', '1', '2', '3', '4', '5', '6', '7', '8', '9']
}

/// The decimal form of `n`, without leading zeros.
pub open spec fn decimal(n: nat) -> Seq<char>
    decreases n,
{
    if n < 10 {
        seq![digits()[n as int]]
    } else {
        decimal(n / 10) + seq![digits()[(n % 10) as int]]
    }
}

/// The host and port of `s` read as a URL: `None` where it is none, or has
/// no host.
pub uninterp spec fn url_host_port(s: Seq<char>) -> Option<(Seq<char>, Option<u16>)>;

/// The registry of an image string: `docker.io` without a `/`, else the
/// `host[:port]` of `registry://<s>` read as a URL.
pub open spec fn registry_of(s: Seq<char>) -> Option<Seq<char>> {
    if !s.contains('/') {
        Some(docker_hub())
    } else {
        match url_host_port(scheme() + s) {
            Some((h, Some(p))) => Some(h + seq![':'] + decimal(p as nat)),
            Some((h, None)) => Some(h),
            None => None,
        }
    }
}

/// An image string split into its parts.
#[derive(Debug)]
pub struct Image {
    pub image: String,
    pub registry: Option<String>,
    pub name: String,
    pub tag: Option<String>,
    pub sha256: Option<String>,
}

/// An image string that the grammar refuses.
#[derive(Debug)]
pub struct ImageError {
    pub input: String,
}

/// `registry/name:tag@sha256:digest`, each part only where it is present.
pub open spec fn image_text(
    registry: Option<Seq<char>>,
    name: Seq<char>,
    tag: Option<Seq<char>>,
    sha256: Option<Seq<char>>,
) -> Seq<char> {
    let r = match registry {
        Some(r) => r + seq!['/'],
        None => Seq::empty(),
    };
    let t = match tag {
        Some(t) => seq![':'] + t,
        None => Seq::empty(),
    };
    let d = match sha256 {
        Some(d) => seq!['@', 's', 'h', 'a', '2', '5', '6', ':'] + d,
        None => Seq::empty(),
    };
    r + name + t + d
}

/// Relies on `url::Url::parse`, `Url::host` and `Url::port`: the host of the
/// URL `s`, written out, and its port; `None` where `s` does not parse as a
/// URL or has no host.
#[verifier::external_body]
fn url_authority(s: &str) -> (r: Option<(String, Option<u16>)>)
    ensures
        match r {
            Some((h, p)) => url_host_port(s@) == Some((h@, p)),
            None => url_host_port(s@) is None,
        },
{
    let url = url::Url::parse(s).ok()?;
    let host = match url.host()? {
        url::Host::Domain(d) => d.to_owned(),
        url::Host::Ipv4(a) => a.to_string(),
        url::Host::Ipv6(a) => a.to_string(),
    };
    Some((host, url.port()))
}

proof fn lemma_run_len_step(x: Seq<char>, i: int, a: char, b: char)
    requires
        0 <= i < x.len(),
        x[i] != a,
        x[i] != b,
    ensures
        run_len(x.skip(i), a, b) == 1 + run_len(x.skip(i + 1), a, b),
{
    assert(x.skip(i).drop_first() =~= x.skip(i + 1));
}

proof fn lemma_run_len_bound(x: Seq<char>, a: char)
    ensures
        run_len(x, a, a) <= x.len(),
        run_len(x, a, a) < x.len() ==> x[run_len(x, a, a) as int] == a,
        run_len(x, a, a) == x.len() ==> !x.contains(a),
    decreases x.len(),
{
    if x.len() > 0 && x[0] != a {
        lemma_run_len_bound(x.drop_first(), a);
        if run_len(x, a, a) == x.len() {
            assert forall|i: int| 0 <= i < x.len() implies x[i] != a by {
                if i > 0 {
                    assert(x[i] == x.drop_first()[i - 1]);
                }
            }
        }
    }
}

/// The end of the run from `i` that holds neither `a` nor `b`.
fn scan(s: &str, n: usize, i: usize, a: char, b: char) -> (j: usize)
    requires
        n == s@.len(),
        i <= n,
    ensures
        j == i + run_len(s@.skip(i as int), a, b),
        j <= n,
{
    let mut j: usize = i;
    while j < n
        invariant
            n == s@.len(),
            i <= j <= n,
            run_len(s@.skip(i as int), a, b) == (j - i) + run_len(s@.skip(j as int), a, b),
        decreases n - j,
    {
        let c = s.get_char(j);
        if c == a || c == b {
            assert(s@.skip(j as int)[0] == c);
            return j;
        }
        proof {
            lemma_run_len_step(s@, j as int, a, b);
        }
        j = j + 1;
    }
    assert(s@.skip(n as int).len() == 0);
    j
}

/// Whether the characters of `s` from `i` on start with `lit`.
fn has_at(s: &str, n: usize, i: usize, lit: &str) -> (r: bool)
    requires
        n == s@.len(),
        i <= n,
    ensures
        r == (i + lit@.len() <= n && s@.subrange(i as int, i + lit@.len()) == lit@),
{
    let m = lit.unicode_len();
    if m > n - i {
        return false;
    }
    let mut k: usize = 0;
    while k < m
        invariant
            n == s@.len(),
            m == lit@.len(),
            i + m <= n,
            k <= m,
            forall|j: int| 0 <= j < k ==> s@[i + j] == lit@[j],
        decreases m - k,
    {
        if s.get_char(i + k) != lit.get_char(k) {
            assert(s@.subrange(i as int, i + m)[k as int] != lit@[k as int]);
            return false;
        }
        k = k + 1;
    }
    assert(s@.subrange(i as int, i + m) =~= lit@);
    true
}

fn is_hex(c: char) -> (r: bool)
    ensures
        r == is_hex_digit(c),
{
    ('0' <= c && c <= '9') || ('a' <= c && c <= 'f') || ('A' <= c && c <= 'F')
}

pub open spec fn opt2_view(o: Option<Option<String>>) -> Option<Option<Seq<char>>> {
    match o {
        Some(x) => Some(opt_view(x)),
        None => None,
    }
}

/// The digest suffix from `i` on.
fn digest_at(s: &str, n: usize, i: usize) -> (r: Option<Option<String>>)
    requires
        n == s@.len(),
        i <= n,
    ensures
        opt2_view(r) == digest_part(s@.skip(i as int)),
{
    let ghost x = s@.skip(i as int);
    if i == n {
        return Some(None);
    }
    proof {
        reveal_strlit("@sha256:");
        assert("@sha256:"@ =~= seq!['@', 's', 'h', 'a', '2', '5', '6', ':']);
    }
    if n - i != 72 || !has_at(s, n, i, "@sha256:") {
        assert(n - i != 72 || x.take(8) != seq!['@', 's', 'h', 'a', '2', '5', '6', ':']) by {
            if n - i == 72 {
                assert(x.take(8) =~= s@.subrange(i as int, i + 8));
            }
        };
        return None;
    }
    assert(x.take(8) =~= s@.subrange(i as int, i + 8));
    let mut k: usize = i + 8;
    while k < n
        invariant
            n == s@.len(),
            i + 8 <= k <= n,
            x == s@.skip(i as int),
            forall|j: int| 0 <= j < k - i - 8 ==> is_hex_digit(#[trigger] x.skip(8)[j]),
        decreases n - k,
    {
        if !is_hex(s.get_char(k)) {
            assert(x.skip(8)[k - i - 8] == s@[k as int]);
            return None;
        }
        assert(x.skip(8)[k - i - 8] == s@[k as int]);
        k = k + 1;
    }
    let d = s.substring_char(i + 8, n).to_owned();
    assert(d@ =~= x.skip(8));
    assert(is_sha256_hex(x.skip(8)));
    Some(Some(d))
}

pub open spec fn parts_view(r: Option<(String, Option<String>, Option<String>)>) -> Option<ImageParts> {
    match r {
        Some((name, tag, sha)) => Some(ImageParts { name: name@, tag: opt_view(tag), sha256: opt_view(sha) }),
        None => None,
    }
}

/// `name[:tag][@sha256:digest]` from `i` to the end.
fn tail_at(s: &str, n: usize, i: usize) -> (r: Option<(String, Option<String>, Option<String>)>)
    requires
        n == s@.len(),
        i <= n,
    ensures
        parts_view(r) == tail_parts(s@.skip(i as int)),
{
    let ghost x = s@.skip(i as int);
    let e = scan(s, n, i, ':', '@');
    if e == i {
        return None;
    }
    let ghost rest = x.skip(e - i);
    assert(rest =~= s@.skip(e as int));
    let name = s.substring_char(i, e).to_owned();
    assert(name@ =~= x.take(e - i));
    if e < n && s.get_char(e) == ':' {
        assert(rest.skip(1) =~= s@.skip(e + 1));
        let t_end = scan(s, n, e + 1, '@', '@');
        if t_end == e + 1 {
            return None;
        }
        assert(rest.skip(1 + (t_end - e - 1)) =~= s@.skip(t_end as int));
        let tag = s.substring_char(e + 1, t_end).to_owned();
        assert(tag@ =~= rest.skip(1).take(t_end - e - 1));
        match digest_at(s, n, t_end) {
            Some(d) => Some((name, Some(tag), d)),
            None => None,
        }
    } else {
        match digest_at(s, n, e) {
            Some(d) => Some((name, None, d)),
            None => None,
        }
    }
}

/// Path segments from `i` on, then the tail.
fn chain_at(s: &str, n: usize, i: usize) -> (r: Option<(String, Option<String>, Option<String>)>)
    requires
        n == s@.len(),
        i <= n,
    ensures
        parts_view(r) == chain_parts(s@.skip(i as int)),
    decreases n - i,
{
    let ghost x = s@.skip(i as int);
    let k_end = scan(s, n, i, '/', '/');
    if k_end > i && k_end < n {
        assert(x.skip(k_end - i + 1) =~= s@.skip(k_end + 1));
        match chain_at(s, n, k_end + 1) {
            Some(p) => Some(p),
            None => tail_at(s, n, i),
        }
    } else {
        tail_at(s, n, i)
    }
}

/// `digits()[d]` as a string.
fn digit_str(d: u16) -> (r: &'static str)
    requires
        d < 10,
    ensures
        r@ == seq![digits()[d as int]],
{
    proof {
        reveal_strlit("0");
        reveal_strlit("1");
        reveal_strlit("2");
        reveal_strlit("3");
        reveal_strlit("4");
        reveal_strlit("5");
        reveal_strlit("6");
        reveal_strlit("7");
        reveal_strlit("8");
        reveal_strlit("9");
    }
    match d {
        0 => "0",
        1 => "1",
        2 => "2",
        3 => "3",
        4 => "4",
        5 => "5",
        6 => "6",
        7 => "7",
        8 => "8",
        _ => "9",
    }
}

/// The decimal form of `n`.
fn decimal_string(n: u16) -> (r: String)
    ensures
        r@ == decimal(n as nat),
    decreases n,
{
    if n < 10 {
        String::from_str(digit_str(n))
    } else {
        let mut r = decimal_string(n / 10);
        r.append(digit_str(n % 10));
        r
    }
}

impl Image {
    /// Splits an image string. The registry is `docker.io` for a string
    /// without `/`, else what the string read as a `registry://` URL gives
    /// as host and port, or nothing where that reading fails.
    pub fn new(image: &str) -> (r: Result<Image, ImageError>)
        ensures
            r is Ok <==> image_parts(image@) is Some,
            r matches Ok(i) ==> {
                &&& i.image@ == image@
                &&& image_parts(image@) == Some(
                    ImageParts { name: i.name@, tag: opt_view(i.tag), sha256: opt_view(i.sha256) },
                )
                &&& opt_view(i.registry) == registry_of(image@)
            },
            r matches Err(e) ==> e.input@ == image@,
    {
        let n = image.unicode_len();
        let slash = scan(image, n, 0, '/', '/');
        proof {
            lemma_run_len_bound(image@, '/');
            assert(image@.skip(0) =~= image@);
            if slash < n {
                assert(image@.contains('/'));
            }
        }
        let has_slash = slash < n;
        let parts = if !has_slash {
            tail_at(image, n, 0)
        } else {
            proof {
                reveal_strlit("registry://");
                assert("registry://"@ =~= scheme());
            }
            if has_at(image, n, 0, "registry://") {
                assert(image@.take(11) =~= image@.subrange(0, 11));
                match chain_at(image, n, 11) {
                    Some(p) => Some(p),
                    None => chain_at(image, n, 0),
                }
            } else {
                assert(n < 11 || image@.take(11) != scheme()) by {
                    if n >= 11 {
                        assert(image@.take(11) =~= image@.subrange(0, 11));
                    }
                }
                chain_at(image, n, 0)
            }
        };
        let registry = if !has_slash {
            proof {
                reveal_strlit("docker.io");
            }
            let d = String::from_str("docker.io");
            assert(d@ =~= docker_hub());
            Some(d)
        } else {
            let mut url = String::from_str("registry://");
            url.append(image);
            assert(url@ =~= scheme() + image@);
            match url_authority(url.as_str()) {
                Some((host, Some(port))) => {
                    let mut r = host;
                    r.append(":");
                    r.append(decimal_string(port).as_str());
                    proof {
                        reveal_strlit(":");
                    }
                    Some(r)
                },
                Some((host, None)) => Some(host),
                None => None,
            }
        };
        match parts {
            Some((name, tag, sha256)) => Ok(
                Image { image: image.to_owned(), registry, name, tag, sha256 },
            ),
            None => Err(ImageError { input: image.to_owned() }),
        }
    }

    /// The parts written back: `registry/name:tag@sha256:digest`.
    pub fn to_string(&self) -> (r: String)
        ensures
            r@ == image_text(opt_view(self.registry), self.name@, opt_view(self.tag), opt_view(self.sha256)),
    {
        let mut r = String::new();
        if let Some(registry) = &self.registry {
            r.append(registry.as_str());
            r.append("/");
        }
        r.append(self.name.as_str());
        if let Some(tag) = &self.tag {
            r.append(":");
            r.append(tag.as_str());
        }
        if let Some(sha256) = &self.sha256 {
            r.append("@sha256:");
            r.append(sha256.as_str());
        }
        proof {
            reveal_strlit("/");
            reveal_strlit(":");
            reveal_strlit("@sha256:");
        }
        r
    }
}

impl PartialEq<String> for Image {
    /// An image equals the string it was read from.
    fn eq(&self, other: &String) -> (r: bool)
        ensures
            r == (self.image@ == other@),
    {
        self.image == *other
    }
}

impl vstd::std_specs::cmp::PartialEqSpecImpl<String> for Image {
    open spec fn obeys_eq_spec() -> bool {
        true
    }

    open spec fn eq_spec(&self, other: &String) -> bool {
        self.image@ == other@
    }
}

} // verus!
