//! Content digests: SHA-256, OCI digests and fs-verity object identifiers.
use vstd::prelude::*;

use crate::text;

verus! {

/// The SHA-256 hasher of the `sha2` crate.
#[verifier::external_type_specification]
#[verifier::external_body]
pub struct ExSha256(sha2::Sha256);

/// The bytes that a hasher has taken in, in order.
pub uninterp spec fn absorbed(hasher: sha2::Sha256) -> Seq<u8>;

/// The SHA-256 digest of `bytes`.
pub uninterp spec fn sha256(bytes: Seq<u8>) -> Seq<u8>;

/// `sha2::Sha256::new`: a hasher that has taken in nothing.
#[verifier::external_body]
pub(crate) fn sha256_new() -> (hasher: sha2::Sha256)
    ensures
        absorbed(hasher) == Seq::<u8>::empty(),
{
    sha2::Digest::new()
}

/// `sha2::Sha256::update`: takes in `data` after what was taken in before.
#[verifier::external_body]
pub(crate) fn sha256_update(hasher: &mut sha2::Sha256, data: &[u8])
    ensures
        absorbed(*final(hasher)) == absorbed(*old(hasher)) + data@,
{
    sha2::Digest::update(hasher, data)
}

/// `sha2::Sha256::finalize`: the digest of the bytes taken in, 32 bytes long.
#[verifier::external_body]
pub(crate) fn sha256_finalize(hasher: sha2::Sha256) -> (digest: Vec<u8>)
    ensures
        digest@ == sha256(absorbed(hasher)),
        digest@.len() == 32,
{
    sha2::Digest::finalize(hasher).to_vec()
}

/// The error of the `oci-spec` crate.
#[verifier::external_type_specification]
#[verifier::external_body]
pub struct ExOciSpecError(oci_spec::OciSpecError);

/// A character of an algorithm component.
pub open spec fn is_component_char(c: char) -> bool {
    ('a' <= c && c <= 'z') || ('0' <= c && c <= '9')
}

/// A character between two algorithm components.
pub open spec fn is_separator(c: char) -> bool {
    c == '+' || c == '.' || c == '_' || c == '-'
}

/// An algorithm name: components of at least one character each, with single
/// separators between them.
pub open spec fn is_algorithm(a: Seq<char>) -> bool {
    &&& a.len() > 0
    &&& forall|i: int|
        0 <= i < a.len() ==> is_component_char(#[trigger] a[i]) || (is_separator(a[i]) && 0 < i
            && i + 1 < a.len() && is_component_char(a[i - 1]) && is_component_char(a[i + 1]))
}

/// A character of the encoded part.
pub open spec fn is_encoded_char(c: char) -> bool {
    is_component_char(c) || ('A' <= c && c <= 'Z') || c == '=' || c == '_' || c == '-'
}

/// A lower-case hexadecimal digit.
pub open spec fn is_hex_char(c: char) -> bool {
    ('0' <= c && c <= '9') || ('a' <= c && c <= 'f')
}

/// How many hexadecimal digits a registered algorithm has.
pub open spec fn hex_length(algorithm: Seq<char>) -> Option<nat> {
    if algorithm == "sha256"@ {
        Some(64)
    } else if algorithm == "sha384"@ {
        Some(96)
    } else if algorithm == "sha512"@ {
        Some(128)
    } else {
        None
    }
}

/// An encoded part that fits its algorithm.
pub open spec fn is_encoded(algorithm: Seq<char>, encoded: Seq<char>) -> bool {
    &&& encoded.len() > 0
    &&& forall|i: int| 0 <= i < encoded.len() ==> is_encoded_char(#[trigger] encoded[i])
    &&& hex_length(algorithm) matches Some(n) ==> encoded.len() == n && forall|i: int|
        0 <= i < encoded.len() ==> is_hex_char(#[trigger] encoded[i])
}

/// The text of a digest from its two parts.
pub open spec fn digest_text(algorithm: Seq<char>, encoded: Seq<char>) -> Seq<char> {
    algorithm.push(':') + encoded
}

/// An OCI digest: `algorithm:encoded`.
pub open spec fn is_digest(s: Seq<char>) -> bool {
    exists|k: int|
        0 <= k < s.len() && #[trigger] s[k] == ':' && is_algorithm(s.take(k)) && is_encoded(
            s.take(k),
            s.skip(k + 1),
        )
}

/// Calls `oci_spec::image::Digest::try_from` and takes the result apart: it
/// succeeds exactly on texts of the form `algorithm:encoded` in which the
/// algorithm name is well formed and the encoded part fits it, and the parts
/// put together again are the text.
#[verifier::external_body]
fn oci_digest_parts(text: &str) -> (parts: Result<(String, String), oci_spec::OciSpecError>)
    ensures
        parts is Ok <==> is_digest(text@),
        parts matches Ok((algorithm, encoded)) ==> {
            &&& text@ == digest_text(algorithm@, encoded@)
            &&& is_algorithm(algorithm@)
            &&& is_encoded(algorithm@, encoded@)
        },
{
    let digest = oci_spec::image::Digest::try_from(text)?;
    Ok((digest.algorithm().as_ref().to_owned(), digest.digest().to_owned()))
}

/// The text is not an OCI digest.
#[derive(Debug, Clone, Copy, PartialEq, Eq, Structural)]
pub struct InvalidDigest;

/// An OCI digest such as `sha256:…`.
#[derive(Debug)]
pub struct OciDigest {
    algorithm: String,
    encoded: String,
    text: String,
}

impl View for OciDigest {
    type V = Seq<char>;

    closed spec fn view(&self) -> Seq<char> {
        self.text@
    }
}

impl OciDigest {
    #[verifier::type_invariant]
    closed spec fn inv(self) -> bool {
        &&& self.text@ == digest_text(self.algorithm@, self.encoded@)
        &&& is_algorithm(self.algorithm@)
        &&& is_encoded(self.algorithm@, self.encoded@)
    }

    /// The algorithm of the digest.
    pub closed spec fn algorithm_name(&self) -> Seq<char> {
        self.algorithm@
    }

    /// The part after the colon.
    pub closed spec fn encoded_part(&self) -> Seq<char> {
        self.encoded@
    }

    /// Parses `algorithm:encoded`.
    pub fn parse(text: &str) -> (digest: Result<OciDigest, InvalidDigest>)
        ensures
            digest is Ok <==> is_digest(text@),
            digest matches Ok(d) ==> {
                &&& d@ == text@
                &&& d@ == digest_text(d.algorithm_name(), d.encoded_part())
            },
    {
        match oci_digest_parts(text) {
            Ok((algorithm, encoded)) => Ok(OciDigest { algorithm, encoded, text: text.to_owned() }),
            Err(_) => Err(InvalidDigest),
        }
    }

    /// The name of the algorithm.
    pub fn algorithm(&self) -> (name: &str)
        ensures
            name@ == self.algorithm_name(),
            is_algorithm(name@),
            is_encoded(name@, self.encoded_part()),
            self@ == digest_text(name@, self.encoded_part()),
    {
        proof {
            use_type_invariant(self);
        }
        self.algorithm.as_str()
    }

    /// The whole text of the digest.
    pub fn as_str(&self) -> (text: &str)
        ensures
            text@ == self@,
    {
        self.text.as_str()
    }
}

impl Clone for OciDigest {
    fn clone(&self) -> (copy: Self)
        ensures
            copy@ == self@,
            copy.algorithm_name() == self.algorithm_name(),
            copy.encoded_part() == self.encoded_part(),
    {
        proof {
            use_type_invariant(self);
        }
        OciDigest {
            algorithm: self.algorithm.clone(),
            encoded: self.encoded.clone(),
            text: self.text.clone(),
        }
    }
}

/// A digest has one algorithm: its text is split at its only possible colon.
pub proof fn digest_parts_are_unique(a: Seq<char>, e: Seq<char>, b: Seq<char>, f: Seq<char>)
    requires
        is_algorithm(a),
        is_algorithm(b),
        digest_text(a, e) == digest_text(b, f),
    ensures
        a == b,
        e == f,
{
    let s = digest_text(a, e);
    assert(s[a.len() as int] == ':');
    assert(s == digest_text(b, f));
    assert(s[b.len() as int] == ':');
    if a.len() < b.len() {
        assert(s[a.len() as int] == b[a.len() as int]);
        assert(false);
    } else if b.len() < a.len() {
        assert(s[b.len() as int] == a[b.len() as int]);
        assert(false);
    }
    assert(a =~= s.take(a.len() as int));
    assert(b =~= s.take(a.len() as int));
    assert(e =~= s.skip(a.len() as int + 1));
    assert(f =~= s.skip(a.len() as int + 1));
}

/// The text of the SHA-256 digest of `content`.
pub open spec fn content_digest(content: Seq<u8>) -> Seq<char> {
    digest_text("sha256"@, text::hex_text(sha256(content)))
}

proof fn lemma_sha256_digest(raw: Seq<u8>)
    requires
        raw.len() == 32,
    ensures
        is_algorithm("sha256"@),
        is_encoded("sha256"@, text::hex_text(raw)),
{
    reveal_strlit("sha256");
    let encoded = text::hex_text(raw);
    assert forall|i: int| 0 <= i < encoded.len() implies is_hex_char(#[trigger] encoded[i]) by {
        let b = raw[i / 2];
        assert(b as int / 16 < 16);
    }
}

/// The digest that 32 bytes of SHA-256 output stand for.
pub fn sha256_output_to_digest(raw: &Vec<u8>) -> (digest: OciDigest)
    requires
        raw@.len() == 32,
    ensures
        digest@ == digest_text("sha256"@, text::hex_text(raw@)),
        digest.algorithm_name() == "sha256"@,
{
    let encoded: String = text::hex(raw);
    let algorithm: String = "sha256".to_owned();
    let mut text: String = "sha256".to_owned();
    text.push(':');
    text.append(encoded.as_str());
    proof {
        lemma_sha256_digest(raw@);
    }
    OciDigest { algorithm, encoded, text }
}

/// The SHA-256 digest of `content`.
pub fn sha256_content_digest(content: &[u8]) -> (digest: OciDigest)
    ensures
        digest@ == content_digest(content@),
        digest.algorithm_name() == "sha256"@,
{
    let mut hasher = sha256_new();
    sha256_update(&mut hasher, content);
    assert(Seq::<u8>::empty() + content@ == content@);
    sha256_output_to_digest(&sha256_finalize(hasher))
}

/// The fs-verity digest that identifies an object of the repository.
#[derive(Debug)]
pub struct ObjectId {
    bytes: Vec<u8>,
}

impl View for ObjectId {
    type V = Seq<u8>;

    closed spec fn view(&self) -> Seq<u8> {
        self.bytes@
    }
}

/// The path of an object below the objects directory: the first two
/// hexadecimal digits of its identifier, a slash, and the rest.
pub open spec fn object_path(id: Seq<u8>) -> Seq<char> {
    text::hex_text(id.take(1)).push('/') + text::hex_text(id.skip(1))
}

impl ObjectId {
    #[verifier::type_invariant]
    closed spec fn inv(self) -> bool {
        self.bytes@.len() > 0
    }

    /// The identifier made of these bytes, of which there must be at least one.
    pub fn from_bytes(bytes: Vec<u8>) -> (id: Option<ObjectId>)
        ensures
            match id {
                Some(i) => i@ == bytes@ && bytes@.len() > 0,
                None => bytes@.len() == 0,
            },
    {
        if bytes.len() == 0 {
            None
        } else {
            Some(ObjectId { bytes })
        }
    }

    /// The bytes of the identifier.
    pub fn as_bytes(&self) -> (bytes: &Vec<u8>)
        ensures
            bytes@ == self@,
            bytes@.len() > 0,
    {
        proof {
            use_type_invariant(self);
        }
        &self.bytes
    }

    /// The identifier in hexadecimal.
    pub fn to_hex(&self) -> (hex: String)
        ensures
            hex@ == text::hex_text(self@),
    {
        text::hex(&self.bytes)
    }

    /// The path of the object below the objects directory (`xx/yyyy`).
    pub fn to_object_pathname(&self) -> (path: String)
        ensures
            path@ == object_path(self@),
    {
        proof {
            use_type_invariant(self);
        }
        let mut first: Vec<u8> = Vec::new();
        first.push(self.bytes[0]);
        let mut rest: Vec<u8> = Vec::new();
        let mut i: usize = 1;
        while i < self.bytes.len()
            invariant
                1 <= i <= self.bytes@.len(),
                rest@ == self.bytes@.subrange(1, i as int),
            decreases self.bytes@.len() - i,
        {
            rest.push(self.bytes[i]);
            i += 1;
            assert(rest@ =~= self.bytes@.subrange(1, i as int));
        }
        assert(first@ =~= self.bytes@.take(1));
        assert(rest@ =~= self.bytes@.skip(1));
        let mut path: String = text::hex(&first);
        path.push('/');
        path.append(text::hex(&rest).as_str());
        path
    }
}

proof fn lemma_hex_text_injective(a: Seq<u8>, b: Seq<u8>)
    requires
        text::hex_text(a) == text::hex_text(b),
    ensures
        a == b,
{
    assert(text::hex_text(a).len() == 2 * a.len());
    assert(text::hex_text(b).len() == 2 * b.len());
    assert forall|i: int| 0 <= i < a.len() implies a[i] == b[i] by {
        let x = text::hex_text(a);
        let y = text::hex_text(b);
        assert(x[2 * i] == y[2 * i]);
        assert(x[2 * i + 1] == y[2 * i + 1]);
        assert(x[2 * i] == text::hex_digit(a[i] as int / 16));
        assert(y[2 * i] == text::hex_digit(b[i] as int / 16));
        assert((2 * i + 1) / 2 == i);
        assert(x[2 * i + 1] == text::hex_digit(a[i] as int % 16));
        assert(y[2 * i + 1] == text::hex_digit(b[i] as int % 16));
    }
    assert(a =~= b);
}

/// Different objects have different paths.
pub proof fn object_paths_are_distinct(a: Seq<u8>, b: Seq<u8>)
    requires
        a.len() > 0,
        b.len() > 0,
        object_path(a) == object_path(b),
    ensures
        a == b,
{
    let p = object_path(a);
    let q = object_path(b);
    assert(p.take(2) =~= text::hex_text(a.take(1)));
    assert(q.take(2) =~= text::hex_text(b.take(1)));
    assert(p.skip(3) =~= text::hex_text(a.skip(1)));
    assert(q.skip(3) =~= text::hex_text(b.skip(1)));
    lemma_hex_text_injective(a.take(1), b.take(1));
    lemma_hex_text_injective(a.skip(1), b.skip(1));
    assert(a =~= a.take(1) + a.skip(1));
    assert(b =~= b.take(1) + b.skip(1));
}

impl Clone for ObjectId {
    fn clone(&self) -> (copy: Self)
        ensures
            copy@ == self@,
    {
        proof {
            use_type_invariant(self);
        }
        ObjectId { bytes: self.bytes.clone() }
    }
}

/// The text of a content digest: the algorithm, a colon, and the SHA-256 of exactly the
/// content in hexadecimal. So content with another SHA-256 has another digest.
pub proof fn content_digest_names_the_content(content: Seq<u8>, other: Seq<u8>)
    ensures
        content_digest(content) == "sha256:"@ + text::hex_text(sha256(content)),
        content_digest(content) == content_digest(other) ==> sha256(content) == sha256(other),
{
    reveal_strlit("sha256");
    reveal_strlit("sha256:");
    let (x, y) = (text::hex_text(sha256(content)), text::hex_text(sha256(other)));
    assert("sha256"@.push(':') =~= "sha256:"@);
    assert(("sha256:"@ + x).skip(7) =~= x);
    assert(("sha256:"@ + y).skip(7) =~= y);
    if content_digest(content) == content_digest(other) {
        lemma_hex_text_injective(sha256(content), sha256(other));
    }
}

/// The text of a digest is its algorithm, a colon and its encoded part.
pub proof fn digest_text_shows_both_parts(algorithm: Seq<char>, encoded: Seq<char>)
    ensures
        digest_text(algorithm, encoded) == algorithm + ":"@ + encoded,
{
    reveal_strlit(":");
    assert(digest_text(algorithm, encoded) =~= algorithm + ":"@ + encoded);
}

/// The path of an object is its identifier in hexadecimal, with a slash after the first
/// two digits.
pub proof fn object_path_is_the_identifier(id: Seq<u8>)
    requires
        id.len() > 0,
    ensures
        ({
            let path = object_path(id);
            &&& path.len() == 2 * id.len() + 1
            &&& path[2] == '/'
            &&& path.take(2) + path.skip(3) == text::hex_text(id)
        }),
{
    let path = object_path(id);
    text::hex_goes_byte_by_byte(id.take(1), id.skip(1));
    assert(id.take(1) + id.skip(1) =~= id);
    assert(path.take(2) =~= text::hex_text(id.take(1)));
    assert(path.skip(3) =~= text::hex_text(id.skip(1)));
}

/// A digest of a registered algorithm has exactly the lower-case hexadecimal digits that
/// the algorithm yields: 64 for SHA-256, 96 for SHA-384 and 128 for SHA-512.
pub proof fn registered_digests_are_in_hex(encoded: Seq<char>)
    ensures
        is_digest("sha256:"@ + encoded) <==> encoded.len() == 64 && forall|i: int|
            0 <= i < encoded.len() ==> "0123456789abcdef"@.contains(#[trigger] encoded[i]),
        is_digest("sha384:"@ + encoded) <==> encoded.len() == 96 && forall|i: int|
            0 <= i < encoded.len() ==> "0123456789abcdef"@.contains(#[trigger] encoded[i]),
        is_digest("sha512:"@ + encoded) <==> encoded.len() == 128 && forall|i: int|
            0 <= i < encoded.len() ==> "0123456789abcdef"@.contains(#[trigger] encoded[i]),
{
    reveal_strlit("sha256");
    reveal_strlit("sha384");
    reveal_strlit("sha512");
    reveal_strlit("sha256:");
    reveal_strlit("sha384:");
    reveal_strlit("sha512:");
    assert("sha256:"@ =~= "sha256"@.push(':'));
    assert("sha384:"@ =~= "sha384"@.push(':'));
    assert("sha512:"@ =~= "sha512"@.push(':'));
    assert("sha256"@[3] != "sha384"@[3]);
    assert("sha256"@[3] != "sha512"@[3]);
    assert("sha384"@[3] != "sha512"@[3]);
    lemma_registered("sha256"@, encoded);
    lemma_registered("sha384"@, encoded);
    lemma_registered("sha512"@, encoded);
}

proof fn lemma_registered(algorithm: Seq<char>, encoded: Seq<char>)
    requires
        is_algorithm(algorithm),
        hex_length(algorithm) matches Some(n) && n > 0,
    ensures
        is_digest(algorithm.push(':') + encoded) <==> {
            &&& encoded.len() == hex_length(algorithm)->0
            &&& forall|i: int|
                0 <= i < encoded.len() ==> "0123456789abcdef"@.contains(#[trigger] encoded[i])
        },
{
    let s = algorithm.push(':') + encoded;
    let k: int = algorithm.len() as int;
    assert(s[k] == ':');
    assert(s.take(k) =~= algorithm);
    assert(s.skip(k + 1) =~= encoded);
    assert forall|c: char| is_hex_char(c) <==> #[trigger] "0123456789abcdef"@.contains(c) by {
        lemma_hex_char(c);
    }
    if is_digest(s) {
        let at: int = choose|at: int|
            0 <= at < s.len() && #[trigger] s[at] == ':' && is_algorithm(s.take(at)) && is_encoded(
                s.take(at),
                s.skip(at + 1),
            );
        assert(s =~= digest_text(s.take(at), s.skip(at + 1)));
        digest_parts_are_unique(algorithm, encoded, s.take(at), s.skip(at + 1));
    }
}

proof fn lemma_hex_char(c: char)
    ensures
        is_hex_char(c) <==> "0123456789abcdef"@.contains(c),
{
    reveal_strlit("0123456789abcdef");
    let digits = "0123456789abcdef"@;
    if is_hex_char(c) {
        let i: int = if c <= '9' {
            c as int - '0' as int
        } else {
            c as int - 'a' as int + 10
        };
        assert(digits[i] == c);
    }
}

} // verus!
