//! Method signatures for signed calls.
//!
//! A signature is made from all parameters of a call and the shared secret:
//! the parameters are taken in ascending order of their names, each name is
//! followed directly by its value, the secret is put at the end, and the MD5
//! digest of that text is written as 32 lowercase hexadecimal characters.

use vstd::prelude::*;
use vstd::string::StringExecFns;
use vstd::string::StringSliceAdditionalSpecFns;
use vstd::utf8::encode_utf8;

use crate::params::canonical;
use crate::params::lemma_canonical_insert_fresh;
use crate::params::lemma_canonical_replace;
use crate::params::pairs_of;
use crate::params::Pair;
use crate::params::ParameterSet;
use crate::params::Parameters;

verus! {

/// The MD5 digest (RFC 1321) of a byte string.
pub uninterp spec fn md5_digest(data: Seq<u8>) -> Seq<u8>;

/// `md5::compute` on a byte slice: the sixteen bytes of the MD5 digest of
/// the data. The digest depends on the data alone.
#[verifier::external_body]
fn md5_compute(data: &[u8]) -> (digest: [u8; 16])
    ensures
        digest@ == md5_digest(data@),
{
    md5::compute(data).0
}

/// The lowercase hexadecimal digit for a value below sixteen.
pub open spec fn hex_digit(n: u8) -> char {
    if n < 10 {
        ('0' as u8 + n) as char
    } else {
        ('a' as u8 + (n - 10)) as char
    }
}

/// One of the characters `0` to `9` and `a` to `f`.
pub open spec fn is_lower_hex(c: char) -> bool {
    ||| '0' <= c <= '9'
    ||| 'a' <= c <= 'f'
}

/// The bytes written in lowercase hexadecimal, two digits for each byte,
/// the high half of the byte first.
pub open spec fn hex_lower(bytes: Seq<u8>) -> Seq<char> {
    Seq::new(
        2 * bytes.len(),
        |i: int|
            if i % 2 == 0 {
                hex_digit(bytes[i / 2] / 16)
            } else {
                hex_digit(bytes[i / 2] % 16)
            },
    )
}

/// The names and values of a list of pairs, written one after another
/// without separators.
pub open spec fn concat_pairs(s: Seq<Pair>) -> Seq<char>
    decreases s.len(),
{
    if s.len() == 0 {
        Seq::empty()
    } else {
        concat_pairs(s.drop_last()) + s.last().0 + s.last().1
    }
}

/// The text that is digested: the parameters in signing order, then the
/// secret.
pub open spec fn sign_base(m: Parameters, secret: Seq<char>) -> Seq<char> {
    concat_pairs(canonical(m)) + secret
}

/// The signature of a parameter mapping under a secret.
pub open spec fn signature(m: Parameters, secret: Seq<char>) -> Seq<char> {
    hex_lower(md5_digest(encode_utf8(sign_base(m, secret))))
}

fn hex_digit_of(n: u8) -> (c: char)
    requires
        n < 16,
    ensures
        c == hex_digit(n),
        is_lower_hex(c),
{
    if n < 10 {
        ('0' as u8 + n) as char
    } else {
        ('a' as u8 + (n - 10)) as char
    }
}

/// Bytes written in hexadecimal are two characters for each byte, and every
/// character is a lowercase hexadecimal digit.
pub proof fn lemma_hex_lower_is_lower_hex(bytes: Seq<u8>)
    ensures
        hex_lower(bytes).len() == 2 * bytes.len(),
        forall|i: int| 0 <= i < 2 * bytes.len() ==> is_lower_hex(#[trigger] hex_lower(bytes)[i]),
{
    assert forall|i: int| 0 <= i < 2 * bytes.len() implies is_lower_hex(
        #[trigger] hex_lower(bytes)[i],
    ) by {
        let b = bytes[i / 2];
        assert(b / 16 < 16 && b % 16 < 16);
    }
}

/// Writes a digest in lowercase hexadecimal: two digits for each of its
/// sixteen bytes.
pub fn digest_hex(digest: &[u8; 16]) -> (text: String)
    ensures
        text@ == hex_lower(digest@),
        text@.len() == 32,
        forall|i: int| 0 <= i < 32 ==> is_lower_hex(#[trigger] text@[i]),
{
    let mut text = String::new();
    let mut i: usize = 0;
    while i < 16
        invariant
            i <= 16,
            text@.len() == 2 * i,
            forall|j: int| 0 <= j < 2 * i ==> #[trigger] text@[j] == hex_lower(digest@)[j],
            forall|j: int| 0 <= j < 2 * i ==> is_lower_hex(#[trigger] text@[j]),
        decreases 16 - i,
    {
        let b = digest[i];
        text.push(hex_digit_of(b / 16));
        text.push(hex_digit_of(b % 16));
        i += 1;
    }
    assert(text@ =~= hex_lower(digest@));
    text
}

/// Writes the text that a signature is the digest of: each parameter's
/// name followed directly by its value, the parameters in ascending order
/// of their names, and the secret at the end.
pub fn signature_base(params: &ParameterSet, api_secret: &str) -> (base: String)
    ensures
        base@ == sign_base(params@, api_secret@),
{
    let list = params.entries();
    let mut base = String::new();
    let mut i: usize = 0;
    while i < list.len()
        invariant
            i <= list@.len(),
            base@ == concat_pairs(pairs_of(list@).take(i as int)),
        decreases list.len() - i,
    {
        base.append(list[i].0.as_str());
        base.append(list[i].1.as_str());
        proof {
            let next = pairs_of(list@).take(i + 1);
            assert(next.drop_last() =~= pairs_of(list@).take(i as int));
        }
        i += 1;
    }
    assert(pairs_of(list@).take(i as int) =~= pairs_of(list@));
    base.append(api_secret);
    base
}

/// Generates the signature of an API call.
///
/// `params` holds every parameter of the call that is to be signed; the
/// caller leaves out those that the service does not sign (`format`,
/// `callback`). The result is the MD5 digest of the parameters in signing
/// order followed by `api_secret`, as 32 lowercase hexadecimal characters.
pub fn create_sig(params: &ParameterSet, api_secret: &str) -> (sig: String)
    ensures
        sig@ == signature(params@, api_secret@),
        sig@.len() == 32,
        forall|i: int| 0 <= i < 32 ==> is_lower_hex(#[trigger] sig@[i]),
{
    let base = signature_base(params, api_secret);
    let digest = md5_compute(base.as_str().as_bytes());
    digest_hex(&digest)
}

/// The text of two lists joined is the text of the first followed by the
/// text of the second.
pub proof fn lemma_concat_pairs_add(a: Seq<Pair>, b: Seq<Pair>)
    ensures
        concat_pairs(a + b) == concat_pairs(a) + concat_pairs(b),
    decreases b.len(),
{
    if b.len() == 0 {
        assert(a + b =~= a);
        assert(concat_pairs(a) + concat_pairs(b) =~= concat_pairs(a));
    } else {
        lemma_concat_pairs_add(a, b.drop_last());
        assert((a + b).drop_last() =~= a + b.drop_last());
        assert((a + b).last() == b.last());
        assert(concat_pairs(a + b) =~= concat_pairs(a) + concat_pairs(b));
    }
}

/// The text of a list is the text before an index, the pair at the index,
/// and the text after it.
proof fn lemma_concat_pairs_at(s: Seq<Pair>, p: int)
    requires
        0 <= p < s.len(),
    ensures
        concat_pairs(s) == concat_pairs(s.take(p)) + (s[p].0 + s[p].1) + concat_pairs(
            s.skip(p + 1),
        ),
{
    let one = seq![s[p]];
    assert(s =~= s.take(p) + one + s.skip(p + 1));
    lemma_concat_pairs_add(s.take(p) + one, s.skip(p + 1));
    lemma_concat_pairs_add(s.take(p), one);
    assert(one.drop_last() =~= Seq::<Pair>::empty());
    assert(concat_pairs(one.drop_last()) =~= Seq::<char>::empty());
    assert(concat_pairs(one) =~= s[p].0 + s[p].1);
}

/// Texts that differ only in a middle part differ.
proof fn lemma_middle_differs(x: Seq<char>, u: Seq<char>, v: Seq<char>, y: Seq<char>)
    requires
        u != v,
    ensures
        x + u + y != x + v + y,
{
    if x + u + y == x + v + y {
        assert((x + u + y).len() == (x + v + y).len());
        assert forall|i: int| 0 <= i < u.len() implies u[i] == v[i] by {
            assert((x + u + y)[x.len() + i] == u[i]);
            assert((x + v + y)[x.len() + i] == v[i]);
        }
        assert(u =~= v);
    }
}

/// Signing is deterministic: parameter sets that hold the same parameters,
/// signed under the same secret, have the same signature, whatever the
/// order in which the parameters were put into each.
pub proof fn lemma_signature_deterministic(
    p: ParameterSet,
    q: ParameterSet,
    s: Seq<char>,
    t: Seq<char>,
)
    requires
        p@ == q@,
        s == t,
    ensures
        signature(p@, s) == signature(q@, t),
{
}

/// The order in which two parameters of different names are put in does
/// not affect the signature.
pub proof fn lemma_signature_ignores_insertion_order(
    m: Parameters,
    k1: Seq<char>,
    v1: Seq<char>,
    k2: Seq<char>,
    v2: Seq<char>,
    secret: Seq<char>,
)
    requires
        k1 != k2,
    ensures
        signature(m.insert(k1, v1).insert(k2, v2), secret) == signature(
            m.insert(k2, v2).insert(k1, v1),
            secret,
        ),
{
    assert(m.insert(k1, v1).insert(k2, v2) =~= m.insert(k2, v2).insert(k1, v1));
}

/// Another value for one parameter changes the text that is digested.
/// (Whether the digest changes with it is a matter of MD5.)
pub proof fn lemma_value_changes_sign_base(
    m: Parameters,
    name: Seq<char>,
    value: Seq<char>,
    secret: Seq<char>,
)
    requires
        m.dom().finite(),
        m.dom().contains(name),
        m[name] != value,
    ensures
        sign_base(m.insert(name, value), secret) != sign_base(m, secret),
{
    let s = canonical(m);
    let p = lemma_canonical_replace(m, name, value);
    let t = s.update(p, (name, value));
    lemma_concat_pairs_at(s, p);
    lemma_concat_pairs_at(t, p);
    assert(t.take(p) =~= s.take(p));
    assert(t.skip(p + 1) =~= s.skip(p + 1));
    let x = concat_pairs(s.take(p)) + name;
    let y = concat_pairs(s.skip(p + 1)) + secret;
    lemma_middle_differs(x, m[name], value, y);
    assert(sign_base(m, secret) =~= x + m[name] + y);
    assert(sign_base(m.insert(name, value), secret) =~= x + value + y);
}

/// A further parameter lengthens the text that is digested by its name and
/// its value, so it changes the text unless both are empty.
pub proof fn lemma_further_parameter_changes_sign_base(
    m: Parameters,
    name: Seq<char>,
    value: Seq<char>,
    secret: Seq<char>,
)
    requires
        m.dom().finite(),
        !m.dom().contains(name),
    ensures
        sign_base(m.insert(name, value), secret).len() == sign_base(m, secret).len() + name.len()
            + value.len(),
        name.len() + value.len() > 0 ==> sign_base(m.insert(name, value), secret) != sign_base(
            m,
            secret,
        ),
{
    let s = canonical(m);
    let p = lemma_canonical_insert_fresh(m, name, value);
    let t = s.insert(p, (name, value));
    lemma_concat_pairs_at(t, p);
    assert(t.take(p) =~= s.take(p));
    assert(t.skip(p + 1) =~= s.skip(p));
    assert(s =~= s.take(p) + s.skip(p));
    lemma_concat_pairs_add(s.take(p), s.skip(p));
}

/// Another secret changes the text that is digested.
pub proof fn lemma_secret_changes_sign_base(m: Parameters, s: Seq<char>, t: Seq<char>)
    requires
        s != t,
    ensures
        sign_base(m, s) != sign_base(m, t),
{
    let x = concat_pairs(canonical(m));
    let e = Seq::<char>::empty();
    lemma_middle_differs(x, s, t, e);
    assert(x + s + e =~= x + s);
    assert(x + t + e =~= x + t);
}

} // verus!
