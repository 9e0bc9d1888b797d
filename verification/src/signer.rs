//! The OAuth1 request signer: merges the control parameters with the
//! caller's payload parameters, builds the key-sorted signature base string
//! and the signing key, and obtains the signature as the base64 of the
//! HMAC-SHA1 of the two. Everything but the HMAC primitive itself is
//! verified against a functional specification.
use vstd::prelude::*;
use vstd::relations::sorted_by;
use vstd::slice::slice_to_vec;
use vstd::utf8::encode_utf8;

use crate::encoding::{b64_of, base64_encode, dec_of, pe_of, percent_encode, str_bytes, u64_to_dec};
use crate::order::{pair_leq, pairs_view, sort_pairs, lemma_pair_le_total_ordering, ParamPair};

verus! {

/// A key/secret credential pair: the application's consumer credential, or
/// a user's request or access credential.
#[derive(Debug)]
pub struct Credential {
    pub key: Vec<u8>,
    pub secret: Vec<u8>,
}

impl Credential {
    /// Build a credential from its key and secret.
    pub fn new(key: Vec<u8>, secret: Vec<u8>) -> (c: Credential)
        ensures
            c.key@ == key@,
            c.secret@ == secret@,
    {
        Credential { key, secret }
    }

    /// Build a credential from key and secret given as text.
    pub fn from_text(key: &str, secret: &str) -> (c: Credential)
        ensures
            c.key@ == encode_utf8(key@),
            c.secret@ == encode_utf8(secret@),
    {
        Credential { key: str_bytes(key), secret: str_bytes(secret) }
    }
}

impl Clone for Credential {
    /// Cloning keeps both parts.
    fn clone(&self) -> (c: Self)
        ensures
            c.key@ == self.key@,
            c.secret@ == self.secret@,
    {
        Credential {
            key: slice_to_vec(self.key.as_slice()),
            secret: slice_to_vec(self.secret.as_slice()),
        }
    }
}

/// One parameter rendered for the base string: percent-encoded key, `=`,
/// percent-encoded value.
pub open spec fn enc_pair(p: (Seq<u8>, Seq<u8>)) -> Seq<u8> {
    pe_of(p.0) + seq![61u8] + pe_of(p.1)
}

/// A parameter list rendered in its given order: encoded pairs joined
/// with `&`.
pub open spec fn seg_of(ps: Seq<(Seq<u8>, Seq<u8>)>) -> Seq<u8>
    decreases ps.len(),
{
    if ps.len() == 0 {
        Seq::empty()
    } else if ps.len() == 1 {
        enc_pair(ps[0])
    } else {
        enc_pair(ps[0]) + seq![38u8] + seg_of(ps.drop_first())
    }
}

/// The parameter segment of the signature base string: the parameters
/// key-sorted (byte-wise, ties broken by value), encoded and joined.
pub open spec fn param_segment_of(ps: Seq<(Seq<u8>, Seq<u8>)>) -> Seq<u8> {
    seg_of(ps.sort_by(pair_leq()))
}

proof fn lemma_seg_of_push(s: Seq<(Seq<u8>, Seq<u8>)>, p: (Seq<u8>, Seq<u8>))
    ensures
        seg_of(s.push(p)) == if s.len() == 0 {
            enc_pair(p)
        } else {
            seg_of(s) + seq![38u8] + enc_pair(p)
        },
    decreases s.len(),
{
    if s.len() == 0 {
        assert(s.push(p) =~= seq![p]);
    } else {
        assert(s.push(p).drop_first() =~= s.drop_first().push(p));
        lemma_seg_of_push(s.drop_first(), p);
        if s.len() == 1 {
            assert(s.drop_first().len() == 0);
            assert(seg_of(s.push(p)) =~= seg_of(s) + seq![38u8] + enc_pair(p));
        } else {
            assert(seg_of(s.push(p)) =~= seg_of(s) + seq![38u8] + enc_pair(p));
        }
    }
}

/// Render a parameter list as the key-sorted segment of the base string.
pub fn param_segment(ps: Vec<ParamPair>) -> (r: Vec<u8>)
    ensures
        r@ == param_segment_of(pairs_view(ps@)),
{
    let ghost psv = pairs_view(ps@);
    let sorted = sort_pairs(ps);
    proof {
        lemma_pair_le_total_ordering();
        psv.lemma_sort_by_ensures(pair_leq());
        vstd::seq_lib::lemma_sorted_unique(
            pairs_view(sorted@),
            psv.sort_by(pair_leq()),
            pair_leq(),
        );
    }
    let ghost sv = pairs_view(sorted@);
    let mut out: Vec<u8> = Vec::new();
    let mut i: usize = 0;
    while i < sorted.len()
        invariant
            i <= sorted@.len(),
            sv == pairs_view(sorted@),
            sv == psv.sort_by(pair_leq()),
            out@ == seg_of(sv.take(i as int)),
        decreases sorted@.len() - i,
    {
        if i > 0 {
            out.push(38);
        }
        let mut ek = percent_encode(sorted[i].0.as_slice());
        out.append(&mut ek);
        out.push(61);
        let mut ev = percent_encode(sorted[i].1.as_slice());
        out.append(&mut ev);
        proof {
            assert(sv[i as int] == (sorted@[i as int].0@, sorted@[i as int].1@));
            assert(sv.take(i + 1) =~= sv.take(i as int).push(sv[i as int]));
            lemma_seg_of_push(sv.take(i as int), sv[i as int]);
            assert(out@ =~= seg_of(sv.take(i + 1)));
        }
        i += 1;
    }
    proof {
        assert(sv.take(sv.len() as int) =~= sv);
    }
    out
}

/// The OAuth control parameters merged with the caller's payload
/// parameters, in insertion order: consumer key, nonce, signature method
/// (HMAC-SHA1), timestamp, protocol version 1.0, the user token when one is
/// present, then the extras.
pub open spec fn oauth_params_of(
    ck: Seq<u8>,
    nonce: Seq<u8>,
    ts: nat,
    token_key: Option<Seq<u8>>,
    extra: Seq<(Seq<u8>, Seq<u8>)>,
) -> Seq<(Seq<u8>, Seq<u8>)> {
    let base = seq![
        (encode_utf8("oauth_consumer_key"@), ck),
        (encode_utf8("oauth_nonce"@), nonce),
        (encode_utf8("oauth_signature_method"@), encode_utf8("HMAC-SHA1"@)),
        (encode_utf8("oauth_timestamp"@), dec_of(ts)),
        (encode_utf8("oauth_version"@), encode_utf8("1.0"@)),
    ];
    (match token_key {
        Some(tk) => base.push((encode_utf8("oauth_token"@), tk)),
        None => base,
    }) + extra
}

/// Assemble the full parameter set of one request.
pub fn oauth_params(
    consumer_key: &[u8],
    nonce: &[u8],
    timestamp: u64,
    token_key: Option<&Vec<u8>>,
    extra: &Vec<ParamPair>,
) -> (r: Vec<ParamPair>)
    ensures
        pairs_view(r@) == oauth_params_of(
            consumer_key@,
            nonce@,
            timestamp as nat,
            match token_key {
                Some(tk) => Some(tk@),
                None => None,
            },
            pairs_view(extra@),
        ),
{
    let mut ps: Vec<ParamPair> = Vec::new();
    ps.push((str_bytes("oauth_consumer_key"), slice_to_vec(consumer_key)));
    ps.push((str_bytes("oauth_nonce"), slice_to_vec(nonce)));
    ps.push((str_bytes("oauth_signature_method"), str_bytes("HMAC-SHA1")));
    ps.push((str_bytes("oauth_timestamp"), u64_to_dec(timestamp)));
    ps.push((str_bytes("oauth_version"), str_bytes("1.0")));
    match token_key {
        Some(tk) => ps.push((str_bytes("oauth_token"), slice_to_vec(tk.as_slice()))),
        None => {},
    }
    let ghost pre = pairs_view(ps@);
    let mut i: usize = 0;
    while i < extra.len()
        invariant
            i <= extra@.len(),
            pairs_view(ps@) == pre + pairs_view(extra@).take(i as int),
        decreases extra@.len() - i,
    {
        let ghost before = pairs_view(ps@);
        ps.push((slice_to_vec(extra[i].0.as_slice()), slice_to_vec(extra[i].1.as_slice())));
        proof {
            assert(pairs_view(ps@) =~= before.push(pairs_view(extra@)[i as int]));
            assert(pairs_view(extra@).take(i + 1) =~= pairs_view(extra@).take(i as int).push(
                pairs_view(extra@)[i as int],
            ));
            assert(pairs_view(ps@) =~= pre + pairs_view(extra@).take(i + 1));
        }
        i += 1;
    }
    proof {
        assert(pairs_view(extra@).take(extra@.len() as int) =~= pairs_view(extra@));
        assert(pairs_view(ps@) =~= oauth_params_of(
            consumer_key@,
            nonce@,
            timestamp as nat,
            match token_key {
                Some(tk) => Some(tk@),
                None => None,
            },
            pairs_view(extra@),
        ));
    }
    ps
}

/// The signature base string: method, percent-encoded base URL and
/// percent-encoded key-sorted parameter segment, joined with `&`.
pub open spec fn base_string_of(
    method: Seq<u8>,
    url: Seq<u8>,
    params: Seq<(Seq<u8>, Seq<u8>)>,
) -> Seq<u8> {
    method + seq![38u8] + pe_of(url) + seq![38u8] + pe_of(param_segment_of(params))
}

/// The signing key: percent-encoded consumer secret and percent-encoded
/// token secret joined with `&`; the token secret is empty during the
/// request-token step.
pub open spec fn signing_key_of(consumer_secret: Seq<u8>, token_secret: Seq<u8>) -> Seq<u8> {
    pe_of(consumer_secret) + seq![38u8] + pe_of(token_secret)
}

/// What HMAC-SHA1 returns for a key and a message: a pure function of the
/// two byte strings.
pub uninterp spec fn hmac_sha1_of(key: Seq<u8>, msg: Seq<u8>) -> Seq<u8>;

/// The OAuth signature: base64 of the HMAC-SHA1 of the base string under
/// the signing key.
pub open spec fn signature_of(
    method: Seq<u8>,
    url: Seq<u8>,
    params: Seq<(Seq<u8>, Seq<u8>)>,
    consumer_secret: Seq<u8>,
    token_secret: Seq<u8>,
) -> Seq<u8> {
    b64_of(
        hmac_sha1_of(
            signing_key_of(consumer_secret, token_secret),
            base_string_of(method, url, params),
        ),
    )
}

/// Relies on ring::hmac with HMAC_SHA1_FOR_LEGACY_USE_ONLY: the tag it
/// signs is a pure function of the key and the message bytes.
#[verifier::external_body]
fn hmac_sha1(key: &[u8], msg: &[u8]) -> (r: Vec<u8>)
    ensures
        r@ == hmac_sha1_of(key@, msg@),
{
    let k = ring::hmac::Key::new(ring::hmac::HMAC_SHA1_FOR_LEGACY_USE_ONLY, key);
    ring::hmac::sign(&k, msg).as_ref().to_vec()
}

/// Build the signature base string of a request.
pub fn base_string(method: &[u8], url: &[u8], params: Vec<ParamPair>) -> (r: Vec<u8>)
    ensures
        r@ == base_string_of(method@, url@, pairs_view(params@)),
{
    let mut out = slice_to_vec(method);
    out.push(38);
    let mut eu = percent_encode(url);
    out.append(&mut eu);
    out.push(38);
    let seg = param_segment(params);
    let mut es = percent_encode(seg.as_slice());
    out.append(&mut es);
    proof {
        assert(out@ =~= base_string_of(method@, url@, pairs_view(params@)));
    }
    out
}

/// Build the signing key of a request.
pub fn signing_key(consumer_secret: &[u8], token_secret: Option<&Vec<u8>>) -> (r: Vec<u8>)
    ensures
        r@ == signing_key_of(
            consumer_secret@,
            match token_secret {
                Some(ts) => ts@,
                None => Seq::empty(),
            },
        ),
{
    let mut out = percent_encode(consumer_secret);
    out.push(38);
    match token_secret {
        Some(ts) => {
            let mut et = percent_encode(ts.as_slice());
            out.append(&mut et);
        },
        None => {
            proof {
                assert(pe_of(Seq::<u8>::empty()) =~= Seq::<u8>::empty());
            }
        },
    }
    proof {
        assert(out@ =~= signing_key_of(
            consumer_secret@,
            match token_secret {
                Some(ts) => ts@,
                None => Seq::empty(),
            },
        ));
    }
    out
}

/// The full signed parameter set of a request: the merged parameters with
/// `oauth_signature` appended.
pub open spec fn signed_params_of(
    method: Seq<u8>,
    url: Seq<u8>,
    ck: Seq<u8>,
    cs: Seq<u8>,
    token: Option<(Seq<u8>, Seq<u8>)>,
    extra: Seq<(Seq<u8>, Seq<u8>)>,
    nonce: Seq<u8>,
    ts: nat,
) -> Seq<(Seq<u8>, Seq<u8>)> {
    let tk = match token {
        Some(t) => Some(t.0),
        None => None,
    };
    let tsec = match token {
        Some(t) => t.1,
        None => Seq::empty(),
    };
    let ps = oauth_params_of(ck, nonce, ts, tk, extra);
    ps.push((encode_utf8("oauth_signature"@), signature_of(method, url, ps, cs, tsec)))
}

/// Merge and sign one request's parameters. The nonce and timestamp are
/// passed in, so identical inputs give the identical signed set.
pub fn sign_request(
    method: &str,
    url: &str,
    consumer: &Credential,
    token: Option<&Credential>,
    extra: &Vec<ParamPair>,
    nonce: &[u8],
    timestamp: u64,
) -> (r: Vec<ParamPair>)
    ensures
        pairs_view(r@) == signed_params_of(
            encode_utf8(method@),
            encode_utf8(url@),
            consumer.key@,
            consumer.secret@,
            match token {
                Some(t) => Some((t.key@, t.secret@)),
                None => None,
            },
            pairs_view(extra@),
            nonce@,
            timestamp as nat,
        ),
{
    let token_key = match token {
        Some(t) => Some(&t.key),
        None => None,
    };
    let ps = oauth_params(consumer.key.as_slice(), nonce, timestamp, token_key, extra);
    let ps_copy = copy_params(&ps);
    let base = base_string(str_bytes(method).as_slice(), str_bytes(url).as_slice(), ps_copy);
    let token_secret = match token {
        Some(t) => Some(&t.secret),
        None => None,
    };
    let key = signing_key(consumer.secret.as_slice(), token_secret);
    let tag = hmac_sha1(key.as_slice(), base.as_slice());
    let sig = base64_encode(tag.as_slice());
    let mut out = ps;
    out.push((str_bytes("oauth_signature"), sig));
    proof {
        assert(pairs_view(out@) =~= signed_params_of(
            encode_utf8(method@),
            encode_utf8(url@),
            consumer.key@,
            consumer.secret@,
            match token {
                Some(t) => Some((t.key@, t.secret@)),
                None => None,
            },
            pairs_view(extra@),
            nonce@,
            timestamp as nat,
        ));
    }
    out
}

/// Render a signed request as a `key=value&...` string, usable as a GET
/// query or a form-encoded POST body.
pub fn signed_query(
    method: &str,
    url: &str,
    consumer: &Credential,
    token: Option<&Credential>,
    extra: &Vec<ParamPair>,
    nonce: &[u8],
    timestamp: u64,
) -> (r: Vec<u8>)
    ensures
        r@ == param_segment_of(
            signed_params_of(
                encode_utf8(method@),
                encode_utf8(url@),
                consumer.key@,
                consumer.secret@,
                match token {
                    Some(t) => Some((t.key@, t.secret@)),
                    None => None,
                },
                pairs_view(extra@),
                nonce@,
                timestamp as nat,
            ),
        ),
{
    let signed = sign_request(method, url, consumer, token, extra, nonce, timestamp);
    param_segment(signed)
}

/// Copy a parameter list.
pub fn copy_params(ps: &Vec<ParamPair>) -> (r: Vec<ParamPair>)
    ensures
        pairs_view(r@) == pairs_view(ps@),
{
    let mut out: Vec<ParamPair> = Vec::new();
    let mut i: usize = 0;
    while i < ps.len()
        invariant
            i <= ps@.len(),
            pairs_view(out@) == pairs_view(ps@).take(i as int),
        decreases ps@.len() - i,
    {
        out.push((slice_to_vec(ps[i].0.as_slice()), slice_to_vec(ps[i].1.as_slice())));
        proof {
            assert(pairs_view(ps@).take(i + 1) =~= pairs_view(ps@).take(i as int).push(
                pairs_view(ps@)[i as int],
            ));
            assert(pairs_view(out@) =~= pairs_view(ps@).take(i + 1));
        }
        i += 1;
    }
    proof {
        assert(pairs_view(ps@).take(ps@.len() as int) =~= pairs_view(ps@));
    }
    out
}

/// A byte is an ASCII letter or digit.
pub open spec fn is_alnum_byte(b: u8) -> bool {
    ||| (48 <= b <= 57)
    ||| (65 <= b <= 90)
    ||| (97 <= b <= 122)
}

/// The letter or digit standing for one draw out of 62: the digits, then
/// the upper-case letters, then the lower-case letters.
fn alnum_byte(d: usize) -> (r: u8)
    requires
        d < 62,
    ensures
        is_alnum_byte(r),
        d < 10 ==> r == (48 + d) as u8,
        10 <= d < 36 ==> r == (55 + d) as u8,
        36 <= d < 62 ==> r == (61 + d) as u8,
{
    if d < 10 {
        48 + d as u8
    } else if d < 36 {
        55 + d as u8
    } else {
        61 + d as u8
    }
}

/// Draw a fresh random nonce: 32 alphanumeric bytes, new for each request.
pub fn fresh_nonce() -> (r: Vec<u8>)
    ensures
        r@.len() == 32,
        forall|i: int| 0 <= i < r@.len() ==> is_alnum_byte(r@[i]),
{
    let mut out: Vec<u8> = Vec::new();
    let mut i: usize = 0;
    while i < 32
        invariant
            i <= 32,
            out@.len() == i,
            forall|k: int| 0 <= k < out@.len() ==> is_alnum_byte(out@[k]),
        decreases 32 - i,
    {
        let d = crate::scheduler::random_below(62);
        out.push(alnum_byte(d));
        i += 1;
    }
    out
}

/// Relies on chrono::Utc::now and timestamp for the wall clock; the result
/// depends on the time of the call, so nothing is promised of it. Utc::now
/// itself aborts on a system clock set before the Unix epoch.
#[verifier::external_body]
fn unix_seconds_raw() -> (r: i64) {
    chrono::Utc::now().timestamp()
}

/// A second count clamped into the unsigned range the `oauth_timestamp`
/// parameter carries.
pub fn clamp_epoch(t: i64) -> (r: u64)
    ensures
        r == if t < 0 {
            0u64
        } else {
            t as u64
        },
{
    if t < 0 {
        0
    } else {
        t as u64
    }
}

/// The current Unix time in whole seconds, for the `oauth_timestamp`
/// control parameter.
pub fn now_unix_seconds() -> (r: u64) {
    clamp_epoch(unix_seconds_raw())
}

/// The parameter segment is built from a key-sorted permutation of the
/// given parameters: sorted by key (byte-wise), ties broken by value,
/// holding exactly the parameters given, whatever their insertion order.
pub proof fn lemma_param_segment_sorted(ps: Seq<(Seq<u8>, Seq<u8>)>)
    ensures
        sorted_by(ps.sort_by(pair_leq()), pair_leq()),
        ps.sort_by(pair_leq()).to_multiset() == ps.to_multiset(),
        param_segment_of(ps) == seg_of(ps.sort_by(pair_leq())),
{
    lemma_pair_le_total_ordering();
    ps.lemma_sort_by_ensures(pair_leq());
}

/// Insertion order is irrelevant: two parameter sets holding the same
/// parameters yield the same parameter segment.
pub proof fn lemma_param_segment_insertion_order(
    p1: Seq<(Seq<u8>, Seq<u8>)>,
    p2: Seq<(Seq<u8>, Seq<u8>)>,
)
    requires
        p1.to_multiset() == p2.to_multiset(),
    ensures
        param_segment_of(p1) == param_segment_of(p2),
{
    lemma_pair_le_total_ordering();
    p1.lemma_sort_by_ensures(pair_leq());
    p2.lemma_sort_by_ensures(pair_leq());
    vstd::seq_lib::lemma_sorted_unique(p1.sort_by(pair_leq()), p2.sort_by(pair_leq()), pair_leq());
}

/// The signing computation is deterministic and order-free: identical
/// inputs (same nonce, same timestamp) give the identical signature, even
/// when the parameters were inserted in a different order.
pub proof fn lemma_signature_deterministic(
    method: Seq<u8>,
    url: Seq<u8>,
    p1: Seq<(Seq<u8>, Seq<u8>)>,
    p2: Seq<(Seq<u8>, Seq<u8>)>,
    consumer_secret: Seq<u8>,
    token_secret: Seq<u8>,
)
    requires
        p1.to_multiset() == p2.to_multiset(),
    ensures
        signature_of(method, url, p1, consumer_secret, token_secret) == signature_of(
            method,
            url,
            p2,
            consumer_secret,
            token_secret,
        ),
{
    lemma_param_segment_insertion_order(p1, p2);
}

} // verus!
