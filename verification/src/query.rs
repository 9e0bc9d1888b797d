//! Parsing of `application/x-www-form-urlencoded` response bodies: split on
//! `&`, split each segment at its first `=`; a segment without `=` fails
//! the parse. The token-exchange responses of the handshake are read here.
use vstd::prelude::*;
use vstd::slice::{slice_subrange, slice_to_vec};
use vstd::string::StringSliceAdditionalSpecFns;
use vstd::utf8::encode_utf8;

use crate::Error;
use crate::order::{pairs_view, ParamPair};
use crate::signer::Credential;

verus! {

/// The position of the first occurrence of `c` in `s`, or `s.len()` when
/// `c` does not occur.
pub open spec fn idx_of(s: Seq<u8>, c: u8) -> int
    decreases s.len(),
{
    if s.len() == 0 {
        0
    } else if s[0] == c {
        0
    } else {
        1 + idx_of(s.drop_first(), c)
    }
}

proof fn lemma_idx_of_bounds(s: Seq<u8>, c: u8)
    ensures
        0 <= idx_of(s, c) <= s.len(),
        idx_of(s, c) < s.len() ==> s[idx_of(s, c)] == c,
        forall|k: int| 0 <= k < idx_of(s, c) ==> s[k] != c,
    decreases s.len(),
{
    if s.len() > 0 && s[0] != c {
        lemma_idx_of_bounds(s.drop_first(), c);
        let i = idx_of(s, c);
        if i < s.len() {
            assert(s[i] == s.drop_first()[i - 1]);
        }
        assert forall|k: int| 0 <= k < i implies s[k] != c by {
            if k > 0 {
                assert(s[k] == s.drop_first()[k - 1]);
            }
        }
    }
}

/// One `key=value` segment, split at its first `=`; a segment without `=`
/// is a protocol violation and does not parse.
pub open spec fn parse_pair_of(seg: Seq<u8>) -> Option<(Seq<u8>, Seq<u8>)> {
    let i = idx_of(seg, 61);
    if i == seg.len() {
        None
    } else {
        Some((seg.take(i), seg.skip(i + 1)))
    }
}

/// A query body split on `&` into segments, each parsed as `key=value`;
/// the whole parse fails as soon as one segment fails.
pub open spec fn parse_query_of(s: Seq<u8>) -> Option<Seq<(Seq<u8>, Seq<u8>)>>
    decreases s.len(),
{
    let i = idx_of(s, 38);
    if 0 <= i < s.len() {
        match parse_pair_of(s.take(i)) {
            None => None,
            Some(p) => match parse_query_of(s.skip(i + 1)) {
                None => None,
                Some(rest) => Some(seq![p] + rest),
            },
        }
    } else {
        match parse_pair_of(s) {
            None => None,
            Some(p) => Some(seq![p]),
        }
    }
}

/// The position of the first occurrence of `c` in `s` at or after `from`.
fn find_byte(s: &[u8], from: usize, c: u8) -> (idx: usize)
    requires
        from <= s@.len(),
    ensures
        from <= idx <= s@.len(),
        idx - from == idx_of(s@.skip(from as int), c),
{
    let mut i = from;
    proof {
        assert(idx_of(s@.skip(from as int), c) == (from - from) + idx_of(s@.skip(from as int), c));
    }
    while i < s.len()
        invariant
            from <= i <= s@.len(),
            idx_of(s@.skip(from as int), c) == (i - from) + idx_of(s@.skip(i as int), c),
            forall|k: int| from <= k < i ==> s@[k] != c,
        decreases s@.len() - i,
    {
        let b = *vstd::slice::slice_index_get(s, i);
        if b == c {
            proof {
                assert(s@.skip(i as int)[0] == c);
            }
            return i;
        }
        proof {
            assert(s@.skip(i as int)[0] != c);
            assert(s@.skip(i as int).drop_first() =~= s@.skip(i + 1));
        }
        i += 1;
    }
    proof {
        assert(s@.skip(s@.len() as int) =~= Seq::<u8>::empty());
    }
    i
}

/// Split a query body into its `key=value` pairs, strictly at the first
/// `=` of each `&`-separated segment. A segment with no `=` fails the
/// whole parse with a decode error rather than being dropped. The pair
/// list is read as a mapping through `lookup`, where a repeated key
/// resolves to its last value.
pub fn split_query(query: &str) -> (r: Result<Vec<ParamPair>, Error>)
    ensures
        match r {
            Ok(ps) => parse_query_of(query.spec_bytes()) == Some(pairs_view(ps@)),
            Err(e) => e == Error::Decode && parse_query_of(query.spec_bytes()) == None::<Seq<(Seq<u8>, Seq<u8>)>>,
        },
{
    let s = query.as_bytes();
    let ghost sv = s@;
    let mut acc: Vec<ParamPair> = Vec::new();
    let mut pos: usize = 0;
    proof {
        assert(sv.skip(0) =~= sv);
        assert(pairs_view(acc@) =~= Seq::<(Seq<u8>, Seq<u8>)>::empty());
        assert forall|rest: Seq<(Seq<u8>, Seq<u8>)>| #[trigger] (pairs_view(acc@) + rest)
            =~= rest by {}
    }
    loop
        invariant
            pos <= sv.len(),
            sv == s@,
            sv == query.spec_bytes(),
            parse_query_of(sv) == (match parse_query_of(sv.skip(pos as int)) {
                None => None::<Seq<(Seq<u8>, Seq<u8>)>>,
                Some(rest) => Some(pairs_view(acc@) + rest),
            }),
        decreases sv.len() - pos,
    {
        let e = find_byte(s, pos, 38);
        let j = find_byte(s, pos, 61);
        let ghost seg = sv.skip(pos as int).take(idx_of(sv.skip(pos as int), 38));
        proof {
            lemma_idx_of_bounds(sv.skip(pos as int), 38);
            lemma_idx_of_bounds(sv.skip(pos as int), 61);
            lemma_idx_of_bounds(seg, 61);
            // the first `=` of the segment is the first `=` of the suffix,
            // when it lies before the `&`
            assert forall|k: int| 0 <= k < seg.len() implies seg[k] == sv.skip(pos as int)[k] by {}
            if j < e {
                assert(seg[j - pos] == 61);
                assert(forall|k: int| 0 <= k < j - pos ==> seg[k] != 61);
                assert(idx_of(seg, 61) == j - pos) by {
                    if idx_of(seg, 61) < j - pos {
                        assert(seg[idx_of(seg, 61)] == 61);
                    }
                }
            } else {
                assert(forall|k: int| 0 <= k < seg.len() ==> seg[k] != 61);
                assert(idx_of(seg, 61) == seg.len()) by {
                    if idx_of(seg, 61) < seg.len() {
                        assert(seg[idx_of(seg, 61)] == 61);
                    }
                }
            }
        }
        if j >= e {
            // no `=` in this segment
            proof {
                if e == sv.len() {
                    assert(parse_pair_of(sv.skip(pos as int)) == None::<(Seq<u8>, Seq<u8>)>)
                        by {
                        assert(sv.skip(pos as int).take(sv.skip(pos as int).len() as int) =~= sv.skip(
                            pos as int,
                        ));
                    }
                } else {
                    assert(parse_pair_of(seg) == None::<(Seq<u8>, Seq<u8>)>);
                }
                assert(parse_query_of(sv.skip(pos as int)) == None::<Seq<(Seq<u8>, Seq<u8>)>>);
            }
            return Err(Error::Decode);
        }
        let key = slice_to_vec(slice_subrange(s, pos, j));
        let val = slice_to_vec(slice_subrange(s, j + 1, e));
        let ghost accv0 = pairs_view(acc@);
        acc.push((key, val));
        proof {
            assert(pairs_view(acc@) =~= accv0.push((key@, val@)));
            assert(seg.take(j - pos) =~= sv.subrange(pos as int, j as int));
            assert(seg.skip(j - pos + 1) =~= sv.subrange(j + 1, e as int));
            assert(parse_pair_of(seg) == Some((key@, val@)));
        }
        if e == s.len() {
            proof {
                assert(seg =~= sv.skip(pos as int));
                assert(parse_query_of(sv.skip(pos as int)) == Some(seq![(key@, val@)]));
                assert(pairs_view(acc@) =~= accv0 + seq![(key@, val@)]);
            }
            return Ok(acc);
        }
        proof {
            assert(sv.skip(pos as int).skip(idx_of(sv.skip(pos as int), 38) + 1) =~= sv.skip(
                e + 1,
            ));
            assert(parse_query_of(sv.skip(pos as int)) == (match parse_query_of(sv.skip(e + 1)) {
                None => None::<Seq<(Seq<u8>, Seq<u8>)>>,
                Some(rest) => Some(seq![(key@, val@)] + rest),
            }));
            assert forall|rest: Seq<(Seq<u8>, Seq<u8>)>|
                accv0 + (seq![(key@, val@)] + rest) =~= pairs_view(acc@) + rest by {}
        }
        pos = e + 1;
    }
}

/// The value under a key, read as the original mapping would read it: the
/// last occurrence wins, as an insert-folded map resolves a repeated key.
pub open spec fn lookup_of(ps: Seq<(Seq<u8>, Seq<u8>)>, k: Seq<u8>) -> Option<Seq<u8>>
    decreases ps.len(),
{
    if ps.len() == 0 {
        None
    } else if ps.last().0 == k {
        Some(ps.last().1)
    } else {
        lookup_of(ps.drop_last(), k)
    }
}

/// Look a key up in a parsed parameter list; where two segments shared the
/// key, the later value wins.
pub fn lookup(ps: &Vec<ParamPair>, k: &str) -> (r: Option<Vec<u8>>)
    ensures
        match r {
            Some(v) => lookup_of(pairs_view(ps@), encode_utf8(k@)) == Some(v@),
            None => lookup_of(pairs_view(ps@), encode_utf8(k@)) == None::<Seq<u8>>,
        },
{
    let kb = crate::encoding::str_bytes(k);
    let ghost psv = pairs_view(ps@);
    let mut i: usize = ps.len();
    proof {
        assert(psv.take(psv.len() as int) =~= psv);
    }
    while i > 0
        invariant
            i <= psv.len(),
            psv == pairs_view(ps@),
            kb@ == encode_utf8(k@),
            lookup_of(psv, kb@) == lookup_of(psv.take(i as int), kb@),
        decreases i,
    {
        i -= 1;
        proof {
            assert(psv.take(i + 1).last() == psv[i as int]);
            assert(psv.take(i + 1).drop_last() =~= psv.take(i as int));
        }
        if crate::order::bytes_eq(&ps[i].0, &kb) {
            return Some(slice_to_vec(ps[i].1.as_slice()));
        }
    }
    proof {
        assert(psv.take(0) =~= Seq::<(Seq<u8>, Seq<u8>)>::empty());
    }
    None
}

/// Read a credential out of a token-exchange response body: the body must
/// parse as a query string holding both `oauth_token` and
/// `oauth_token_secret`; anything less is a decode error.
pub fn token_from_response(body: &str) -> (r: Result<Credential, Error>)
    ensures
        match r {
            Ok(c) => {
                &&& parse_query_of(body.spec_bytes()) matches Some(q)
                &&& (parse_query_of(body.spec_bytes()) matches Some(q) ==> lookup_of(
                    q,
                    encode_utf8("oauth_token"@),
                ) == Some(c.key@) && lookup_of(q, encode_utf8("oauth_token_secret"@)) == Some(
                    c.secret@,
                ))
            },
            Err(e) => {
                &&& e == Error::Decode
                &&& (match parse_query_of(body.spec_bytes()) {
                    None => true,
                    Some(q) => lookup_of(q, encode_utf8("oauth_token"@)) == None::<Seq<u8>> || lookup_of(
                        q,
                        encode_utf8("oauth_token_secret"@),
                    ) == None::<Seq<u8>>,
                })
            },
        },
{
    let ps = match split_query(body) {
        Ok(ps) => ps,
        Err(e) => {
            return Err(e);
        },
    };
    let key = match lookup(&ps, "oauth_token") {
        Some(v) => v,
        None => {
            return Err(Error::Decode);
        },
    };
    let secret = match lookup(&ps, "oauth_token_secret") {
        Some(v) => v,
        None => {
            return Err(Error::Decode);
        },
    };
    Ok(Credential::new(key, secret))
}

} // verus!
