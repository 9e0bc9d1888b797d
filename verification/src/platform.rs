//! The platform bindings and the publish pipeline: typed records for the
//! feed's content item, the uploaded-media handle and a timeline post, the
//! JSON readers for each (outside calls, named), the endpoint constants,
//! and the parameter sets of the upload and status-post requests.
use vstd::prelude::*;
use vstd::slice::slice_to_vec;
use vstd::utf8::encode_utf8;

use crate::Error;
use crate::encoding::{b64_of, base64_encode, str_bytes};
use crate::order::{pairs_view, ParamPair};
use crate::signer::Credential;

verus! {

/// A post read back from the timeline.
#[derive(Clone, Debug)]
pub struct Tweet {
    pub created_at: String,
    pub text: String,
}

/// The handle returned by the media-upload endpoint. The string form is the
/// one that must be threaded into the status post: large ids lose precision
/// in consumers that read the numeric field.
#[derive(Clone, Debug)]
pub struct Media {
    pub media_id: u64,
    pub media_id_string: String,
}

/// One fetched unit of shareable content.
#[derive(Clone, Debug)]
pub struct ContentItem {
    pub title: String,
    pub media_url: String,
    pub category: String,
}

/// What the media-upload response decodes to: the `media_id` and
/// `media_id_string` fields of the JSON object, or nothing when the text is
/// not such an object. A pure function of the text.
pub uninterp spec fn media_fields_of(s: Seq<char>) -> Option<(u64, Seq<char>)>;

/// Relies on serde_json::from_str and the Value accessors: reads the JSON
/// object's `media_id` as an unsigned integer and `media_id_string` as a
/// string; the result depends on the input text alone.
#[verifier::external_body]
fn parse_media_json(s: &str) -> (r: Option<(u64, String)>)
    ensures
        match r {
            Some(p) => media_fields_of(s@) == Some((p.0, p.1@)),
            None => media_fields_of(s@) == None::<(u64, Seq<char>)>,
        },
{
    let v: serde_json::Value = serde_json::from_str(s).ok()?;
    let id = v.get("media_id")?.as_u64()?;
    let ids = v.get("media_id_string")?.as_str()?.to_string();
    Some((id, ids))
}

impl Media {
    /// Decode a media-upload response body; malformed JSON or an absent
    /// field is a decode error.
    pub fn parse_media(json_str: &str) -> (r: Result<Media, Error>)
        ensures
            match r {
                Ok(m) => media_fields_of(json_str@) == Some((m.media_id, m.media_id_string@)),
                Err(e) => e == Error::Decode && media_fields_of(json_str@) == None::<
                    (u64, Seq<char>),
                >,
            },
    {
        match parse_media_json(json_str) {
            Some(p) => Ok(Media { media_id: p.0, media_id_string: p.1 }),
            None => Err(Error::Decode),
        }
    }
}

/// What a timeline response decodes to: for each element of the JSON
/// array, its `created_at` and `text` fields, or nothing when the text is
/// not such an array. A pure function of the text.
pub uninterp spec fn timeline_fields_of(s: Seq<char>) -> Option<Seq<(Seq<char>, Seq<char>)>>;

/// Relies on serde_json::from_str and the Value accessors: reads a JSON
/// array of objects, taking each one's `created_at` and `text` strings;
/// the result depends on the input text alone.
#[verifier::external_body]
fn parse_timeline_json(s: &str) -> (r: Option<Vec<(String, String)>>)
    ensures
        match r {
            Some(ps) => timeline_fields_of(s@) == Some(
                ps@.map_values(|p: (String, String)| (p.0@, p.1@)),
            ),
            None => timeline_fields_of(s@) == None::<Seq<(Seq<char>, Seq<char>)>>,
        },
{
    let vals: Vec<serde_json::Value> = serde_json::from_str(s).ok()?;
    let mut out: Vec<(String, String)> = Vec::new();
    for v in vals.iter() {
        let c = v.get("created_at")?.as_str()?;
        let t = v.get("text")?.as_str()?;
        out.push((c.to_string(), t.to_string()));
    }
    Some(out)
}

impl Tweet {
    /// Decode a timeline response body into its posts; malformed JSON or a
    /// missing field in any element is a decode error.
    pub fn parse_timeline(json_str: &str) -> (r: Result<Vec<Tweet>, Error>)
        ensures
            match r {
                Ok(ts) => timeline_fields_of(json_str@) == Some(
                    ts@.map_values(|t: Tweet| (t.created_at@, t.text@)),
                ),
                Err(e) => e == Error::Decode && timeline_fields_of(json_str@) == None::<
                    Seq<(Seq<char>, Seq<char>)>,
                >,
            },
    {
        let pairs = match parse_timeline_json(json_str) {
            Some(ps) => ps,
            None => {
                return Err(Error::Decode);
            },
        };
        let ghost pv = pairs@.map_values(|p: (String, String)| (p.0@, p.1@));
        let mut out: Vec<Tweet> = Vec::new();
        let mut i: usize = 0;
        while i < pairs.len()
            invariant
                i <= pairs@.len(),
                pv == pairs@.map_values(|p: (String, String)| (p.0@, p.1@)),
                timeline_fields_of(json_str@) == Some(pv),
                out@.map_values(|t: Tweet| (t.created_at@, t.text@)) == pv.take(i as int),
            decreases pairs@.len() - i,
        {
            let p = &pairs[i];
            let tw = Tweet {
                created_at: clone_string(&p.0),
                text: clone_string(&p.1),
            };
            let ghost before = out@.map_values(|t: Tweet| (t.created_at@, t.text@));
            out.push(tw);
            proof {
                assert(out@.map_values(|t: Tweet| (t.created_at@, t.text@)) =~= before.push(
                    (pairs@[i as int].0@, pairs@[i as int].1@),
                ));
                assert(pv.take(i + 1) =~= pv.take(i as int).push(pv[i as int]));
            }
            i += 1;
        }
        proof {
            assert(pv.take(pv.len() as int) =~= pv);
        }
        Ok(out)
    }
}

/// What the feed's content response decodes to: the `title`, `url` and
/// `subreddit` fields of the JSON object, or nothing when the text is not
/// such an object. A pure function of the text.
pub uninterp spec fn content_fields_of(s: Seq<char>) -> Option<(Seq<char>, Seq<char>, Seq<char>)>;

/// Relies on serde_json::from_str and the Value accessors: reads the JSON
/// object's `title`, `url` and `subreddit` strings; the result depends on
/// the input text alone.
#[verifier::external_body]
fn parse_content_json(s: &str) -> (r: Option<(String, String, String)>)
    ensures
        match r {
            Some(p) => content_fields_of(s@) == Some((p.0@, p.1@, p.2@)),
            None => content_fields_of(s@) == None::<(Seq<char>, Seq<char>, Seq<char>)>,
        },
{
    let v: serde_json::Value = serde_json::from_str(s).ok()?;
    let title = v.get("title")?.as_str()?.to_string();
    let url = v.get("url")?.as_str()?.to_string();
    let sub = v.get("subreddit")?.as_str()?.to_string();
    Some((title, url, sub))
}

/// Decode a feed response body into a content item; malformed JSON or an
/// absent field is a decode error.
pub fn parse_content_item(json_str: &str) -> (r: Result<ContentItem, Error>)
    ensures
        match r {
            Ok(c) => content_fields_of(json_str@) == Some((c.title@, c.media_url@, c.category@)),
            Err(e) => e == Error::Decode && content_fields_of(json_str@) == None::<
                (Seq<char>, Seq<char>, Seq<char>),
            >,
        },
{
    match parse_content_json(json_str) {
        Some(p) => Ok(ContentItem { title: p.0, media_url: p.1, category: p.2 }),
        None => Err(Error::Decode),
    }
}

/// Copy a string.
pub fn clone_string(s: &String) -> (r: String)
    ensures
        r@ == s@,
{
    s.clone()
}

/// The request-token endpoint.
pub fn request_token_url() -> (r: &'static str)
    ensures
        r@ == "https://api.twitter.com/oauth/request_token"@,
{
    "https://api.twitter.com/oauth/request_token"
}

/// The access-token endpoint.
pub fn access_token_url() -> (r: &'static str)
    ensures
        r@ == "https://api.twitter.com/oauth/access_token"@,
{
    "https://api.twitter.com/oauth/access_token"
}

/// The status-update endpoint.
pub fn update_status_url() -> (r: &'static str)
    ensures
        r@ == "https://api.twitter.com/1.1/statuses/update.json"@,
{
    "https://api.twitter.com/1.1/statuses/update.json"
}

/// The home-timeline endpoint.
pub fn home_timeline_url() -> (r: &'static str)
    ensures
        r@ == "https://api.twitter.com/1.1/statuses/home_timeline.json"@,
{
    "https://api.twitter.com/1.1/statuses/home_timeline.json"
}

/// The media-upload endpoint.
pub fn upload_media_url() -> (r: &'static str)
    ensures
        r@ == "https://upload.twitter.com/1.1/media/upload.json"@,
{
    "https://upload.twitter.com/1.1/media/upload.json"
}

/// The feed endpoint for a category.
pub fn feed_url(category: &str) -> (r: Vec<u8>)
    ensures
        r@ == encode_utf8("https://meme-api.com/gimme/"@) + encode_utf8(category@),
{
    let mut out = str_bytes("https://meme-api.com/gimme/");
    let mut c = str_bytes(category);
    out.append(&mut c);
    out
}

/// The user-facing authorization URL of the handshake: the authorize
/// endpoint with the request token's key as `oauth_token`.
pub fn get_authorize_url(request: &Credential) -> (r: Vec<u8>)
    ensures
        r@ == encode_utf8("https://api.twitter.com/oauth/authorize"@) + encode_utf8(
            "?oauth_token="@,
        ) + request.key@,
{
    let mut out = str_bytes("https://api.twitter.com/oauth/authorize");
    let mut q = str_bytes("?oauth_token=");
    out.append(&mut q);
    let mut k = slice_to_vec(request.key.as_slice());
    out.append(&mut k);
    out
}

/// The verifier parameter of the access-token exchange.
pub fn verifier_params(pin: &str) -> (r: Vec<ParamPair>)
    ensures
        pairs_view(r@) == seq![(encode_utf8("oauth_verifier"@), encode_utf8(pin@))],
{
    let mut ps: Vec<ParamPair> = Vec::new();
    ps.push((str_bytes("oauth_verifier"), str_bytes(pin)));
    proof {
        assert(pairs_view(ps@) =~= seq![(encode_utf8("oauth_verifier"@), encode_utf8(pin@))]);
    }
    ps
}

/// The payload of the media-upload request: the `media` field holding the
/// base64 of the media bytes.
pub fn upload_params(media: &[u8]) -> (r: Vec<ParamPair>)
    ensures
        pairs_view(r@) == seq![(encode_utf8("media"@), b64_of(media@))],
{
    let mut ps: Vec<ParamPair> = Vec::new();
    ps.push((str_bytes("media"), base64_encode(media)));
    proof {
        assert(pairs_view(ps@) =~= seq![(encode_utf8("media"@), b64_of(media@))]);
    }
    ps
}

/// The payload of the status-post request: the status text and the media
/// id, the latter carried as the handle's string form, byte for byte.
pub fn status_params(status: &str, media_id_string: &str) -> (r: Vec<ParamPair>)
    ensures
        pairs_view(r@) == seq![
            (encode_utf8("status"@), encode_utf8(status@)),
            (encode_utf8("media_ids"@), encode_utf8(media_id_string@)),
        ],
{
    let mut ps: Vec<ParamPair> = Vec::new();
    ps.push((str_bytes("status"), str_bytes(status)));
    ps.push((str_bytes("media_ids"), str_bytes(media_id_string)));
    proof {
        assert(pairs_view(ps@) =~= seq![
            (encode_utf8("status"@), encode_utf8(status@)),
            (encode_utf8("media_ids"@), encode_utf8(media_id_string@)),
        ]);
    }
    ps
}

/// Classify an HTTP response of the platform or the feed: a 2xx status
/// hands the body through, 401 is the unauthorized protocol error, and any
/// other status is the unexpected protocol error carrying the status code.
pub fn classify_response(status: u16, body: Vec<u8>) -> (r: Result<Vec<u8>, Error>)
    ensures
        match r {
            Ok(b) => 200 <= status < 300 && b@ == body@,
            Err(e) => !(200 <= status < 300) && e == (if status == 401 {
                Error::Unauthorized
            } else {
                Error::Unexpected(status)
            }),
        },
{
    if 200 <= status && status < 300 {
        Ok(body)
    } else if status == 401 {
        Err(Error::Unauthorized)
    } else {
        Err(Error::Unexpected(status))
    }
}

/// The next move of one publish transaction.
pub enum PublishStep {
    /// Send the media-upload request with these parameters.
    UploadMedia { params: Vec<ParamPair> },
    /// Send the status-post request with these parameters.
    PostStatus { params: Vec<ParamPair> },
    /// The transaction failed; nothing further may be sent.
    Failed { error: Error },
}

/// Begin a publish transaction: the first request uploads the base64 of
/// exactly the given media bytes.
pub fn publish_begin(media: &[u8]) -> (r: PublishStep)
    ensures
        r matches PublishStep::UploadMedia { params } && pairs_view(params@) == seq![
            (encode_utf8("media"@), b64_of(media@)),
        ],
{
    PublishStep::UploadMedia { params: upload_params(media) }
}

/// Continue a publish transaction after the upload response arrived: when
/// the response carries a media handle, the status post references the
/// handle's string id verbatim — never a re-derived decimal of the numeric
/// field — and a response without a handle aborts the transaction with a
/// decode error, so no partial post is sent.
pub fn publish_after_upload(status_text: &str, upload_body: &str) -> (r: PublishStep)
    ensures
        match media_fields_of(upload_body@) {
            Some(f) => r matches PublishStep::PostStatus { params } && pairs_view(params@) == seq![
                (encode_utf8("status"@), encode_utf8(status_text@)),
                (encode_utf8("media_ids"@), encode_utf8(f.1)),
            ],
            None => r matches PublishStep::Failed { error } && error == Error::Decode,
        },
{
    match Media::parse_media(upload_body) {
        Ok(m) => PublishStep::PostStatus {
            params: status_params(status_text, m.media_id_string.as_str()),
        },
        Err(e) => PublishStep::Failed { error: e },
    }
}

} // verus!
