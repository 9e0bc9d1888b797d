use meme_relay::platform::{
    classify_response, feed_url, get_authorize_url, parse_content_item, publish_after_upload,
    publish_begin, status_params, upload_params, Media, PublishStep, Tweet,
};
use meme_relay::query::{lookup, split_query, token_from_response};
use meme_relay::scheduler::{
    category_of, choose_category, classify_status, plan_tick, remaining_wait, FetchOutcome,
    StatusClass, TickStep, TARGET_INTERVAL_MS,
};
use meme_relay::Error;

fn pair(k: &str, v: &str) -> (Vec<u8>, Vec<u8>) {
    (k.as_bytes().to_vec(), v.as_bytes().to_vec())
}

#[test]
fn split_query_two_fields() {
    let ps = split_query("oauth_token=AAA&oauth_token_secret=BBB").unwrap();
    assert_eq!(ps.len(), 2);
    assert_eq!(ps[0], pair("oauth_token", "AAA"));
    assert_eq!(ps[1], pair("oauth_token_secret", "BBB"));
    assert_eq!(lookup(&ps, "oauth_token"), Some(b"AAA".to_vec()));
    assert_eq!(lookup(&ps, "oauth_token_secret"), Some(b"BBB".to_vec()));
    assert_eq!(lookup(&ps, "missing"), None);
}

#[test]
fn split_query_segment_without_equals_fails() {
    assert_eq!(split_query("junk").unwrap_err(), Error::Decode);
    assert_eq!(split_query("a=1&junk&b=2").unwrap_err(), Error::Decode);
    assert_eq!(split_query("").unwrap_err(), Error::Decode);
}

#[test]
fn split_query_splits_at_first_equals() {
    let ps = split_query("k=a=b").unwrap();
    assert_eq!(ps.len(), 1);
    assert_eq!(ps[0], pair("k", "a=b"));
}

#[test]
fn split_query_edges() {
    // a trailing separator leaves an empty segment with no `=`
    assert_eq!(split_query("a=1&").unwrap_err(), Error::Decode);
    // empty key or value segments still parse
    let ps = split_query("k=&=v").unwrap();
    assert_eq!(ps[0], pair("k", ""));
    assert_eq!(ps[1], pair("", "v"));
}

#[test]
fn repeated_key_resolves_to_later_value() {
    // the mapping semantics of an insert-folded map: the later value wins
    let ps = split_query("a=1&a=2").unwrap();
    assert_eq!(ps.len(), 2);
    assert_eq!(lookup(&ps, "a"), Some(b"2".to_vec()));
    let c = token_from_response("oauth_token=A&oauth_token_secret=B&oauth_token=C").unwrap();
    assert_eq!(c.key, b"C".to_vec());
    assert_eq!(c.secret, b"B".to_vec());
}

#[test]
fn token_from_response_reads_both_fields() {
    let c = token_from_response("oauth_token=KEY&oauth_token_secret=SEC&extra=1").unwrap();
    assert_eq!(c.key, b"KEY".to_vec());
    assert_eq!(c.secret, b"SEC".to_vec());
}

#[test]
fn token_from_response_missing_field_fails() {
    assert_eq!(
        token_from_response("oauth_token=KEY").unwrap_err(),
        Error::Decode
    );
    assert_eq!(token_from_response("garbage").unwrap_err(), Error::Decode);
}

#[test]
fn remaining_wait_is_clamped_difference() {
    assert_eq!(remaining_wait(1800, 600), 1200);
    assert_eq!(remaining_wait(1800, 1800), 0);
    assert_eq!(remaining_wait(1800, 2500), 0);
    assert_eq!(remaining_wait(TARGET_INTERVAL_MS, 0), 1800000);
}

#[test]
fn status_classification() {
    assert_eq!(classify_status(200), StatusClass::Success);
    assert_eq!(classify_status(401), StatusClass::Unauthorized);
    assert_eq!(classify_status(500), StatusClass::Unexpected);
    assert_eq!(classify_status(201), StatusClass::Unexpected);
}

#[test]
fn tick_plans() {
    assert_eq!(
        plan_tick(&FetchOutcome::Received { status: 200, decoded: true }),
        TickStep::Publish
    );
    assert_eq!(
        plan_tick(&FetchOutcome::Received { status: 200, decoded: false }),
        TickStep::Skip
    );
    assert_eq!(
        plan_tick(&FetchOutcome::Received { status: 401, decoded: false }),
        TickStep::Skip
    );
    assert_eq!(
        plan_tick(&FetchOutcome::Received { status: 500, decoded: false }),
        TickStep::Fatal
    );
    assert_eq!(plan_tick(&FetchOutcome::TransportFailed), TickStep::Fatal);
}

#[test]
fn response_classification_to_errors() {
    assert_eq!(classify_response(200, b"body".to_vec()).unwrap(), b"body".to_vec());
    assert_eq!(classify_response(204, Vec::new()).unwrap(), Vec::<u8>::new());
    assert_eq!(classify_response(401, Vec::new()).unwrap_err(), Error::Unauthorized);
    assert_eq!(classify_response(500, Vec::new()).unwrap_err(), Error::Unexpected(500));
    assert_eq!(classify_response(302, Vec::new()).unwrap_err(), Error::Unexpected(302));
}

#[test]
fn category_is_one_of_four() {
    for _ in 0..20 {
        let c = choose_category();
        assert!(
            c == "programming_memes"
                || c == "anime_memes"
                || c == "linux_memes"
                || c == "programminghumor"
        );
    }
}

#[test]
fn category_per_index() {
    assert_eq!(category_of(0), "programming_memes");
    assert_eq!(category_of(1), "anime_memes");
    assert_eq!(category_of(2), "linux_memes");
    assert_eq!(category_of(3), "programminghumor");
}

#[test]
fn media_parse_keeps_string_id() {
    let m = Media::parse_media("{\"media_id\": 123, \"media_id_string\": \"123\"}").unwrap();
    assert_eq!(m.media_id, 123);
    assert_eq!(m.media_id_string, "123");
}

#[test]
fn media_parse_failures() {
    assert_eq!(Media::parse_media("not json").unwrap_err(), Error::Decode);
    assert_eq!(
        Media::parse_media("{\"media_id\": 5}").unwrap_err(),
        Error::Decode
    );
}

#[test]
fn timeline_parse() {
    let ts =
        Tweet::parse_timeline("[{\"created_at\":\"c1\",\"text\":\"t1\"},{\"created_at\":\"c2\",\"text\":\"t2\"}]")
            .unwrap();
    assert_eq!(ts.len(), 2);
    assert_eq!(ts[0].created_at, "c1");
    assert_eq!(ts[0].text, "t1");
    assert_eq!(ts[1].created_at, "c2");
    assert_eq!(ts[1].text, "t2");
    assert!(Tweet::parse_timeline("{\"oops\":1}").is_err());
}

#[test]
fn content_parse() {
    let c =
        parse_content_item("{\"title\":\"t\",\"url\":\"http://x/img.png\",\"subreddit\":\"s\"}")
            .unwrap();
    assert_eq!(c.title, "t");
    assert_eq!(c.media_url, "http://x/img.png");
    assert_eq!(c.category, "s");
    assert_eq!(parse_content_item("[]").unwrap_err(), Error::Decode);
}

#[test]
fn publish_carries_string_id_verbatim() {
    // a 64-bit id that a float-reading consumer would round
    let body = "{\"media_id\": 9007199254740993, \"media_id_string\": \"9007199254740993\"}";
    match publish_after_upload("hello", body) {
        PublishStep::PostStatus { params } => {
            assert_eq!(params.len(), 2);
            assert_eq!(params[0], pair("status", "hello"));
            assert_eq!(params[1], pair("media_ids", "9007199254740993"));
        }
        _ => panic!("expected a status post"),
    }
}

#[test]
fn publish_aborts_on_bad_upload_response() {
    match publish_after_upload("hello", "{\"unexpected\": true}") {
        PublishStep::Failed { error } => assert_eq!(error, Error::Decode),
        _ => panic!("expected an aborted transaction"),
    }
}

#[test]
fn publish_uploads_base64_of_exact_bytes() {
    // the feed scenario: bytes 0x89 0x50 encode to "iVA="
    match publish_begin(&[0x89u8, 0x50u8]) {
        PublishStep::UploadMedia { params } => {
            assert_eq!(params.len(), 1);
            assert_eq!(params[0], pair("media", "iVA="));
        }
        _ => panic!("expected an upload"),
    }
}

#[test]
fn end_to_end_feed_to_post() {
    let feed_body = "{\"title\":\"t\",\"url\":\"http://x/img.png\",\"subreddit\":\"s\"}";
    let item = parse_content_item(feed_body).unwrap();
    let media = [0x89u8, 0x50u8];
    let upload = match publish_begin(&media) {
        PublishStep::UploadMedia { params } => params,
        _ => panic!("expected an upload"),
    };
    assert_eq!(upload[0], pair("media", "iVA="));
    // a stubbed upload endpoint answers with a handle
    let upload_response = "{\"media_id\": 77, \"media_id_string\": \"77\"}";
    match publish_after_upload(&item.title, upload_response) {
        PublishStep::PostStatus { params } => {
            assert_eq!(params[0], pair("status", "t"));
            assert_eq!(params[1], pair("media_ids", "77"));
        }
        _ => panic!("expected a status post"),
    }
}

#[test]
fn authorize_url_and_feed_url() {
    let req = meme_relay::signer::Credential::new(b"RKEY".to_vec(), b"RSEC".to_vec());
    assert_eq!(
        get_authorize_url(&req),
        b"https://api.twitter.com/oauth/authorize?oauth_token=RKEY".to_vec()
    );
    assert_eq!(
        feed_url("linux_memes"),
        b"https://meme-api.com/gimme/linux_memes".to_vec()
    );
}

#[test]
fn upload_and_status_params() {
    let ps = upload_params(b"Man");
    assert_eq!(ps[0], pair("media", "TWFu"));
    let ps = status_params("text", "42");
    assert_eq!(ps[0], pair("status", "text"));
    assert_eq!(ps[1], pair("media_ids", "42"));
}
