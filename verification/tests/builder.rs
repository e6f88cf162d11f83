use bililive::builder::buvid_cookie_name;
use bililive::builder::buvid_query_url;
use bililive::builder::cookie_header;
use bililive::builder::room_query_url;
use bililive::builder::types::ConfQueryInner;
use bililive::builder::types::Resp;
use bililive::builder::types::RoomQueryInner;
use bililive::builder::types::UserIDResponse;
use bililive::builder::types::WSServer;
use bililive::builder::ConfigBuilder;
use bililive::text::decimal;
use bililive::text::parse_u64;
use bililive::BuildError;

fn room(url: &str) -> Resp<RoomQueryInner> {
    Resp { data: RoomQueryInner::new(url.to_string()) }
}

fn conf(token: &str, hosts: &[(&str, u16)]) -> Resp<ConfQueryInner> {
    Resp {
        data: ConfQueryInner::new(
            token.to_string(),
            hosts.iter().map(|(h, p)| WSServer::new(h.to_string(), *p)).collect(),
        ),
    }
}

fn pair(a: &str, b: &str) -> (String, String) {
    (a.to_string(), b.to_string())
}

#[test]
fn decimal_text() {
    assert_eq!(decimal(0), "0");
    assert_eq!(decimal(7), "7");
    assert_eq!(decimal(10), "10");
    assert_eq!(decimal(90873), "90873");
    assert_eq!(decimal(1_000_000), "1000000");
    assert_eq!(decimal(u64::MAX), "18446744073709551615");
}

#[test]
fn parse_u64_as_the_standard_library() {
    for text in [
        "0", "7", "007", "+5", "+0", "18446744073709551615", "18446744073709551616",
        "99999999999999999999999", "", "+", "-1", "-0", "++1", "1+", " 1", "1 ", "12a", "a12",
        "١٢", "1_000", "0x10", "+18446744073709551615",
    ] {
        assert_eq!(parse_u64(text), text.parse::<u64>().ok(), "for {:?}", text);
    }
    assert_eq!(parse_u64("21452505"), Some(21452505));
    assert_eq!(parse_u64("18446744073709551616"), None);
    for n in [0u64, 9, 10, 12345, u64::MAX] {
        assert_eq!(parse_u64(&decimal(n)), Some(n));
    }
}

#[test]
fn servers_are_websocket_urls() {
    let resp = conf("tok", &[("broadcastlv.chat.bilibili.com", 443), ("tx-gz-live-comet-02.chat.bilibili.com", 2245), ("h", 0)]);
    assert_eq!(resp.token(), "tok");
    assert_eq!(
        resp.servers(),
        vec![
            "wss://broadcastlv.chat.bilibili.com:443/sub".to_string(),
            "wss://tx-gz-live-comet-02.chat.bilibili.com:2245/sub".to_string(),
            "wss://h:0/sub".to_string(),
        ]
    );
    assert_eq!(WSServer::new("x".to_string(), 65535).url(), "wss://x:65535/sub");
    assert!(conf("tok", &[]).servers().is_empty());
}

#[test]
fn room_id_of_a_room_page() {
    assert_eq!(room("https://live.bilibili.com/21452505").room_id(), Some(21452505));
    assert_eq!(room("https://live.bilibili.com/a/b/1016").room_id(), Some(1016));
    assert_eq!(room("https://live.bilibili.com/1016?from=search#top").room_id(), Some(1016));
    assert_eq!(room("HTTPS://LIVE.BILIBILI.COM/+42").room_id(), Some(42));
}

#[test]
fn room_id_of_other_urls() {
    assert_eq!(room("https://www.bilibili.com/21452505").room_id(), None);
    assert_eq!(room("https://live.bilibili.com.evil.example/1").room_id(), None);
    assert_eq!(room("https://live.bilibili.com/").room_id(), None);
    assert_eq!(room("https://live.bilibili.com").room_id(), None);
    assert_eq!(room("https://live.bilibili.com/room").room_id(), None);
    assert_eq!(room("https://live.bilibili.com/1016/").room_id(), None);
    assert_eq!(room("https://live.bilibili.com/99999999999999999999").room_id(), None);
    assert_eq!(room("not a url").room_id(), None);
    assert_eq!(room("mailto:room@live.bilibili.com").room_id(), None);
    assert_eq!(room("").room_id(), None);
}

#[test]
fn user_id_of_the_answer() {
    assert_eq!(Resp { data: UserIDResponse::new(3546729368520811) }.userid(), 3546729368520811);
}

#[test]
fn cookie_header_joins_pairs() {
    assert_eq!(cookie_header(&vec![]), "");
    assert_eq!(cookie_header(&vec![pair("SESSDATA", "abc")]), "SESSDATA=abc");
    assert_eq!(
        cookie_header(&vec![pair("a", "1"), pair("b", ""), pair("c", "3")]),
        "a=1; b=; c=3"
    );
}

#[test]
fn queries_without_a_session_token() {
    assert_eq!(room_query_url(90873), "https://api.live.bilibili.com/bili/living_v2/90873");
    assert_eq!(buvid_query_url(), "https://www.bilibili.com/");
    assert_eq!(buvid_cookie_name(), "buvid3");
    let builder = ConfigBuilder::new_with_client(()).room_id(1016);
    let query = builder.conf_query();
    assert_eq!(
        query.url,
        "https://api.live.bilibili.com/xlive/web-room/v1/index/getDanmuInfo"
    );
    assert_eq!(query.parameters, vec![pair("id", "1016"), pair("type", "0")]);
    assert!(query.cookies.is_empty());
    assert!(builder.user_query().is_none());
}

#[test]
fn queries_with_a_session_token() {
    let builder = ConfigBuilder::<(), _, _, _, _, _>::new().sess_token("secret").room_id(7);
    let query = builder.conf_query();
    assert_eq!(query.parameters, vec![pair("id", "7"), pair("type", "0")]);
    assert_eq!(query.cookies, vec![pair("SESSDATA", "secret")]);
    let user = builder.user_query().unwrap();
    assert_eq!(user.url, "https://api.bilibili.com/x/web-interface/nav");
    assert!(user.parameters.is_empty());
    assert_eq!(user.cookies, vec![pair("SESSDATA", "secret")]);
    assert_eq!(cookie_header(&user.cookies), "SESSDATA=secret");
}

#[test]
fn builder_carries_its_client() {
    let builder = ConfigBuilder::new_with_client("client").room_id(1).uid(2);
    assert_eq!(*builder.http(), "client");
    let builder = builder.token("t").buvid("b").sess_token("s");
    assert_eq!(*builder.http(), "client");
}

#[test]
fn build_from_given_parts() {
    let config = ConfigBuilder::new_with_client(())
        .room_id(1016)
        .uid(90873)
        .token("tok")
        .buvid("buv")
        .servers(&["wss://a/sub".to_string(), "wss://b/sub".to_string()])
        .build();
    assert_eq!(config.room_id(), 1016);
    assert_eq!(config.uid(), 90873);
    assert_eq!(config.token(), "tok");
    assert_eq!(config.buvid(), "buv");
    assert_eq!(config.servers(), &["wss://a/sub".to_string(), "wss://b/sub".to_string()]);
    let copy = config.clone();
    assert_eq!(copy.room_id(), 1016);
    assert_eq!(copy.token(), "tok");
    assert_eq!(copy.servers(), config.servers());
}

#[test]
fn build_from_answers_as_a_guest() {
    let builder = ConfigBuilder::new_with_client(())
        .by_uid(90873, &room("https://live.bilibili.com/1016"))
        .unwrap();
    let config = builder
        .fetch_conf(&conf("tok", &[("h1", 443), ("h2", 2245)]), "buvid-3".to_string(), None)
        .unwrap()
        .build();
    assert_eq!(config.room_id(), 1016);
    assert_eq!(config.uid(), 0);
    assert_eq!(config.token(), "tok");
    assert_eq!(config.buvid(), "buvid-3");
    assert_eq!(
        config.servers(),
        &["wss://h1:443/sub".to_string(), "wss://h2:2245/sub".to_string()]
    );
}

#[test]
fn build_from_answers_as_a_user() {
    let user = Resp { data: UserIDResponse::new(424242) };
    let config = ConfigBuilder::new_with_client(())
        .sess_token("secret")
        .by_uid(90873, &room("https://live.bilibili.com/1016"))
        .unwrap()
        .fetch_conf(&conf("tok", &[("h1", 443)]), String::new(), Some(&user))
        .unwrap()
        .build();
    assert_eq!(config.uid(), 424242);
    assert_eq!(config.room_id(), 1016);
    assert_eq!(config.buvid(), "");
    // Without a session token the answer to the user query is not read.
    let guest = ConfigBuilder::new_with_client(())
        .room_id(5)
        .fetch_conf(&conf("tok", &[("h1", 443)]), "b".to_string(), Some(&user))
        .unwrap()
        .build();
    assert_eq!(guest.uid(), 0);
}

#[test]
fn build_errors() {
    let by_uid = ConfigBuilder::new_with_client(()).by_uid(1, &room("https://example.com/1016"));
    assert_eq!(by_uid.err(), Some(BuildError::RoomId));
    let no_servers = ConfigBuilder::new_with_client(())
        .room_id(1)
        .fetch_conf(&conf("tok", &[]), "b".to_string(), None);
    assert_eq!(no_servers.err(), Some(BuildError::NoServers));
    let missing_user = ConfigBuilder::new_with_client(())
        .room_id(1)
        .sess_token("secret")
        .fetch_conf(&conf("tok", &[("h", 1)]), "b".to_string(), None);
    assert_eq!(missing_user.err(), Some(BuildError::MissingUser));
    let both = ConfigBuilder::new_with_client(())
        .room_id(1)
        .sess_token("secret")
        .fetch_conf(&conf("tok", &[]), "b".to_string(), None);
    assert_eq!(both.err(), Some(BuildError::NoServers));
}
