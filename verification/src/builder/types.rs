//! The answers of the HTTP interface that the builder reads, as plain values.

use vstd::prelude::*;
use vstd::string::StringExecFns;

use crate::builder::address::host_of;
use crate::builder::address::path_segments_of;
use crate::builder::address::texts;
use crate::builder::address::url_host;
use crate::builder::address::url_path_segments;
use crate::text::parse_u64;
use crate::text::push_decimal;
use crate::text::spec_decimal;
use crate::text::spec_parse_u64;

verus! {

/// The envelope of every answer: the payload sits under `data`.
#[derive(Debug)]
pub struct Resp<T> {
    pub data: T,
}

/// Answer to the query for the room of a user: the URL of the room's page.
#[derive(Debug)]
pub struct RoomQueryInner {
    url: String,
}

/// One danmaku server of the answer to the configuration query.
#[derive(Debug)]
pub struct WSServer {
    host: String,
    wss_port: u16,
}

/// Answer to the configuration query: the subscription token and the
/// danmaku servers.
#[derive(Debug)]
pub struct ConfQueryInner {
    token: String,
    host_list: Vec<WSServer>,
}

/// Answer to the query for the logged-in user.
#[derive(Debug)]
pub struct UserIDResponse {
    mid: u64,
}

/// The host on which room pages live.
pub open spec fn room_host() -> Seq<char> {
    "live.bilibili.com"@
}

/// The room id that the URL of a room's page names: the host has to be the
/// one of room pages, and the last path segment a decimal number.
pub open spec fn spec_room_id(url: Seq<char>) -> Option<u64> {
    if url_host(url) == Some(room_host()) {
        match url_path_segments(url) {
            Some(segments) => if segments.len() > 0 {
                spec_parse_u64(segments.last())
            } else {
                None
            },
            None => None,
        }
    } else {
        None
    }
}

/// The WebSocket URL of a danmaku server.
pub open spec fn spec_server_url(host: Seq<char>, wss_port: u16) -> Seq<char> {
    "wss://"@ + host + ":"@ + spec_decimal(wss_port as nat) + "/sub"@
}

impl RoomQueryInner {
    /// An answer that holds the text of the room page's URL.
    pub fn new(url: String) -> (r: Self)
        ensures
            r.spec_url() == url@,
    {
        RoomQueryInner { url }
    }

    /// The text of the room page's URL.
    pub closed spec fn spec_url(&self) -> Seq<char> {
        self.url@
    }
}

impl WSServer {
    /// A danmaku server at `host`, with its secure WebSocket port.
    pub fn new(host: String, wss_port: u16) -> (r: Self)
        ensures
            r.spec_host() == host@,
            r.spec_wss_port() == wss_port,
    {
        WSServer { host, wss_port }
    }

    /// The host name of the server.
    pub closed spec fn spec_host(&self) -> Seq<char> {
        self.host@
    }

    /// The secure WebSocket port of the server.
    pub closed spec fn spec_wss_port(&self) -> u16 {
        self.wss_port
    }

    /// The WebSocket URL of the server.
    pub open spec fn spec_url(&self) -> Seq<char> {
        spec_server_url(self.spec_host(), self.spec_wss_port())
    }

    /// The WebSocket URL of the server: `wss://<host>:<wss_port>/sub`.
    pub fn url(&self) -> (url: String)
        ensures
            url@ == self.spec_url(),
    {
        let mut url: String = "wss://".to_owned();
        url.append(self.host.as_str());
        url.append(":");
        push_decimal(&mut url, self.wss_port as u64);
        url.append("/sub");
        url
    }
}

impl ConfQueryInner {
    /// An answer with the given token and servers.
    pub fn new(token: String, host_list: Vec<WSServer>) -> (r: Self)
        ensures
            r.spec_token() == token@,
            r.spec_host_list() == host_list@,
    {
        ConfQueryInner { token, host_list }
    }

    /// The subscription token.
    pub closed spec fn spec_token(&self) -> Seq<char> {
        self.token@
    }

    /// The danmaku servers, in the order of the answer.
    pub closed spec fn spec_host_list(&self) -> Seq<WSServer> {
        self.host_list@
    }

    /// The WebSocket URLs of the danmaku servers, in the order of the answer.
    pub open spec fn spec_servers(&self) -> Seq<Seq<char>> {
        Seq::new(self.spec_host_list().len(), |i: int| self.spec_host_list()[i].spec_url())
    }
}

impl UserIDResponse {
    /// An answer that names the user `mid`.
    pub fn new(mid: u64) -> (r: Self)
        ensures
            r.spec_mid() == mid,
    {
        UserIDResponse { mid }
    }

    /// The id of the logged-in user.
    pub closed spec fn spec_mid(&self) -> u64 {
        self.mid
    }
}

impl Resp<ConfQueryInner> {
    /// The subscription token.
    pub fn token(&self) -> (token: &str)
        ensures
            token@ == self.data.spec_token(),
    {
        self.data.token.as_str()
    }

    /// The WebSocket URLs of the danmaku servers, in the order of the answer.
    pub fn servers(&self) -> (servers: Vec<String>)
        ensures
            texts(servers@) == self.data.spec_servers(),
    {
        let mut servers: Vec<String> = Vec::new();
        let n = self.data.host_list.len();
        let mut i: usize = 0;
        while i < n
            invariant
                i <= n,
                n == self.data.host_list@.len(),
                servers@.len() == i,
                forall|j: int| 0 <= j < i ==> (#[trigger] servers@[j])@ == self.data.host_list@[j].spec_url(),
            decreases n - i,
        {
            servers.push(self.data.host_list[i].url());
            i = i + 1;
        }
        assert(texts(servers@) =~= self.data.spec_servers());
        servers
    }
}

impl Resp<RoomQueryInner> {
    /// The id of the room whose page the answer points to, if the URL is one
    /// of a room page.
    pub fn room_id(&self) -> (id: Option<u64>)
        ensures
            id == spec_room_id(self.data.spec_url()),
    {
        let expected: String = "live.bilibili.com".to_owned();
        match host_of(self.data.url.as_str()) {
            None => None,
            Some(host) => {
                if host != expected {
                    return None;
                }
                match path_segments_of(self.data.url.as_str()) {
                    None => None,
                    Some(segments) => {
                        let n = segments.len();
                        if n == 0 {
                            None
                        } else {
                            assert(texts(segments@).last() == segments@[n - 1]@);
                            parse_u64(segments[n - 1].as_str())
                        }
                    },
                }
            },
        }
    }
}

impl Resp<UserIDResponse> {
    /// The id of the logged-in user.
    pub fn userid(&self) -> (mid: u64)
        ensures
            mid == self.data.spec_mid(),
    {
        self.data.mid
    }
}

} // verus!
