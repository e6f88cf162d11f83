//! Builder of the session configuration.
//!
//! A configuration can be built from given room parameters (room id and
//! user id) and danmaku server parameters (token, browser identifier and
//! server list), or from the answers of the HTTP interface: the builder says
//! what to ask, the caller asks, and the builder reads the answers.
//!
//! The builder records in its type which parts have been given:
//! [`ConfigBuilder::build`] exists only once all five are there, and that it
//! finds them is proved, not assumed.

use core::marker::PhantomData;

use vstd::prelude::*;
use vstd::string::StringExecFns;

use crate::builder::address::texts;
use crate::builder::types::spec_room_id;
use crate::builder::types::ConfQueryInner;
use crate::builder::types::Resp;
use crate::builder::types::RoomQueryInner;
use crate::builder::types::UserIDResponse;
use crate::config::StreamConfig;
use crate::config::StreamConfigView;
use crate::errors::BuildError;
use crate::text::push_decimal;
use crate::text::spec_decimal;

pub mod address;
pub mod types;

verus! {

/// A mark in the builder's type that says whether a part has been given.
pub trait Flag {
    /// Whether the mark stands for a part that has been given.
    spec fn is_set() -> bool;
}

/// The mark of a part that has been given. It is used as a type only.
#[derive(Debug, Copy, Clone)]
pub enum BF {
    Filled,
}

/// The mark of a part that has not been given yet. It is used as a type
/// only.
#[derive(Debug, Copy, Clone)]
pub enum BN {
    Missing,
}

impl Flag for BF {
    open spec fn is_set() -> bool {
        true
    }
}

impl Flag for BN {
    open spec fn is_set() -> bool {
        false
    }
}

/// What a builder has been given so far, as plain values.
pub struct BuilderView {
    pub room_id: Option<u64>,
    pub uid: Option<u64>,
    pub token: Option<Seq<char>>,
    pub buvid: Option<Seq<char>>,
    pub servers: Option<Seq<Seq<char>>>,
    pub sess_token: Option<Seq<char>>,
}

/// Stream config builder.
///
/// `H` is the HTTP client that the caller uses to ask the HTTP interface;
/// the builder only carries it. The five marks stand for the room id, the
/// user id, the token, the server list and the browser identifier.
#[derive(Debug)]
pub struct ConfigBuilder<H, R: Flag, U: Flag, T: Flag, S: Flag, B: Flag> {
    http: H,
    room_id: Option<u64>,
    uid: Option<u64>,
    token: Option<String>,
    buvid: Option<String>,
    servers: Option<Vec<String>>,
    sess_token: Option<String>,
    __marker: PhantomData<(R, U, T, S, B)>,
}

/// The text of an optional string.
pub open spec fn opt_text(s: Option<String>) -> Option<Seq<char>> {
    match s {
        Some(s) => Some(s@),
        None => None,
    }
}

/// The texts of an optional list of strings.
pub open spec fn opt_texts(v: Option<Vec<String>>) -> Option<Seq<Seq<char>>> {
    match v {
        Some(v) => Some(texts(v@)),
        None => None,
    }
}

impl<H, R: Flag, U: Flag, T: Flag, S: Flag, B: Flag> View for ConfigBuilder<H, R, U, T, S, B> {
    type V = BuilderView;

    closed spec fn view(&self) -> BuilderView {
        BuilderView {
            room_id: self.room_id,
            uid: self.uid,
            token: opt_text(self.token),
            buvid: opt_text(self.buvid),
            servers: opt_texts(self.servers),
            sess_token: opt_text(self.sess_token),
        }
    }
}

/// Whether what has been given covers what the marks claim. A server list
/// that has been given is not empty.
pub open spec fn covers<R: Flag, U: Flag, T: Flag, S: Flag, B: Flag>(v: BuilderView) -> bool {
    &&& R::is_set() ==> v.room_id is Some
    &&& U::is_set() ==> v.uid is Some
    &&& T::is_set() ==> v.token is Some
    &&& S::is_set() ==> v.servers is Some && v.servers.unwrap().len() > 0
    &&& B::is_set() ==> v.buvid is Some
}

impl<H, R: Flag, U: Flag, T: Flag, S: Flag, B: Flag> ConfigBuilder<H, R, U, T, S, B> {
    #[verifier::type_invariant]
    closed spec fn inv(self) -> bool {
        covers::<R, U, T, S, B>(self@)
    }

    /// The HTTP client that the builder carries.
    pub closed spec fn client(&self) -> H {
        self.http
    }

    /// The HTTP client that the builder carries, for the caller to ask the
    /// builder's queries with.
    pub fn http(&self) -> (http: &H)
        ensures
            *http == self.client(),
    {
        &self.http
    }
}

impl<H: Default> ConfigBuilder<H, BN, BN, BN, BN, BN> {
    /// Construct a new builder with the default client.
    #[must_use]
    pub fn new() -> (b: Self)
        ensures
            b@ == empty_builder(),
    {
        Self::new_with_client(H::default())
    }
}

/// A builder that has been given nothing.
pub open spec fn empty_builder() -> BuilderView {
    BuilderView {
        room_id: None,
        uid: None,
        token: None,
        buvid: None,
        servers: None,
        sess_token: None,
    }
}

impl<H> ConfigBuilder<H, BN, BN, BN, BN, BN> {
    /// Construct a new builder with the given client.
    #[must_use]
    pub fn new_with_client(client: H) -> (b: Self)
        ensures
            b@ == empty_builder(),
            b.client() == client,
    {
        ConfigBuilder {
            http: client,
            room_id: None,
            uid: None,
            token: None,
            servers: None,
            sess_token: None,
            buvid: None,
            __marker: PhantomData,
        }
    }
}

/// What one GET request to the HTTP interface consists of.
#[derive(Debug)]
pub struct Query {
    /// The URL to ask, without the query string.
    pub url: String,
    /// The parameters of the query string, in order.
    pub parameters: Vec<(String, String)>,
    /// The cookies to send, in order.
    pub cookies: Vec<(String, String)>,
}

/// The texts of a list of pairs of strings.
pub open spec fn pairs(v: Seq<(String, String)>) -> Seq<(Seq<char>, Seq<char>)> {
    Seq::new(v.len(), |i: int| (v[i].0@, v[i].1@))
}

/// What a query consists of, as plain values.
pub struct QueryView {
    pub url: Seq<char>,
    pub parameters: Seq<(Seq<char>, Seq<char>)>,
    pub cookies: Seq<(Seq<char>, Seq<char>)>,
}

impl View for Query {
    type V = QueryView;

    open spec fn view(&self) -> QueryView {
        QueryView {
            url: self.url@,
            parameters: pairs(self.parameters@),
            cookies: pairs(self.cookies@),
        }
    }
}

/// The URL that answers with the room of the user `uid`.
pub open spec fn spec_room_query_url(uid: u64) -> Seq<char> {
    "https://api.live.bilibili.com/bili/living_v2/"@ + spec_decimal(uid as nat)
}

/// The cookies that carry a session token, if there is one.
pub open spec fn session_cookies(sess_token: Option<Seq<char>>) -> Seq<(Seq<char>, Seq<char>)> {
    match sess_token {
        Some(t) => seq![("SESSDATA"@, t)],
        None => Seq::empty(),
    }
}

/// The query for the token and the servers of the room `room_id`.
pub open spec fn spec_conf_query(room_id: u64, sess_token: Option<Seq<char>>) -> QueryView {
    QueryView {
        url: "https://api.live.bilibili.com/xlive/web-room/v1/index/getDanmuInfo"@,
        parameters: seq![("id"@, spec_decimal(room_id as nat)), ("type"@, "0"@)],
        cookies: session_cookies(sess_token),
    }
}

/// The query for the logged-in user: asked only with a session token.
pub open spec fn spec_user_query(sess_token: Option<Seq<char>>) -> Option<QueryView> {
    match sess_token {
        Some(t) => Some(
            QueryView {
                url: "https://api.bilibili.com/x/web-interface/nav"@,
                parameters: Seq::empty(),
                cookies: session_cookies(sess_token),
            },
        ),
        None => None,
    }
}

/// The value of a `Cookie` header that carries `cookies`: each as
/// `name=value`, joined by `; `.
pub open spec fn spec_cookie_header(cookies: Seq<(Seq<char>, Seq<char>)>) -> Seq<char>
    decreases cookies.len(),
{
    if cookies.len() == 0 {
        Seq::empty()
    } else if cookies.len() == 1 {
        cookies[0].0 + "="@ + cookies[0].1
    } else {
        spec_cookie_header(cookies.drop_last()) + "; "@ + cookies.last().0 + "="@
            + cookies.last().1
    }
}

/// The value of a `Cookie` header that carries `cookies`.
pub fn cookie_header(cookies: &Vec<(String, String)>) -> (header: String)
    ensures
        header@ == spec_cookie_header(pairs(cookies@)),
{
    let mut header = String::new();
    let n = cookies.len();
    let mut i: usize = 0;
    while i < n
        invariant
            i <= n,
            n == cookies@.len(),
            header@ == spec_cookie_header(pairs(cookies@).subrange(0, i as int)),
        decreases n - i,
    {
        let ghost before = pairs(cookies@).subrange(0, i as int);
        let ghost after = pairs(cookies@).subrange(0, i + 1);
        proof {
            assert(after.drop_last() =~= before);
            assert(after.last() == (cookies@[i as int].0@, cookies@[i as int].1@));
        }
        if i > 0 {
            header.append("; ");
        }
        header.append(cookies[i].0.as_str());
        header.append("=");
        header.append(cookies[i].1.as_str());
        proof {
            if i == 0 {
                assert(header@ =~= after[0].0 + "="@ + after[0].1);
            }
        }
        i = i + 1;
    }
    assert(pairs(cookies@).subrange(0, n as int) =~= pairs(cookies@));
    header
}

/// The URL that answers with the room of the user `uid`.
pub fn room_query_url(uid: u64) -> (url: String)
    ensures
        url@ == spec_room_query_url(uid),
{
    let mut url: String = "https://api.live.bilibili.com/bili/living_v2/".to_owned();
    push_decimal(&mut url, uid);
    url
}

/// The URL whose answer sets the cookie of the browser identifier.
pub fn buvid_query_url() -> (url: String)
    ensures
        url@ == "https://www.bilibili.com/"@,
{
    "https://www.bilibili.com/".to_owned()
}

/// The name of the cookie that holds the browser identifier.
pub fn buvid_cookie_name() -> (name: String)
    ensures
        name@ == "buvid3"@,
{
    "buvid3".to_owned()
}

/// A copy of a list of strings.
fn copy_strings(list: &[String]) -> (copy: Vec<String>)
    ensures
        texts(copy@) == texts(list@),
        copy@.len() == list@.len(),
{
    let mut copy: Vec<String> = Vec::new();
    let n = list.len();
    let mut i: usize = 0;
    while i < n
        invariant
            i <= n,
            n == list@.len(),
            copy@.len() == i,
            forall|j: int| 0 <= j < i ==> (#[trigger] copy@[j])@ == list@[j]@,
        decreases n - i,
    {
        copy.push(list[i].clone());
        i = i + 1;
    }
    assert(texts(copy@) =~= texts(list@));
    copy
}

impl<H, R: Flag, U: Flag, T: Flag, S: Flag, B: Flag> ConfigBuilder<H, R, U, T, S, B> {
    /// The same builder under other marks, which what has been given must
    /// cover.
    fn cast<R2: Flag, U2: Flag, T2: Flag, S2: Flag, B2: Flag>(self) -> (b: ConfigBuilder<
        H,
        R2,
        U2,
        T2,
        S2,
        B2,
    >)
        requires
            covers::<R2, U2, T2, S2, B2>(self@),
        ensures
            b@ == self@,
            b.client() == self.client(),
    {
        ConfigBuilder {
            http: self.http,
            room_id: self.room_id,
            uid: self.uid,
            token: self.token,
            servers: self.servers,
            sess_token: self.sess_token,
            buvid: self.buvid,
            __marker: PhantomData,
        }
    }

    /// Give the id of the room to join.
    #[must_use]
    pub fn room_id(self, room_id: u64) -> (b: ConfigBuilder<H, BF, U, T, S, B>)
        ensures
            b@ == (BuilderView { room_id: Some(room_id), ..self@ }),
            b.client() == self.client(),
    {
        proof {
            use_type_invariant(&self);
        }
        let mut this = self;
        this.room_id = Some(room_id);
        this.cast()
    }

    /// Give the id of the user who joins.
    #[must_use]
    pub fn uid(self, uid: u64) -> (b: ConfigBuilder<H, R, BF, T, S, B>)
        ensures
            b@ == (BuilderView { uid: Some(uid), ..self@ }),
            b.client() == self.client(),
    {
        proof {
            use_type_invariant(&self);
        }
        let mut this = self;
        this.uid = Some(uid);
        this.cast()
    }

    /// Give the subscription token.
    #[must_use]
    pub fn token(self, token: &str) -> (b: ConfigBuilder<H, R, U, BF, S, B>)
        ensures
            b@ == (BuilderView { token: Some(token@), ..self@ }),
            b.client() == self.client(),
    {
        proof {
            use_type_invariant(&self);
        }
        let mut this = self;
        this.token = Some(token.to_owned());
        this.cast()
    }

    /// Give the WebSocket URLs of the danmaku servers, in the order in which
    /// they are to be tried. There has to be at least one.
    #[must_use]
    pub fn servers(self, servers: &[String]) -> (b: ConfigBuilder<H, R, U, T, BF, B>)
        requires
            servers@.len() > 0,
        ensures
            b@ == (BuilderView { servers: Some(texts(servers@)), ..self@ }),
            b.client() == self.client(),
    {
        proof {
            use_type_invariant(&self);
        }
        let mut this = self;
        this.servers = Some(copy_strings(servers));
        this.cast()
    }

    /// Give the session token of a logged-in user. It is sent as a cookie
    /// with the queries, and is not itself a part of the configuration.
    #[must_use]
    pub fn sess_token(self, sess_token: &str) -> (b: ConfigBuilder<H, R, U, T, S, B>)
        ensures
            b@ == (BuilderView { sess_token: Some(sess_token@), ..self@ }),
            b.client() == self.client(),
    {
        proof {
            use_type_invariant(&self);
        }
        let mut this = self;
        this.sess_token = Some(sess_token.to_owned());
        this
    }

    /// Give the browser identifier.
    #[must_use]
    pub fn buvid(self, buvid: &str) -> (b: ConfigBuilder<H, R, U, T, S, BF>)
        ensures
            b@ == (BuilderView { buvid: Some(buvid@), ..self@ }),
            b.client() == self.client(),
    {
        proof {
            use_type_invariant(&self);
        }
        let mut this = self;
        this.buvid = Some(buvid.to_owned());
        this.cast()
    }

    /// Fill the room id and the user id from the answer to the room query of
    /// the user `uid`, which is asked at [`room_query_url`].
    ///
    /// Fails exactly when the answer does not point to a room page.
    pub fn by_uid(self, uid: u64, resp: &Resp<RoomQueryInner>) -> (r: Result<
        ConfigBuilder<H, BF, BF, T, S, B>,
        BuildError,
    >)
        ensures
            match spec_room_id(resp.data.spec_url()) {
                Some(room_id) => r is Ok && r.unwrap()@ == (BuilderView {
                    room_id: Some(room_id),
                    uid: Some(uid),
                    ..self@
                }) && r.unwrap().client() == self.client(),
                None => r matches Err(e) && e == BuildError::RoomId,
            },
    {
        proof {
            use_type_invariant(&self);
        }
        match resp.room_id() {
            None => Err(BuildError::RoomId),
            Some(room_id) => {
                let mut this = self;
                this.room_id = Some(room_id);
                this.uid = Some(uid);
                Ok(this.cast())
            },
        }
    }

    /// The query for the logged-in user: there is one only when a session
    /// token has been given.
    pub fn user_query(&self) -> (q: Option<Query>)
        ensures
            match q {
                Some(q) => spec_user_query(self@.sess_token) == Some(q@),
                None => spec_user_query(self@.sess_token) is None,
            },
    {
        match &self.sess_token {
            None => None,
            Some(token) => {
                let mut cookies: Vec<(String, String)> = Vec::new();
                cookies.push(("SESSDATA".to_owned(), token.clone()));
                let q = Query {
                    url: "https://api.bilibili.com/x/web-interface/nav".to_owned(),
                    parameters: Vec::new(),
                    cookies,
                };
                assert(q@.parameters =~= Seq::empty());
                assert(q@.cookies =~= session_cookies(self@.sess_token));
                Some(q)
            },
        }
    }
}

impl<H, U: Flag, T: Flag, S: Flag, B: Flag> ConfigBuilder<H, BF, U, T, S, B> {
    /// The query for the token and the servers of the room that has been
    /// given.
    pub fn conf_query(&self) -> (q: Query)
        ensures
            self@.room_id is Some,
            q@ == spec_conf_query(self@.room_id.unwrap(), self@.sess_token),
    {
        proof {
            use_type_invariant(self);
        }
        let room_id: u64 = self.room_id.unwrap();
        let mut id = String::new();
        push_decimal(&mut id, room_id);
        assert(id@ =~= spec_decimal(room_id as nat));
        let mut parameters: Vec<(String, String)> = Vec::new();
        parameters.push(("id".to_owned(), id));
        parameters.push(("type".to_owned(), "0".to_owned()));
        let mut cookies: Vec<(String, String)> = Vec::new();
        match &self.sess_token {
            Some(token) => {
                cookies.push(("SESSDATA".to_owned(), token.clone()));
            },
            None => {},
        }
        let q = Query {
            url: "https://api.live.bilibili.com/xlive/web-room/v1/index/getDanmuInfo".to_owned(),
            parameters,
            cookies,
        };
        assert(q@.parameters =~= spec_conf_query(room_id, self@.sess_token).parameters);
        assert(q@.cookies =~= session_cookies(self@.sess_token));
        q
    }

    /// Fill the token, the servers, the browser identifier and the user id
    /// from the answers of the HTTP interface: `conf` to
    /// [`ConfigBuilder::conf_query`], `buvid` the cookie named by
    /// [`buvid_cookie_name`] in the answer to [`buvid_query_url`], and `user`
    /// to [`ConfigBuilder::user_query`] where there is such a query.
    ///
    /// With a session token the user id is the one of the logged-in user;
    /// without one it is zero. Fails when the configuration lists no server,
    /// or when a session token was given and `user` is missing.
    pub fn fetch_conf(
        self,
        conf: &Resp<ConfQueryInner>,
        buvid: String,
        user: Option<&Resp<UserIDResponse>>,
    ) -> (r: Result<ConfigBuilder<H, BF, BF, BF, BF, BF>, BuildError>)
        ensures
            r == Err::<ConfigBuilder<H, BF, BF, BF, BF, BF>, BuildError>(BuildError::NoServers)
                <==> conf.data.spec_host_list().len() == 0,
            r == Err::<ConfigBuilder<H, BF, BF, BF, BF, BF>, BuildError>(BuildError::MissingUser)
                <==> conf.data.spec_host_list().len() > 0 && self@.sess_token is Some
                && user is None,
            r is Ok <==> conf.data.spec_host_list().len() > 0 && (self@.sess_token is Some
                ==> user is Some),
            r matches Ok(b) ==> b.client() == self.client() && b@ == (BuilderView {
                room_id: self@.room_id,
                uid: Some(
                    if self@.sess_token is Some {
                        user.unwrap().data.spec_mid()
                    } else {
                        0
                    },
                ),
                token: Some(conf.data.spec_token()),
                buvid: Some(buvid@),
                servers: Some(conf.data.spec_servers()),
                sess_token: self@.sess_token,
            }),
    {
        proof {
            use_type_invariant(&self);
        }
        let servers = conf.servers();
        assert(texts(servers@).len() == servers@.len());
        if servers.len() == 0 {
            return Err(BuildError::NoServers);
        }
        let uid: u64 = match &self.sess_token {
            Some(_) => match user {
                Some(user) => user.userid(),
                None => {
                    return Err(BuildError::MissingUser);
                },
            },
            None => 0,
        };
        let mut this = self;
        this.uid = Some(uid);
        this.buvid = Some(buvid);
        this.token = Some(conf.token().to_owned());
        this.servers = Some(servers);
        Ok(this.cast())
    }
}

impl<H> ConfigBuilder<H, BF, BF, BF, BF, BF> {
    /// Consumes the builder and returns the configuration. All five parts
    /// are there: the marks say so.
    pub fn build(self) -> (c: StreamConfig)
        ensures
            self@.room_id is Some,
            self@.uid is Some,
            self@.token is Some,
            self@.buvid is Some,
            self@.servers is Some,
            c@ == (StreamConfigView {
                room_id: self@.room_id.unwrap(),
                uid: self@.uid.unwrap(),
                token: self@.token.unwrap(),
                buvid: self@.buvid.unwrap(),
                servers: self@.servers.unwrap(),
            }),
    {
        proof {
            use_type_invariant(&self);
        }
        StreamConfig::new(
            self.room_id.unwrap(),
            self.uid.unwrap(),
            self.token.unwrap(),
            self.buvid.unwrap(),
            self.servers.unwrap(),
        )
    }
}

} // verus!
