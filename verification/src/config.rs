//! The configuration of one session: what is needed to join one room.

use vstd::prelude::*;

use crate::builder::address::texts;

verus! {

/// What a stream configuration holds, as plain values.
pub struct StreamConfigView {
    pub room_id: u64,
    pub uid: u64,
    pub token: Seq<char>,
    pub buvid: Seq<char>,
    pub servers: Seq<Seq<char>>,
}

/// The configuration of one session: the room, the user, the subscription
/// token, the browser identifier, and the WebSocket URLs of the danmaku
/// servers in the order in which they are tried. There is always at least
/// one server.
#[derive(Debug)]
pub struct StreamConfig {
    room_id: u64,
    uid: u64,
    token: String,
    buvid: String,
    servers: Vec<String>,
}

impl View for StreamConfig {
    type V = StreamConfigView;

    closed spec fn view(&self) -> StreamConfigView {
        StreamConfigView {
            room_id: self.room_id,
            uid: self.uid,
            token: self.token@,
            buvid: self.buvid@,
            servers: texts(self.servers@),
        }
    }
}

impl Clone for StreamConfig {
    fn clone(&self) -> (c: Self)
        ensures
            c@ == self@,
    {
        proof {
            use_type_invariant(self);
        }
        let mut servers: Vec<String> = Vec::new();
        let n = self.servers.len();
        let mut i: usize = 0;
        while i < n
            invariant
                i <= n,
                n == self.servers@.len(),
                servers@.len() == i,
                forall|j: int| 0 <= j < i ==> (#[trigger] servers@[j])@ == self.servers@[j]@,
            decreases n - i,
        {
            servers.push(self.servers[i].clone());
            i = i + 1;
        }
        assert(texts(servers@) =~= texts(self.servers@));
        StreamConfig {
            room_id: self.room_id,
            uid: self.uid,
            token: self.token.clone(),
            buvid: self.buvid.clone(),
            servers,
        }
    }
}

impl StreamConfig {
    #[verifier::type_invariant]
    closed spec fn inv(self) -> bool {
        self.servers@.len() > 0
    }

    /// A configuration from its five parts.
    pub fn new(room_id: u64, uid: u64, token: String, buvid: String, servers: Vec<String>) -> (c:
        Self)
        requires
            servers@.len() > 0,
        ensures
            c@ == (StreamConfigView {
                room_id,
                uid,
                token: token@,
                buvid: buvid@,
                servers: texts(servers@),
            }),
    {
        StreamConfig { room_id, uid, token, buvid, servers }
    }

    /// The id of the room to join.
    pub fn room_id(&self) -> (room_id: u64)
        ensures
            room_id == self@.room_id,
    {
        self.room_id
    }

    /// The id of the user who joins; zero for a guest.
    pub fn uid(&self) -> (uid: u64)
        ensures
            uid == self@.uid,
    {
        self.uid
    }

    /// The subscription token.
    pub fn token(&self) -> (token: &str)
        ensures
            token@ == self@.token,
    {
        self.token.as_str()
    }

    /// The browser identifier.
    pub fn buvid(&self) -> (buvid: &str)
        ensures
            buvid@ == self@.buvid,
    {
        self.buvid.as_str()
    }

    /// The WebSocket URLs of the danmaku servers; never empty.
    pub fn servers(&self) -> (servers: &[String])
        ensures
            texts(servers@) == self@.servers,
            servers@.len() > 0,
    {
        proof {
            use_type_invariant(self);
        }
        self.servers.as_slice()
    }
}

} // verus!
