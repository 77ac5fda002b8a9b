//! The sessions of all browsers: who is connected, who holds one of the limited
//! places, what ends with a session, and what a browser is told.

use vstd::prelude::*;

use std::collections::HashMap;

use crate::clock::{is_clock_reading, unix_time};
use crate::config::Config;
use crate::list::views;
use crate::mumble::client::{MumbleCommand, MumbleEvent, MumbleEventView};
use crate::text::{concat2, decimal, decimal_string, same_text};
use crate::webrtc::{IceCandidateInit, PeerState, WebrtcEvent};
use crate::ws::messages::{
    opt_text, ChannelInfo, ChannelUpdatedData, ChatReceivedData, ConnectedData,
    IceCandidateResponse, IceCandidateView, ServerMessage, ServerMessageView, UserInfo,
    UserLeftData, UserView,
};

verus! {

// Who is connected

/// Why a browser cannot connect.
#[derive(Debug)]
pub enum ConnectError {
    AlreadyConnected,
    ServerFull,
    /// The Mumble server's name could not be looked up.
    Lookup(String),
    /// The Mumble server's name has no address.
    NoAddress,
    Mumble(String),
    Webrtc(String),
}

impl ConnectError {
    pub open spec fn text(self) -> Seq<char> {
        match self {
            ConnectError::AlreadyConnected => "Already connected"@,
            ConnectError::ServerFull => "Server full"@,
            ConnectError::Lookup(e) => "Failed to resolve Mumble server: "@ + e@,
            ConnectError::NoAddress => "Failed to resolve Mumble server address"@,
            ConnectError::Mumble(e) => "Mumble connection failed: "@ + e@,
            ConnectError::Webrtc(e) => "WebRTC setup failed: "@ + e@,
        }
    }

    /// The error in words.
    pub fn message(&self) -> (r: String)
        ensures
            r@ == self.text(),
    {
        match self {
            ConnectError::AlreadyConnected => "Already connected".to_owned(),
            ConnectError::ServerFull => "Server full".to_owned(),
            ConnectError::Lookup(e) => concat2("Failed to resolve Mumble server: ", e.as_str()),
            ConnectError::NoAddress => "Failed to resolve Mumble server address".to_owned(),
            ConnectError::Mumble(e) => concat2("Mumble connection failed: ", e.as_str()),
            ConnectError::Webrtc(e) => concat2("WebRTC setup failed: ", e.as_str()),
        }
    }
}

/// Why a request cannot be carried out.
#[derive(Debug, Clone, Copy, PartialEq, Eq, Structural)]
pub enum SessionError {
    NotFound,
}

impl SessionError {
    pub open spec fn text(self) -> Seq<char> {
        "Session not found"@
    }

    /// The error in words.
    pub fn message(&self) -> (r: String)
        ensures
            r@ == self.text(),
    {
        "Session not found".to_owned()
    }
}

struct Entry {
    conn_id: String,
    generation: u64,
}

/// All sessions. Every attempt to connect gets a number of its own, its
/// generation; a session that is replaced and the one that replaces it differ
/// in it.
pub struct SessionManager {
    sessions: Vec<Entry>,
    holders: Vec<u64>,
    next_generation: u64,
    max: usize,
}

/// What a [`SessionManager`] knows.
#[verifier::ext_equal]
pub struct SessionsView {
    /// The generation of each connected browser.
    pub sessions: Map<Seq<char>, u64>,
    /// The generations that hold a place: those that are connected, that are
    /// connecting, and that are being torn down.
    pub holders: Set<u64>,
    /// How many places there are.
    pub max: nat,
    pub next_generation: u64,
}

/// Whether the generation is that of a connected browser.
pub open spec fn is_attached(v: SessionsView, generation: u64) -> bool {
    exists|conn_id: Seq<char>| #[trigger]
        v.sessions.dom().contains(conn_id) && v.sessions[conn_id] == generation
}

/// What holds at all times: there are no more holders than places, every
/// connected browser holds a place of its own, and generations are not used
/// twice.
pub open spec fn is_sound(v: SessionsView) -> bool {
    &&& v.sessions.dom().finite()
    &&& v.holders.finite()
    &&& v.holders.len() <= v.max
    &&& forall|g: u64| #[trigger] v.holders.contains(g) ==> g < v.next_generation
    &&& forall|c: Seq<char>| #[trigger]
        v.sessions.dom().contains(c) ==> v.holders.contains(v.sessions[c])
    &&& forall|c: Seq<char>, d: Seq<char>| #[trigger]
        v.sessions.dom().contains(c) && #[trigger] v.sessions.dom().contains(d) && c != d
            ==> v.sessions[c] != v.sessions[d]
}

/// How many places are free.
pub open spec fn free_places(v: SessionsView) -> int {
    v.max - v.holders.len()
}

/// Whether the generation holds a place and is not connected.
pub open spec fn is_connecting(v: SessionsView, generation: u64) -> bool {
    v.holders.contains(generation) && !is_attached(v, generation)
}

/// What a browser that wants to connect is answered: the generation that holds
/// its place, or why it gets none.
pub open spec fn connect_answer(v: SessionsView, conn_id: Seq<char>) -> Result<u64, ConnectError> {
    if v.sessions.dom().contains(conn_id) {
        Err(ConnectError::AlreadyConnected)
    } else if v.holders.len() >= v.max {
        Err(ConnectError::ServerFull)
    } else {
        Ok(v.next_generation)
    }
}

/// Whether an attempt to connect can be completed.
pub open spec fn attach_answer(v: SessionsView, conn_id: Seq<char>) -> Result<(), ConnectError> {
    if v.sessions.dom().contains(conn_id) {
        Err(ConnectError::AlreadyConnected)
    } else {
        Ok(())
    }
}

/// Whether a session that is over is still its browser's, and what the browser is
/// told.
pub open spec fn finish_answer(
    v: SessionsView,
    conn_id: Seq<char>,
    generation: u64,
    terminal_error: Option<ServerMessage>,
) -> (bool, Option<ServerMessage>) {
    if is_current(v, conn_id, generation) {
        (true, terminal_error)
    } else {
        (false, None)
    }
}

/// The generation of a browser's session, if it has one.
pub open spec fn generation_of(v: SessionsView, conn_id: Seq<char>) -> Option<u64> {
    if v.sessions.dom().contains(conn_id) {
        Some(v.sessions[conn_id])
    } else {
        None
    }
}

/// A place is taken, under a new generation.
pub open spec fn reserved(v: SessionsView) -> SessionsView {
    SessionsView {
        holders: v.holders.insert(v.next_generation),
        next_generation: (v.next_generation + 1) as u64,
        ..v
    }
}

/// The browser is connected.
pub open spec fn attached(v: SessionsView, conn_id: Seq<char>, generation: u64) -> SessionsView {
    SessionsView { sessions: v.sessions.insert(conn_id, generation), ..v }
}

/// The browser is no longer connected.
pub open spec fn detached(v: SessionsView, conn_id: Seq<char>) -> SessionsView {
    SessionsView { sessions: v.sessions.remove(conn_id), ..v }
}

/// The place is given back, unless its holder is connected.
pub open spec fn released(v: SessionsView, generation: u64) -> SessionsView {
    if is_attached(v, generation) {
        v
    } else {
        SessionsView { holders: v.holders.remove(generation), ..v }
    }
}

/// Whether the browser's session is the one of this generation.
pub open spec fn is_current(v: SessionsView, conn_id: Seq<char>, generation: u64) -> bool {
    v.sessions.dom().contains(conn_id) && v.sessions[conn_id] == generation
}

/// The session of this generation is over: its place is free, and it is no
/// longer connected. A session that has replaced it stays.
pub open spec fn finished(v: SessionsView, conn_id: Seq<char>, generation: u64) -> SessionsView {
    released(
        if is_current(v, conn_id, generation) {
            detached(v, conn_id)
        } else {
            v
        },
        generation,
    )
}

spec fn by_conn(s: Seq<Entry>) -> Map<Seq<char>, u64>
    decreases s.len(),
{
    if s.len() == 0 {
        Map::empty()
    } else {
        by_conn(s.drop_last()).insert(s.last().conn_id@, s.last().generation)
    }
}

spec fn distinct(s: Seq<Entry>) -> bool {
    forall|i: int, j: int|
        0 <= i < j < s.len() ==> (#[trigger] s[i]).conn_id@ != (#[trigger] s[j]).conn_id@
}

impl View for SessionManager {
    type V = SessionsView;

    closed spec fn view(&self) -> SessionsView {
        SessionsView {
            sessions: by_conn(self.sessions@),
            holders: self.holders@.to_set(),
            max: self.max as nat,
            next_generation: self.next_generation,
        }
    }
}

proof fn lemma_push(s: Seq<Entry>, e: Entry)
    ensures
        by_conn(s.push(e)) == by_conn(s).insert(e.conn_id@, e.generation),
{
    assert(s.push(e).drop_last() =~= s);
}

/// What stands in the list is in the map.
proof fn lemma_at(s: Seq<Entry>, i: int)
    requires
        distinct(s),
        0 <= i < s.len(),
    ensures
        by_conn(s).dom().contains(s[i].conn_id@),
        by_conn(s)[s[i].conn_id@] == s[i].generation,
    decreases s.len(),
{
    if i < s.len() - 1 {
        assert(distinct(s.drop_last()));
        lemma_at(s.drop_last(), i);
        assert(s[i].conn_id@ != s[s.len() - 1].conn_id@);
    }
}

/// What is in the map stands in the list.
proof fn lemma_in(s: Seq<Entry>, conn_id: Seq<char>) -> (i: int)
    requires
        by_conn(s).dom().contains(conn_id),
    ensures
        0 <= i < s.len(),
        s[i].conn_id@ == conn_id,
        by_conn(s)[conn_id] == s[i].generation,
    decreases s.len(),
{
    if s.last().conn_id@ == conn_id {
        s.len() - 1
    } else {
        lemma_in(s.drop_last(), conn_id)
    }
}

/// There are as many entries as browsers.
proof fn lemma_len(s: Seq<Entry>)
    requires
        distinct(s),
    ensures
        by_conn(s).dom().finite(),
        by_conn(s).dom().len() == s.len(),
    decreases s.len(),
{
    if s.len() > 0 {
        let rest = s.drop_last();
        assert(distinct(rest));
        lemma_len(rest);
        if by_conn(rest).dom().contains(s.last().conn_id@) {
            let i = lemma_in(rest, s.last().conn_id@);
            assert(s[i].conn_id@ != s[s.len() - 1].conn_id@);
        }
        assert(by_conn(s).dom() =~= by_conn(rest).dom().insert(s.last().conn_id@));
    }
}

/// Removing an entry removes its browser.
proof fn lemma_remove(s: Seq<Entry>, i: int)
    requires
        distinct(s),
        0 <= i < s.len(),
    ensures
        distinct(s.remove(i)),
        by_conn(s.remove(i)) == by_conn(s).remove(s[i].conn_id@),
{
    let t = s.remove(i);
    assert forall|a: int, b: int| 0 <= a < b < t.len() implies (#[trigger] t[a]).conn_id@ != (
    #[trigger] t[b]).conn_id@ by {
        let x = if a < i {
            a
        } else {
            a + 1
        };
        let y = if b < i {
            b
        } else {
            b + 1
        };
        assert(t[a] == s[x] && t[b] == s[y]);
    }
    let left = by_conn(t);
    let right = by_conn(s).remove(s[i].conn_id@);
    assert forall|c: Seq<char>| #[trigger] left.dom().contains(c) implies right.dom().contains(c) && left[c]
        == right[c] by {
        let k = lemma_in(t, c);
        let x = if k < i {
            k
        } else {
            k + 1
        };
        assert(t[k] == s[x]);
        lemma_at(s, x);
        assert(s[x].conn_id@ != s[i].conn_id@);
    }
    assert forall|c: Seq<char>| #[trigger] right.dom().contains(c) implies left.dom().contains(c) by {
        let k = lemma_in(s, c);
        let x = if k < i {
            k
        } else {
            k - 1
        };
        assert(t[x] == s[k]);
        lemma_at(t, x);
    }
    assert(left.dom() =~= right.dom());
    assert forall|c: Seq<char>| left.dom().contains(c) implies left[c] == right[c] by {
        assert(right.dom().contains(c));
    }
    assert(left =~= right);
}

impl SessionManager {
    /// Whether no browser and no generation is listed twice.
    pub closed spec fn has_no_repeats(self) -> bool {
        distinct(self.sessions@) && self.holders@.no_duplicates()
    }

    pub open spec fn wf(self) -> bool {
        self.has_no_repeats() && is_sound(self@)
    }

    /// No sessions, and as many places as the configuration says.
    pub fn new(config: &Config) -> (r: SessionManager)
        ensures
            r.wf(),
            r@ == (SessionsView {
                sessions: Map::empty(),
                holders: Set::empty(),
                max: config.server.max_connections as nat,
                next_generation: 0,
            }),
    {
        let r = SessionManager {
            sessions: Vec::new(),
            holders: Vec::new(),
            next_generation: 0,
            max: config.server.max_connections,
        };
        assert(r.holders@.to_set() =~= Set::<u64>::empty());
        r
    }

    /// How many browsers are connected.
    pub fn connection_count(&self) -> (r: usize)
        requires
            self.wf(),
        ensures
            r == self@.sessions.dom().len(),
    {
        proof {
            lemma_len(self.sessions@);
        }
        self.sessions.len()
    }

    /// How many places are free.
    pub fn available_permits(&self) -> (r: usize)
        requires
            self.wf(),
        ensures
            r == free_places(self@),
    {
        proof {
            self.holders@.unique_seq_to_set();
        }
        self.max - self.holders.len()
    }

    /// Whether there is a generation for one more attempt to connect.
    pub fn has_generations(&self) -> (r: bool)
        ensures
            r == (self@.next_generation < u64::MAX),
    {
        self.next_generation < u64::MAX
    }

    fn position(&self, conn_id: &str) -> (r: Option<usize>)
        requires
            self.wf(),
        ensures
            match r {
                Some(i) => i < self.sessions@.len() && self.sessions@[i as int].conn_id@ == conn_id@
                    && is_current(self@, conn_id@, self.sessions@[i as int].generation),
                None => !self@.sessions.dom().contains(conn_id@),
            },
    {
        let mut i: usize = 0;
        while i < self.sessions.len()
            invariant
                self.wf(),
                i <= self.sessions@.len(),
                forall|j: int| 0 <= j < i ==> (#[trigger] self.sessions@[j]).conn_id@ != conn_id@,
            decreases self.sessions@.len() - i,
        {
            if same_text(self.sessions[i].conn_id.as_str(), conn_id) {
                proof {
                    lemma_at(self.sessions@, i as int);
                }
                return Some(i);
            }
            i = i + 1;
        }
        proof {
            if self@.sessions.dom().contains(conn_id@) {
                let j = lemma_in(self.sessions@, conn_id@);
            }
        }
        None
    }

    /// Begins to connect a browser: takes a place, before anything is waited
    /// for, and gives the generation that holds it.
    pub fn connect_user(&mut self, conn_id: &str) -> (r: Result<u64, ConnectError>)
        requires
            old(self).wf(),
            old(self)@.next_generation < u64::MAX,
        ensures
            final(self).wf(),
            final(self)@ == after_event(
                old(self)@,
                SessionEvent::Connect { conn_id: conn_id@ },
            ),
            r == connect_answer(old(self)@, conn_id@),
            match r {
                Ok(generation) => {
                    &&& !old(self)@.sessions.dom().contains(conn_id@)
                    &&& old(self)@.holders.len() < old(self)@.max
                    &&& generation == old(self)@.next_generation
                    &&& final(self)@ == reserved(old(self)@)
                },
                Err(ConnectError::AlreadyConnected) => {
                    &&& old(self)@.sessions.dom().contains(conn_id@)
                    &&& final(self)@ == old(self)@
                },
                Err(ConnectError::ServerFull) => {
                    &&& !old(self)@.sessions.dom().contains(conn_id@)
                    &&& old(self)@.holders.len() == old(self)@.max
                    &&& final(self)@ == old(self)@
                },
                Err(_) => false,
            },
    {
        if self.position(conn_id).is_some() {
            return Err(ConnectError::AlreadyConnected);
        }
        proof {
            self.holders@.unique_seq_to_set();
        }
        if self.holders.len() >= self.max {
            return Err(ConnectError::ServerFull);
        }
        let generation: u64 = self.next_generation;
        let ghost before = self.holders@;
        assert(!before.contains(generation)) by {
            if before.contains(generation) {
                assert(self@.holders.contains(generation));
            }
        }
        self.holders.push(generation);
        self.next_generation = generation + 1;
        assert(self.holders@.to_set() =~= before.to_set().insert(generation)) by {
            assert forall|g: u64| self.holders@.to_set().contains(g) implies before.to_set().insert(
                generation,
            ).contains(g) by {
                let k = choose|k: int| 0 <= k < self.holders@.len() && self.holders@[k] == g;
                if k < before.len() {
                    assert(before[k] == g);
                }
            }
            assert forall|g: u64| before.to_set().insert(generation).contains(
                g,
            ) implies self.holders@.to_set().contains(g) by {
                if g == generation {
                    assert(self.holders@[before.len() as int] == g);
                } else {
                    let k = choose|k: int| 0 <= k < before.len() && before[k] == g;
                    assert(self.holders@[k] == g);
                }
            }
        }
        Ok(generation)
    }

    /// Whether the generation holds a place and is not connected.
    pub fn is_pending(&self, generation: u64) -> (r: bool)
        requires
            self.wf(),
        ensures
            r == is_connecting(self@, generation),
    {
        self.holder(generation).is_some() && !self.attached_generation(generation)
    }

    /// Whether the generation is that of a browser other than `conn_id`.
    pub fn is_attached_elsewhere(&self, conn_id: &str, generation: u64) -> (r: bool)
        requires
            self.wf(),
        ensures
            r == (is_attached(self@, generation) && !is_current(self@, conn_id@, generation)),
    {
        let current = match self.get_session(conn_id) {
            Ok(g) => g == generation,
            Err(_) => false,
        };
        self.attached_generation(generation) && !current
    }

    fn holder(&self, generation: u64) -> (r: Option<usize>)
        ensures
            match r {
                Some(i) => i < self.holders@.len() && self.holders@[i as int] == generation
                    && self@.holders.contains(generation),
                None => !self@.holders.contains(generation),
            },
    {
        let mut i: usize = 0;
        while i < self.holders.len()
            invariant
                i <= self.holders@.len(),
                forall|j: int| 0 <= j < i ==> self.holders@[j] != generation,
            decreases self.holders@.len() - i,
        {
            if self.holders[i] == generation {
                assert(self.holders@.contains(generation));
                return Some(i);
            }
            i = i + 1;
        }
        None
    }

    fn attached_generation(&self, generation: u64) -> (r: bool)
        requires
            self.wf(),
        ensures
            r == is_attached(self@, generation),
    {
        let mut i: usize = 0;
        while i < self.sessions.len()
            invariant
                self.wf(),
                i <= self.sessions@.len(),
                forall|j: int|
                    0 <= j < i ==> (#[trigger] self.sessions@[j]).generation != generation,
            decreases self.sessions@.len() - i,
        {
            if self.sessions[i].generation == generation {
                proof {
                    lemma_at(self.sessions@, i as int);
                    assert(self@.sessions.dom().contains(self.sessions@[i as int].conn_id@));
                }
                return true;
            }
            i = i + 1;
        }
        proof {
            if is_attached(self@, generation) {
                let conn_id = choose|conn_id: Seq<char>| #[trigger]
                    self@.sessions.dom().contains(conn_id) && self@.sessions[conn_id] == generation;
                let j = lemma_in(self.sessions@, conn_id);
            }
        }
        false
    }

    /// Completes what [`SessionManager::connect_user`] began. Where the browser
    /// has been connected in the meantime, that session stays, and this one
    /// keeps its place until it is released.
    pub fn attach(&mut self, conn_id: &str, generation: u64) -> (r: Result<(), ConnectError>)
        requires
            old(self).wf(),
            old(self)@.holders.contains(generation),
            !is_attached(old(self)@, generation),
        ensures
            final(self).wf(),
            final(self)@ == after_event(
                old(self)@,
                SessionEvent::Attach { conn_id: conn_id@, generation },
            ),
            r == attach_answer(old(self)@, conn_id@),
            match r {
                Ok(()) => {
                    &&& !old(self)@.sessions.dom().contains(conn_id@)
                    &&& final(self)@ == attached(old(self)@, conn_id@, generation)
                },
                Err(ConnectError::AlreadyConnected) => {
                    &&& old(self)@.sessions.dom().contains(conn_id@)
                    &&& final(self)@ == old(self)@
                },
                Err(_) => false,
            },
    {
        if self.position(conn_id).is_some() {
            return Err(ConnectError::AlreadyConnected);
        }
        let ghost before = self.sessions@;
        let entry = Entry { conn_id: conn_id.to_owned(), generation };
        proof {
            lemma_push(before, entry);
            assert forall|j: int| 0 <= j < before.len() implies (#[trigger] before[j]).conn_id@
                != conn_id@ by {
                lemma_at(before, j);
            }
        }
        self.sessions.push(entry);
        Ok(())
    }

    /// Gives a place back, unless its holder is connected. Where the generation
    /// holds none, nothing changes.
    pub fn release(&mut self, generation: u64)
        requires
            old(self).wf(),
        ensures
            final(self).wf(),
            final(self)@ == released(old(self)@, generation),
            final(self)@ == after_event(old(self)@, SessionEvent::Release { generation }),
    {
        if self.attached_generation(generation) {
            return;
        }
        match self.holder(generation) {
            Some(i) => {
                let ghost before = self.holders@;
                self.holders.remove(i);
                proof {
                    lemma_remove_holder(before, i as int);
                    lemma_released_is_sound(old(self)@, generation);
                }
            },
            None => {
                assert(self@.holders.remove(generation) =~= self@.holders);
            },
        }
    }

    /// The generation of a browser's session.
    pub fn get_session(&self, conn_id: &str) -> (r: Result<u64, SessionError>)
        requires
            self.wf(),
        ensures
            match r {
                Ok(generation) => is_current(self@, conn_id@, generation),
                Err(SessionError::NotFound) => !self@.sessions.dom().contains(conn_id@),
            },
            match r {
                Ok(generation) => generation_of(self@, conn_id@) == Some(generation),
                Err(_) => generation_of(self@, conn_id@) is None,
            },
    {
        match self.position(conn_id) {
            Some(i) => Ok(self.sessions[i].generation),
            None => Err(SessionError::NotFound),
        }
    }

    fn detach_at(&mut self, i: usize)
        requires
            old(self).wf(),
            i < old(self).sessions@.len(),
        ensures
            final(self).wf(),
            final(self)@ == detached(old(self)@, old(self).sessions@[i as int].conn_id@),
    {
        proof {
            lemma_remove(self.sessions@, i as int);
            lemma_detached_is_sound(self@, self.sessions@[i as int].conn_id@);
        }
        self.sessions.remove(i);
    }

    /// The browser is no longer connected. Gives the generation that is to be
    /// torn down; it holds its place until it is released.
    pub fn disconnect_user(&mut self, conn_id: &str) -> (r: Option<u64>)
        requires
            old(self).wf(),
        ensures
            final(self).wf(),
            final(self)@ == detached(old(self)@, conn_id@),
            final(self)@ == after_event(
                old(self)@,
                SessionEvent::Disconnect { conn_id: conn_id@ },
            ),
            r == generation_of(old(self)@, conn_id@),
    {
        match self.position(conn_id) {
            Some(i) => {
                let generation: u64 = self.sessions[i].generation;
                self.detach_at(i);
                Some(generation)
            },
            None => {
                assert(detached(self@, conn_id@) =~= self@);
                None
            },
        }
    }

    /// The session of this generation has been torn down. Its place is free
    /// before the browser is told: gives what the browser is to be told, where
    /// this session has not been replaced, and tells whether that is so. A
    /// session is finished under the id of its own browser.
    pub fn finish_session(
        &mut self,
        conn_id: &str,
        generation: u64,
        terminal_error: Option<ServerMessage>,
    ) -> (r: (bool, Option<ServerMessage>))
        requires
            old(self).wf(),
            is_attached(old(self)@, generation) ==> is_current(
                old(self)@,
                conn_id@,
                generation,
            ),
        ensures
            final(self).wf(),
            final(self)@ == finished(old(self)@, conn_id@, generation),
            final(self)@ == after_event(
                old(self)@,
                SessionEvent::Finish { conn_id: conn_id@, generation },
            ),
            !final(self)@.holders.contains(generation),
            r == finish_answer(old(self)@, conn_id@, generation, terminal_error),
    {
        proof {
            lemma_finished_is_free(self@, conn_id@, generation);
        }
        let current = match self.position(conn_id) {
            Some(i) => if self.sessions[i].generation == generation {
                self.detach_at(i);
                true
            } else {
                false
            },
            None => false,
        };
        self.release(generation);
        if current {
            (true, terminal_error)
        } else {
            (false, None)
        }
    }
}

proof fn lemma_released_is_sound(v: SessionsView, generation: u64)
    requires
        is_sound(v),
    ensures
        is_sound(released(v, generation)),
{
    if !is_attached(v, generation) {
        let after = released(v, generation);
        assert forall|c: Seq<char>| #[trigger]
            after.sessions.dom().contains(c) implies after.holders.contains(after.sessions[c]) by {
            assert(v.sessions.dom().contains(c));
        }
    }
}

/// The place of a session that is over, and that no other browser has, is free.
proof fn lemma_finished_is_free(v: SessionsView, conn_id: Seq<char>, generation: u64)
    requires
        is_sound(v),
        is_attached(v, generation) ==> is_current(v, conn_id, generation),
    ensures
        !finished(v, conn_id, generation).holders.contains(generation),
{
    let gone = if is_current(v, conn_id, generation) {
        detached(v, conn_id)
    } else {
        v
    };
    if is_attached(gone, generation) {
        let c = choose|c: Seq<char>| #[trigger]
            gone.sessions.dom().contains(c) && gone.sessions[c] == generation;
        assert(v.sessions.dom().contains(c));
        assert(is_attached(v, generation));
        assert(v.sessions.dom().contains(conn_id));
        assert(false);
    }
}

proof fn lemma_detached_is_sound(v: SessionsView, conn_id: Seq<char>)
    requires
        is_sound(v),
    ensures
        is_sound(detached(v, conn_id)),
{
    let after = detached(v, conn_id);
    assert forall|c: Seq<char>| #[trigger]
        after.sessions.dom().contains(c) implies after.holders.contains(after.sessions[c]) by {
        assert(v.sessions.dom().contains(c));
    }
    assert forall|c: Seq<char>, d: Seq<char>| #[trigger]
        after.sessions.dom().contains(c) && #[trigger] after.sessions.dom().contains(d) && c
            != d implies after.sessions[c] != after.sessions[d] by {
        assert(v.sessions.dom().contains(c) && v.sessions.dom().contains(d));
    }
}

/// Removing one of several different numbers removes it from their set.
proof fn lemma_remove_holder(s: Seq<u64>, i: int)
    requires
        s.no_duplicates(),
        0 <= i < s.len(),
    ensures
        s.remove(i).no_duplicates(),
        s.remove(i).to_set() == s.to_set().remove(s[i]),
{
    let t = s.remove(i);
    assert forall|g: u64| t.to_set().contains(g) implies s.to_set().remove(s[i]).contains(g) by {
        let k = choose|k: int| 0 <= k < t.len() && t[k] == g;
        let x = if k < i {
            k
        } else {
            k + 1
        };
        assert(s[x] == g);
    }
    assert forall|g: u64| s.to_set().remove(s[i]).contains(g) implies t.to_set().contains(g) by {
        let k = choose|k: int| 0 <= k < s.len() && s[k] == g;
        let x = if k < i {
            k
        } else {
            k - 1
        };
        assert(t[x] == g);
    }
    assert(t.to_set() =~= s.to_set().remove(s[i]));
}

// What browsers ask of their sessions

/// What a session is asked to do.
#[derive(Debug)]
pub enum Request {
    Mumble(MumbleCommand),
    Offer { sdp: String },
    Answer { sdp: String },
    StartVoice { restart: bool },
    RefreshIce,
    Candidate(IceCandidateInit),
}

/// A request and the session that it goes to.
#[derive(Debug)]
pub struct Directed {
    pub generation: u64,
    pub request: Request,
}

/// What a [`Request`] says.
pub enum RequestView {
    SendChat { channel_id: u32, message: Seq<char> },
    JoinChannel { channel_id: u32 },
    SetMute(bool),
    SetDeaf(bool),
    Disconnect,
    Offer { sdp: Seq<char> },
    Answer { sdp: Seq<char> },
    StartVoice { restart: bool },
    RefreshIce,
    Candidate(IceCandidateView),
}

impl View for Request {
    type V = RequestView;

    open spec fn view(&self) -> RequestView {
        match *self {
            Request::Mumble(MumbleCommand::SendChat { channel_id, message }) => {
                RequestView::SendChat { channel_id, message: message@ }
            },
            Request::Mumble(MumbleCommand::JoinChannel { channel_id }) => {
                RequestView::JoinChannel { channel_id }
            },
            Request::Mumble(MumbleCommand::SetMute(muted)) => RequestView::SetMute(muted),
            Request::Mumble(MumbleCommand::SetDeaf(deafened)) => RequestView::SetDeaf(deafened),
            Request::Mumble(MumbleCommand::Disconnect) => RequestView::Disconnect,
            Request::Offer { sdp } => RequestView::Offer { sdp: sdp@ },
            Request::Answer { sdp } => RequestView::Answer { sdp: sdp@ },
            Request::StartVoice { restart } => RequestView::StartVoice { restart },
            Request::RefreshIce => RequestView::RefreshIce,
            Request::Candidate(c) => RequestView::Candidate(c@),
        }
    }
}

/// Whether `r` directs the request to the browser's session, or says that there
/// is none.
pub open spec fn is_directed(
    v: SessionsView,
    conn_id: Seq<char>,
    request: RequestView,
    r: Result<Directed, SessionError>,
) -> bool {
    match r {
        Ok(d) => is_current(v, conn_id, d.generation) && d.request@ == request,
        Err(SessionError::NotFound) => !v.sessions.dom().contains(conn_id),
    }
}

impl SessionManager {
    fn direct(&self, conn_id: &str, request: Request) -> (r: Result<Directed, SessionError>)
        requires
            self.wf(),
        ensures
            is_directed(self@, conn_id@, request@, r),
    {
        match self.get_session(conn_id) {
            Ok(generation) => Ok(Directed { generation, request }),
            Err(e) => Err(e),
        }
    }

    /// The browser's SDP offer.
    pub fn handle_offer(&self, conn_id: &str, sdp: &str) -> (r: Result<Directed, SessionError>)
        requires
            self.wf(),
        ensures
            is_directed(self@, conn_id@, RequestView::Offer { sdp: sdp@ }, r),
    {
        self.direct(conn_id, Request::Offer { sdp: sdp.to_owned() })
    }

    /// The browser's answer to an SDP offer.
    pub fn handle_answer(&self, conn_id: &str, sdp: &str) -> (r: Result<Directed, SessionError>)
        requires
            self.wf(),
        ensures
            is_directed(self@, conn_id@, RequestView::Answer { sdp: sdp@ }, r),
    {
        self.direct(conn_id, Request::Answer { sdp: sdp.to_owned() })
    }

    /// The browser wants an SDP offer.
    pub fn start_voice(&self, conn_id: &str, restart: bool) -> (r: Result<Directed, SessionError>)
        requires
            self.wf(),
        ensures
            is_directed(self@, conn_id@, RequestView::StartVoice { restart }, r),
    {
        self.direct(conn_id, Request::StartVoice { restart })
    }

    /// The browser wants fresh ICE credentials.
    pub fn refresh_ice(&self, conn_id: &str) -> (r: Result<Directed, SessionError>)
        requires
            self.wf(),
        ensures
            is_directed(self@, conn_id@, RequestView::RefreshIce, r),
    {
        self.direct(conn_id, Request::RefreshIce)
    }

    /// The browser's ICE candidate.
    pub fn add_ice_candidate(
        &self,
        conn_id: &str,
        candidate: &str,
        sdp_mid: Option<String>,
        sdp_mline_index: Option<u16>,
    ) -> (r: Result<Directed, SessionError>)
        requires
            self.wf(),
        ensures
            is_directed(
                self@,
                conn_id@,
                RequestView::Candidate(
                    IceCandidateView {
                        candidate: candidate@,
                        sdp_mid: opt_text(sdp_mid),
                        sdp_mline_index,
                    },
                ),
                r,
            ),
    {
        self.direct(
            conn_id,
            Request::Candidate(
                IceCandidateInit { candidate: candidate.to_owned(), sdp_mid, sdp_mline_index },
            ),
        )
    }

    /// The browser's chat message.
    pub fn send_chat(&self, conn_id: &str, channel_id: u32, message: &str) -> (r: Result<
        Directed,
        SessionError,
    >)
        requires
            self.wf(),
        ensures
            is_directed(
                self@,
                conn_id@,
                RequestView::SendChat { channel_id, message: message@ },
                r,
            ),
    {
        self.direct(
            conn_id,
            Request::Mumble(MumbleCommand::SendChat { channel_id, message: message.to_owned() }),
        )
    }

    /// The browser wants to join a channel.
    pub fn join_channel(&self, conn_id: &str, channel_id: u32) -> (r: Result<
        Directed,
        SessionError,
    >)
        requires
            self.wf(),
        ensures
            is_directed(self@, conn_id@, RequestView::JoinChannel { channel_id }, r),
    {
        self.direct(conn_id, Request::Mumble(MumbleCommand::JoinChannel { channel_id }))
    }

    /// The browser mutes itself or is heard again.
    pub fn set_mute(&self, conn_id: &str, muted: bool) -> (r: Result<Directed, SessionError>)
        requires
            self.wf(),
        ensures
            is_directed(self@, conn_id@, RequestView::SetMute(muted), r),
    {
        self.direct(conn_id, Request::Mumble(MumbleCommand::SetMute(muted)))
    }

    /// The browser deafens itself or hears again.
    pub fn set_deaf(&self, conn_id: &str, deafened: bool) -> (r: Result<Directed, SessionError>)
        requires
            self.wf(),
        ensures
            is_directed(self@, conn_id@, RequestView::SetDeaf(deafened), r),
    {
        self.direct(conn_id, Request::Mumble(MumbleCommand::SetDeaf(deafened)))
    }
}

/// The sort of a [`Request`].
#[derive(Debug, Clone, Copy, PartialEq, Eq, Structural)]
pub enum RequestKind {
    Mumble,
    Offer,
    Answer,
    StartVoice,
    RefreshIce,
    Candidate,
}

impl RequestView {
    pub open spec fn kind(self) -> RequestKind {
        match self {
            RequestView::Offer { .. } => RequestKind::Offer,
            RequestView::Answer { .. } => RequestKind::Answer,
            RequestView::StartVoice { .. } => RequestKind::StartVoice,
            RequestView::RefreshIce => RequestKind::RefreshIce,
            RequestView::Candidate(_) => RequestKind::Candidate,
            _ => RequestKind::Mumble,
        }
    }
}

impl Request {
    /// The sort of the request.
    pub fn kind(&self) -> (r: RequestKind)
        ensures
            r == self@.kind(),
    {
        match self {
            Request::Mumble(_) => RequestKind::Mumble,
            Request::Offer { .. } => RequestKind::Offer,
            Request::Answer { .. } => RequestKind::Answer,
            Request::StartVoice { .. } => RequestKind::StartVoice,
            Request::RefreshIce => RequestKind::RefreshIce,
            Request::Candidate(_) => RequestKind::Candidate,
        }
    }
}

// One session

/// What belongs to one session: the task that sets voice up, the bridge for
/// sound and the voice connection, each as far as there is one.
#[derive(Debug)]
pub struct UserSession<Task, Bridge, Voice> {
    pub username: String,
    pub session_id: Option<u32>,
    pub voice_setup_task: Option<Task>,
    pub bridge: Option<Bridge>,
    pub mumble_voice: Option<Voice>,
    /// The generation whose place the session holds, until it is torn down.
    pub slot: Option<u64>,
    pub closed: bool,
}

/// What is to be ended with a session, in this order; then the place of
/// `generation` is free.
#[derive(Debug)]
pub struct Teardown<Task, Bridge, Voice> {
    pub voice_setup_task: Option<Task>,
    pub bridge: Option<Bridge>,
    pub mumble_voice: Option<Voice>,
    pub generation: u64,
}

/// Takes the task out of its place, to be aborted.
pub fn abort_background_task<Task>(task: &mut Option<Task>) -> (r: Option<Task>)
    ensures
        *final(task) is None,
        r == *old(task),
{
    task.take()
}

impl<Task, Bridge, Voice> UserSession<Task, Bridge, Voice> {
    /// The session after it has been torn down, where it has not been before.
    pub open spec fn shut_down(self) -> Self {
        if self.slot is None {
            self
        } else {
            UserSession {
                voice_setup_task: None,
                bridge: None,
                mumble_voice: None,
                slot: None,
                closed: true,
                ..self
            }
        }
    }

    /// The session with the task that sets voice up, and the task that it does not
    /// take.
    pub open spec fn with_task(self, task: Task) -> (Self, Option<Task>) {
        if self.closed {
            (self, Some(task))
        } else {
            (UserSession { voice_setup_task: Some(task), ..self }, None)
        }
    }

    /// The session when voice is there.
    pub open spec fn with_voice(self, voice: Voice, bridge: Bridge) -> Self {
        UserSession { mumble_voice: Some(voice), bridge: Some(bridge), ..self }
    }

    /// What is to be ended with the session, where that has not been done.
    pub open spec fn teardown(self) -> Option<Teardown<Task, Bridge, Voice>> {
        match self.slot {
            None => None,
            Some(generation) => Some(
                Teardown {
                    voice_setup_task: self.voice_setup_task,
                    bridge: self.bridge,
                    mumble_voice: self.mumble_voice,
                    generation,
                },
            ),
        }
    }

    /// A session that holds the place of `generation`.
    pub fn new(username: &str, generation: u64) -> (r: Self)
        ensures
            r.username@ == username@,
            r.session_id is None,
            r.voice_setup_task is None,
            r.bridge is None,
            r.mumble_voice is None,
            r.slot == Some(generation),
            !r.closed,
    {
        UserSession {
            username: username.to_owned(),
            session_id: None,
            voice_setup_task: None,
            bridge: None,
            mumble_voice: None,
            slot: Some(generation),
            closed: false,
        }
    }

    /// Keeps the task that sets voice up. A session that is closed does not
    /// take it; it is given back, to be aborted.
    pub fn set_voice_setup_task(&mut self, task: Task) -> (r: Option<Task>)
        ensures
            (*final(self), r) == old(self).with_task(task),
    {
        if self.closed {
            return Some(task);
        }
        self.voice_setup_task = Some(task);
        None
    }

    /// Voice is there.
    pub fn attach_voice(&mut self, voice: Voice, bridge: Bridge)
        ensures
            *final(self) == old(self).with_voice(voice, bridge),
    {
        self.mumble_voice = Some(voice);
        self.bridge = Some(bridge);
    }

    /// Closes the session and gives what is to be ended. A session that has
    /// been torn down is left as it is.
    pub fn shutdown(&mut self) -> (r: Option<Teardown<Task, Bridge, Voice>>)
        ensures
            *final(self) == old(self).shut_down(),
            r == old(self).teardown(),
    {
        match self.slot.take() {
            None => None,
            Some(generation) => {
                self.closed = true;
                Some(
                    Teardown {
                        voice_setup_task: abort_background_task(&mut self.voice_setup_task),
                        bridge: self.bridge.take(),
                        mumble_voice: self.mumble_voice.take(),
                        generation,
                    },
                )
            },
        }
    }
}

// What a browser is told

/// How setting voice up went.
#[derive(Debug)]
pub enum VoiceSetup {
    /// The Mumble connection ended before it gave keys.
    NoKeys,
    NoAddress,
    Failed(String),
    Ready,
}

pub open spec fn voice_error(reason: Seq<char>) -> ServerMessageView {
    ServerMessageView::Error { code: "voice_error"@, message: "Voice setup failed: "@ + reason }
}

/// What the browser is told of the voice setup: that it failed, and why. Of keys
/// that never came it hears when the Mumble connection ends.
pub open spec fn voice_setup_news(setup: VoiceSetup) -> Option<ServerMessageView> {
    match setup {
        VoiceSetup::NoKeys => None,
        VoiceSetup::NoAddress => Some(voice_error("could not resolve Mumble server address"@)),
        VoiceSetup::Failed(reason) => Some(voice_error(reason@)),
        VoiceSetup::Ready => None,
    }
}

/// What the browser is told of the voice setup.
pub fn voice_setup_message(setup: &VoiceSetup) -> (r: Option<ServerMessage>)
    ensures
        message_view(r) == voice_setup_news(*setup),
{
    match setup {
        VoiceSetup::NoKeys => None,
        VoiceSetup::NoAddress => Some(
            ServerMessage::error(
                "voice_error",
                concat2(
                    "Voice setup failed: ",
                    "could not resolve Mumble server address",
                ).as_str(),
            ),
        ),
        VoiceSetup::Failed(reason) => Some(
            ServerMessage::error(
                "voice_error",
                concat2("Voice setup failed: ", reason.as_str()).as_str(),
            ),
        ),
        VoiceSetup::Ready => None,
    }
}

pub open spec fn message_view(m: Option<ServerMessage>) -> Option<ServerMessageView> {
    match m {
        Some(m) => Some(m@),
        None => None,
    }
}

/// The speakers who get a track and those who lose theirs.
#[derive(Debug)]
pub struct SpeakerChanges {
    pub add: Vec<u32>,
    pub remove: Vec<u32>,
}

/// Whether somebody is not the browser's own user.
pub open spec fn is_another(own: Option<u32>) -> spec_fn(u32) -> bool {
    |session: u32| own != Some(session)
}

/// The speakers who get a track on news from the server: everybody else who is
/// there or who comes.
pub open spec fn speakers_added(m: ServerMessageView, own: Option<u32>) -> Seq<u32> {
    match m {
        ServerMessageView::Connected { session_id, channels, users } => users.map_values(
            |u: UserView| u.session_id,
        ).filter(is_another(own)),
        ServerMessageView::UserJoined(u) => seq![u.session_id].filter(is_another(own)),
        _ => Seq::empty(),
    }
}

/// The speakers who lose their track: those who leave.
pub open spec fn speakers_removed(m: ServerMessageView) -> Seq<u32> {
    match m {
        ServerMessageView::UserLeft { session_id } => seq![session_id],
        _ => Seq::empty(),
    }
}

/// The numbers of those of `users` who are not the browser's own user.
fn others(users: &Vec<UserInfo>, own: Option<u32>) -> (r: Vec<u32>)
    ensures
        r@ == views(users@).map_values(|u: UserView| u.session_id).filter(is_another(own)),
{
    let mut r: Vec<u32> = Vec::new();
    let mut i: usize = 0;
    let ghost all = views(users@).map_values(|u: UserView| u.session_id);
    assert(all.take(0).filter(is_another(own)) =~= Seq::<u32>::empty()) by {
        reveal(Seq::filter);
    }
    while i < users.len()
        invariant
            i <= users@.len(),
            all == views(users@).map_values(|u: UserView| u.session_id),
            all.len() == users@.len(),
            r@ == all.take(i as int).filter(is_another(own)),
        decreases users@.len() - i,
    {
        let session: u32 = users[i].session_id;
        assert(all[i as int] == session);
        assert(all.take(i + 1).drop_last() =~= all.take(i as int));
        assert(all.take(i + 1).last() == session);
        assert(all.take(i + 1).filter(is_another(own)) =~= if own != Some(session) {
            all.take(i as int).filter(is_another(own)).push(session)
        } else {
            all.take(i as int).filter(is_another(own))
        }) by {
            reveal(Seq::filter);
        }
        let is_own = match own {
            Some(o) => o == session,
            None => false,
        };
        if !is_own {
            r.push(session);
        }
        i = i + 1;
    }
    assert(all.take(i as int) =~= all);
    r
}

/// How the tracks change on news from the server.
pub fn speaker_changes(message: &ServerMessage, own: Option<u32>) -> (r: SpeakerChanges)
    ensures
        r.add@ == speakers_added(message@, own),
        r.remove@ == speakers_removed(message@),
{
    match message {
        ServerMessage::Connected(data) => SpeakerChanges {
            add: others(&data.users, own),
            remove: Vec::new(),
        },
        ServerMessage::UserJoined(user) => {
            let mut users: Vec<UserInfo> = Vec::new();
            users.push(user.clone());
            assert(views(users@).map_values(|u: UserView| u.session_id) =~= seq![user.session_id]);
            SpeakerChanges { add: others(&users, own), remove: Vec::new() }
        },
        ServerMessage::UserLeft(data) => {
            let mut remove: Vec<u32> = Vec::new();
            remove.push(data.session_id);
            assert(remove@ =~= seq![data.session_id]);
            SpeakerChanges { add: Vec::new(), remove }
        },
        _ => SpeakerChanges { add: Vec::new(), remove: Vec::new() },
    }
}

/// What wakes a session's loop.
#[derive(Debug)]
pub enum SessionInput {
    /// The session has been closed.
    Close,
    /// The browser is gone.
    ClientGone,
    /// An event, or `None` where no more can come.
    Mumble(Option<MumbleEvent>),
    /// An event, or `None` where no more can come.
    Webrtc(Option<WebrtcEvent>),
}

/// What a session's loop does next.
#[derive(Debug)]
pub struct SessionStep {
    /// What the browser is told now.
    pub send: Option<ServerMessage>,
    /// The number that the session has on the Mumble server, where it is new.
    pub session_id: Option<u32>,
    /// Whether an SDP offer is due.
    pub negotiate: bool,
    pub keep_running: bool,
    /// What the browser is told when the session has been torn down.
    pub terminal_error: Option<ServerMessage>,
}

/// What a [`SessionStep`] says.
pub struct StepView {
    pub send: Option<ServerMessageView>,
    pub session_id: Option<u32>,
    pub negotiate: bool,
    pub keep_running: bool,
    pub terminal_error: Option<ServerMessageView>,
}

impl View for SessionStep {
    type V = StepView;

    open spec fn view(&self) -> StepView {
        StepView {
            send: message_view(self.send),
            session_id: self.session_id,
            negotiate: self.negotiate,
            keep_running: self.keep_running,
            terminal_error: message_view(self.terminal_error),
        }
    }
}

pub open spec fn step_stops() -> StepView {
    StepView {
        send: None,
        session_id: None,
        negotiate: false,
        keep_running: false,
        terminal_error: None,
    }
}

pub open spec fn step_sends(m: Option<ServerMessageView>) -> StepView {
    StepView { send: m, keep_running: true, ..step_stops() }
}

/// The names after a list of users: a later entry counts.
pub open spec fn named(names: Map<u32, Seq<char>>, users: Seq<UserView>) -> Map<u32, Seq<char>>
    decreases users.len(),
{
    if users.len() == 0 {
        names
    } else {
        named(names, users.drop_last()).insert(users.last().session_id, users.last().name)
    }
}

/// The name under which a chat message is shown.
pub open spec fn sender_name(names: Map<u32, Seq<char>>, session: u32) -> Seq<char> {
    if names.dom().contains(session) {
        names[session]
    } else {
        "User#"@ + decimal(session as nat)
    }
}

/// What an event of the Mumble server makes of the known names, and what the
/// loop does.
pub open spec fn mumble_step(
    names: Map<u32, Seq<char>>,
    event: MumbleEventView,
    closed: bool,
    now: u64,
) -> (Map<u32, Seq<char>>, StepView) {
    match event {
        MumbleEventView::Connected { session_id, channels, users } => (
            named(names, users),
            if closed {
                step_stops()
            } else {
                StepView {
                    session_id: Some(session_id),
                    ..step_sends(
                        Some(ServerMessageView::Connected { session_id, channels, users }),
                    )
                }
            },
        ),
        MumbleEventView::UserJoined(u) => (
            names.insert(u.session_id, u.name),
            step_sends(Some(ServerMessageView::UserJoined(u))),
        ),
        MumbleEventView::UserLeft { session_id } => (
            names.remove(session_id),
            step_sends(Some(ServerMessageView::UserLeft { session_id })),
        ),
        MumbleEventView::UserStateChanged(c) => (
            match c.name {
                Some(name) => names.insert(c.session_id, name),
                None => names,
            },
            step_sends(Some(ServerMessageView::UserState(c))),
        ),
        MumbleEventView::ChannelAdded(c) => (
            names,
            step_sends(Some(ServerMessageView::ChannelUpdated { channels: seq![c] })),
        ),
        MumbleEventView::ChannelUpdated(c) => (
            names,
            step_sends(Some(ServerMessageView::ChannelUpdated { channels: seq![c] })),
        ),
        MumbleEventView::ChannelRemoved { channel_id } => (names, step_sends(None)),
        MumbleEventView::ChatMessage { sender_session, channel_id, message } => (
            names,
            step_sends(
                Some(
                    ServerMessageView::ChatReceived {
                        sender_session,
                        sender_name: sender_name(names, sender_session),
                        channel_id,
                        message,
                        timestamp: now,
                    },
                ),
            ),
        ),
        MumbleEventView::Disconnected(reason) => (
            names,
            StepView {
                terminal_error: Some(
                    ServerMessageView::Error { code: "mumble_disconnected"@, message: reason },
                ),
                ..step_stops()
            },
        ),
    }
}

/// What the loop does on a WebRTC event.
pub open spec fn webrtc_step(event: WebrtcEvent) -> StepView {
    match event {
        WebrtcEvent::ConnectionStateChanged(state) => if state == PeerState::Failed || state
            == PeerState::Disconnected {
            step_sends(
                Some(
                    ServerMessageView::Error {
                        code: "webrtc_disconnected"@,
                        message: "WebRTC state: "@ + state.text(),
                    },
                ),
            )
        } else {
            step_sends(None)
        },
        WebrtcEvent::IceCandidate(c) => step_sends(Some(ServerMessageView::IceCandidate(c@))),
        WebrtcEvent::NegotiationNeeded => StepView { negotiate: true, ..step_sends(None) },
    }
}

/// What an input makes of the known names, and what the loop does.
pub open spec fn session_step(
    names: Map<u32, Seq<char>>,
    input: SessionInput,
    closed: bool,
    now: u64,
) -> (Map<u32, Seq<char>>, StepView) {
    match input {
        SessionInput::Close => (names, step_stops()),
        SessionInput::ClientGone => (names, step_stops()),
        SessionInput::Mumble(Some(event)) => mumble_step(names, event@, closed, now),
        SessionInput::Mumble(None) => (names, step_stops()),
        SessionInput::Webrtc(Some(event)) => (names, webrtc_step(event)),
        SessionInput::Webrtc(None) => (names, step_stops()),
    }
}

/// The loop that tells a browser what happens in its session. It knows the
/// users' names.
pub struct EventLoop {
    user_map: HashMap<u32, String>,
}

spec fn texts(m: Map<u32, String>) -> Map<u32, Seq<char>> {
    m.map_values(|s: String| s@)
}

impl View for EventLoop {
    type V = Map<u32, Seq<char>>;

    /// The name of each known user.
    closed spec fn view(&self) -> Map<u32, Seq<char>> {
        texts(self.user_map@)
    }
}

fn stops() -> (r: SessionStep)
    ensures
        r@ == step_stops(),
{
    SessionStep {
        send: None,
        session_id: None,
        negotiate: false,
        keep_running: false,
        terminal_error: None,
    }
}

fn sends(m: Option<ServerMessage>) -> (r: SessionStep)
    ensures
        r@ == step_sends(message_view(m)),
{
    SessionStep {
        send: m,
        session_id: None,
        negotiate: false,
        keep_running: true,
        terminal_error: None,
    }
}

fn channel_updated(c: ChannelInfo) -> (r: SessionStep)
    ensures
        r@ == step_sends(Some(ServerMessageView::ChannelUpdated { channels: seq![c@] })),
{
    let mut channels: Vec<ChannelInfo> = Vec::new();
    channels.push(c);
    assert(views(channels@) =~= seq![c@]);
    sends(Some(ServerMessage::ChannelUpdated(ChannelUpdatedData { channels })))
}

fn on_webrtc_event(event: WebrtcEvent) -> (r: SessionStep)
    ensures
        r@ == webrtc_step(event),
{
    match event {
        WebrtcEvent::ConnectionStateChanged(state) => match state {
            PeerState::Failed | PeerState::Disconnected => sends(
                Some(
                    ServerMessage::error(
                        "webrtc_disconnected",
                        concat2("WebRTC state: ", state.name().as_str()).as_str(),
                    ),
                ),
            ),
            _ => sends(None),
        },
        WebrtcEvent::IceCandidate(c) => sends(
            Some(
                ServerMessage::IceCandidate(
                    IceCandidateResponse {
                        candidate: c.candidate,
                        sdp_mid: c.sdp_mid,
                        sdp_mline_index: c.sdp_mline_index,
                    },
                ),
            ),
        ),
        WebrtcEvent::NegotiationNeeded => SessionStep {
            send: None,
            session_id: None,
            negotiate: true,
            keep_running: true,
            terminal_error: None,
        },
    }
}

impl EventLoop {
    /// No users are known.
    pub fn new() -> (r: EventLoop)
        ensures
            r@ == Map::<u32, Seq<char>>::empty(),
    {
        let r = EventLoop { user_map: HashMap::new() };
        assert(r@ =~= Map::<u32, Seq<char>>::empty());
        r
    }

    fn learn(&mut self, session: u32, name: String)
        ensures
            final(self)@ == old(self)@.insert(session, name@),
    {
        broadcast use vstd::std_specs::hash::group_hash_axioms;

        self.user_map.insert(session, name);
        assert(self@ =~= old(self)@.insert(session, name@));
    }

    fn learn_all(&mut self, users: &Vec<UserInfo>)
        ensures
            final(self)@ == named(old(self)@, views(users@)),
    {
        let ghost before = self@;
        let ghost all = views(users@);
        let mut i: usize = 0;
        assert(all.take(0) =~= Seq::<UserView>::empty());
        while i < users.len()
            invariant
                i <= users@.len(),
                all == views(users@),
                self@ == named(before, all.take(i as int)),
            decreases users@.len() - i,
        {
            assert(all.take(i + 1).drop_last() =~= all.take(i as int));
            assert(all.take(i + 1).last() == users@[i as int]@);
            self.learn(users[i].session_id, users[i].name.clone());
            i = i + 1;
        }
        assert(all.take(i as int) =~= all);
    }

    fn sender(&self, session: u32) -> (r: String)
        ensures
            r@ == sender_name(self@, session),
    {
        broadcast use vstd::std_specs::hash::group_hash_axioms;

        match self.user_map.get(&session) {
            Some(name) => name.clone(),
            None => concat2("User#", decimal_string(session as u64).as_str()),
        }
    }

    fn on_mumble_event(&mut self, event: MumbleEvent, closed: bool, now: u64) -> (r: SessionStep)
        ensures
            (final(self)@, r@) == mumble_step(old(self)@, event@, closed, now),
    {
        broadcast use vstd::std_specs::hash::group_hash_axioms;

        match event {
            MumbleEvent::Connected { session_id, channels, users } => {
                self.learn_all(&users);
                if closed {
                    return stops();
                }
                let mut step = sends(
                    Some(
                        ServerMessage::Connected(ConnectedData { session_id, channels, users }),
                    ),
                );
                step.session_id = Some(session_id);
                step
            },
            MumbleEvent::UserJoined(user) => {
                self.learn(user.session_id, user.name.clone());
                sends(Some(ServerMessage::UserJoined(user)))
            },
            MumbleEvent::UserLeft { session_id } => {
                self.user_map.remove(&session_id);
                assert(self@ =~= old(self)@.remove(session_id));
                sends(Some(ServerMessage::UserLeft(UserLeftData { session_id })))
            },
            MumbleEvent::UserStateChanged(state) => {
                if let Some(name) = &state.name {
                    self.learn(state.session_id, name.clone());
                }
                sends(Some(ServerMessage::UserState(state)))
            },
            MumbleEvent::ChannelAdded(channel) => channel_updated(channel),
            MumbleEvent::ChannelUpdated(channel) => channel_updated(channel),
            MumbleEvent::ChannelRemoved { channel_id: _ } => sends(None),
            MumbleEvent::ChatMessage { sender_session, channel_id, message } => {
                let sender_name = self.sender(sender_session);
                sends(
                    Some(
                        ServerMessage::ChatReceived(
                            ChatReceivedData {
                                sender_session,
                                sender_name,
                                channel_id,
                                message,
                                timestamp: now,
                            },
                        ),
                    ),
                )
            },
            MumbleEvent::Disconnected(reason) => {
                let mut step = stops();
                step.terminal_error = Some(
                    ServerMessage::error("mumble_disconnected", reason.as_str()),
                );
                step
            },
        }
    }

    /// What the loop does when `input` wakes it, at the time `now` in seconds
    /// since 1970. `closed` tells whether the session has been closed.
    pub fn process_event_at(&mut self, input: SessionInput, closed: bool, now: u64) -> (r:
        SessionStep)
        ensures
            (final(self)@, r@) == session_step(old(self)@, input, closed, now),
    {
        match input {
            SessionInput::Close => stops(),
            SessionInput::ClientGone => stops(),
            SessionInput::Mumble(Some(event)) => self.on_mumble_event(event, closed, now),
            SessionInput::Mumble(None) => stops(),
            SessionInput::Webrtc(Some(event)) => on_webrtc_event(event),
            SessionInput::Webrtc(None) => stops(),
        }
    }

    /// What the loop does when `input` wakes it, by the system's clock, which
    /// only chat messages show.
    pub fn process_event(&mut self, input: SessionInput, closed: bool) -> (r: SessionStep)
        ensures
            exists|now: u64|
                is_clock_reading(now) && (final(self)@, r@) == #[trigger] session_step(
                    old(self)@,
                    input,
                    closed,
                    now,
                ),
    {
        let now: u64 = unix_time();
        self.process_event_at(input, closed, now)
    }
}

// Laws

/// Something that happens to the sessions.
pub enum SessionEvent {
    Connect { conn_id: Seq<char> },
    Attach { conn_id: Seq<char>, generation: u64 },
    Release { generation: u64 },
    Disconnect { conn_id: Seq<char> },
    Finish { conn_id: Seq<char>, generation: u64 },
}

/// The sessions after an event. An attempt to connect while all places are
/// taken, or by a browser that is connected, changes nothing; nor does
/// completing an attempt that holds no place, is complete already, or has been
/// overtaken by another.
pub open spec fn after_event(v: SessionsView, e: SessionEvent) -> SessionsView {
    match e {
        SessionEvent::Connect { conn_id } => if v.sessions.dom().contains(conn_id)
            || v.holders.len() >= v.max || v.next_generation == u64::MAX {
            v
        } else {
            reserved(v)
        },
        SessionEvent::Attach { conn_id, generation } => if v.sessions.dom().contains(conn_id)
            || !v.holders.contains(generation) || is_attached(v, generation) {
            v
        } else {
            attached(v, conn_id, generation)
        },
        SessionEvent::Release { generation } => released(v, generation),
        SessionEvent::Disconnect { conn_id } => detached(v, conn_id),
        SessionEvent::Finish { conn_id, generation } => finished(v, conn_id, generation),
    }
}

pub open spec fn after_events(v: SessionsView, events: Seq<SessionEvent>) -> SessionsView
    decreases events.len(),
{
    if events.len() == 0 {
        v
    } else {
        after_event(after_events(v, events.drop_last()), events.last())
    }
}

proof fn lemma_event_is_sound(v: SessionsView, e: SessionEvent)
    requires
        is_sound(v),
    ensures
        is_sound(after_event(v, e)),
        after_event(v, e).max == v.max,
{
    match e {
        SessionEvent::Connect { conn_id } => {},
        SessionEvent::Attach { conn_id, generation } => {
            if !v.sessions.dom().contains(conn_id) && v.holders.contains(generation)
                && !is_attached(v, generation) {
                let after = attached(v, conn_id, generation);
                assert forall|c: Seq<char>| #[trigger]
                    after.sessions.dom().contains(c) && c != conn_id implies after.sessions[c]
                    != generation by {
                    assert(v.sessions.dom().contains(c));
                }
                assert forall|c: Seq<char>, d: Seq<char>| #[trigger]
                    after.sessions.dom().contains(c) && #[trigger] after.sessions.dom().contains(d)
                        && c != d implies after.sessions[c] != after.sessions[d] by {
                    if c != conn_id && d != conn_id {
                        assert(v.sessions.dom().contains(c) && v.sessions.dom().contains(d));
                    }
                }
            }
        },
        SessionEvent::Release { generation } => {
            lemma_released_is_sound(v, generation);
        },
        SessionEvent::Disconnect { conn_id } => {
            lemma_detached_is_sound(v, conn_id);
        },
        SessionEvent::Finish { conn_id, generation } => {
            lemma_detached_is_sound(v, conn_id);
            lemma_released_is_sound(v, generation);
            lemma_released_is_sound(detached(v, conn_id), generation);
        },
    }
}

/// Different generations of connected browsers are as many as the browsers.
proof fn lemma_sessions_at_most(m: Map<Seq<char>, u64>, holders: Set<u64>)
    requires
        m.dom().finite(),
        holders.finite(),
        forall|c: Seq<char>| #[trigger] m.dom().contains(c) ==> holders.contains(m[c]),
        forall|c: Seq<char>, d: Seq<char>| #[trigger]
            m.dom().contains(c) && #[trigger] m.dom().contains(d) && c != d ==> m[c] != m[d],
    ensures
        m.dom().len() <= holders.len(),
    decreases m.dom().len(),
{
    if m.dom().len() > 0 {
        let c = m.dom().choose();
        assert(m.dom().contains(c));
        let rest = m.remove(c);
        assert forall|d: Seq<char>| #[trigger] rest.dom().contains(d) implies holders.remove(
            m[c],
        ).contains(rest[d]) by {
            assert(m.dom().contains(d));
        }
        assert forall|d: Seq<char>, e: Seq<char>| #[trigger]
            rest.dom().contains(d) && #[trigger] rest.dom().contains(e) && d != e implies rest[d]
            != rest[e] by {
            assert(m.dom().contains(d) && m.dom().contains(e));
        }
        lemma_sessions_at_most(rest, holders.remove(m[c]));
    }
}

/// However browsers connect, fail, disconnect and reconnect, there are never
/// more holders than places, and never more connected browsers than holders.
pub proof fn law_capacity_is_never_exceeded(v: SessionsView, events: Seq<SessionEvent>)
    requires
        is_sound(v),
    ensures
        is_sound(after_events(v, events)),
        after_events(v, events).holders.len() <= v.max,
        after_events(v, events).sessions.dom().len() <= after_events(v, events).holders.len(),
    decreases events.len(),
{
    if events.len() > 0 {
        law_capacity_is_never_exceeded(v, events.drop_last());
        lemma_event_is_sound(after_events(v, events.drop_last()), events.last());
    }
    law_max_stays(v, events);
    let after = after_events(v, events);
    lemma_sessions_at_most(after.sessions, after.holders);
}

/// The number of places stays what it was.
pub proof fn law_max_stays(v: SessionsView, events: Seq<SessionEvent>)
    ensures
        after_events(v, events).max == v.max,
    decreases events.len(),
{
    if events.len() > 0 {
        law_max_stays(v, events.drop_last());
    }
}

/// An attempt to connect that fails or is given up leaves every place as it
/// was: to take a place and give it back changes only which generation is next.
pub proof fn law_failed_attempt_frees_its_place(v: SessionsView)
    requires
        is_sound(v),
        v.next_generation < u64::MAX,
    ensures
        released(reserved(v), v.next_generation) == (SessionsView {
            next_generation: (v.next_generation + 1) as u64,
            ..v
        }),
{
    let taken = reserved(v);
    assert(!is_attached(taken, v.next_generation)) by {
        if is_attached(taken, v.next_generation) {
            let c = choose|c: Seq<char>| #[trigger]
                taken.sessions.dom().contains(c) && taken.sessions[c] == v.next_generation;
            assert(v.sessions.dom().contains(c));
        }
    }
    assert(released(taken, v.next_generation).holders =~= v.holders);
}

/// An attempt to connect, whatever has happened since it took its place, ends in
/// one of two ways. Where it is given up, the connected browsers stay as they
/// are and one more place is free; where it succeeds, there is one more
/// connected browser, in the place that was taken for it.
pub proof fn law_attempt_ends_in_one_of_two_ways(
    v: SessionsView,
    conn_id: Seq<char>,
    generation: u64,
)
    requires
        is_sound(v),
        v.holders.contains(generation),
        !is_attached(v, generation),
        !v.sessions.dom().contains(conn_id),
    ensures
        ({
            let given_up = released(v, generation);
            &&& is_sound(given_up)
            &&& given_up.sessions == v.sessions
            &&& given_up.holders == v.holders.remove(generation)
            &&& given_up.holders.len() == v.holders.len() - 1
        }),
        ({
            let connected = attached(v, conn_id, generation);
            &&& is_sound(connected)
            &&& connected.sessions == v.sessions.insert(conn_id, generation)
            &&& connected.sessions.dom().len() == v.sessions.dom().len() + 1
            &&& connected.holders == v.holders
        }),
{
    lemma_released_is_sound(v, generation);
    lemma_event_is_sound(v, SessionEvent::Attach { conn_id, generation });
}

/// A place is taken for an attempt to connect before anything else happens: one
/// more is held, and the connected browsers stay as they are.
pub proof fn law_attempt_takes_one_place(v: SessionsView)
    requires
        is_sound(v),
        v.next_generation < u64::MAX,
    ensures
        reserved(v).sessions == v.sessions,
        reserved(v).holders.len() == v.holders.len() + 1,
        reserved(v).holders.contains(v.next_generation),
        !is_attached(reserved(v), v.next_generation),
{
    let taken = reserved(v);
    if is_attached(taken, v.next_generation) {
        let c = choose|c: Seq<char>| #[trigger]
            taken.sessions.dom().contains(c) && taken.sessions[c] == v.next_generation;
        assert(v.sessions.dom().contains(c));
    }
}

/// A late cleanup of a session that has been replaced leaves the replacement
/// connected and its place taken.
pub proof fn law_late_cleanup_spares_the_replacement(
    v: SessionsView,
    conn_id: Seq<char>,
    generation: u64,
    replacement: u64,
)
    requires
        is_sound(v),
        is_current(v, conn_id, replacement),
        generation != replacement,
    ensures
        is_current(finished(v, conn_id, generation), conn_id, replacement),
        finished(v, conn_id, generation).sessions == v.sessions,
        finished(v, conn_id, generation).holders.contains(replacement),
{
}

/// When a session is over, its place is free and the browser can connect again,
/// before it is told that the session has ended.
pub proof fn law_finished_session_makes_room(
    v: SessionsView,
    conn_id: Seq<char>,
    generation: u64,
)
    requires
        is_sound(v),
        is_current(v, conn_id, generation),
    ensures
        ({
            let after = finished(v, conn_id, generation);
            &&& !after.sessions.dom().contains(conn_id)
            &&& !after.holders.contains(generation)
            &&& after.holders.len() == v.holders.len() - 1
            &&& after.holders.len() < after.max
        }),
{
    let gone = detached(v, conn_id);
    assert(v.sessions.dom().contains(conn_id));
    assert(!is_attached(gone, generation)) by {
        if is_attached(gone, generation) {
            let c = choose|c: Seq<char>| #[trigger]
                gone.sessions.dom().contains(c) && gone.sessions[c] == generation;
            assert(v.sessions.dom().contains(c));
        }
    }
}

/// To disconnect a browser and give its place back has the same effect as to
/// finish its session.
pub proof fn law_disconnect_then_release_is_finish(
    v: SessionsView,
    conn_id: Seq<char>,
    generation: u64,
)
    requires
        is_current(v, conn_id, generation),
    ensures
        released(detached(v, conn_id), generation) == finished(v, conn_id, generation),
{
}

/// A session is torn down once: to tear it down again changes nothing, and what
/// belonged to it is gone.
pub proof fn law_teardown_happens_once<Task, Bridge, Voice>(s: UserSession<Task, Bridge, Voice>)
    requires
        s.slot is Some,
    ensures
        s.shut_down().closed,
        s.shut_down().slot is None,
        s.shut_down().voice_setup_task is None && s.shut_down().bridge is None
            && s.shut_down().mumble_voice is None,
        s.shut_down().shut_down() == s.shut_down(),
{
}

/// The loop leaves a reason behind exactly where the Mumble server ended the
/// session; a loop that ends says nothing more to the browser; and a session
/// that is closed is not logged in.
pub proof fn law_loop_ends_with_a_reason_only_upstream(
    names: Map<u32, Seq<char>>,
    input: SessionInput,
    closed: bool,
    now: u64,
)
    ensures
        ({
            let step = session_step(names, input, closed, now).1;
            &&& step.terminal_error is Some <==> (input matches SessionInput::Mumble(Some(e)) && e@
                is Disconnected)
            &&& step.terminal_error is Some ==> !step.keep_running && step.send is None
            &&& !step.keep_running ==> step.send is None && step.session_id is None
                && !step.negotiate
            &&& step.session_id is Some ==> !closed
        }),
{
}

/// Chat shows the name that was told last: of a user who joined, the name given
/// then; of one who left, or was never told of, only the number.
pub proof fn law_chat_shows_the_last_name(
    names: Map<u32, Seq<char>>,
    event: MumbleEventView,
    closed: bool,
    now: u64,
    session: u32,
)
    ensures
        ({
            let after = mumble_step(names, event, closed, now).0;
            match event {
                MumbleEventView::UserJoined(u) if u.session_id == session => sender_name(
                    after,
                    session,
                ) == u.name,
                MumbleEventView::UserStateChanged(c) if c.session_id == session && c.name
                    is Some => sender_name(after, session) == c.name->0,
                MumbleEventView::UserLeft { session_id } if session_id == session => sender_name(
                    after,
                    session,
                ) == "User#"@ + decimal(session as nat),
                MumbleEventView::Connected { session_id, channels, users } => (forall|i: int|
                    0 <= i < users.len() ==> (#[trigger] users[i]).session_id != session)
                    ==> sender_name(after, session) == sender_name(names, session),
                _ => sender_name(after, session) == sender_name(names, session),
            }
        }),
{
    if let MumbleEventView::Connected { session_id, channels, users } = event {
        if forall|i: int| 0 <= i < users.len() ==> (#[trigger] users[i]).session_id != session {
            lemma_named_others(names, users, session);
        }
    }
}

proof fn lemma_named_others(names: Map<u32, Seq<char>>, users: Seq<UserView>, session: u32)
    requires
        forall|i: int| 0 <= i < users.len() ==> (#[trigger] users[i]).session_id != session,
    ensures
        named(names, users).dom().contains(session) == names.dom().contains(session),
        named(names, users).dom().contains(session) ==> named(names, users)[session]
            == names[session],
    decreases users.len(),
{
    if users.len() > 0 {
        assert(users[users.len() - 1].session_id != session);
        lemma_named_others(names, users.drop_last(), session);
    }
}

/// Every user in the list that comes with the login is known by a name that
/// the list gives them.
pub proof fn law_login_tells_all_names(
    names: Map<u32, Seq<char>>,
    users: Seq<UserView>,
    i: int,
)
    requires
        0 <= i < users.len(),
    ensures
        named(names, users).dom().contains(users[i].session_id),
        exists|j: int|
            0 <= j < users.len() && (#[trigger] users[j]).session_id == users[i].session_id
                && named(names, users)[users[i].session_id] == users[j].name,
    decreases users.len(),
{
    let last = users.len() - 1;
    if users[last].session_id == users[i].session_id {
        assert(named(names, users)[users[i].session_id] == users[last].name);
    } else {
        let rest = users.drop_last();
        law_login_tells_all_names(names, rest, i);
        let j = choose|j: int|
            0 <= j < rest.len() && (#[trigger] rest[j]).session_id == rest[i].session_id && named(
                names,
                rest,
            )[rest[i].session_id] == rest[j].name;
        assert(users[j] == rest[j]);
    }
}

/// A browser that is not connected gets a place whenever one is free, and then
/// only one more place is taken, under a new number; a browser that is connected,
/// or comes when no place is free, changes nothing.
pub proof fn law_free_place_is_given(v: SessionsView, conn_id: Seq<char>)
    requires
        v.next_generation < u64::MAX,
    ensures
        ({
            let after = after_event(v, SessionEvent::Connect { conn_id });
            &&& !v.sessions.dom().contains(conn_id) && v.holders.len() < v.max ==> {
                &&& after.holders == v.holders.insert(v.next_generation)
                &&& after.next_generation == v.next_generation + 1
                &&& after.sessions == v.sessions && after.max == v.max
            }
            &&& v.sessions.dom().contains(conn_id) || v.holders.len() >= v.max ==> after == v
        }),
{
}

/// An attempt that holds a place and is not complete becomes the browser's
/// session, unless the browser has another, and nothing else changes.
pub proof fn law_attempt_becomes_the_session(v: SessionsView, conn_id: Seq<char>, generation: u64)
    requires
        v.holders.contains(generation),
        forall|c: Seq<char>| #[trigger]
            v.sessions.dom().contains(c) ==> v.sessions[c] != generation,
    ensures
        ({
            let after = after_event(v, SessionEvent::Attach { conn_id, generation });
            &&& !v.sessions.dom().contains(conn_id) ==> after.sessions == v.sessions.insert(
                conn_id,
                generation,
            )
            &&& v.sessions.dom().contains(conn_id) ==> after.sessions == v.sessions
            &&& after.holders == v.holders && after.max == v.max && after.next_generation
                == v.next_generation
        }),
{
}

/// A place that is given back is free, unless a connected browser holds it.
/// To disconnect takes the browser's session away and leaves its place. Neither
/// touches anything else.
pub proof fn law_places_are_given_back(v: SessionsView, conn_id: Seq<char>, generation: u64)
    ensures
        ({
            let after = after_event(v, SessionEvent::Release { generation });
            &&& (exists|c: Seq<char>| #[trigger]
                v.sessions.dom().contains(c) && v.sessions[c] == generation) ==> after == v
            &&& (forall|c: Seq<char>| #[trigger]
                v.sessions.dom().contains(c) ==> v.sessions[c] != generation) ==> after.holders
                == v.holders.remove(generation)
            &&& after.sessions == v.sessions && after.max == v.max && after.next_generation
                == v.next_generation
        }),
        ({
            let after = after_event(v, SessionEvent::Disconnect { conn_id });
            &&& after.sessions == v.sessions.remove(conn_id)
            &&& after.holders == v.holders && after.max == v.max && after.next_generation
                == v.next_generation
        }),
{
}

/// A session that is over leaves the browsers without it, where it is still its
/// browser's, and frees its place in any case; the other sessions and places
/// stay.
pub proof fn law_finish_frees_only_its_own(v: SessionsView, conn_id: Seq<char>, generation: u64)
    requires
        is_sound(v),
        forall|c: Seq<char>| #[trigger]
            v.sessions.dom().contains(c) && v.sessions[c] == generation ==> c == conn_id,
    ensures
        ({
            let after = after_event(v, SessionEvent::Finish { conn_id, generation });
            &&& v.sessions.dom().contains(conn_id) && v.sessions[conn_id] == generation
                ==> after.sessions == v.sessions.remove(conn_id)
            &&& !(v.sessions.dom().contains(conn_id) && v.sessions[conn_id] == generation)
                ==> after.sessions == v.sessions
            &&& after.holders == v.holders.remove(generation)
            &&& after.max == v.max && after.next_generation == v.next_generation
        }),
{
    let gone = if is_current(v, conn_id, generation) {
        detached(v, conn_id)
    } else {
        v
    };
    if is_attached(gone, generation) {
        let c = choose|c: Seq<char>| #[trigger]
            gone.sessions.dom().contains(c) && gone.sessions[c] == generation;
        assert(v.sessions.dom().contains(c));
    }
}

/// A request reaches the session of the browser that makes it, as it was made,
/// exactly where the browser has one.
pub proof fn law_requests_are_directed(
    v: SessionsView,
    conn_id: Seq<char>,
    request: RequestView,
    r: Result<Directed, SessionError>,
)
    requires
        is_directed(v, conn_id, request, r),
    ensures
        r is Ok <==> v.sessions.dom().contains(conn_id),
        r matches Ok(d) ==> d.generation == v.sessions[conn_id] && d.request@ == request,
{
}

/// A request says what it holds, and is of its own kind.
pub proof fn law_requests_say_what_they_hold(r: Request)
    ensures
        r matches Request::Mumble(command) ==> r@.kind() is Mumble && (
        command matches MumbleCommand::SendChat { channel_id, message } ==> r@ == (
        RequestView::SendChat { channel_id, message: message@ })) && (
        command matches MumbleCommand::JoinChannel { channel_id } ==> r@ == (
        RequestView::JoinChannel { channel_id })) && (command matches MumbleCommand::SetMute(b)
            ==> r@ == RequestView::SetMute(b)) && (command matches MumbleCommand::SetDeaf(b) ==> r@
            == RequestView::SetDeaf(b)) && (command is Disconnect ==> r@ is Disconnect),
        r matches Request::Offer { sdp } ==> r@ == (RequestView::Offer { sdp: sdp@ }) && r@.kind()
            is Offer,
        r matches Request::Answer { sdp } ==> r@ == (RequestView::Answer { sdp: sdp@ })
            && r@.kind() is Answer,
        r matches Request::StartVoice { restart } ==> r@ == (RequestView::StartVoice { restart })
            && r@.kind() is StartVoice,
        r is RefreshIce ==> r@ is RefreshIce && r@.kind() is RefreshIce,
        r matches Request::Candidate(c) ==> r@ == RequestView::Candidate(c@) && r@.kind()
            is Candidate,
{
}

/// What is ended with a session is all that belonged to it, and its own place is
/// freed; who it was stays known. A session that has been torn down has nothing
/// more to end.
pub proof fn law_teardown_ends_everything<Task, Bridge, Voice>(s: UserSession<Task, Bridge, Voice>)
    ensures
        s.slot matches Some(generation) ==> (s.teardown() matches Some(t) && t.voice_setup_task
            == s.voice_setup_task && t.bridge == s.bridge && t.mumble_voice == s.mumble_voice
            && t.generation == generation),
        s.slot is None ==> s.teardown() is None && s.shut_down() == s,
        s.shut_down().teardown() is None,
        s.shut_down().username == s.username && s.shut_down().session_id == s.session_id,
{
}

/// Of the voice setup the browser hears exactly where it failed after the keys
/// came, with the code for voice and the reason.
pub proof fn law_failed_voice_setup_is_told(setup: VoiceSetup)
    ensures
        setup is NoKeys || setup is Ready ==> voice_setup_news(setup) is None,
        setup matches VoiceSetup::Failed(reason) ==> (voice_setup_news(setup) matches Some(
            ServerMessageView::Error { code, message },
        ) && code == "voice_error"@ && message == "Voice setup failed: "@ + reason@),
        setup is NoAddress ==> (voice_setup_news(setup) matches Some(
            ServerMessageView::Error { code, message },
        ) && code == "voice_error"@ && message == "Voice setup failed: "@
            + "could not resolve Mumble server address"@),
{
}

/// Everybody else who is there at the login, and who joins later, gets a track;
/// who leaves loses theirs; and no other news changes the tracks.
pub proof fn law_everybody_else_gets_a_track(m: ServerMessageView, own: Option<u32>, session: u32)
    ensures
        m matches ServerMessageView::Connected { session_id, channels, users } ==> (speakers_added(
            m,
            own,
        ).contains(session) <==> own != Some(session) && exists|i: int|
            0 <= i < users.len() && (#[trigger] users[i]).session_id == session),
        m matches ServerMessageView::Connected { session_id, channels, users } ==> speakers_added(
            m,
            own,
        ) == users.map_values(|u: UserView| u.session_id).filter(|s: u32| own != Some(s)),
        m matches ServerMessageView::UserJoined(u) ==> speakers_added(m, own) == (if own == Some(
            u.session_id,
        ) {
            Seq::empty()
        } else {
            seq![u.session_id]
        }),
        !(m is Connected) && !(m is UserJoined) ==> speakers_added(m, own).len() == 0,
        m matches ServerMessageView::UserLeft { session_id } ==> speakers_removed(m)
            == seq![session_id],
        !(m is UserLeft) ==> speakers_removed(m).len() == 0,
{
    if let ServerMessageView::Connected { session_id, channels, users } = m {
        let all = users.map_values(|u: UserView| u.session_id);
        all.filter_lemma(is_another(own));
        assert(speakers_added(m, own) == all.filter(is_another(own)));
        assert(is_another(own) =~= |s: u32| own != Some(s));
        if speakers_added(m, own).contains(session) {
            let k = choose|k: int|
                0 <= k < speakers_added(m, own).len() && speakers_added(m, own)[k] == session;
            assert(is_another(own)(speakers_added(m, own)[k]));
            all.lemma_filter_contains_rev(is_another(own), session);
            let i = choose|i: int| 0 <= i < all.len() && all[i] == session;
            assert(users[i].session_id == session);
        }
        if own != Some(session) {
            if exists|i: int| 0 <= i < users.len() && (#[trigger] users[i]).session_id == session {
                let i = choose|i: int|
                    0 <= i < users.len() && (#[trigger] users[i]).session_id == session;
                assert(all[i] == session);
                assert(is_another(own)(all[i]));
                assert(all.filter(is_another(own)).contains(all[i]));
            }
        }
    }
    if let ServerMessageView::UserJoined(u) = m {
        let one = seq![u.session_id];
        assert(one.drop_last() =~= Seq::<u32>::empty());
        assert(one.filter(is_another(own)) =~= if own == Some(u.session_id) {
            Seq::<u32>::empty()
        } else {
            seq![u.session_id]
        }) by {
            reveal(Seq::filter);
            assert(Seq::<u32>::empty().filter(is_another(own)) =~= Seq::<u32>::empty());
        }
    }
}

/// Of what happens on the Mumble server the browser hears all of it, field by
/// field: the login, who joins, leaves or changes, the channels, and the chat
/// with the sender's name and the time. Only that a channel is gone it does not
/// hear. None of this ends the session.
pub proof fn law_browser_hears_what_happens(
    names: Map<u32, Seq<char>>,
    event: MumbleEventView,
    closed: bool,
    now: u64,
)
    ensures
        ({
            let step = mumble_step(names, event, closed, now).1;
            &&& event matches MumbleEventView::Connected { session_id, channels, users } ==> (!closed
                ==> step.send == Some(
                ServerMessageView::Connected { session_id, channels, users },
            ) && step.session_id == Some(session_id) && step.keep_running)
            &&& event is Connected && closed ==> !step.keep_running && step.send is None
            &&& !(event is Connected) ==> step.session_id is None
            &&& event matches MumbleEventView::UserJoined(u) ==> step.send == Some(
                ServerMessageView::UserJoined(u),
            )
            &&& event matches MumbleEventView::UserLeft { session_id } ==> step.send == Some(
                ServerMessageView::UserLeft { session_id },
            )
            &&& event matches MumbleEventView::UserStateChanged(c) ==> step.send == Some(
                ServerMessageView::UserState(c),
            )
            &&& event matches MumbleEventView::ChannelAdded(c) ==> step.send == Some(
                ServerMessageView::ChannelUpdated { channels: seq![c] },
            )
            &&& event matches MumbleEventView::ChannelUpdated(c) ==> step.send == Some(
                ServerMessageView::ChannelUpdated { channels: seq![c] },
            )
            &&& event is ChannelRemoved ==> step.send is None
            &&& event matches MumbleEventView::ChatMessage { sender_session, channel_id, message }
                ==> (step.send matches Some(
                ServerMessageView::ChatReceived {
                    sender_session: from,
                    sender_name: name,
                    channel_id: to,
                    message: text,
                    timestamp,
                },
            ) && from == sender_session && to == channel_id && text == message && timestamp == now
                && (names.dom().contains(sender_session) ==> name == names[sender_session]) && (
            !names.dom().contains(sender_session) ==> name == "User#"@ + decimal(
                sender_session as nat,
            )))
            &&& event matches MumbleEventView::Disconnected(reason) ==> step.terminal_error == Some(
                ServerMessageView::Error { code: "mumble_disconnected"@, message: reason },
            ) && !step.keep_running && step.send is None
            &&& !(event is Connected) && !(event is Disconnected) ==> step.keep_running
            &&& !(event is Disconnected) ==> step.terminal_error is None
            &&& !step.negotiate
        }),
{
}

/// The names that are known follow the news: who joins or is renamed is known by
/// the new name, who leaves no longer is, and a login tells the names of its list,
/// a later entry before an earlier one. Nobody else's name changes.
pub proof fn law_names_follow_the_news(
    names: Map<u32, Seq<char>>,
    event: MumbleEventView,
    closed: bool,
    now: u64,
    users: Seq<UserView>,
    user: UserView,
)
    ensures
        ({
            let after = mumble_step(names, event, closed, now).0;
            &&& event matches MumbleEventView::UserJoined(u) ==> after == names.insert(
                u.session_id,
                u.name,
            )
            &&& event matches MumbleEventView::UserLeft { session_id } ==> after == names.remove(
                session_id,
            )
            &&& event matches MumbleEventView::UserStateChanged(c) ==> (c.name matches Some(name)
                ==> after == names.insert(c.session_id, name)) && (c.name is None ==> after
                == names)
            &&& event matches MumbleEventView::Connected { session_id, channels, users: list }
                ==> after == named(names, list)
            &&& !(event is UserJoined) && !(event is UserLeft) && !(event is UserStateChanged) && !(
            event is Connected) ==> after == names
        }),
        named(names, Seq::empty()) == names,
        named(names, users.push(user)) == named(names, users).insert(user.session_id, user.name),
{
    assert(users.push(user).drop_last() =~= users);
}

/// Of its WebRTC connection the browser hears each candidate, and that the
/// connection failed or was lost; where negotiation is needed, an offer is due.
/// None of this ends the session.
pub proof fn law_browser_hears_of_its_connection(event: WebrtcEvent)
    ensures
        webrtc_step(event).keep_running,
        webrtc_step(event).terminal_error is None && webrtc_step(event).session_id is None,
        webrtc_step(event).negotiate <==> event is NegotiationNeeded,
        event matches WebrtcEvent::IceCandidate(c) ==> webrtc_step(event).send == Some(
            ServerMessageView::IceCandidate(
                IceCandidateView {
                    candidate: c.candidate@,
                    sdp_mid: opt_text(c.sdp_mid),
                    sdp_mline_index: c.sdp_mline_index,
                },
            ),
        ),
        event is NegotiationNeeded ==> webrtc_step(event).send is None,
        event matches WebrtcEvent::ConnectionStateChanged(state) ==> (webrtc_step(event).send is Some
            <==> state is Failed || state is Disconnected),
        event matches WebrtcEvent::ConnectionStateChanged(state) ==> (state is Failed
            ==> webrtc_step(event).send == Some(
            ServerMessageView::Error {
                code: "webrtc_disconnected"@,
                message: "WebRTC state: "@ + "failed"@,
            },
        )),
        event matches WebrtcEvent::ConnectionStateChanged(state) ==> (state is Disconnected
            ==> webrtc_step(event).send == Some(
            ServerMessageView::Error {
                code: "webrtc_disconnected"@,
                message: "WebRTC state: "@ + "disconnected"@,
            },
        )),
{
}

/// A session's loop goes on with every event but the loss of the Mumble server
/// and a login that comes too late; it ends when the session is closed, when the
/// browser is gone, and when no more events can come. Without an event the known
/// names stay.
pub proof fn law_loop_goes_on(
    names: Map<u32, Seq<char>>,
    input: SessionInput,
    closed: bool,
    now: u64,
)
    ensures
        ({
            let (after, step) = session_step(names, input, closed, now);
            &&& step.keep_running <==> {
                ||| input matches SessionInput::Webrtc(Some(_))
                ||| input matches SessionInput::Mumble(Some(e)) && !(e is Disconnected) && !(closed
                    && e is Connected)
            }
            &&& input matches SessionInput::Mumble(Some(e)) ==> (after, step) == mumble_step(
                names,
                e@,
                closed,
                now,
            )
            &&& input matches SessionInput::Webrtc(Some(e)) ==> after == names && step
                == webrtc_step(e)
            &&& input is Close || input is ClientGone || input is Mumble && input->Mumble_0 is None
                || input is Webrtc && input->Webrtc_0 is None ==> after == names && step.send
                is None && step.terminal_error is None
        }),
{
}

/// What is given to an open session is ended with it: the task that sets voice
/// up, the voice connection and the bridge. A closed session takes no task; it is
/// given back at once. Nothing else of the session changes.
pub proof fn law_what_is_given_is_ended<Task, Bridge, Voice>(
    s: UserSession<Task, Bridge, Voice>,
    task: Task,
    voice: Voice,
    bridge: Bridge,
)
    ensures
        !s.closed && s.slot is Some ==> (s.with_task(task).0.with_voice(voice, bridge).teardown()
            matches Some(t) && t.voice_setup_task == Some(task) && t.bridge == Some(bridge)
            && t.mumble_voice == Some(voice)),
        s.closed ==> s.with_task(task) == (s, Some(task)),
        !s.closed ==> s.with_task(task).1 is None,
        s.with_task(task).0.bridge == s.bridge && s.with_task(task).0.mumble_voice
            == s.mumble_voice,
        s.with_voice(voice, bridge).voice_setup_task == s.voice_setup_task,
        s.with_task(task).0.slot == s.slot && s.with_voice(voice, bridge).slot == s.slot,
        s.with_task(task).0.closed == s.closed && s.with_voice(voice, bridge).closed == s.closed,
        s.with_task(task).0.username == s.username && s.with_voice(voice, bridge).username
            == s.username,
        s.with_task(task).0.session_id == s.session_id && s.with_voice(voice, bridge).session_id
            == s.session_id,
        s.shut_down().slot is None && (s.slot is Some ==> s.shut_down().with_task(task).1 == Some(
            task,
        )),
{
}

/// An attempt to connect takes one of the free places and is then connecting; it
/// no longer is when it has become the browser's session or has been given up,
/// and only giving it up frees the place.
pub proof fn law_attempts_hold_one_place(v: SessionsView, conn_id: Seq<char>)
    requires
        is_sound(v),
        v.next_generation < u64::MAX,
        !v.sessions.dom().contains(conn_id),
        v.holders.len() < v.max,
    ensures
        ({
            let g = v.next_generation;
            let begun = after_event(v, SessionEvent::Connect { conn_id });
            let done = after_event(begun, SessionEvent::Attach { conn_id, generation: g });
            let given_up = after_event(begun, SessionEvent::Release { generation: g });
            &&& free_places(v) == v.max - v.holders.len()
            &&& free_places(begun) == free_places(v) - 1 && is_connecting(begun, g)
            &&& free_places(done) == free_places(v) - 1 && !is_connecting(done, g)
            &&& done.sessions.dom().contains(conn_id) && done.sessions[conn_id] == g
            &&& free_places(given_up) == free_places(v) && !is_connecting(given_up, g)
        }),
{
    let g = v.next_generation;
    let begun = reserved(v);
    law_attempt_takes_one_place(v);
    law_failed_attempt_frees_its_place(v);
    let done = attached(begun, conn_id, g);
    assert(done.sessions.dom().contains(conn_id) && done.sessions[conn_id] == g);
    assert(is_attached(done, g));
}

/// A browser is refused exactly where it is connected already or no place is
/// free, and told which; else it gets a place under a generation that nobody has
/// had. To complete the attempt fails exactly where the browser has become
/// connected in the meantime.
pub proof fn law_refusals_say_why(v: SessionsView, conn_id: Seq<char>)
    requires
        is_sound(v),
    ensures
        connect_answer(v, conn_id) matches Err(e) ==> e is AlreadyConnected || e is ServerFull,
        connect_answer(v, conn_id) == Err::<u64, _>(ConnectError::AlreadyConnected)
            <==> v.sessions.dom().contains(conn_id),
        connect_answer(v, conn_id) == Err::<u64, _>(ConnectError::ServerFull)
            <==> !v.sessions.dom().contains(conn_id) && free_places(v) <= 0,
        connect_answer(v, conn_id) is Ok <==> !v.sessions.dom().contains(conn_id) && free_places(v)
            > 0,
        connect_answer(v, conn_id) matches Ok(g) ==> g == v.next_generation && !v.holders.contains(
            g,
        ),
        attach_answer(v, conn_id) is Ok <==> !v.sessions.dom().contains(conn_id),
        attach_answer(v, conn_id) matches Err(e) ==> e is AlreadyConnected,
{
}

/// A browser is told why its session is over exactly where it has not begun
/// another since, and in the very words.
pub proof fn law_reason_is_told_to_whom_it_concerns(
    v: SessionsView,
    conn_id: Seq<char>,
    generation: u64,
    terminal_error: Option<ServerMessage>,
)
    ensures
        finish_answer(v, conn_id, generation, terminal_error).0 <==> generation_of(v, conn_id)
            == Some(generation),
        generation_of(v, conn_id) == Some(generation) ==> finish_answer(
            v,
            conn_id,
            generation,
            terminal_error,
        ).1 == terminal_error,
        generation_of(v, conn_id) != Some(generation) ==> finish_answer(
            v,
            conn_id,
            generation,
            terminal_error,
        ).1 is None,
        generation_of(v, conn_id) is Some <==> v.sessions.dom().contains(conn_id),
        generation_of(attached(v, conn_id, generation), conn_id) == Some(generation),
        generation_of(detached(v, conn_id), conn_id) is None,
{
}

} // verus!
