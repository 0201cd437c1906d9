//! The standalone player directory of the plain chat server: named
//! players under fresh ids, connection flags, and the message handler
//! that serves join, leave, chat and ping.

use vstd::prelude::*;
use std::io::Write;
use crate::random::fresh_id;
use crate::strmap::StrMap;

verus! {

/// Anything a message can be sent to.
pub trait Messageable {
    fn send_message(&self, message: String);

    fn get_id(&self) -> &str;
}

#[derive(Debug)]
pub struct Player {
    pub id: String,
    pub name: String,
    pub is_connected: bool,
}

impl Player {
    /// A freshly connected player under a fresh id.
    pub fn new(name: &str) -> (r: Player)
        ensures
            r.id@.len() == 36,
            r.name@ == name@,
            r.is_connected,
    {
        Player { id: fresh_id(), name: name.to_owned(), is_connected: true }
    }

    pub fn disconnect(&mut self)
        ensures
            !final(self).is_connected,
            final(self).id == old(self).id,
            final(self).name == old(self).name,
    {
        self.is_connected = false;
    }
}

/// Relies on std::io::Stdout and the writeln macro to put one line on
/// standard output; nothing about the outside world is claimed.
#[verifier::external_body]
fn emit_line(line: &str) {
    let _ = writeln!(std::io::stdout(), "{}", line);
}

impl Messageable for Player {
    fn send_message(&self, message: String) {
        emit_line(message.as_str());
    }

    fn get_id(&self) -> &str {
        self.id.as_str()
    }
}

/// Sends one message to every recipient in turn.
pub fn broadcast_to_all<T: Messageable>(recipients: &[T], message: String)
{
    let n = recipients.len();
    let mut i: usize = 0;
    while i < n
        invariant
            i <= n,
            n == recipients@.len(),
        decreases n - i,
    {
        recipients[i].send_message(message.clone());
        i = i + 1;
    }
}

/// How many players in a roster are connected.
pub open spec fn spec_connected_count(ps: Seq<Player>) -> int
    decreases ps.len(),
{
    if ps.len() == 0 {
        0
    } else {
        spec_connected_count(ps.drop_last()) + if ps.last().is_connected {
            1int
        } else {
            0int
        }
    }
}

#[derive(Debug)]
pub struct PlayerManager {
    pub players: StrMap<Player>,
}

impl PlayerManager {
    pub open spec fn wf(&self) -> bool {
        self.players.wf()
    }

    pub fn new() -> (r: PlayerManager)
        ensures
            r.wf(),
            r.players@ == Map::<Seq<char>, Player>::empty(),
    {
        PlayerManager { players: StrMap::new() }
    }

    /// Registers a player under their id; an id already taken is
    /// refused and nothing changes.
    pub fn add_player(&mut self, player: Player) -> (r: Result<(), String>)
        requires
            old(self).wf(),
        ensures
            final(self).wf(),
            r is Err <==> old(self).players@.dom().contains(player.id@),
            r is Err ==> *final(self) == *old(self),
            r is Ok ==> final(self).players@ == old(self).players@.insert(player.id@, player),
    {
        if self.players.contains_key(player.id.as_str()) {
            Err("ID already exists".to_owned())
        } else {
            let key = player.id.clone();
            self.players.insert(key, player);
            Ok(())
        }
    }

    pub fn get_player(&self, id: &str) -> (r: Option<&Player>)
        requires
            self.wf(),
        ensures
            match r {
                Some(p) => self.players@.dom().contains(id@) && *p == self.players@[id@],
                None => !self.players@.dom().contains(id@),
            },
    {
        self.players.get(id)
    }

    pub fn remove_player(&mut self, id: &str) -> (r: Option<Player>)
        requires
            old(self).wf(),
        ensures
            final(self).wf(),
            final(self).players@ == old(self).players@.remove(id@),
            match r {
                Some(p) => old(self).players@.dom().contains(id@) && p == old(self).players@[id@],
                None => !old(self).players@.dom().contains(id@) && *final(self) == *old(self),
            },
    {
        self.players.remove(id)
    }

    /// The players currently connected, in roster order.
    pub fn list_connected_players(&self) -> (r: Vec<&Player>)
        requires
            self.wf(),
        ensures
            r@.len() == spec_connected_count(self.players.vseq()),
            forall|i: int| 0 <= i < r@.len() ==> (#[trigger] r@[i]).is_connected,
    {
        proof {
            self.players.lemma_view();
        }
        let n = self.players.len();
        let mut out: Vec<&Player> = Vec::new();
        let mut i: usize = 0;
        proof {
            assert(self.players.vseq().take(0) =~= Seq::<Player>::empty());
        }
        while i < n
            invariant
                i <= n,
                self.wf(),
                n == self.players.kseq().len(),
                n == self.players.vseq().len(),
                out@.len() == spec_connected_count(self.players.vseq().take(i as int)),
                forall|j: int| 0 <= j < out@.len() ==> (#[trigger] out@[j]).is_connected,
            decreases n - i,
        {
            let p = self.players.value_at(i);
            if p.is_connected {
                out.push(p);
            }
            proof {
                assert(self.players.vseq().take(i as int + 1).drop_last() =~= self.players.vseq().take(
                    i as int,
                ));
                assert(self.players.vseq().take(i as int + 1).last() == self.players.vseq()[
                    i as int
                ]);
            }
            i = i + 1;
        }
        proof {
            assert(self.players.vseq().take(n as int) =~= self.players.vseq());
        }
        out
    }

    /// Marks a player disconnected; an unknown id is refused.
    pub fn disconnect_player(&mut self, id: &str) -> (r: Result<(), String>)
        requires
            old(self).wf(),
        ensures
            final(self).wf(),
            r is Ok <==> old(self).players@.dom().contains(id@),
            r is Err ==> *final(self) == *old(self),
            r is Ok ==> {
                &&& final(self).players@.dom() == old(self).players@.dom()
                &&& !final(self).players@[id@].is_connected
                &&& final(self).players@[id@].id == old(self).players@[id@].id
                &&& final(self).players@[id@].name == old(self).players@[id@].name
                &&& forall|k: Seq<char>|
                    #[trigger] old(self).players@.dom().contains(k) && k != id@ ==> final(self).players@[k] == old(self).players@[k]
            },
    {
        let mut player = match self.players.remove(id) {
            None => {
                return Err("Player not found".to_owned());
            },
            Some(p) => p,
        };
        player.disconnect();
        self.players.insert(id.to_owned(), player);
        proof {
            assert(self.players@.dom() =~= old(self).players@.dom());
        }
        Ok(())
    }

    pub fn player_count(&self) -> (r: usize)
        requires
            self.wf(),
        ensures
            r == self.players@.dom().len(),
    {
        self.players.len()
    }

    /// How many registered players are connected.
    pub fn connected_count(&self) -> (r: usize)
        requires
            self.wf(),
        ensures
            r == spec_connected_count(self.players.vseq()),
    {
        proof {
            self.players.lemma_view();
            lemma_connected_count_bound(self.players.vseq());
            assert(self.players.vseq().take(0) =~= Seq::<Player>::empty());
        }
        let n = self.players.len();
        let mut count: usize = 0;
        let mut i: usize = 0;
        while i < n
            invariant
                i <= n,
                self.wf(),
                n == self.players.kseq().len(),
                n == self.players.vseq().len(),
                count == spec_connected_count(self.players.vseq().take(i as int)),
                count <= i,
            decreases n - i,
        {
            proof {
                assert(self.players.vseq().take(i as int + 1).drop_last() =~= self.players.vseq().take(
                    i as int,
                ));
                assert(self.players.vseq().take(i as int + 1).last() == self.players.vseq()[
                    i as int
                ]);
            }
            if self.players.value_at(i).is_connected {
                count = count + 1;
            }
            i = i + 1;
        }
        proof {
            assert(self.players.vseq().take(n as int) =~= self.players.vseq());
        }
        count
    }
}

/// A roster's connected count never exceeds its size.
proof fn lemma_connected_count_bound(ps: Seq<Player>)
    ensures
        0 <= spec_connected_count(ps) <= ps.len(),
    decreases ps.len(),
{
    if ps.len() > 0 {
        lemma_connected_count_bound(ps.drop_last());
    }
}

/// What the plain chat server can be asked.
#[derive(Debug)]
pub enum ServerMessage {
    Join { player_name: String },
    Leave { player_id: String },
    Chat { player_id: String, message: String },
    Ping,
}

/// What the plain chat server answers.
#[derive(Debug)]
pub enum ServerResponse {
    Welcome { player_id: String },
    PlayerJoined { player_name: String },
    PlayerLeft { player_name: String },
    ChatMessage { player_name: String, message: String },
    Pong,
    Error { message: String },
}

/// The answer for a request naming an unknown player.
pub fn player_not_found_error() -> (r: ServerResponse)
    ensures
        r matches ServerResponse::Error { message } && message@ == "Player not found"@,
{
    ServerResponse::Error { message: "Player not found".to_owned() }
}

/// Serves one chat-server request: joins register a fresh player and
/// welcome them, leaves hand back the name that left, chats echo under
/// the sender's name, pings pong; unknown players are refused.
pub fn handle_message(msg: ServerMessage, manager: &mut PlayerManager) -> (r: ServerResponse)
    requires
        old(manager).wf(),
    ensures
        final(manager).wf(),
        msg is Ping ==> r is Pong && *final(manager) == *old(manager),
        msg matches ServerMessage::Chat { player_id, message } ==> {
            &&& *final(manager) == *old(manager)
            &&& old(manager).players@.dom().contains(player_id@) ==> (r matches
                ServerResponse::ChatMessage { player_name, message: m } && player_name@ == old(
                manager,
            ).players@[player_id@].name@ && m == message)
            &&& !old(manager).players@.dom().contains(player_id@) ==> (r matches
                ServerResponse::Error { message: em } && em@ == "Player not found"@)
        },
        msg matches ServerMessage::Leave { player_id } ==> {
            &&& final(manager).players@ == old(manager).players@.remove(player_id@)
            &&& old(manager).players@.dom().contains(player_id@) ==> (r matches
                ServerResponse::PlayerLeft { player_name } && player_name@ == old(
                manager,
            ).players@[player_id@].name@)
            &&& !old(manager).players@.dom().contains(player_id@) ==> (r matches
                ServerResponse::Error { message: em } && em@ == "Player not found"@)
        },
        msg matches ServerMessage::Join { player_name } ==> {
            &&& (r matches ServerResponse::Welcome { player_id } ==> {
                &&& !old(manager).players@.dom().contains(player_id@)
                &&& final(manager).players@.dom().contains(player_id@)
                &&& final(manager).players@[player_id@].name@ == player_name@
                &&& final(manager).players@[player_id@].is_connected
                &&& final(manager).players@.dom() == old(manager).players@.dom().insert(
                    player_id@,
                )
                &&& forall|k: Seq<char>|
                    #[trigger] old(manager).players@.dom().contains(k) ==> final(manager).players@[k] == old(manager).players@[k]
            })
            &&& (r is Error ==> *final(manager) == *old(manager)
                && old(manager).players@.dom().len() > 0)
            &&& (old(manager).players@.dom().len() == 0 ==> r is Welcome)
            &&& (r is Welcome || r is Error)
        },
{
    match msg {
        ServerMessage::Chat { player_id, message } => {
            match manager.get_player(player_id.as_str()) {
                Some(player) => ServerResponse::ChatMessage {
                    player_name: player.name.clone(),
                    message,
                },
                None => player_not_found_error(),
            }
        },
        ServerMessage::Join { player_name } => {
            let player = Player::new(player_name.as_str());
            let player_id = player.id.clone();
            match manager.add_player(player) {
                Ok(()) => ServerResponse::Welcome { player_id },
                Err(err) => {
                    proof {
                        old(manager).players.lemma_view();
                        let j = choose|j: int|
                            0 <= j < old(manager).players.kseq().len() && old(
                                manager,
                            ).players.kseq()[j] == player_id@;
                        assert(old(manager).players@.dom().len() > 0);
                    }
                    ServerResponse::Error { message: err }
                },
            }
        },
        ServerMessage::Leave { player_id } => {
            match manager.remove_player(player_id.as_str()) {
                Some(player) => ServerResponse::PlayerLeft { player_name: player.name },
                None => player_not_found_error(),
            }
        },
        ServerMessage::Ping => ServerResponse::Pong,
    }
}

} // verus!
