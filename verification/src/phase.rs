//! The phase controller: what the agent does on each snapshot the server pushes,
//! and how its phase follows the server's.

use crate::cards::{Card, Hand};
use crate::play::{follow_trick, lead_trick, TrickFormat};
use rand::rngs::StdRng;
use vstd::prelude::*;
use vstd::string::*;

verus! {

/// The phases of a game, in the order the server goes through them.
#[derive(Clone, Copy, Debug, PartialEq, Eq, Hash, Structural)]
pub enum Phase {
    Initialize,
    Draw,
    Exchange,
    Play,
}

/// A player of the roster. The server assigns `id`; the agent only reads it.
#[derive(Clone, Debug, PartialEq, Eq)]
pub struct Player {
    pub id: usize,
    pub name: String,
}

/// What the agent reads of the current trick: who acts next (nobody once the
/// trick is won and not yet cleared), the agent's hand, and the format the
/// leading play set, if there is a leading play. The hand and the format are read
/// only where the agent is the next to act, which `AgentState::acts_next` tells:
/// whoever fills in the view may leave them empty otherwise.
#[derive(Clone, Debug, PartialEq, Eq)]
pub struct TrickView {
    pub next_player: Option<usize>,
    pub hand: Hand,
    pub format: Option<TrickFormat>,
}

/// The rule engine's answer to who draws next: a player, or the words of its
/// refusal.
#[derive(Clone, Debug, PartialEq, Eq)]
pub enum DrawTurn {
    Player(usize),
    Refused(String),
}

/// A snapshot of the game, as far as the agent reads it.
#[derive(Clone, Debug, PartialEq, Eq)]
pub enum Snapshot {
    Initialize { players: Vec<Player> },
    Draw { turn: DrawTurn },
    Exchange,
    Play { trick: TrickView },
}

/// A message for the server.
#[derive(Clone, Debug, PartialEq, Eq)]
pub enum Outgoing {
    Ready,
    DrawCard,
    PlayCards(Vec<Card>),
    Message(String),
}

/// A message for the server, as a value of specifications.
pub enum OutgoingView {
    Ready,
    DrawCard,
    PlayCards(Seq<Card>),
    Message(Seq<char>),
}

/// Where the agent stands. Before the first snapshot it is `Joining`; from then on
/// it knows which player of the roster it is.
#[derive(Clone, Copy, Debug, PartialEq, Eq, Structural)]
pub enum AgentState {
    Joining,
    Initialize { me: usize },
    Draw { me: usize },
    Exchange { me: usize },
    Play { me: usize },
}

/// Why the agent gives up.
#[derive(Clone, Copy, Debug, PartialEq, Eq, Structural)]
pub enum AgentError {
    /// No player of the roster has the agent's name.
    NotInRoster,
    /// The snapshot is of a phase that cannot follow the agent's phase.
    UnexpectedSnapshot { during: Phase, found: Phase },
    /// The rule engine could not say who draws next, and not for want of bids.
    DrawFailed,
}

/// The end of the agent: the reason, and what it still sends before it leaves.
#[derive(Clone, Debug, PartialEq, Eq)]
pub struct Failure {
    pub error: AgentError,
    pub farewell: Vec<Outgoing>,
}

/// The agent: its name, by which it finds itself in the roster, and its state.
#[derive(Clone, Debug, PartialEq, Eq)]
pub struct Agent {
    pub name: String,
    pub state: AgentState,
}

impl View for Outgoing {
    type V = OutgoingView;

    open spec fn view(&self) -> OutgoingView {
        match self {
            Outgoing::Ready => OutgoingView::Ready,
            Outgoing::DrawCard => OutgoingView::DrawCard,
            Outgoing::PlayCards(cards) => OutgoingView::PlayCards(cards@),
            Outgoing::Message(text) => OutgoingView::Message(text@),
        }
    }
}

/// The messages of `sent`, as values of specifications.
pub open spec fn views(sent: Seq<Outgoing>) -> Seq<OutgoingView> {
    sent.map_values(|message: Outgoing| message@)
}

/// The place of a phase in the order of the game.
pub open spec fn rank(phase: Phase) -> nat {
    match phase {
        Phase::Initialize => 0,
        Phase::Draw => 1,
        Phase::Exchange => 2,
        Phase::Play => 3,
    }
}

/// What the agent says when it has joined.
pub open spec fn greeting_text() -> Seq<char> {
    "Beep boop, I'm a bot! I just joined, so please give me a moment to get my bearings."@
}

/// What the agent says when it finds the game under way.
pub open spec fn late_text() -> Seq<char> {
    "It looks like the game has already started. I don't know how to handle this situation yet. Disconnecting!"@
}

/// The rule engine's words when nobody has bid yet and so nobody draws.
pub open spec fn no_bids_text() -> Seq<char> {
    "nobody has bid yet"@
}

/// The id of the first player of the roster whose name is `name`.
pub open spec fn roster_id(players: Seq<Player>, name: Seq<char>) -> Option<usize>
    decreases players.len(),
{
    if players.len() == 0 {
        None
    } else if players.first().name@ == name {
        Some(players.first().id)
    } else {
        roster_id(players.drop_first(), name)
    }
}

impl Snapshot {
    /// The phase the snapshot is of.
    pub open spec fn phase(&self) -> Phase {
        match self {
            Snapshot::Initialize { .. } => Phase::Initialize,
            Snapshot::Draw { .. } => Phase::Draw,
            Snapshot::Exchange => Phase::Exchange,
            Snapshot::Play { .. } => Phase::Play,
        }
    }

    pub fn current_phase(&self) -> (phase: Phase)
        ensures
            phase == self.phase(),
    {
        match self {
            Snapshot::Initialize { .. } => Phase::Initialize,
            Snapshot::Draw { .. } => Phase::Draw,
            Snapshot::Exchange => Phase::Exchange,
            Snapshot::Play { .. } => Phase::Play,
        }
    }
}

impl AgentState {
    /// The phase the agent is in. An agent that is still joining is in the first.
    pub open spec fn phase(&self) -> Phase {
        match self {
            AgentState::Joining => Phase::Initialize,
            AgentState::Initialize { .. } => Phase::Initialize,
            AgentState::Draw { .. } => Phase::Draw,
            AgentState::Exchange { .. } => Phase::Exchange,
            AgentState::Play { .. } => Phase::Play,
        }
    }

    /// Which player the agent is, once it knows.
    pub open spec fn me(&self) -> Option<usize> {
        match self {
            AgentState::Joining => None,
            AgentState::Initialize { me } => Some(*me),
            AgentState::Draw { me } => Some(*me),
            AgentState::Exchange { me } => Some(*me),
            AgentState::Play { me } => Some(*me),
        }
    }

    pub fn current_phase(&self) -> (phase: Phase)
        ensures
            phase == self.phase(),
    {
        match self {
            AgentState::Joining => Phase::Initialize,
            AgentState::Initialize { .. } => Phase::Initialize,
            AgentState::Draw { .. } => Phase::Draw,
            AgentState::Exchange { .. } => Phase::Exchange,
            AgentState::Play { .. } => Phase::Play,
        }
    }

    /// Whether the agent is the player who acts next.
    pub fn acts_next(&self, next_player: Option<usize>) -> (next: bool)
        ensures
            next == (self.me() is Some && next_player == self.me()),
    {
        match self.player() {
            Some(me) => is_next(me, next_player),
            None => false,
        }
    }

    pub fn player(&self) -> (me: Option<usize>)
        ensures
            me == self.me(),
    {
        match self {
            AgentState::Joining => None,
            AgentState::Initialize { me } => Some(*me),
            AgentState::Draw { me } => Some(*me),
            AgentState::Exchange { me } => Some(*me),
            AgentState::Play { me } => Some(*me),
        }
    }
}

/// The state after a draw snapshot: the draw phase, unless the rule engine
/// refused to name the next player for another reason than that nobody has bid.
pub open spec fn after_draw(me: usize, turn: DrawTurn) -> Result<AgentState, AgentError> {
    match turn {
        DrawTurn::Player(_) => Ok(AgentState::Draw { me }),
        DrawTurn::Refused(words) => if words@ == no_bids_text() {
            Ok(AgentState::Draw { me })
        } else {
            Err(AgentError::DrawFailed)
        },
    }
}

/// The state the agent named `name` is in after `snapshot`, or why it gives up.
/// From each phase the agent goes on to the snapshot's phase if that is the same
/// phase or the next; every other snapshot is fatal. An agent that is joining
/// needs a snapshot of the first phase with its name in the roster.
pub open spec fn next_state(name: Seq<char>, state: AgentState, snapshot: Snapshot) -> Result<
    AgentState,
    AgentError,
> {
    let unexpected = Err(
        AgentError::UnexpectedSnapshot { during: state.phase(), found: snapshot.phase() },
    );
    match state {
        AgentState::Joining => match snapshot {
            Snapshot::Initialize { players } => match roster_id(players@, name) {
                Some(me) => Ok(AgentState::Initialize { me }),
                None => Err(AgentError::NotInRoster),
            },
            _ => unexpected,
        },
        AgentState::Initialize { me } => match snapshot {
            Snapshot::Initialize { .. } => Ok(state),
            Snapshot::Draw { turn } => after_draw(me, turn),
            _ => unexpected,
        },
        AgentState::Draw { me } => match snapshot {
            Snapshot::Draw { turn } => after_draw(me, turn),
            Snapshot::Exchange => Ok(AgentState::Exchange { me }),
            _ => unexpected,
        },
        AgentState::Exchange { me } => match snapshot {
            Snapshot::Exchange => Ok(state),
            Snapshot::Play { .. } => Ok(AgentState::Play { me }),
            _ => unexpected,
        },
        AgentState::Play { me } => match snapshot {
            Snapshot::Play { .. } => Ok(state),
            _ => unexpected,
        },
    }
}

/// Whether player `me` is the one who acts next.
pub fn is_next(me: usize, next_player: Option<usize>) -> (next: bool)
    ensures
        next == (next_player == Some(me)),
{
    match next_player {
        Some(player) => player == me,
        None => false,
    }
}

/// Whether the snapshot asks the agent for cards: it is of the play phase, and
/// the agent is the next to act in the trick.
pub open spec fn my_turn(state: AgentState, snapshot: Snapshot) -> bool {
    snapshot matches Snapshot::Play { trick } && state.me() is Some && trick.next_player
        == state.me()
}

/// What the agent sends on a snapshot that it accepts and that does not ask it
/// for cards: the greeting and its readiness when it finds itself in the roster,
/// a draw when it is the next to draw, and nothing otherwise.
pub open spec fn fixed_sends(state: AgentState, snapshot: Snapshot) -> Seq<OutgoingView> {
    match state {
        AgentState::Joining => seq![OutgoingView::Message(greeting_text()), OutgoingView::Ready],
        _ => match snapshot {
            Snapshot::Draw { turn } => if turn matches DrawTurn::Player(next) && Some(next)
                == state.me() {
                seq![OutgoingView::DrawCard]
            } else {
                Seq::empty()
            },
            _ => Seq::empty(),
        },
    }
}

/// What the agent sends when it is asked for cards: leading, one card of its
/// hand, or nothing from an empty hand; following, a following play for the
/// trick's format.
pub open spec fn is_turn_play(trick: TrickView, sent: Seq<OutgoingView>) -> bool {
    match trick.format {
        None => if trick.hand.cards().len() == 0 {
            sent.len() == 0
        } else {
            sent.len() == 1 && (sent[0] matches OutgoingView::PlayCards(cards) && cards.len() == 1
                && trick.hand.cards().contains(cards[0]))
        },
        Some(format) => sent.len() == 1 && (sent[0] matches OutgoingView::PlayCards(cards)
            && format.admits(trick.hand, cards) && format.keeps_rules(trick.hand, cards)),
    }
}

/// What the agent still sends when it gives up: while joining, its greeting, and
/// its regrets if the game is under way; later, nothing.
pub open spec fn farewell(state: AgentState, snapshot: Snapshot) -> Seq<OutgoingView> {
    match state {
        AgentState::Joining => match snapshot {
            Snapshot::Initialize { .. } => seq![OutgoingView::Message(greeting_text())],
            _ => seq![
                OutgoingView::Message(greeting_text()),
                OutgoingView::Message(late_text()),
            ],
        },
        _ => Seq::empty(),
    }
}

/// The id of the first player of the roster whose name is `name`.
pub fn find_player(players: &Vec<Player>, name: &String) -> (found: Option<usize>)
    ensures
        found == roster_id(players@, name@),
{
    let mut i: usize = 0;
    assert(players@.skip(0) =~= players@);
    while i < players.len()
        invariant
            i <= players.len(),
            roster_id(players@, name@) == roster_id(players@.skip(i as int), name@),
        decreases players.len() - i,
    {
        assert(players@.skip(i as int).first() == players@[i as int]);
        assert(players@.skip(i as int).drop_first() =~= players@.skip(i + 1));
        if players[i].name == *name {
            return Some(players[i].id);
        }
        i = i + 1;
    }
    assert(players@.skip(i as int).len() == 0);
    None
}

/// The agent's greeting.
pub fn greeting() -> (text: String)
    ensures
        text@ == greeting_text(),
{
    String::from_str(
        "Beep boop, I'm a bot! I just joined, so please give me a moment to get my bearings.",
    )
}

/// The agent's regrets on finding the game under way.
pub fn late_notice() -> (text: String)
    ensures
        text@ == late_text(),
{
    String::from_str(
        "It looks like the game has already started. I don't know how to handle this situation yet. Disconnecting!",
    )
}

/// Whether the rule engine's refusal only says that nobody has bid yet.
pub fn waits_for_bids(words: &String) -> (waits: bool)
    ensures
        waits == (words@ == no_bids_text()),
{
    let expected = String::from_str("nobody has bid yet");
    *words == expected
}

/// What the agent, being player `me`, does on a draw snapshot: it draws when it
/// is the next to draw, waits when another player is or when nobody has bid yet,
/// and gives up on any other refusal of the rule engine.
pub fn draw_step(me: usize, turn: &DrawTurn) -> (result: Result<
    Vec<Outgoing>,
    AgentError,
>)
    ensures
        result is Ok <==> after_draw(me, *turn) is Ok,
        result matches Ok(sent) ==> views(sent@) == fixed_sends(
            AgentState::Draw { me },
            Snapshot::Draw { turn: *turn },
        ),
        result matches Err(error) ==> after_draw(me, *turn) == Err::<AgentState, AgentError>(
            error,
        ),
{
    let mut sent: Vec<Outgoing> = Vec::new();
    match turn {
        DrawTurn::Player(next) => {
            if *next == me {
                sent.push(Outgoing::DrawCard);
                assert(views(sent@) =~= seq![OutgoingView::DrawCard]);
            } else {
                assert(views(sent@) =~= Seq::empty());
            }
            Ok(sent)
        },
        DrawTurn::Refused(words) => {
            if waits_for_bids(words) {
                assert(views(sent@) =~= Seq::empty());
                Ok(sent)
            } else {
                Err(AgentError::DrawFailed)
            }
        },
    }
}

/// The cards the agent plays when it is its turn in the trick.
pub fn play_turn(trick: &TrickView, rng: &mut StdRng) -> (sent: Vec<Outgoing>)
    ensures
        is_turn_play(*trick, views(sent@)),
{
    let mut sent: Vec<Outgoing> = Vec::new();
    match &trick.format {
        None => {
            match lead_trick(&trick.hand, rng) {
                Some(card) => {
                    let mut cards: Vec<Card> = Vec::new();
                    cards.push(card);
                    sent.push(Outgoing::PlayCards(cards));
                    assert(views(sent@)[0] == OutgoingView::PlayCards(cards@));
                },
                None => {},
            }
        },
        Some(format) => {
            let cards = follow_trick(&trick.hand, format, rng);
            sent.push(Outgoing::PlayCards(cards));
            assert(views(sent@)[0] == OutgoingView::PlayCards(cards@));
        },
    }
    sent
}

impl Agent {
    /// An agent of that name that has not seen a snapshot yet.
    pub fn new(name: String) -> (agent: Agent)
        ensures
            agent.name@ == name@,
            agent.state == AgentState::Joining,
    {
        Agent { name, state: AgentState::Joining }
    }

    /// Takes the next snapshot. The agent moves to the state that `next_state`
    /// gives and returns what it sends: on its turn in a trick the cards it plays,
    /// otherwise what `fixed_sends` lists. Where `next_state` gives an error the
    /// agent stays as it is and returns the error with its farewell.
    pub fn step(&mut self, snapshot: &Snapshot, rng: &mut StdRng) -> (result: Result<
        Vec<Outgoing>,
        Failure,
    >)
        ensures
            final(self).name@ == old(self).name@,
            match next_state(old(self).name@, old(self).state, *snapshot) {
                Ok(state) => final(self).state == state && (result matches Ok(sent) && (if my_turn(
                    state,
                    *snapshot,
                ) {
                    is_turn_play(snapshot->trick, views(sent@))
                } else {
                    views(sent@) == fixed_sends(old(self).state, *snapshot)
                })),
                Err(error) => final(self).state == old(self).state && (result matches Err(failure)
                    && failure.error == error && views(failure.farewell@) == farewell(
                    old(self).state,
                    *snapshot,
                )),
            },
    {
        let unexpected = AgentError::UnexpectedSnapshot {
            during: self.state.current_phase(),
            found: snapshot.current_phase(),
        };
        let mut sent: Vec<Outgoing> = Vec::new();
        match self.state {
            AgentState::Joining => {
                sent.push(Outgoing::Message(greeting()));
                match snapshot {
                    Snapshot::Initialize { players } => {
                        match find_player(players, &self.name) {
                            Some(me) => {
                                sent.push(Outgoing::Ready);
                                self.state = AgentState::Initialize { me };
                                assert(views(sent@) =~= fixed_sends(old(self).state, *snapshot));
                                Ok(sent)
                            },
                            None => {
                                assert(views(sent@) =~= farewell(old(self).state, *snapshot));
                                Err(Failure { error: AgentError::NotInRoster, farewell: sent })
                            },
                        }
                    },
                    _ => {
                        sent.push(Outgoing::Message(late_notice()));
                        assert(views(sent@) =~= farewell(old(self).state, *snapshot));
                        Err(Failure { error: unexpected, farewell: sent })
                    },
                }
            },
            AgentState::Initialize { me } => {
                match snapshot {
                    Snapshot::Initialize { .. } => {
                        assert(views(sent@) =~= Seq::empty());
                        Ok(sent)
                    },
                    Snapshot::Draw { turn } => {
                        match draw_step(me, turn) {
                            Ok(drawn) => {
                                self.state = AgentState::Draw { me };
                                Ok(drawn)
                            },
                            Err(error) => {
                                assert(views(sent@) =~= Seq::empty());
                                Err(Failure { error, farewell: sent })
                            },
                        }
                    },
                    _ => {
                        assert(views(sent@) =~= Seq::empty());
                        Err(Failure { error: unexpected, farewell: sent })
                    },
                }
            },
            AgentState::Draw { me } => {
                match snapshot {
                    Snapshot::Draw { turn } => {
                        match draw_step(me, turn) {
                            Ok(drawn) => Ok(drawn),
                            Err(error) => {
                                assert(views(sent@) =~= Seq::empty());
                                Err(Failure { error, farewell: sent })
                            },
                        }
                    },
                    Snapshot::Exchange => {
                        self.state = AgentState::Exchange { me };
                        assert(views(sent@) =~= Seq::empty());
                        Ok(sent)
                    },
                    _ => {
                        assert(views(sent@) =~= Seq::empty());
                        Err(Failure { error: unexpected, farewell: sent })
                    },
                }
            },
            AgentState::Exchange { me } => {
                match snapshot {
                    Snapshot::Exchange => {
                        assert(views(sent@) =~= Seq::empty());
                        Ok(sent)
                    },
                    Snapshot::Play { trick } => {
                        self.state = AgentState::Play { me };
                        Ok(Self::trick_step(me, trick, rng))
                    },
                    _ => {
                        assert(views(sent@) =~= Seq::empty());
                        Err(Failure { error: unexpected, farewell: sent })
                    },
                }
            },
            AgentState::Play { me } => {
                match snapshot {
                    Snapshot::Play { trick } => Ok(Self::trick_step(me, trick, rng)),
                    _ => {
                        assert(views(sent@) =~= Seq::empty());
                        Err(Failure { error: unexpected, farewell: sent })
                    },
                }
            },
        }
    }

    /// What the agent, being player `me`, sends on a snapshot of the play phase:
    /// its cards when it is the next to act, and nothing when another player is,
    /// or when the trick is won and waits to be cleared.
    pub fn trick_step(me: usize, trick: &TrickView, rng: &mut StdRng) -> (sent: Vec<Outgoing>)
        ensures
            if trick.next_player == Some(me) {
                is_turn_play(*trick, views(sent@))
            } else {
                views(sent@) == Seq::<OutgoingView>::empty()
            },
    {
        if is_next(me, trick.next_player) {
            return play_turn(trick, rng);
        }
        let sent: Vec<Outgoing> = Vec::new();
        assert(views(sent@) =~= Seq::empty());
        sent
    }
}

} // verus!
