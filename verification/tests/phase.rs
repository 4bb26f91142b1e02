use autoshengji::cards::{Card, Hand, Holding, Stack, Suit};
use autoshengji::phase::{
    draw_step, find_player, greeting, is_next, late_notice, play_turn, waits_for_bids, Agent,
    AgentError, AgentState, DrawTurn, Outgoing, Phase, Player, Snapshot, TrickView,
};
use autoshengji::play::{Assignment, TrickFormat};
use rand::rngs::StdRng;
use rand::SeedableRng;

const GREETING: &str =
    "Beep boop, I'm a bot! I just joined, so please give me a moment to get my bearings.";
const LATE: &str = "It looks like the game has already started. I don't know how to handle this situation yet. Disconnecting!";

fn roster() -> Vec<Player> {
    vec![
        Player { id: 4, name: String::from("ann") },
        Player { id: 7, name: String::from("autoshengji") },
        Player { id: 9, name: String::from("autoshengji") },
    ]
}

fn rng() -> StdRng {
    StdRng::seed_from_u64(42)
}

fn small_hand() -> Hand {
    Hand {
        holdings: vec![
            Holding { stack: Stack { card: Card { code: 0x1F0A3 }, count: 1 }, suit: Suit::Spades },
            Holding { stack: Stack { card: Card { code: 0x1F0A7 }, count: 2 }, suit: Suit::Spades },
            Holding { stack: Stack { card: Card { code: 0x1F0BE }, count: 1 }, suit: Suit::Hearts },
        ],
    }
}

fn trick(next_player: Option<usize>, format: Option<TrickFormat>) -> Snapshot {
    Snapshot::Play { trick: TrickView { next_player, hand: small_hand(), format } }
}

fn pair_format() -> TrickFormat {
    TrickFormat {
        suit: Suit::Spades,
        size: 2,
        matches: vec![Some(Assignment {
            units: vec![vec![Stack { card: Card { code: 0x1F0A7 }, count: 2 }]],
        })],
    }
}

fn joined() -> Agent {
    let mut agent = Agent::new(String::from("autoshengji"));
    agent.step(&Snapshot::Initialize { players: roster() }, &mut rng()).unwrap();
    agent
}

fn in_state(state: AgentState) -> Agent {
    Agent { name: String::from("autoshengji"), state }
}

#[test]
fn new_agent_is_joining() {
    let agent = Agent::new(String::from("bot"));
    assert_eq!(agent.name, "bot");
    assert_eq!(agent.state, AgentState::Joining);
    assert_eq!(agent.state.current_phase(), Phase::Initialize);
    assert_eq!(agent.state.player(), None);
}

#[test]
fn joining_agent_greets_and_signals_readiness() {
    let mut agent = Agent::new(String::from("autoshengji"));
    let sent = agent.step(&Snapshot::Initialize { players: roster() }, &mut rng()).unwrap();
    assert_eq!(sent, vec![Outgoing::Message(String::from(GREETING)), Outgoing::Ready]);
    assert_eq!(agent.state, AgentState::Initialize { me: 7 });
    assert_eq!(agent.state.player(), Some(7));
}

#[test]
fn joining_agent_missing_from_the_roster_gives_up() {
    let mut agent = Agent::new(String::from("nobody"));
    let failure = agent.step(&Snapshot::Initialize { players: roster() }, &mut rng()).unwrap_err();
    assert_eq!(failure.error, AgentError::NotInRoster);
    assert_eq!(failure.farewell, vec![Outgoing::Message(String::from(GREETING))]);
    assert_eq!(agent.state, AgentState::Joining);
}

#[test]
fn joining_a_running_game_gives_up_with_regrets() {
    for snapshot in [
        Snapshot::Draw { turn: DrawTurn::Player(7) },
        Snapshot::Exchange,
        trick(Some(7), None),
    ] {
        let mut agent = Agent::new(String::from("autoshengji"));
        let failure = agent.step(&snapshot, &mut rng()).unwrap_err();
        assert_eq!(
            failure.error,
            AgentError::UnexpectedSnapshot {
                during: Phase::Initialize,
                found: snapshot.current_phase()
            }
        );
        assert_eq!(
            failure.farewell,
            vec![
                Outgoing::Message(String::from(GREETING)),
                Outgoing::Message(String::from(LATE))
            ]
        );
        assert_eq!(agent.state, AgentState::Joining);
    }
}

#[test]
fn initialize_waits_through_repeated_snapshots() {
    let mut agent = joined();
    for _ in 0..3 {
        let sent = agent.step(&Snapshot::Initialize { players: Vec::new() }, &mut rng()).unwrap();
        assert!(sent.is_empty());
        assert_eq!(agent.state, AgentState::Initialize { me: 7 });
    }
}

#[test]
fn first_draw_snapshot_is_acted_on() {
    let mut agent = joined();
    let sent = agent.step(&Snapshot::Draw { turn: DrawTurn::Player(7) }, &mut rng()).unwrap();
    assert_eq!(sent, vec![Outgoing::DrawCard]);
    assert_eq!(agent.state, AgentState::Draw { me: 7 });
}

#[test]
fn draw_waits_for_other_players() {
    let mut agent = in_state(AgentState::Draw { me: 7 });
    let sent = agent.step(&Snapshot::Draw { turn: DrawTurn::Player(4) }, &mut rng()).unwrap();
    assert!(sent.is_empty());
    assert_eq!(agent.state, AgentState::Draw { me: 7 });
}

#[test]
fn draw_waits_while_nobody_has_bid() {
    let mut agent = in_state(AgentState::Draw { me: 7 });
    let turn = DrawTurn::Refused(String::from("nobody has bid yet"));
    let sent = agent.step(&Snapshot::Draw { turn }, &mut rng()).unwrap();
    assert!(sent.is_empty());
    assert_eq!(agent.state, AgentState::Draw { me: 7 });
}

#[test]
fn draw_gives_up_on_any_other_refusal() {
    for state in [AgentState::Initialize { me: 7 }, AgentState::Draw { me: 7 }] {
        let mut agent = in_state(state);
        let turn = DrawTurn::Refused(String::from("nobody has bid yet!"));
        let failure = agent.step(&Snapshot::Draw { turn }, &mut rng()).unwrap_err();
        assert_eq!(failure.error, AgentError::DrawFailed);
        assert!(failure.farewell.is_empty());
        assert_eq!(agent.state, state);
    }
}

#[test]
fn exchange_takes_no_action() {
    let mut agent = in_state(AgentState::Draw { me: 7 });
    assert!(agent.step(&Snapshot::Exchange, &mut rng()).unwrap().is_empty());
    assert_eq!(agent.state, AgentState::Exchange { me: 7 });
    assert!(agent.step(&Snapshot::Exchange, &mut rng()).unwrap().is_empty());
    assert_eq!(agent.state, AgentState::Exchange { me: 7 });
}

#[test]
fn first_play_snapshot_is_acted_on() {
    let mut agent = in_state(AgentState::Exchange { me: 7 });
    let sent = agent.step(&trick(Some(7), Some(pair_format())), &mut rng()).unwrap();
    assert_eq!(
        sent,
        vec![Outgoing::PlayCards(vec![Card { code: 0x1F0A7 }, Card { code: 0x1F0A7 }])]
    );
    assert_eq!(agent.state, AgentState::Play { me: 7 });
}

#[test]
fn play_leads_with_one_card_of_the_hand() {
    let mut agent = in_state(AgentState::Play { me: 7 });
    let sent = agent.step(&trick(Some(7), None), &mut rng()).unwrap();
    assert_eq!(sent.len(), 1);
    match &sent[0] {
        Outgoing::PlayCards(cards) => {
            assert_eq!(cards.len(), 1);
            assert!([0x1F0A3, 0x1F0A7, 0x1F0BE].contains(&cards[0].code));
        }
        other => panic!("unexpected message {:?}", other),
    }
}

#[test]
fn play_waits_for_others_and_for_the_next_trick() {
    let mut agent = in_state(AgentState::Play { me: 7 });
    assert!(agent.step(&trick(Some(4), Some(pair_format())), &mut rng()).unwrap().is_empty());
    assert!(agent.step(&trick(None, Some(pair_format())), &mut rng()).unwrap().is_empty());
    assert!(agent.step(&trick(None, None), &mut rng()).unwrap().is_empty());
    assert_eq!(agent.state, AgentState::Play { me: 7 });
}

#[test]
fn out_of_order_snapshots_are_fatal() {
    let snapshots = [
        Snapshot::Initialize { players: roster() },
        Snapshot::Draw { turn: DrawTurn::Player(1) },
        Snapshot::Exchange,
        trick(None, None),
    ];
    let states = [
        AgentState::Initialize { me: 7 },
        AgentState::Draw { me: 7 },
        AgentState::Exchange { me: 7 },
        AgentState::Play { me: 7 },
    ];
    for (at, state) in states.iter().enumerate() {
        for (found, snapshot) in snapshots.iter().enumerate() {
            let mut agent = in_state(*state);
            let result = agent.step(snapshot, &mut rng());
            if found == at || found == at + 1 {
                assert!(result.is_ok());
                assert_eq!(agent.state.current_phase(), snapshot.current_phase());
            } else {
                let failure = result.unwrap_err();
                assert_eq!(
                    failure.error,
                    AgentError::UnexpectedSnapshot {
                        during: state.current_phase(),
                        found: snapshot.current_phase()
                    }
                );
                assert!(failure.farewell.is_empty());
                assert_eq!(agent.state, *state);
            }
        }
    }
}

#[test]
fn phases_never_go_back_over_a_game() {
    let snapshots = vec![
        Snapshot::Initialize { players: roster() },
        Snapshot::Initialize { players: roster() },
        Snapshot::Draw { turn: DrawTurn::Refused(String::from("nobody has bid yet")) },
        Snapshot::Draw { turn: DrawTurn::Player(7) },
        Snapshot::Exchange,
        trick(Some(7), None),
        trick(Some(4), Some(pair_format())),
        Snapshot::Exchange,
        trick(Some(7), None),
    ];
    let order = |phase: Phase| match phase {
        Phase::Initialize => 0,
        Phase::Draw => 1,
        Phase::Exchange => 2,
        Phase::Play => 3,
    };
    let mut agent = Agent::new(String::from("autoshengji"));
    let mut generator = rng();
    let mut visited = Vec::new();
    for snapshot in &snapshots {
        let before = agent.state.current_phase();
        match agent.step(snapshot, &mut generator) {
            Ok(_) => {
                assert!(order(before) <= order(agent.state.current_phase()));
                visited.push(agent.state.current_phase());
            }
            Err(failure) => {
                assert_eq!(
                    failure.error,
                    AgentError::UnexpectedSnapshot { during: Phase::Play, found: Phase::Exchange }
                );
                break;
            }
        }
    }
    assert_eq!(
        visited,
        vec![
            Phase::Initialize,
            Phase::Initialize,
            Phase::Draw,
            Phase::Draw,
            Phase::Exchange,
            Phase::Play,
            Phase::Play
        ]
    );
}

#[test]
fn find_player_takes_the_first_of_that_name() {
    assert_eq!(find_player(&roster(), &String::from("autoshengji")), Some(7));
    assert_eq!(find_player(&roster(), &String::from("ann")), Some(4));
    assert_eq!(find_player(&roster(), &String::from("Ann")), None);
    assert_eq!(find_player(&Vec::new(), &String::from("ann")), None);
}

#[test]
fn notices_have_their_words() {
    assert_eq!(greeting(), GREETING);
    assert_eq!(late_notice(), LATE);
}

#[test]
fn only_the_exact_words_wait_for_bids() {
    assert!(waits_for_bids(&String::from("nobody has bid yet")));
    assert!(!waits_for_bids(&String::from("Nobody has bid yet")));
    assert!(!waits_for_bids(&String::new()));
}

#[test]
fn draw_step_draws_only_on_its_turn() {
    assert_eq!(draw_step(3, &DrawTurn::Player(3)), Ok(vec![Outgoing::DrawCard]));
    assert_eq!(draw_step(3, &DrawTurn::Player(2)), Ok(Vec::new()));
    assert_eq!(
        draw_step(3, &DrawTurn::Refused(String::from("nobody has bid yet"))),
        Ok(Vec::new())
    );
    assert_eq!(
        draw_step(3, &DrawTurn::Refused(String::from("not your turn"))),
        Err(AgentError::DrawFailed)
    );
}

#[test]
fn play_turn_with_an_empty_hand_leads_nothing() {
    let view = TrickView { next_player: Some(1), hand: Hand { holdings: Vec::new() }, format: None };
    assert!(play_turn(&view, &mut rng()).is_empty());
}

#[test]
fn trick_step_plays_only_on_its_turn() {
    let view = TrickView { next_player: Some(2), hand: small_hand(), format: Some(pair_format()) };
    assert!(Agent::trick_step(1, &view, &mut rng()).is_empty());
    assert_eq!(
        Agent::trick_step(2, &view, &mut rng()),
        vec![Outgoing::PlayCards(vec![Card { code: 0x1F0A7 }, Card { code: 0x1F0A7 }])]
    );
}

#[test]
fn snapshot_phases_are_told_apart() {
    assert_eq!(Snapshot::Initialize { players: Vec::new() }.current_phase(), Phase::Initialize);
    assert_eq!(Snapshot::Draw { turn: DrawTurn::Player(0) }.current_phase(), Phase::Draw);
    assert_eq!(Snapshot::Exchange.current_phase(), Phase::Exchange);
    assert_eq!(trick(None, None).current_phase(), Phase::Play);
}

#[test]
fn agent_acts_next_only_as_the_named_player() {
    assert!(AgentState::Play { me: 3 }.acts_next(Some(3)));
    assert!(AgentState::Draw { me: 3 }.acts_next(Some(3)));
    assert!(!AgentState::Play { me: 3 }.acts_next(Some(4)));
    assert!(!AgentState::Play { me: 3 }.acts_next(None));
    assert!(!AgentState::Joining.acts_next(Some(0)));
    assert!(!AgentState::Joining.acts_next(None));
    assert!(is_next(2, Some(2)));
    assert!(!is_next(2, Some(1)));
    assert!(!is_next(2, None));
}

#[test]
fn step_shows_the_single_suited_card() {
    let hand = Hand {
        holdings: vec![
            Holding { stack: Stack { card: Card { code: 0x1F0A3 }, count: 1 }, suit: Suit::Spades },
            Holding { stack: Stack { card: Card { code: 0x1F0BE }, count: 2 }, suit: Suit::Hearts },
        ],
    };
    let king_pair = Some(Assignment {
        units: vec![vec![Stack { card: Card { code: 0x1F0BE }, count: 2 }]],
    });
    for matches in [vec![None], vec![king_pair]] {
        let format = TrickFormat { suit: Suit::Spades, size: 2, matches };
        let snapshot = Snapshot::Play {
            trick: TrickView { next_player: Some(7), hand: hand.clone(), format: Some(format) },
        };
        let mut agent = in_state(AgentState::Play { me: 7 });
        let sent = agent.step(&snapshot, &mut rng()).unwrap();
        assert_eq!(
            sent,
            vec![Outgoing::PlayCards(vec![Card { code: 0x1F0A3 }, Card { code: 0x1F0BE }])]
        );
    }
}
