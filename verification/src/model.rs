//! The game's data: games, players, rounds, cards, packs and the events that
//! a game produces, with the in-memory projection of a game.

use vstd::prelude::*;

verus! {

/// Life-cycle of a game.
#[derive(Debug, Clone, Copy, PartialEq, Eq, Structural)]
pub enum GameStatus {
    Lobby,
    Playing,
    Finished,
}

/// Which kind of card is the prompt and which kind the players answer with.
#[derive(Debug, Clone, Copy, PartialEq, Eq, Structural)]
pub enum GameMode {
    SituationToMeme,
    MemeToSituation,
}

/// Phase of a round.
#[derive(Debug, Clone, Copy, PartialEq, Eq, Structural)]
pub enum RoundPhase {
    Waiting,
    Submitting,
    Voting,
    Finished,
}

/// How explicit the content of a pack is.
#[derive(Debug, Clone, Copy, PartialEq, Eq, Structural)]
pub enum ContentSafetyLevel {
    FamilyFriendly,
    Spicy,
    Explicit,
}

/// A card as shown to a client.
#[derive(Debug, PartialEq, Eq)]
pub enum GameCard {
    Meme { id: u128, media_url: String },
    Situation { id: u128, prompt_text: String },
}

/// A card as stored: a meme refers to a media asset, a situation holds its text.
#[derive(Debug)]
pub enum RawGameCard {
    Meme { id: u128, media_id: Option<i64> },
    Situation { id: u128, prompt_text: String },
}

/// A card in a player's hand.
#[derive(Debug, Clone, Copy)]
pub struct GamePlayerHandCard {
    pub id: u128,
    pub game_id: u128,
    pub user_id: u128,
    pub meme_id: Option<u128>,
    pub situation_id: Option<u128>,
    pub is_used: bool,
}

/// A hand card joined with what it shows.
#[derive(Debug)]
pub struct GamePlayerHandCardWithMedia {
    pub id: u128,
    pub kind: String,
    pub media_id: Option<i64>,
    pub text: Option<String>,
}

/// A game as stored.
#[derive(Debug, Clone, Copy)]
pub struct Game {
    pub id: u128,
    pub host_id: u128,
    pub mode: GameMode,
    pub status: GameStatus,
    /// Maximum number of rounds before the game ends.
    pub max_rounds: i32,
    pub hand_size: i32,
    pub submit_time_limit: i32,
    pub vote_time_limit: i32,
    /// Index of the current round (0 = none started yet).
    pub current_round: i32,
    pub version: i64,
    pub started_at: Option<i64>,
    pub finished_at: Option<i64>,
    pub created_at: i64,
}

/// A player of a game.
#[derive(Debug)]
pub struct GamePlayer {
    pub game_id: u128,
    pub user_id: u128,
    pub score: i32,
    pub is_ready: bool,
    pub handle: String,
    pub joined_at: i64,
}

/// A lobby open for joining, with its player count.
#[derive(Debug, Clone, Copy)]
pub struct ActiveGame {
    pub id: u128,
    pub host_id: u128,
    pub mode: GameMode,
    pub max_rounds: i32,
    pub hand_size: i32,
    pub players_count: i32,
    pub created_at: i64,
}

/// A player together with whether they have answered the current round.
#[derive(Debug)]
pub struct PlayerSubmissionState {
    pub user_id: u128,
    pub score: i32,
    pub is_ready: bool,
    pub handle: String,
    pub has_submitted: bool,
}

/// A round as stored.
#[derive(Debug, Clone, Copy)]
pub struct GameRound {
    pub id: u128,
    pub game_id: u128,
    pub round_number: i32,
    pub prompt_situation_id: Option<u128>,
    pub prompt_meme_id: Option<u128>,
    pub phase: RoundPhase,
    pub winner_user_id: Option<u128>,
    pub phase_expires_at: Option<i64>,
    pub claimed_at: Option<i64>,
    pub claimed_by: Option<u128>,
    pub created_at: i64,
}

/// A card a player has played in a round.
#[derive(Debug, Clone, Copy)]
pub struct RoundSubmission {
    pub id: u128,
    pub round_id: u128,
    pub user_id: u128,
    pub submission_meme_id: Option<u128>,
    pub submission_situation_id: Option<u128>,
    pub submitted_at: i64,
}

/// A vote cast in a round.
#[derive(Debug, Clone, Copy)]
pub struct RoundVote {
    pub round_id: u128,
    pub voter_id: u128,
    pub submission_id: u128,
    pub created_at: i64,
}

/// A pack of memes.
#[derive(Debug)]
pub struct MemePack {
    pub id: u128,
    pub author_id: u128,
    pub name: String,
    pub description: Option<String>,
    pub language_code: String,
    pub safety_level: ContentSafetyLevel,
    pub is_public: bool,
    pub created_at: i64,
}

/// A meme of a pack.
#[derive(Debug, Clone, Copy)]
pub struct PackMeme {
    pub id: u128,
    pub pack_id: u128,
    pub media_id: Option<i64>,
}

/// A meme of a pack with the address of its image.
#[derive(Debug)]
pub struct PackMemeDetails {
    pub id: u128,
    pub pack_id: u128,
    pub media_id: Option<i64>,
    pub media_url: String,
}

/// A pack of situations.
#[derive(Debug)]
pub struct SituationPack {
    pub id: u128,
    pub author_id: u128,
    pub name: String,
    pub description: Option<String>,
    pub language_code: String,
    pub safety_level: ContentSafetyLevel,
    pub is_public: bool,
    pub created_at: i64,
}

/// A situation of a pack.
#[derive(Debug)]
pub struct PackSituation {
    pub id: u128,
    pub pack_id: u128,
    pub prompt_text: String,
}

/// The domain events of a game's life.
#[derive(Debug)]
pub enum GameEvent {
    VoteRegistered { round_id: u128, voter_id: u128 },
    RoundFinished {
        round_id: u128,
        winner_user_id: Option<u128>,
        /// Per-player (user, total score) after the round.
        scores: Vec<(u128, i32)>,
        /// Per-player (user, votes received) in this round.
        round_scores: Vec<(u128, i32)>,
    },
    GameFinished { final_scores: Vec<(u128, i32)> },
}

impl GameEvent {
    /// The name under which the event is stored.
    pub fn event_type(&self) -> (s: &'static str)
        ensures
            s@ == event_type_name(*self),
    {
        match self {
            GameEvent::VoteRegistered { .. } => "VoteRegistered",
            GameEvent::RoundFinished { .. } => "RoundFinished",
            GameEvent::GameFinished { .. } => "GameFinished",
        }
    }
}

/// The stored name of each kind of event.
pub open spec fn event_type_name(e: GameEvent) -> Seq<char> {
    match e {
        GameEvent::VoteRegistered { .. } => "VoteRegistered"@,
        GameEvent::RoundFinished { .. } => "RoundFinished"@,
        GameEvent::GameFinished { .. } => "GameFinished"@,
    }
}

/// In-memory projection of a game, advanced by its events.
#[derive(Debug, Clone, Copy)]
pub struct GameAggregate {
    pub id: u128,
    pub status: GameStatus,
    pub max_rounds: i32,
    pub current_round: i32,
    /// The committed version, used for optimistic concurrency.
    pub version: i64,
}

/// One event applied to the projection: every event advances the version,
/// a finished round advances the round, a finished game marks it finished.
pub open spec fn apply_event(a: GameAggregate, e: GameEvent) -> GameAggregate {
    let bumped = GameAggregate { version: (a.version + 1) as i64, ..a };
    match e {
        GameEvent::RoundFinished { .. } => GameAggregate {
            current_round: (a.current_round + 1) as i32,
            ..bumped
        },
        GameEvent::GameFinished { .. } => GameAggregate { status: GameStatus::Finished, ..bumped },
        GameEvent::VoteRegistered { .. } => bumped,
    }
}

/// The events applied in order.
pub open spec fn apply_all(a: GameAggregate, events: Seq<GameEvent>) -> GameAggregate
    decreases events.len(),
{
    if events.len() == 0 {
        a
    } else {
        apply_event(apply_all(a, events.drop_last()), events.last())
    }
}

/// How many rounds the events finish.
pub open spec fn rounds_finished(events: Seq<GameEvent>) -> nat
    decreases events.len(),
{
    if events.len() == 0 {
        0
    } else {
        rounds_finished(events.drop_last()) + if events.last() is RoundFinished {
            1nat
        } else {
            0nat
        }
    }
}

/// Whether one of the events finishes the game.
pub open spec fn finishes_game(events: Seq<GameEvent>) -> bool {
    exists|i: int| 0 <= i < events.len() && #[trigger] events[i] is GameFinished
}

/// The projection after the events, in closed form, when nothing overflows.
pub proof fn lemma_apply_all_closed_form(a: GameAggregate, events: Seq<GameEvent>)
    requires
        a.version + events.len() <= i64::MAX,
        a.current_round + rounds_finished(events) <= i32::MAX,
    ensures
        apply_all(a, events).version == a.version + events.len(),
        apply_all(a, events).current_round == a.current_round + rounds_finished(events),
        apply_all(a, events).status == if finishes_game(events) {
            GameStatus::Finished
        } else {
            a.status
        },
        apply_all(a, events).id == a.id,
        apply_all(a, events).max_rounds == a.max_rounds,
    decreases events.len(),
{
    if events.len() > 0 {
        let init = events.drop_last();
        lemma_apply_all_closed_form(a, init);
        assert(finishes_game(events) == (finishes_game(init) || events.last() is GameFinished)) by {
            if finishes_game(events) {
                let i = choose|i: int| 0 <= i < events.len() && #[trigger] events[i] is GameFinished;
                if i < init.len() {
                    assert(init[i] is GameFinished);
                }
            }
            if finishes_game(init) {
                let i = choose|i: int| 0 <= i < init.len() && #[trigger] init[i] is GameFinished;
                assert(events[i] is GameFinished);
            }
            if events.last() is GameFinished {
                assert(events[events.len() - 1] is GameFinished);
            }
        }
    }
}

/// Applying no events leaves the projection as it is.
pub proof fn lemma_apply_no_events(a: GameAggregate)
    ensures
        apply_all(a, Seq::<GameEvent>::empty()) == a,
{
}

/// Applying two batches of events one after the other is applying them at once.
pub proof fn lemma_apply_all_split(a: GameAggregate, first: Seq<GameEvent>, second: Seq<GameEvent>)
    ensures
        apply_all(apply_all(a, first), second) == apply_all(a, first + second),
    decreases second.len(),
{
    if second.len() == 0 {
        assert(first + second =~= first);
    } else {
        lemma_apply_all_split(a, first, second.drop_last());
        assert((first + second).drop_last() =~= first + second.drop_last());
        assert((first + second).last() == second.last());
    }
}

/// Whether folding the events onto `a` stays within the counters' ranges:
/// the version and the round can take one more for each event that adds to
/// them.
pub open spec fn folds_within_limits(a: GameAggregate, events: Seq<GameEvent>) -> bool {
    &&& a.version + events.len() <= i64::MAX
    &&& a.current_round + rounds_finished(events) <= i32::MAX
}

proof fn lemma_rounds_finished_concat(first: Seq<GameEvent>, second: Seq<GameEvent>)
    ensures
        rounds_finished(first + second) == rounds_finished(first) + rounds_finished(second),
    decreases second.len(),
{
    if second.len() == 0 {
        assert(first + second =~= first);
    } else {
        lemma_rounds_finished_concat(first, second.drop_last());
        assert((first + second).drop_last() =~= first + second.drop_last());
        assert((first + second).last() == second.last());
    }
}

/// Folding events in two batches is folding them at once, and folding no
/// events changes nothing; what `apply_events` accepts at once it accepts in
/// two batches one after the other, and the other way round.
pub proof fn lemma_apply_events_in_two_batches(a: GameAggregate, first: Seq<GameEvent>, second: Seq<GameEvent>)
    ensures
        apply_all(apply_all(a, first), second) == apply_all(a, first + second),
        apply_all(a, Seq::<GameEvent>::empty()) == a,
        folds_within_limits(a, first + second) <==> (folds_within_limits(a, first) && folds_within_limits(
            apply_all(a, first),
            second,
        )),
{
    lemma_apply_all_split(a, first, second);
    lemma_rounds_finished_concat(first, second);
    if folds_within_limits(a, first) {
        lemma_apply_all_closed_form(a, first);
    }
}

impl GameAggregate {
    /// The projection of a stored game.
    pub open spec fn from_game_spec(game: Game) -> GameAggregate {
        GameAggregate {
            id: game.id,
            status: game.status,
            max_rounds: game.max_rounds,
            current_round: game.current_round,
            version: game.version,
        }
    }

    /// The projection of a stored game.
    pub fn from_game(game: &Game) -> (a: GameAggregate)
        ensures
            a == GameAggregate::from_game_spec(*game),
            a.id == game.id,
            a.status == game.status,
            a.max_rounds == game.max_rounds,
            a.current_round == game.current_round,
            a.version == game.version,
    {
        GameAggregate {
            id: game.id,
            status: game.status,
            max_rounds: game.max_rounds,
            current_round: game.current_round,
            version: game.version,
        }
    }

    /// Folds freshly produced events onto the projection: every event adds one
    /// to the version, a finished round adds one to the round, and a finished
    /// game marks the game finished.
    pub fn apply_events(&mut self, events: &[GameEvent])
        requires
            folds_within_limits(*old(self), events@),
        ensures
            *final(self) == apply_all(*old(self), events@),
            final(self).version == old(self).version + events@.len(),
            final(self).current_round == old(self).current_round + rounds_finished(events@),
            final(self).status == if finishes_game(events@) {
                GameStatus::Finished
            } else {
                old(self).status
            },
            final(self).id == old(self).id,
            final(self).max_rounds == old(self).max_rounds,
    {
        let ghost start = *self;
        proof {
            lemma_apply_all_closed_form(start, events@);
        }
        let mut i: usize = 0;
        while i < events.len()
            invariant
                0 <= i <= events@.len(),
                *self == apply_all(start, events@.subrange(0, i as int)),
                start.version + events@.len() <= i64::MAX,
                start.current_round + rounds_finished(events@) <= i32::MAX,
            decreases events@.len() - i,
        {
            let ghost before = events@.subrange(0, i as int);
            let ghost after = events@.subrange(0, i + 1);
            proof {
                assert(after.drop_last() =~= before);
                lemma_rounds_finished_prefix(events@, i + 1);
                lemma_apply_all_closed_form(start, before);
            }
            self.version = self.version + 1;
            match &events[i] {
                GameEvent::RoundFinished { .. } => {
                    self.current_round = self.current_round + 1;
                },
                GameEvent::GameFinished { .. } => {
                    self.status = GameStatus::Finished;
                },
                GameEvent::VoteRegistered { .. } => {},
            }
            i = i + 1;
        }
        proof {
            assert(events@.subrange(0, events@.len() as int) =~= events@);
        }
    }

    /// Whether the current round has reached the last one, so that the next
    /// finished round ends the game.
    pub fn is_last_round(&self) -> (b: bool)
        ensures
            b == (self.current_round >= self.max_rounds),
    {
        self.current_round >= self.max_rounds
    }
}

/// A prefix finishes no more rounds than the whole sequence.
pub proof fn lemma_rounds_finished_prefix(events: Seq<GameEvent>, n: int)
    requires
        0 <= n <= events.len(),
    ensures
        rounds_finished(events.subrange(0, n)) <= rounds_finished(events),
    decreases events.len() - n,
{
    if n < events.len() {
        lemma_rounds_finished_prefix(events, n + 1);
        assert(events.subrange(0, n + 1).drop_last() =~= events.subrange(0, n));
    } else {
        assert(events.subrange(0, n) =~= events);
    }
}

} // verus!

verus! {

/// Microseconds in a second.
pub const MICROS_PER_SECOND: i64 = 1_000_000;

/// The instant `seconds` after `now`, in microseconds.
pub open spec fn after_seconds(now: i64, seconds: i32) -> int {
    now + seconds * 1_000_000
}

/// Whether the instant `seconds` after `now` is representable.
pub open spec fn after_seconds_fits(now: i64, seconds: i32) -> bool {
    i64::MIN <= after_seconds(now, seconds) <= i64::MAX
}

/// Whether the instant `seconds` after `now` is representable.
pub fn fits_after_seconds(now: i64, seconds: i32) -> (b: bool)
    ensures
        b == after_seconds_fits(now, seconds),
{
    let t: i128 = now as i128 + (seconds as i128) * 1_000_000;
    i64::MIN as i128 <= t && t <= i64::MAX as i128
}

/// The instant `seconds` after `now`.
pub fn deadline_after(now: i64, seconds: i32) -> (t: i64)
    requires
        after_seconds_fits(now, seconds),
    ensures
        t == after_seconds(now, seconds),
{
    now + (seconds as i64) * MICROS_PER_SECOND
}

/// The identifiers of the players, in order.
pub open spec fn user_ids(players: Seq<GamePlayer>) -> Seq<u128> {
    players.map_values(|p: GamePlayer| p.user_id)
}

/// The identifiers of the players, in order.
pub fn player_ids(players: &[GamePlayer]) -> (ids: Vec<u128>)
    ensures
        ids@ == user_ids(players@),
{
    let mut ids: Vec<u128> = Vec::new();
    let mut i: usize = 0;
    while i < players.len()
        invariant
            0 <= i <= players@.len(),
            ids@ == user_ids(players@.subrange(0, i as int)),
        decreases players@.len() - i,
    {
        ids.push(players[i].user_id);
        proof {
            assert(user_ids(players@.subrange(0, i + 1)) =~= user_ids(players@.subrange(0, i as int)).push(
                players@[i as int].user_id,
            ));
        }
        i = i + 1;
    }
    proof {
        assert(players@.subrange(0, players@.len() as int) =~= players@);
    }
    ids
}

/// Whether some player of `players` is the user `user_id`.
pub open spec fn has_player(players: Seq<GamePlayer>, user_id: u128) -> bool {
    exists|i: int| 0 <= i < players.len() && #[trigger] players[i].user_id == user_id
}

/// Whether the user `user_id` plays in `players`.
pub fn is_player(players: &[GamePlayer], user_id: u128) -> (b: bool)
    ensures
        b == has_player(players@, user_id),
{
    let mut i: usize = 0;
    while i < players.len()
        invariant
            0 <= i <= players@.len(),
            forall|k: int| 0 <= k < i ==> #[trigger] players@[k].user_id != user_id,
        decreases players@.len() - i,
    {
        if players[i].user_id == user_id {
            return true;
        }
        i = i + 1;
    }
    false
}

} // verus!

verus! {

/// The versions that `count` events are stored under after a game at version
/// `base`: one after the other, starting right after `base`.
pub fn event_versions(base: i64, count: usize) -> (v: Vec<i64>)
    requires
        base + count <= i64::MAX,
        count <= i64::MAX,
    ensures
        v@.len() == count,
        forall|i: int| 0 <= i < count ==> #[trigger] v@[i] == base + 1 + i,
{
    let mut v: Vec<i64> = Vec::new();
    let mut i: usize = 0;
    while i < count
        invariant
            0 <= i <= count,
            base + count <= i64::MAX,
            count <= i64::MAX,
            v@.len() == i,
            forall|k: int| 0 <= k < i ==> #[trigger] v@[k] == base + 1 + k,
        decreases count - i,
    {
        v.push(base + 1 + i as i64);
        i = i + 1;
    }
    v
}

} // verus!
