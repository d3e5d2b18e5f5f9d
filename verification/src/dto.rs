//! Requests and responses of the game's HTTP interface.

use vstd::prelude::*;

use crate::model::{
    ActiveGame, ContentSafetyLevel, Game, GameCard, GameMode, GameStatus, PackMemeDetails, PackSituation,
    PlayerSubmissionState, RoundPhase,
};
use crate::state_view::{GameStateResult, GameStateSubmission};

verus! {

/// The number of rounds of a game created without saying.
pub fn default_max_rounds() -> (n: i32)
    ensures
        n == 3,
{
    3
}

/// The hand size of a game created without saying.
pub fn default_hand_size() -> (n: i32)
    ensures
        n == 5,
{
    5
}

/// A game as listed to clients.
#[derive(Debug, Clone, Copy)]
pub struct GameDto {
    pub id: u128,
    pub mode: GameMode,
    pub status: GameStatus,
    pub version: i64,
}

impl From<Game> for GameDto {
    fn from(game: Game) -> (r: GameDto)
        ensures
            r.id == game.id,
            r.mode == game.mode,
            r.status == game.status,
            r.version == game.version,
    {
        GameDto { id: game.id, mode: game.mode, status: game.status, version: game.version }
    }
}

impl vstd::std_specs::convert::FromSpecImpl<Game> for GameDto {
    open spec fn obeys_from_spec() -> bool {
        true
    }

    open spec fn from_spec(game: Game) -> GameDto {
        GameDto { id: game.id, mode: game.mode, status: game.status, version: game.version }
    }
}

/// A player as shown in a game's snapshot.
#[derive(Debug)]
pub struct PlayerDto {
    pub user_id: u128,
    pub score: i32,
    pub is_ready: bool,
    pub handle: String,
    pub has_submitted: bool,
}

impl From<PlayerSubmissionState> for PlayerDto {
    fn from(p: PlayerSubmissionState) -> (r: PlayerDto)
        ensures
            r.user_id == p.user_id,
            r.score == p.score,
            r.is_ready == p.is_ready,
            r.handle@ == p.handle@,
            r.has_submitted == p.has_submitted,
    {
        PlayerDto {
            user_id: p.user_id,
            score: p.score,
            is_ready: p.is_ready,
            handle: p.handle,
            has_submitted: p.has_submitted,
        }
    }
}

impl vstd::std_specs::convert::FromSpecImpl<PlayerSubmissionState> for PlayerDto {
    open spec fn obeys_from_spec() -> bool {
        true
    }

    open spec fn from_spec(p: PlayerSubmissionState) -> PlayerDto {
        player_dto(p)
    }
}

/// A player of a snapshot as sent.
pub open spec fn player_dto(p: PlayerSubmissionState) -> PlayerDto {
    PlayerDto {
        user_id: p.user_id,
        score: p.score,
        is_ready: p.is_ready,
        handle: p.handle,
        has_submitted: p.has_submitted,
    }
}

/// A player shown in a snapshot is the player's state: the same user, score,
/// readiness, handle, and whether they have played a card this round.
pub proof fn lemma_player_dto_shows_state(p: PlayerSubmissionState)
    ensures
        ({
            let d = <PlayerDto as vstd::std_specs::convert::FromSpec<PlayerSubmissionState>>::from_spec(p);
            &&& d == player_dto(p)
            &&& d.user_id == p.user_id
            &&& d.score == p.score
            &&& d.is_ready == p.is_ready
            &&& d.handle@ == p.handle@
            &&& d.has_submitted == p.has_submitted
        }),
{
}

/// A submission as shown while voting.
#[derive(Debug)]
pub struct RoundSubmissionDto {
    pub id: u128,
    pub card: GameCard,
}

/// The current round as shown in a game's snapshot.
#[derive(Debug)]
pub struct RoundDto {
    pub id: u128,
    pub round_number: i32,
    pub phase: RoundPhase,
    pub prompt: Option<GameCard>,
    pub phase_expires_at: Option<i64>,
    pub submissions: Option<Vec<RoundSubmissionDto>>,
    pub my_submission: Option<GameCard>,
    pub has_voted: bool,
}

/// A game's snapshot for one player.
#[derive(Debug)]
pub struct GameStateDto {
    pub game: GameDto,
    pub round: Option<RoundDto>,
    pub players: Vec<PlayerDto>,
    pub my_hand: Vec<GameCard>,
}

/// Whether `dtos` shows the submissions `subs`, one for one and in order.
pub open spec fn shows_submissions(subs: Seq<GameStateSubmission>, dtos: Seq<RoundSubmissionDto>) -> bool {
    &&& dtos.len() == subs.len()
    &&& forall|i: int| 0 <= i < subs.len() ==> #[trigger] dtos[i].id == subs[i].id && dtos[i].card == subs[i].card
}

/// The submissions of a snapshot as sent, in order.
pub fn submission_dtos(subs: Vec<GameStateSubmission>) -> (d: Vec<RoundSubmissionDto>)
    ensures
        shows_submissions(subs@, d@),
{
    let ghost orig = subs@;
    let mut rest = subs;
    let mut out: Vec<RoundSubmissionDto> = Vec::new();
    while rest.len() > 0
        invariant
            out@.len() + rest@.len() == orig.len(),
            rest@ == orig.subrange(out@.len() as int, orig.len() as int),
            forall|i: int| 0 <= i < out@.len() ==> #[trigger] out@[i].id == orig[i].id && out@[i].card == orig[i].card,
        decreases rest@.len(),
    {
        let ghost k = out@.len() as int;
        let s = rest.remove(0);
        assert(s == orig[k]);
        out.push(RoundSubmissionDto { id: s.id, card: s.card });
    }
    out
}

/// The players of a snapshot as sent, in order.
pub fn player_dtos(players: Vec<PlayerSubmissionState>) -> (d: Vec<PlayerDto>)
    ensures
        d@.len() == players@.len(),
        forall|i: int| 0 <= i < players@.len() ==> #[trigger] d@[i] == player_dto(players@[i]),
{
    let ghost orig = players@;
    let mut rest = players;
    let mut out: Vec<PlayerDto> = Vec::new();
    while rest.len() > 0
        invariant
            out@.len() + rest@.len() == orig.len(),
            rest@ == orig.subrange(out@.len() as int, orig.len() as int),
            forall|i: int| 0 <= i < out@.len() ==> #[trigger] out@[i] == player_dto(orig[i]),
        decreases rest@.len(),
    {
        let ghost k = out@.len() as int;
        let p = rest.remove(0);
        assert(p == orig[k]);
        out.push(PlayerDto::from(p));
    }
    out
}

/// The snapshot of a game as sent to one player: the game, the current round
/// with its prompt, the submissions shown, the player's own submission and
/// whether they voted (all of these only while a round is current), the
/// players and the player's hand.
pub fn game_state_dto(res: GameStateResult) -> (d: GameStateDto)
    ensures
        d.game.id == res.game.id,
        d.game.mode == res.game.mode,
        d.game.status == res.game.status,
        d.game.version == res.game.version,
        d.players@.len() == res.players@.len(),
        forall|i: int| 0 <= i < res.players@.len() ==> #[trigger] d.players@[i] == player_dto(res.players@[i]),
        d.my_hand@ == res.my_hand@,
        match res.round {
            None => d.round is None,
            Some(r) => d.round matches Some(rd) && {
                &&& rd.id == r.id
                &&& rd.round_number == r.round_number
                &&& rd.phase == r.phase
                &&& rd.prompt == res.prompt
                &&& rd.phase_expires_at == r.phase_expires_at
                &&& rd.my_submission == res.my_submission
                &&& rd.has_voted == res.has_voted
                &&& match res.submissions {
                    None => rd.submissions is None,
                    Some(s) => rd.submissions matches Some(ds) && shows_submissions(s@, ds@),
                }
            },
        },
{
    let GameStateResult { game, round, prompt, players, my_hand, submissions, my_submission, has_voted } = res;
    let round_dto = match round {
        None => None,
        Some(r) => {
            let shown = match submissions {
                None => None,
                Some(s) => Some(submission_dtos(s)),
            };
            Some(
                RoundDto {
                    id: r.id,
                    round_number: r.round_number,
                    phase: r.phase,
                    prompt,
                    phase_expires_at: r.phase_expires_at,
                    submissions: shown,
                    my_submission,
                    has_voted,
                },
            )
        },
    };
    GameStateDto { game: GameDto::from(game), round: round_dto, players: player_dtos(players), my_hand }
}

/// A request to create a game.
#[derive(Debug)]
pub struct CreateGameRequest {
    pub mode: GameMode,
    pub selected_situation_pack_ids: Vec<u128>,
    pub selected_meme_pack_ids: Vec<u128>,
    pub max_rounds: i32,
    pub hand_size: i32,
    pub handle: Option<String>,
}

/// A request to change a lobby's settings.
#[derive(Debug)]
pub struct UpdateGameRequest {
    pub mode: Option<GameMode>,
    pub selected_situation_pack_ids: Option<Vec<u128>>,
    pub selected_meme_pack_ids: Option<Vec<u128>>,
    pub max_rounds: Option<i32>,
    pub hand_size: Option<i32>,
}

/// A request to submit a card.
#[derive(Debug, Clone, Copy)]
pub struct SubmitCardRequest {
    pub card_id: u128,
}

/// A request to vote for a submission.
#[derive(Debug, Clone, Copy)]
pub struct VoteRequest {
    pub submission_id: u128,
}

/// A request to change readiness.
#[derive(Debug, Clone, Copy)]
pub struct ReadyRequest {
    pub is_ready: bool,
}

/// A request to join a lobby, with the handle wished for.
#[derive(Debug)]
pub struct JoinGameRequest {
    pub handle: Option<String>,
}

/// A request to create a meme pack.
#[derive(Debug)]
pub struct CreateMemePackRequest {
    pub name: String,
    pub description: Option<String>,
    pub language_code: String,
    pub safety_level: ContentSafetyLevel,
    pub is_public: bool,
    pub media_ids: Vec<i64>,
}

/// The pack created.
#[derive(Debug, Clone, Copy)]
pub struct CreateMemePackResponse {
    pub id: u128,
}

/// A request to change a meme pack.
#[derive(Debug)]
pub struct UpdateMemePackRequest {
    pub name: String,
    pub description: Option<String>,
    pub language_code: String,
    pub safety_level: ContentSafetyLevel,
    pub is_public: bool,
}

/// A request to add memes to a pack.
#[derive(Debug)]
pub struct AddMemesToPackRequest {
    pub media_ids: Vec<i64>,
}

/// A request to create a situation pack.
#[derive(Debug)]
pub struct CreateSituationPackRequest {
    pub name: String,
    pub description: Option<String>,
    pub language_code: String,
    pub safety_level: ContentSafetyLevel,
    pub is_public: bool,
    pub prompts: Vec<String>,
}

/// The pack created.
#[derive(Debug, Clone, Copy)]
pub struct CreateSituationPackResponse {
    pub id: u128,
}

/// A request to change a situation pack.
#[derive(Debug)]
pub struct UpdateSituationPackRequest {
    pub name: String,
    pub description: Option<String>,
    pub language_code: String,
    pub safety_level: ContentSafetyLevel,
    pub is_public: bool,
}

/// A request to add situations to a pack.
#[derive(Debug)]
pub struct AddSituationsToPackRequest {
    pub prompts: Vec<String>,
}

/// A meme of a pack as shown.
#[derive(Debug)]
pub struct PackMemeDetailsDto {
    pub id: u128,
    pub pack_id: u128,
    pub media_id: Option<i64>,
    pub media_url: String,
}

impl From<PackMemeDetails> for PackMemeDetailsDto {
    fn from(m: PackMemeDetails) -> (r: PackMemeDetailsDto)
        ensures
            r.id == m.id,
            r.pack_id == m.pack_id,
            r.media_id == m.media_id,
            r.media_url@ == m.media_url@,
    {
        PackMemeDetailsDto { id: m.id, pack_id: m.pack_id, media_id: m.media_id, media_url: m.media_url }
    }
}

impl vstd::std_specs::convert::FromSpecImpl<PackMemeDetails> for PackMemeDetailsDto {
    open spec fn obeys_from_spec() -> bool {
        true
    }

    open spec fn from_spec(m: PackMemeDetails) -> PackMemeDetailsDto {
        PackMemeDetailsDto { id: m.id, pack_id: m.pack_id, media_id: m.media_id, media_url: m.media_url }
    }
}

/// A situation of a pack as shown.
#[derive(Debug)]
pub struct PackSituationDto {
    pub id: u128,
    pub pack_id: u128,
    pub prompt_text: String,
}

impl From<PackSituation> for PackSituationDto {
    fn from(s: PackSituation) -> (r: PackSituationDto)
        ensures
            r.id == s.id,
            r.pack_id == s.pack_id,
            r.prompt_text@ == s.prompt_text@,
    {
        PackSituationDto { id: s.id, pack_id: s.pack_id, prompt_text: s.prompt_text }
    }
}

impl vstd::std_specs::convert::FromSpecImpl<PackSituation> for PackSituationDto {
    open spec fn obeys_from_spec() -> bool {
        true
    }

    open spec fn from_spec(s: PackSituation) -> PackSituationDto {
        PackSituationDto { id: s.id, pack_id: s.pack_id, prompt_text: s.prompt_text }
    }
}

/// A pack situation as shown keeps what is stored: its identifier, the pack
/// it belongs to, and its text.
pub proof fn lemma_pack_situation_dto_keeps_fields(s: PackSituation)
    ensures
        ({
            let r = <PackSituationDto as vstd::std_specs::convert::FromSpec<PackSituation>>::from_spec(s);
            &&& r.id == s.id
            &&& r.pack_id == s.pack_id
            &&& r.prompt_text@ == s.prompt_text@
        }),
{
}

/// The realtime tokens of a game's player.
#[derive(Debug)]
pub struct WsTokenResult {
    pub connection_token: String,
    pub game_subscription_token: String,
    pub personal_subscription_token: String,
}

/// The realtime tokens of a game's player, as sent.
#[derive(Debug)]
pub struct WsTokenDto {
    pub connection_token: String,
    pub game_subscription_token: String,
    pub personal_subscription_token: String,
}

impl From<WsTokenResult> for WsTokenDto {
    fn from(res: WsTokenResult) -> (r: WsTokenDto)
        ensures
            r.connection_token@ == res.connection_token@,
            r.game_subscription_token@ == res.game_subscription_token@,
            r.personal_subscription_token@ == res.personal_subscription_token@,
    {
        WsTokenDto {
            connection_token: res.connection_token,
            game_subscription_token: res.game_subscription_token,
            personal_subscription_token: res.personal_subscription_token,
        }
    }
}

impl vstd::std_specs::convert::FromSpecImpl<WsTokenResult> for WsTokenDto {
    open spec fn obeys_from_spec() -> bool {
        true
    }

    open spec fn from_spec(res: WsTokenResult) -> WsTokenDto {
        WsTokenDto {
            connection_token: res.connection_token,
            game_subscription_token: res.game_subscription_token,
            personal_subscription_token: res.personal_subscription_token,
        }
    }
}

/// The realtime tokens of a user watching the open lobbies.
#[derive(Debug)]
pub struct LobbiesWsTokenDto {
    pub connection_token: String,
    pub lobbies_subscription_token: String,
}

/// The open lobbies with the realtime tokens to watch them.
#[derive(Debug)]
pub struct ListActiveGamesResult {
    pub games: Vec<ActiveGame>,
    pub connection_token: String,
    pub lobbies_subscription_token: String,
}

} // verus!
