//! Starting a game: who may start it, how much content it needs, and how the
//! shuffled content is dealt into rounds, starting hands and reserves.

use vstd::prelude::*;
use vstd::string::StringSliceAdditionalSpecFns;
use rand::seq::SliceRandom;
use rand::SeedableRng;
use rand::rngs::StdRng;
use sha2::Digest;

use crate::error::{AppError, text_with_id, not_found_with_id, forbidden, conflict, invalid};
use crate::ids::{id_bytes, uuid_bytes};
use crate::model::{Game, GameMode, GamePlayer, GameRound, GameStatus, RoundPhase};

verus! {

/// The seeded random generator the deal is shuffled with.
#[verifier::external_type_specification]
#[verifier::external_body]
pub struct ExStdRng(StdRng);

/// What `sha2::Sha256` computes for a message.
pub uninterp spec fn sha256_digest(data: Seq<u8>) -> Seq<u8>;

/// SHA-256 of `data`, through `sha2::Sha256::digest`. The claim: the result is
/// the digest of exactly these bytes, and it has 32 bytes.
#[verifier::external_body]
pub(crate) fn sha256(data: &[u8]) -> (d: [u8; 32])
    ensures
        d@ == sha256_digest(data@),
        d@.len() == 32,
{
    sha2::Sha256::digest(data).into()
}

/// A generator seeded with `seed`, through `StdRng::from_seed`. Nothing is
/// claimed of the generator's state.
#[verifier::external_body]
pub(crate) fn rng_from_seed(seed: [u8; 32]) -> StdRng {
    StdRng::from_seed(seed)
}

/// Shuffles `ids` in place with `rng`, through `SliceRandom::shuffle`. The
/// claim: the result holds the same identifiers, each as often as before
/// (the shuffle only swaps elements). Which order comes out is not stated.
#[verifier::external_body]
pub(crate) fn shuffle_ids(ids: &mut Vec<u128>, rng: &mut StdRng)
    ensures
        final(ids)@.to_multiset() == old(ids)@.to_multiset(),
        final(ids)@.len() == old(ids)@.len(),
{
    ids.shuffle(rng)
}

/// The bytes the deal's seed is hashed from: the game's identifier, then the
/// secret key.
pub open spec fn seed_material(game_id: u128, secret: Seq<u8>) -> Seq<u8> {
    id_bytes(game_id) + secret
}

/// The deterministic seed of a game's deal: SHA-256 of the game's identifier
/// followed by the secret key.
pub fn game_seed(game_id: u128, secret: &str) -> (seed: [u8; 32])
    ensures
        seed@ == sha256_digest(seed_material(game_id, secret.spec_bytes())),
{
    let id = uuid_bytes(game_id);
    let key = secret.as_bytes();
    let mut data: Vec<u8> = Vec::new();
    let mut i: usize = 0;
    while i < 16
        invariant
            0 <= i <= 16,
            id@ == id_bytes(game_id),
            data@ == id@.subrange(0, i as int),
        decreases 16 - i,
    {
        data.push(id[i]);
        i = i + 1;
    }
    let mut j: usize = 0;
    while j < key.len()
        invariant
            0 <= j <= key@.len(),
            key@ == secret.spec_bytes(),
            data@ == id@ + key@.subrange(0, j as int),
        decreases key@.len() - j,
    {
        data.push(key[j]);
        j = j + 1;
    }
    proof {
        assert(id@.subrange(0, 16) =~= id@);
        assert(key@.subrange(0, key@.len() as int) =~= key@);
    }
    sha256(data.as_slice())
}

/// Checks that `user_id` may start the game: it exists, `user_id` hosts it and
/// it is still a lobby.
pub fn check_start_game(user_id: u128, game_id: u128, game: Option<Game>) -> (r: Result<Game, AppError>)
    ensures
        match game {
            None => r matches Err(AppError::NotFound(m)) && m@ == text_with_id("Game not found: "@, game_id),
            Some(g) => if g.host_id != user_id {
                r matches Err(AppError::Forbidden(m)) && m@ == "Only host can start the game"@
            } else if g.status != GameStatus::Lobby {
                r matches Err(AppError::Conflict(m)) && m@ == "Game has already started or finished"@
            } else {
                r == Ok::<Game, AppError>(g)
            },
        },
{
    match game {
        None => Err(not_found_with_id("Game not found: ", game_id)),
        Some(g) => {
            if g.host_id != user_id {
                Err(forbidden("Only host can start the game"))
            } else if g.status != GameStatus::Lobby {
                Err(conflict("Game has already started or finished"))
            } else {
                Ok(g)
            }
        },
    }
}

/// The fewest players a game starts with.
pub const MIN_PLAYERS: usize = 3;

/// Whether every player is ready.
pub open spec fn all_ready(players: Seq<GamePlayer>) -> bool {
    forall|i: int| 0 <= i < players.len() ==> #[trigger] players[i].is_ready
}

/// Checks that the lobby can start: at least three players, all ready.
pub fn check_start_players(players: &[GamePlayer]) -> (r: Result<(), AppError>)
    ensures
        players@.len() < 3 ==> (r matches Err(AppError::ValidationError(m)) && m@
            == "Need at least 3 players to start"@),
        players@.len() >= 3 && !all_ready(players@) ==> (r matches Err(AppError::Conflict(m)) && m@
            == "Not all players are ready"@),
        players@.len() >= 3 && all_ready(players@) ==> r is Ok,
{
    if players.len() < MIN_PLAYERS {
        return Err(invalid("Need at least 3 players to start"));
    }
    let mut i: usize = 0;
    while i < players.len()
        invariant
            0 <= i <= players@.len(),
            players@.len() >= 3,
            forall|k: int| 0 <= k < i ==> #[trigger] players@[k].is_ready,
        decreases players@.len() - i,
    {
        if !players[i].is_ready {
            return Err(conflict("Not all players are ready"));
        }
        i = i + 1;
    }
    Ok(())
}

/// The checks made before a game starts, in order: the game exists, the user
/// hosts it, it is still a lobby, it has at least three players, and all of
/// them are ready. The first that fails is the answer.
pub fn start_game_guards(user_id: u128, game_id: u128, game: Option<Game>, players: &[GamePlayer]) -> (r: Result<
    Game,
    AppError,
>)
    ensures
        match game {
            None => r matches Err(AppError::NotFound(m)) && m@ == text_with_id("Game not found: "@, game_id),
            Some(g) => if g.host_id != user_id {
                r matches Err(AppError::Forbidden(m)) && m@ == "Only host can start the game"@
            } else if g.status != GameStatus::Lobby {
                r matches Err(AppError::Conflict(m)) && m@ == "Game has already started or finished"@
            } else if players@.len() < 3 {
                r matches Err(AppError::ValidationError(m)) && m@ == "Need at least 3 players to start"@
            } else if !all_ready(players@) {
                r matches Err(AppError::Conflict(m)) && m@ == "Not all players are ready"@
            } else {
                r == Ok::<Game, AppError>(g)
            },
        },
{
    let g = check_start_game(user_id, game_id, game)?;
    check_start_players(players)?;
    Ok(g)
}

/// How many memes and how many situations a game needs: a prompt per round,
/// and per player a starting hand plus one reserve card per round.
pub open spec fn required_content(mode: GameMode, p: int, h: int, r: int) -> (int, int) {
    match mode {
        GameMode::SituationToMeme => (p * h + p * r, r),
        GameMode::MemeToSituation => (r, p * h + p * r),
    }
}

/// Whether the content needed fits the machine's integers.
pub open spec fn required_content_fits(p: int, h: int, r: int) -> bool {
    &&& i32::MIN <= p * h <= i32::MAX
    &&& i32::MIN <= p * r <= i32::MAX
    &&& i32::MIN <= p * h + p * r <= i32::MAX
}

/// The number of memes and situations that a game with `p` players, hands of
/// `h` cards and `r` rounds needs.
pub fn required_content_counts(mode: GameMode, p: i32, h: i32, r: i32) -> (c: (i32, i32))
    requires
        required_content_fits(p as int, h as int, r as int),
    ensures
        (c.0 as int, c.1 as int) == required_content(mode, p as int, h as int, r as int),
{
    let per_player = p * h + p * r;
    match mode {
        GameMode::SituationToMeme => (per_player, r),
        GameMode::MemeToSituation => (r, per_player),
    }
}

/// Whether `available` cards cover `required` ones (a negative requirement is
/// never covered: as an unsigned size it exceeds every length).
pub open spec fn covers(available: int, required: int) -> bool {
    required >= 0 && available >= required
}

/// Checks that the selected packs hold enough memes and enough situations.
pub fn check_content_available(
    available_memes: usize,
    available_situations: usize,
    required_memes: i32,
    required_situations: i32,
) -> (r: Result<(), AppError>)
    ensures
        !covers(available_memes as int, required_memes as int) ==> (r matches Err(
            AppError::ValidationError(m),
        ) && m@ == "not_enough_memes"@),
        covers(available_memes as int, required_memes as int) && !covers(
            available_situations as int,
            required_situations as int,
        ) ==> (r matches Err(AppError::ValidationError(m)) && m@ == "not_enough_situations"@),
        covers(available_memes as int, required_memes as int) && covers(
            available_situations as int,
            required_situations as int,
        ) ==> r is Ok,
{
    if required_memes < 0 || available_memes < required_memes as usize {
        return Err(invalid("not_enough_memes"));
    }
    if required_situations < 0 || available_situations < required_situations as usize {
        return Err(invalid("not_enough_situations"));
    }
    Ok(())
}

/// A round laid out when the game starts.
#[derive(Debug, Clone, Copy)]
pub struct RoundPlan {
    pub round_number: i32,
    pub prompt_situation_id: Option<u128>,
    pub prompt_meme_id: Option<u128>,
    pub phase: RoundPhase,
    pub phase_expires_at: Option<i64>,
}

/// A card dealt into a player's starting hand.
#[derive(Debug, Clone, Copy)]
pub struct HandDeal {
    pub user_id: u128,
    pub meme_id: Option<u128>,
    pub situation_id: Option<u128>,
}

/// A card put into a player's reserve, drawn after the round `draw_order`.
#[derive(Debug, Clone, Copy)]
pub struct ReserveDeal {
    pub user_id: u128,
    pub draw_order: i32,
    pub meme_id: Option<u128>,
    pub situation_id: Option<u128>,
}

/// Everything a game is laid out with when it starts.
#[derive(Debug)]
pub struct GameDeal {
    pub rounds: Vec<RoundPlan>,
    pub hands: Vec<HandDeal>,
    pub reserves: Vec<ReserveDeal>,
}

/// A card of the kind the prompts are: (meme, situation).
pub open spec fn prompt_card(mode: GameMode, id: u128) -> (Option<u128>, Option<u128>) {
    match mode {
        GameMode::SituationToMeme => (None, Some(id)),
        GameMode::MemeToSituation => (Some(id), None),
    }
}

/// A card of the kind the players answer with: (meme, situation).
pub open spec fn answer_card(mode: GameMode, id: u128) -> (Option<u128>, Option<u128>) {
    match mode {
        GameMode::SituationToMeme => (Some(id), None),
        GameMode::MemeToSituation => (None, Some(id)),
    }
}

/// The round `i` (counted from 0) of a deal.
pub open spec fn planned_round(mode: GameMode, prompts: Seq<u128>, i: int, deadline: i64) -> RoundPlan {
    RoundPlan {
        round_number: (i + 1) as i32,
        prompt_situation_id: prompt_card(mode, prompts[i]).1,
        prompt_meme_id: prompt_card(mode, prompts[i]).0,
        phase: if i == 0 {
            RoundPhase::Submitting
        } else {
            RoundPhase::Waiting
        },
        phase_expires_at: if i == 0 {
            Some(deadline)
        } else {
            None
        },
    }
}

/// What a deal of `p` players, hands of `h` and `r` rounds consists of: round
/// `i` is prompted by `prompts[i]`; hand slot `t` holds `answers[t]`, and the
/// `k`-th hand card of player `j` is slot `j * h + k`; reserve slot `u` holds
/// `answers[p * h + u]`, and the `k`-th reserve card of player `j` is slot
/// `j * r + k`, drawn after round `k + 1`.
pub open spec fn is_deal(
    d: GameDeal,
    mode: GameMode,
    players: Seq<u128>,
    h: int,
    r: int,
    prompts: Seq<u128>,
    answers: Seq<u128>,
    deadline: i64,
) -> bool {
    let p = players.len() as int;
    &&& d.rounds@.len() == r
    &&& forall|i: int| 0 <= i < r ==> #[trigger] d.rounds@[i] == planned_round(mode, prompts, i, deadline)
    &&& d.hands@.len() == p * h
    &&& forall|t: int|
        0 <= t < p * h ==> (#[trigger] d.hands@[t].meme_id, d.hands@[t].situation_id) == answer_card(
            mode,
            answers[t],
        )
    &&& forall|j: int, k: int|
        0 <= j < p && 0 <= k < h ==> #[trigger] d.hands@[j * h + k].user_id == players[j]
    &&& d.reserves@.len() == p * r
    &&& forall|u: int|
        0 <= u < p * r ==> (#[trigger] d.reserves@[u].meme_id, d.reserves@[u].situation_id)
            == answer_card(mode, answers[p * h + u])
    &&& forall|j: int, k: int|
        0 <= j < p && 0 <= k < r ==> #[trigger] d.reserves@[j * r + k].user_id == players[j]
            && d.reserves@[j * r + k].draw_order == k + 1
}

proof fn lemma_slot(j: int, k: int, n: int, m: int)
    by (nonlinear_arith)
    requires
        0 <= j < m,
        0 <= k < n,
    ensures
        0 <= j * n + k < m * n,
        (j + 1) * n == j * n + n,
        j * n + k < (j + 1) * n,
{
}

proof fn lemma_below(jj: int, kk: int, n: int, j: int)
    by (nonlinear_arith)
    requires
        0 <= jj < j,
        0 <= kk < n,
    ensures
        jj * n + kk < j * n,
{
}

proof fn lemma_step(j: int, n: int)
    by (nonlinear_arith)
    ensures
        (j + 1) * n == j * n + n,
{
}

proof fn lemma_commute(a: int, b: int)
    by (nonlinear_arith)
    ensures
        a * b == b * a,
        a >= 0 && b >= 0 ==> a * b >= 0,
{
}

#[verifier::rlimit(40)]
#[verifier::spinoff_prover]
/// Lays out a game: rounds prompted in shuffled order, then for each player in
/// turn a starting hand of `h` cards followed by `r` reserve cards.
pub fn deal(
    mode: GameMode,
    players: &[u128],
    h: i32,
    r: i32,
    prompts: &[u128],
    answers: &[u128],
    deadline: i64,
) -> (d: GameDeal)
    requires
        h >= 0,
        r >= 0,
        players@.len() * h + players@.len() * r <= i32::MAX,
        prompts@.len() >= r,
        answers@.len() >= players@.len() * h + players@.len() * r,
    ensures
        is_deal(d, mode, players@, h as int, r as int, prompts@, answers@, deadline),
{
    let p = players.len();
    let hu = h as usize;
    let ru = r as usize;
    proof {
        lemma_commute(p as int, h as int);
        lemma_commute(p as int, r as int);
    }
    let mut rounds: Vec<RoundPlan> = Vec::new();
    let mut i: usize = 0;
    while i < ru
        invariant
            0 <= i <= ru,
            ru == r,
            prompts@.len() >= r,
            rounds@.len() == i,
            forall|q: int| 0 <= q < i ==> #[trigger] rounds@[q] == planned_round(mode, prompts@, q, deadline),
        decreases ru - i,
    {
        let id = prompts[i];
        let plan = match mode {
            GameMode::SituationToMeme => RoundPlan {
                round_number: (i + 1) as i32,
                prompt_situation_id: Some(id),
                prompt_meme_id: None,
                phase: if i == 0 { RoundPhase::Submitting } else { RoundPhase::Waiting },
                phase_expires_at: if i == 0 { Some(deadline) } else { None },
            },
            GameMode::MemeToSituation => RoundPlan {
                round_number: (i + 1) as i32,
                prompt_situation_id: None,
                prompt_meme_id: Some(id),
                phase: if i == 0 { RoundPhase::Submitting } else { RoundPhase::Waiting },
                phase_expires_at: if i == 0 { Some(deadline) } else { None },
            },
        };
        rounds.push(plan);
        i = i + 1;
    }
    let hand_total = p * hu;
    let mut hands: Vec<HandDeal> = Vec::new();
    let mut reserves: Vec<ReserveDeal> = Vec::new();
    let mut j: usize = 0;
    while j < p
        invariant
            0 <= j <= p,
            p == players@.len(),
            hu == h,
            ru == r,
            h >= 0,
            r >= 0,
            hand_total == p * h,
            p * h + p * r <= i32::MAX,
            rounds@.len() == r,
            forall|q: int| 0 <= q < r ==> #[trigger] rounds@[q] == planned_round(mode, prompts@, q, deadline),
            answers@.len() >= p * h + p * r,
            hands@.len() == j * h,
            reserves@.len() == j * r,
            forall|t: int|
                0 <= t < j * h ==> (#[trigger] hands@[t].meme_id, hands@[t].situation_id)
                    == answer_card(mode, answers@[t]),
            forall|jj: int, k: int|
                0 <= jj < j && 0 <= k < h ==> #[trigger] hands@[jj * h + k].user_id == players@[jj],
            forall|u: int|
                0 <= u < j * r ==> (#[trigger] reserves@[u].meme_id, reserves@[u].situation_id)
                    == answer_card(mode, answers@[p * h + u]),
            forall|jj: int, k: int|
                0 <= jj < j && 0 <= k < r ==> #[trigger] reserves@[jj * r + k].user_id == players@[jj]
                    && reserves@[jj * r + k].draw_order == k + 1,
        decreases p - j,
    {
        proof {
            lemma_step(j as int, h as int);
            lemma_step(j as int, r as int);
            lemma_slot(j as int, 0, h as int + 1, p as int);
            assert((j + 1) * h <= p * h) by (nonlinear_arith)
                requires j + 1 <= p, h >= 0;
            assert((j + 1) * r <= p * r) by (nonlinear_arith)
                requires j + 1 <= p, r >= 0;
        }
        let user = players[j];
        let hand_start = j * hu;
        let mut k: usize = 0;
        while k < hu
            invariant
                0 <= k <= hu,
                hu == h,
                p == players@.len(),
                j < p,
                user == players@[j as int],
                hand_start == j * h,
                (j + 1) * h <= p * h,
                (j + 1) * h == j * h + h,
                p * r >= 0,
                answers@.len() >= p * h + p * r,
                p * h + p * r <= i32::MAX,
                hands@.len() == j * h + k,
                forall|t: int|
                    0 <= t < j * h + k ==> (#[trigger] hands@[t].meme_id, hands@[t].situation_id)
                        == answer_card(mode, answers@[t]),
                forall|jj: int, kk: int|
                    0 <= jj < j && 0 <= kk < h ==> #[trigger] hands@[jj * h + kk].user_id
                        == players@[jj],
                forall|kk: int| 0 <= kk < k ==> #[trigger] hands@[j * h + kk].user_id == user,
            decreases hu - k,
        {
            let id = answers[hand_start + k];
            let card = match mode {
                GameMode::SituationToMeme => HandDeal { user_id: user, meme_id: Some(id), situation_id: None },
                GameMode::MemeToSituation => HandDeal { user_id: user, meme_id: None, situation_id: Some(id) },
            };
            hands.push(card);
            proof {
                assert forall|jj: int, kk: int| 0 <= jj < j && 0 <= kk < h implies #[trigger] hands@[jj
                    * h + kk].user_id == players@[jj] by {
                    lemma_below(jj, kk, h as int, j as int);
                }
            }
            k = k + 1;
        }
        proof {
            assert forall|jj: int, kk: int| 0 <= jj < j + 1 && 0 <= kk < h implies #[trigger] hands@[jj
                * h + kk].user_id == players@[jj] by {
                if jj == j {
                    assert(hands@[j * h + kk].user_id == user);
                }
            }
        }
        let reserve_start = hand_total + j * ru;
        let mut k: usize = 0;
        while k < ru
            invariant
                0 <= k <= ru,
                ru == r,
                p == players@.len(),
                j < p,
                user == players@[j as int],
                reserve_start == p * h + j * r,
                (j + 1) * r <= p * r,
                (j + 1) * r == j * r + r,
                p * h >= 0,
                answers@.len() >= p * h + p * r,
                p * h + p * r <= i32::MAX,
                reserves@.len() == j * r + k,
                forall|u: int|
                    0 <= u < j * r + k ==> (#[trigger] reserves@[u].meme_id, reserves@[u].situation_id)
                        == answer_card(mode, answers@[p * h + u]),
                forall|jj: int, kk: int|
                    0 <= jj < j && 0 <= kk < r ==> #[trigger] reserves@[jj * r + kk].user_id
                        == players@[jj] && reserves@[jj * r + kk].draw_order == kk + 1,
                forall|kk: int|
                    0 <= kk < k ==> #[trigger] reserves@[j * r + kk].user_id == user
                        && reserves@[j * r + kk].draw_order == kk + 1,
            decreases ru - k,
        {
            let id = answers[reserve_start + k];
            let order = (k + 1) as i32;
            let card = match mode {
                GameMode::SituationToMeme => ReserveDeal {
                    user_id: user,
                    draw_order: order,
                    meme_id: Some(id),
                    situation_id: None,
                },
                GameMode::MemeToSituation => ReserveDeal {
                    user_id: user,
                    draw_order: order,
                    meme_id: None,
                    situation_id: Some(id),
                },
            };
            reserves.push(card);
            proof {
                assert forall|jj: int, kk: int| 0 <= jj < j && 0 <= kk < r implies #[trigger] reserves@[jj
                    * r + kk].user_id == players@[jj] && reserves@[jj * r + kk].draw_order == kk + 1 by {
                    lemma_below(jj, kk, r as int, j as int);
                }
            }
            k = k + 1;
        }
        proof {
            assert forall|jj: int, kk: int| 0 <= jj < j + 1 && 0 <= kk < r implies #[trigger] reserves@[jj
                * r + kk].user_id == players@[jj] && reserves@[jj * r + kk].draw_order == kk + 1 by {
                if jj == j {
                    assert(reserves@[j * r + kk].user_id == user);
                }
            }
        }
        j = j + 1;
    }
    GameDeal { rounds, hands, reserves }
}

} // verus!

verus! {

/// Whether the content counts let the game start.
pub open spec fn content_suffices(mode: GameMode, p: int, h: int, r: int, memes: int, situations: int) -> bool {
    let (rm, rs) = required_content(mode, p, h, r);
    covers(memes, rm) && covers(situations, rs)
}

/// How many memes the game needs with `p` players.
pub open spec fn needed_memes(game: Game, p: int) -> int {
    required_content(game.mode, p, game.hand_size as int, game.max_rounds as int).0
}

/// How many situations the game needs with `p` players.
pub open spec fn needed_situations(game: Game, p: int) -> int {
    required_content(game.mode, p, game.hand_size as int, game.max_rounds as int).1
}

/// The cards that prompt the rounds, of the shuffled memes and situations.
pub open spec fn prompts_of(mode: GameMode, memes: Seq<u128>, situations: Seq<u128>) -> Seq<u128> {
    match mode {
        GameMode::SituationToMeme => situations,
        GameMode::MemeToSituation => memes,
    }
}

/// The cards that players answer with, of the shuffled memes and situations.
pub open spec fn answers_of(mode: GameMode, memes: Seq<u128>, situations: Seq<u128>) -> Seq<u128> {
    match mode {
        GameMode::SituationToMeme => memes,
        GameMode::MemeToSituation => situations,
    }
}

/// The deal of a game from its available content: some reordering of the
/// available memes and of the available situations, dealt as `is_deal` says.
pub open spec fn is_shuffled_deal(
    d: GameDeal,
    game: Game,
    players: Seq<u128>,
    memes: Seq<u128>,
    situations: Seq<u128>,
    deadline: i64,
) -> bool {
    exists|ms: Seq<u128>, ss: Seq<u128>|
        {
            &&& ms.to_multiset() == memes.to_multiset()
            &&& ss.to_multiset() == situations.to_multiset()
            &&& ms.len() == memes.len()
            &&& ss.len() == situations.len()
            &&& #[trigger] is_deal(
                d,
                game.mode,
                players,
                game.hand_size as int,
                game.max_rounds as int,
                prompts_of(game.mode, ms, ss),
                answers_of(game.mode, ms, ss),
                deadline,
            )
        }
}

/// Lays out a game about to start. The content is checked against what the
/// game needs, shuffled with the game's deterministic seed (memes first, then
/// situations, with one generator), and dealt. The first round's deadline is
/// `now` plus the game's submission time limit.
pub fn plan_game_start(
    game: &Game,
    players: &[GamePlayer],
    available_memes: Vec<u128>,
    available_situations: Vec<u128>,
    secret: &str,
    now: i64,
) -> (res: Result<GameDeal, AppError>)
    requires
        players@.len() <= i32::MAX,
        required_content_fits(players@.len() as int, game.hand_size as int, game.max_rounds as int),
        content_suffices(
            game.mode,
            players@.len() as int,
            game.hand_size as int,
            game.max_rounds as int,
            available_memes@.len() as int,
            available_situations@.len() as int,
        ) ==> game.hand_size >= 0,
        crate::model::after_seconds_fits(now, game.submit_time_limit),
    ensures
        !covers(available_memes@.len() as int, needed_memes(*game, players@.len() as int)) ==> (
        res matches Err(AppError::ValidationError(m)) && m@ == "not_enough_memes"@),
        covers(available_memes@.len() as int, needed_memes(*game, players@.len() as int)) && !covers(
            available_situations@.len() as int,
            needed_situations(*game, players@.len() as int),
        ) ==> (res matches Err(AppError::ValidationError(m)) && m@ == "not_enough_situations"@),
        content_suffices(
            game.mode,
            players@.len() as int,
            game.hand_size as int,
            game.max_rounds as int,
            available_memes@.len() as int,
            available_situations@.len() as int,
        ) ==> (res matches Ok(d) && is_shuffled_deal(
            d,
            *game,
            crate::model::user_ids(players@),
            available_memes@,
            available_situations@,
            crate::model::after_seconds(now, game.submit_time_limit) as i64,
        )),
{
    let p = players.len() as i32;
    let (required_memes, required_situations) = required_content_counts(
        game.mode,
        p,
        game.hand_size,
        game.max_rounds,
    );
    check_content_available(
        available_memes.len(),
        available_situations.len(),
        required_memes,
        required_situations,
    )?;
    let seed = game_seed(game.id, secret);
    let mut rng = rng_from_seed(seed);
    let mut memes = available_memes;
    shuffle_ids(&mut memes, &mut rng);
    let mut situations = available_situations;
    shuffle_ids(&mut situations, &mut rng);
    let deadline = crate::model::deadline_after(now, game.submit_time_limit);
    let ids = crate::model::player_ids(players);
    let d = match game.mode {
        GameMode::SituationToMeme => deal(
            game.mode,
            ids.as_slice(),
            game.hand_size,
            game.max_rounds,
            situations.as_slice(),
            memes.as_slice(),
            deadline,
        ),
        GameMode::MemeToSituation => deal(
            game.mode,
            ids.as_slice(),
            game.hand_size,
            game.max_rounds,
            memes.as_slice(),
            situations.as_slice(),
            deadline,
        ),
    };
    proof {
        assert(is_deal(
            d,
            game.mode,
            crate::model::user_ids(players@),
            game.hand_size as int,
            game.max_rounds as int,
            prompts_of(game.mode, memes@, situations@),
            answers_of(game.mode, memes@, situations@),
            crate::model::after_seconds(now, game.submit_time_limit) as i64,
        ));
        assert(memes@.len() == available_memes@.len());
        assert(situations@.len() == available_situations@.len());
        assert(memes@.to_multiset() == available_memes@.to_multiset());
        assert(situations@.to_multiset() == available_situations@.to_multiset());
        assert(is_shuffled_deal(
            d,
            *game,
            crate::model::user_ids(players@),
            available_memes@,
            available_situations@,
            crate::model::after_seconds(now, game.submit_time_limit) as i64,
        ));
    }
    Ok(d)
}

/// A dealt answer card tells which identifier it is.
proof fn lemma_answer_card_injective(mode: GameMode, x: u128, y: u128)
    ensures
        answer_card(mode, x) == answer_card(mode, y) ==> x == y,
        prompt_card(mode, x) == prompt_card(mode, y) ==> x == y,
{
}

/// No card is dealt twice: when neither the prompts nor the answers hold an
/// identifier twice, the rounds have different prompts, and every starting
/// hand and reserve card differs from every other one.
pub proof fn lemma_deal_never_repeats_a_card(
    d: GameDeal,
    mode: GameMode,
    players: Seq<u128>,
    h: int,
    r: int,
    prompts: Seq<u128>,
    answers: Seq<u128>,
    deadline: i64,
)
    requires
        is_deal(d, mode, players, h, r, prompts, answers, deadline),
        h >= 0,
        r >= 0,
        prompts.len() >= r,
        answers.len() >= players.len() * h + players.len() * r,
        prompts.no_duplicates(),
        answers.no_duplicates(),
    ensures
        forall|a: int, b: int|
            0 <= a < b < r ==> (#[trigger] d.rounds@[a].prompt_meme_id, d.rounds@[a].prompt_situation_id)
                != (#[trigger] d.rounds@[b].prompt_meme_id, d.rounds@[b].prompt_situation_id),
        forall|a: int, b: int|
            0 <= a < b < d.hands@.len() ==> (#[trigger] d.hands@[a].meme_id, d.hands@[a].situation_id)
                != (#[trigger] d.hands@[b].meme_id, d.hands@[b].situation_id),
        forall|a: int, b: int|
            0 <= a < b < d.reserves@.len() ==> (#[trigger] d.reserves@[a].meme_id,
            d.reserves@[a].situation_id) != (#[trigger] d.reserves@[b].meme_id,
            d.reserves@[b].situation_id),
        forall|a: int, b: int|
            0 <= a < d.hands@.len() && 0 <= b < d.reserves@.len() ==> (
            #[trigger] d.hands@[a].meme_id,
            d.hands@[a].situation_id,
            ) != (#[trigger] d.reserves@[b].meme_id, d.reserves@[b].situation_id),
{
    let p = players.len() as int;
    assert(p * h >= 0 && p * r >= 0) by {
        lemma_commute(p, h);
        lemma_commute(p, r);
    }
    assert forall|a: int, b: int| 0 <= a < b < r implies (
    #[trigger] d.rounds@[a].prompt_meme_id,
    d.rounds@[a].prompt_situation_id,
    ) != (#[trigger] d.rounds@[b].prompt_meme_id, d.rounds@[b].prompt_situation_id) by {
        assert(d.rounds@[a] == planned_round(mode, prompts, a, deadline));
        assert(d.rounds@[b] == planned_round(mode, prompts, b, deadline));
        lemma_answer_card_injective(mode, prompts[a], prompts[b]);
    }
    assert forall|a: int, b: int| 0 <= a < b < d.hands@.len() implies (
    #[trigger] d.hands@[a].meme_id,
    d.hands@[a].situation_id,
    ) != (#[trigger] d.hands@[b].meme_id, d.hands@[b].situation_id) by {
        lemma_answer_card_injective(mode, answers[a], answers[b]);
    }
    assert forall|a: int, b: int| 0 <= a < b < d.reserves@.len() implies (
    #[trigger] d.reserves@[a].meme_id,
    d.reserves@[a].situation_id,
    ) != (#[trigger] d.reserves@[b].meme_id, d.reserves@[b].situation_id) by {
        lemma_answer_card_injective(mode, answers[p * h + a], answers[p * h + b]);
    }
    assert forall|a: int, b: int| 0 <= a < d.hands@.len() && 0 <= b < d.reserves@.len() implies (
    #[trigger] d.hands@[a].meme_id,
    d.hands@[a].situation_id,
    ) != (#[trigger] d.reserves@[b].meme_id, d.reserves@[b].situation_id) by {
        lemma_answer_card_injective(mode, answers[a], answers[p * h + b]);
    }
}

/// The kind and identifier of the prompt of a game's first round.
pub fn first_round_prompt(mode: GameMode, round: &GameRound) -> (res: (&'static str, u128))
    requires
        mode == GameMode::SituationToMeme ==> round.prompt_situation_id is Some,
        mode == GameMode::MemeToSituation ==> round.prompt_meme_id is Some,
    ensures
        mode == GameMode::SituationToMeme ==> res.0@ == "situation"@ && Some(res.1)
            == round.prompt_situation_id,
        mode == GameMode::MemeToSituation ==> res.0@ == "meme"@ && Some(res.1) == round.prompt_meme_id,
{
    match mode {
        GameMode::SituationToMeme => ("situation", round.prompt_situation_id.unwrap()),
        GameMode::MemeToSituation => ("meme", round.prompt_meme_id.unwrap()),
    }
}

} // verus!
