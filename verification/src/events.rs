//! How each message from the server changes the client's model.

use vstd::prelude::*;
use vstd::string::*;
use crate::client::{BuildMode, GameState, find_player, name_of, name_or_someone, seat_of, seated, my_special_build};
use crate::lists::{copy_list, keep, retain_buildings_elsewhere, retain_players_other, reversed};
use crate::narration::{
    built_line, built_text, discarded_line, discarded_text, drew_line, drew_text, free_roads_line,
    free_roads_text, monopoly_line, monopoly_text, played_line, played_text, port_line, port_text,
    robbed_line, robbed_text, rolled_line, rolled_text, seven_line, seven_text, start_line, start_text,
    must_discard_line, must_discard_text, name_then, phase_line, phase_text, phrase_then,
    plenty_line, plenty_text, turn_line, turn_text, won_line, won_text,
};
use crate::payout::{log_of, payout, payout_lines};
use crate::rules::{
    BankInfo, BoardInfo, BoardState, BuildingInfo, DevCardType, GamePhase, LobbyGameInfo, PlayerId, PlayerInfo,
    PortType, Resources, StructureType, resources_total,
};

verus! {

/// The log gained exactly one line.
pub open spec fn logged(before: GameState, after: GameState, line: Seq<char>) -> bool {
    log_of(after.messages@) == log_of(before.messages@).push(line)
}

/// The log is as it was.
pub open spec fn log_kept(before: GameState, after: GameState) -> bool {
    log_of(after.messages@) == log_of(before.messages@)
}

/// The roster with one player's card count replaced.
pub open spec fn with_resource_count(ps: Seq<PlayerInfo>, id: PlayerId, count: u8) -> Seq<PlayerInfo> {
    if seated(ps, id) {
        ps.update(seat_of(ps, id), PlayerInfo { resource_count: count, ..ps[seat_of(ps, id)] })
    } else {
        ps
    }
}

/// The roster with one player's development card count replaced.
pub open spec fn with_dev_count(ps: Seq<PlayerInfo>, id: PlayerId, count: usize) -> Seq<PlayerInfo> {
    if seated(ps, id) {
        ps.update(seat_of(ps, id), PlayerInfo { dev_card_count: count, ..ps[seat_of(ps, id)] })
    } else {
        ps
    }
}

/// A player's development card count, as the roster has it.
pub open spec fn dev_count(ps: Seq<PlayerInfo>, id: PlayerId) -> usize {
    ps[seat_of(ps, id)].dev_card_count
}

/// The roster after a batch of updates, each replacing the first entry with
/// the same id; updates for players not in the roster are dropped.
pub open spec fn apply_updates(ps: Seq<PlayerInfo>, ups: Seq<PlayerInfo>) -> Seq<PlayerInfo>
    decreases ups.len(),
{
    if ups.len() == 0 {
        ps
    } else {
        let r = apply_updates(ps, ups.drop_last());
        let u = ups.last();
        if seated(r, u.player_id) {
            r.update(seat_of(r, u.player_id), u)
        } else {
            r
        }
    }
}

/// My harbours, as the last update about me in a batch gives them.
pub open spec fn ports_from_updates(ps: Seq<PlayerInfo>, ups: Seq<PlayerInfo>, me: Option<PlayerId>) -> Option<Seq<PortType>>
    decreases ups.len(),
{
    if ups.len() == 0 {
        None
    } else {
        let r = apply_updates(ps, ups.drop_last());
        let u = ups.last();
        if seated(r, u.player_id) && me == Some(u.player_id) {
            Some(u.ports@)
        } else {
            ports_from_updates(ps, ups.drop_last(), me)
        }
    }
}

/// The next value of a counter that starts at nought.
pub open spec fn next_seq(prev: Option<u64>) -> u64 {
    match prev {
        Some(n) => (n + 1) as u64,
        None => 0,
    }
}

impl GameState {
    /// Appends a line to the event log.
    pub(crate) fn log(&mut self, line: String)
        ensures
            logged(*old(self), *final(self), line@),
            *final(self) == (GameState { messages: final(self).messages, ..*old(self) }),
    {
        let ghost before = self.messages@;
        self.messages.push(line);
        proof {
            assert(log_of(self.messages@) =~= log_of(before).push(line@));
        }
    }

    pub(crate) fn on_lobby_update(&mut self, games: Vec<LobbyGameInfo>)
        ensures
            *final(self) == (GameState { lobby_games: games, ..*old(self) }),
    {
        self.lobby_games = games;
    }

    pub(crate) fn on_session(&mut self, player_id: PlayerId)
        ensures
            *final(self) == (GameState { player_id: Some(player_id), ..*old(self) }),
    {
        self.player_id = Some(player_id);
    }

    pub(crate) fn on_joined(&mut self, game_id: String)
        ensures
            *final(self) == (GameState {
                game_id: Some(game_id),
                is_in_game: true,
                winner_player_id: None,
                game_stats: None,
                secret_victory_points: 0,
                ..*old(self)
            }),
    {
        self.game_id = Some(game_id);
        self.is_in_game = true;
        self.winner_player_id = None;
        self.game_stats = None;
        self.secret_victory_points = 0;
    }

    pub(crate) fn on_bank_update(&mut self, bank: BankInfo)
        ensures
            *final(self) == (GameState { bank, ..*old(self) }),
    {
        self.bank = bank;
    }

    pub(crate) fn on_error(&mut self, message: String)
        ensures
            logged(*old(self), *final(self), "Error: "@ + message@),
            *final(self) == (GameState { messages: final(self).messages, ..*old(self) }),
    {
        let line = phrase_then("Error: ", message.as_str());
        self.log(line);
    }

    pub(crate) fn on_secret_points(&mut self, points: i32)
        ensures
            *final(self) == (GameState { secret_victory_points: points, ..*old(self) }),
    {
        self.secret_victory_points = points;
    }

    pub(crate) fn on_system_note(&mut self, text: String)
        ensures
            logged(*old(self), *final(self), text@),
            *final(self) == (GameState { messages: final(self).messages, ..*old(self) }),
    {
        self.log(text);
    }

    pub(crate) fn on_robber_moved(&mut self, player_id: PlayerId, q: i32, r: i32)
        ensures
            logged(*old(self), *final(self), name_of(old(self).players@, player_id) + " moved the robber"@),
            *final(self) == (GameState { robber_pos: Some((q, r)), messages: final(self).messages, ..*old(self) }),
    {
        self.robber_pos = Some((q, r));
        let line = name_then(self.player_name(player_id), " moved the robber");
        self.log(line);
    }

    pub(crate) fn on_next_turn(&mut self, player_id: PlayerId)
        requires
            old(self).turn_epoch < u64::MAX,
        ensures
            final(self).fresh_dev_cards@.len() == 0,
            logged(*old(self), *final(self), turn_line(name_of(old(self).players@, player_id))),
            *final(self) == (GameState {
                current_turn_player: player_id,
                turn_epoch: (old(self).turn_epoch + 1) as u64,
                last_dice_roll: None,
                fresh_dev_cards: final(self).fresh_dev_cards,
                dev_card_played_this_turn: false,
                waiting_for_discards: false,
                messages: final(self).messages,
                ..*old(self)
            }),
    {
        self.current_turn_player = player_id;
        self.turn_epoch = self.turn_epoch + 1;
        self.last_dice_roll = None;
        self.fresh_dev_cards = Vec::new();
        self.dev_card_played_this_turn = false;
        self.waiting_for_discards = false;
        let line = turn_text(self.player_name(player_id));
        self.log(line);
    }

    pub(crate) fn on_phase_changed(&mut self, new_phase: GamePhase)
        ensures
            logged(
                *old(self),
                *final(self),
                phase_line(new_phase, my_special_build(GameState { game_phase: new_phase, ..*old(self) })),
            ),
            *final(self) == (GameState { game_phase: new_phase, messages: final(self).messages, ..*old(self) }),
    {
        self.game_phase = new_phase;
        let mine = self.is_my_special_build();
        let line = phase_text(new_phase, mine);
        self.log(line);
    }

    pub(crate) fn on_must_discard(&mut self, player_id: PlayerId, count: usize)
        ensures
            logged(*old(self), *final(self), must_discard_line(name_of(old(self).players@, player_id), count as nat)),
            *final(self) == (GameState {
                must_discard_count: if old(self).player_id == Some(player_id) {
                    Some(count)
                } else {
                    old(self).must_discard_count
                },
                messages: final(self).messages,
                ..*old(self)
            }),
    {
        let line = must_discard_text(self.player_name(player_id), count);
        self.log(line);
        if self.player_id == Some(player_id) {
            self.must_discard_count = Some(count);
        }
    }

    pub(crate) fn on_cards_discarded(&mut self, player_id: PlayerId, resources: Resources)
        ensures
            logged(*old(self), *final(self), discarded_line(name_of(old(self).players@, player_id), resources)),
            *final(self) == (GameState {
                must_discard_count: if old(self).player_id == Some(player_id) {
                    None
                } else {
                    old(self).must_discard_count
                },
                messages: final(self).messages,
                ..*old(self)
            }),
    {
        let line = discarded_text(self.player_name(player_id), resources);
        self.log(line);
        if self.player_id == Some(player_id) {
            self.must_discard_count = None;
        }
    }

    pub(crate) fn on_must_move_robber(&mut self, player_id: PlayerId)
        ensures
            old(self).player_id == Some(player_id) ==> logged(*old(self), *final(self), "You must move the robber!"@)
                && *final(self) == (GameState {
                    waiting_for_discards: false,
                    must_move_robber: true,
                    messages: final(self).messages,
                    ..*old(self)
                }),
            old(self).player_id != Some(player_id) ==> *final(self) == *old(self),
    {
        if self.player_id == Some(player_id) {
            self.waiting_for_discards = false;
            self.must_move_robber = true;
            self.log(String::from_str("You must move the robber!"));
        }
    }

    pub(crate) fn on_can_rob(&mut self, player_ids: Vec<PlayerId>)
        ensures
            player_ids@.len() == 0 ==> logged(*old(self), *final(self), "No players to rob"@)
                && *final(self) == (GameState { messages: final(self).messages, ..*old(self) }),
            player_ids@.len() > 0 ==> *final(self) == (GameState { must_steal_from_players: player_ids, ..*old(self) }),
    {
        if player_ids.len() == 0 {
            self.log(String::from_str("No players to rob"));
        } else {
            self.must_steal_from_players = player_ids;
        }
    }

    pub(crate) fn on_must_place_roads(&mut self, player_id: PlayerId, roads_remaining: u8)
        ensures
            old(self).player_id == Some(player_id) ==> logged(*old(self), *final(self), free_roads_line(roads_remaining as nat))
                && *final(self) == (GameState {
                    free_roads_remaining: roads_remaining,
                    build_mode: BuildMode::Road,
                    messages: final(self).messages,
                    ..*old(self)
                }),
            old(self).player_id != Some(player_id) ==> *final(self) == *old(self),
    {
        if self.player_id == Some(player_id) {
            self.free_roads_remaining = roads_remaining;
            self.build_mode = BuildMode::Road;
            self.log(free_roads_text(roads_remaining));
        }
    }

    pub(crate) fn on_choose_plenty(&mut self, player_id: PlayerId)
        ensures
            old(self).player_id == Some(player_id) ==> logged(*old(self), *final(self), "Choose 2 resources to receive from the bank!"@)
                && *final(self) == (GameState {
                    year_of_plenty_pending: true,
                    messages: final(self).messages,
                    ..*old(self)
                }),
            old(self).player_id != Some(player_id) ==> *final(self) == *old(self),
    {
        if self.player_id == Some(player_id) {
            self.year_of_plenty_pending = true;
            self.log(String::from_str("Choose 2 resources to receive from the bank!"));
        }
    }

    pub(crate) fn on_plenty_received(&mut self, player_id: PlayerId, r1: crate::rules::ResourceType, r2: crate::rules::ResourceType)
        ensures
            logged(*old(self), *final(self), plenty_line(name_or_someone(old(self).players@, player_id), r1, r2)),
            *final(self) == (GameState {
                year_of_plenty_pending: if old(self).player_id == Some(player_id) {
                    false
                } else {
                    old(self).year_of_plenty_pending
                },
                messages: final(self).messages,
                ..*old(self)
            }),
    {
        if self.player_id == Some(player_id) {
            self.year_of_plenty_pending = false;
        }
        let line = plenty_text(self.name_or_someone(player_id), r1, r2);
        self.log(line);
    }

    pub(crate) fn on_choose_monopoly(&mut self, player_id: PlayerId)
        ensures
            old(self).player_id == Some(player_id) ==> logged(*old(self), *final(self), "Choose a resource type to steal from all players!"@)
                && *final(self) == (GameState {
                    monopoly_pending: true,
                    messages: final(self).messages,
                    ..*old(self)
                }),
            old(self).player_id != Some(player_id) ==> *final(self) == *old(self),
    {
        if self.player_id == Some(player_id) {
            self.monopoly_pending = true;
            self.log(String::from_str("Choose a resource type to steal from all players!"));
        }
    }

    pub(crate) fn on_dev_card_drawn(&mut self, card_type: DevCardType)
        ensures
            final(self).my_dev_cards@ == old(self).my_dev_cards@.push(card_type),
            final(self).fresh_dev_cards@ == old(self).fresh_dev_cards@.push(card_type),
            logged(*old(self), *final(self), drew_line(card_type)),
            *final(self) == (GameState {
                my_dev_cards: final(self).my_dev_cards,
                fresh_dev_cards: final(self).fresh_dev_cards,
                messages: final(self).messages,
                ..*old(self)
            }),
    {
        self.my_dev_cards.push(card_type);
        self.fresh_dev_cards.push(card_type);
        self.log(drew_text(card_type));
    }

    pub(crate) fn on_player_won(&mut self, player_id: PlayerId, points: u8, stats: crate::stats::GameStats)
        ensures
            logged(*old(self), *final(self), won_line(name_of(old(self).players@, player_id), points as nat)),
            *final(self) == (GameState {
                game_stats: Some(stats),
                winner_player_id: Some(player_id),
                messages: final(self).messages,
                ..*old(self)
            }),
    {
        let name = self.player_name(player_id);
        self.game_stats = Some(stats);
        self.winner_player_id = Some(player_id);
        self.log(won_text(name, points));
    }
}


/// The first position of a card in a hand, or -1.
pub open spec fn card_pos(cards: Seq<DevCardType>, c: DevCardType) -> int
    decreases cards.len(),
{
    if cards.len() == 0 {
        -1
    } else if cards[0] == c {
        0
    } else {
        let r = card_pos(cards.drop_first(), c);
        if r < 0 {
            -1
        } else {
            r + 1
        }
    }
}

proof fn lemma_card_pos(cards: Seq<DevCardType>, c: DevCardType, k: int)
    requires
        0 <= k <= cards.len(),
        forall|j: int| 0 <= j < k ==> cards[j] != c,
        k < cards.len() ==> cards[k] == c,
    ensures
        card_pos(cards, c) == if k < cards.len() { k } else { -1 },
    decreases k,
{
    if k > 0 {
        assert(cards.len() > 0);
        lemma_card_pos(cards.drop_first(), c, k - 1);
    }
}

/// A hand with the first copy of a card played out of it.
pub open spec fn without_card(cards: Seq<DevCardType>, c: DevCardType) -> Seq<DevCardType> {
    if card_pos(cards, c) < 0 {
        cards
    } else {
        cards.remove(card_pos(cards, c))
    }
}

/// Chat after one more line, keeping the most recent two hundred.
pub open spec fn chat_after(lines: Seq<crate::client::ChatLine>, line: crate::client::ChatLine) -> Seq<crate::client::ChatLine> {
    let pushed = lines.push(line);
    if pushed.len() > 200 {
        pushed.drop_first()
    } else {
        pushed
    }
}

/// The next chat sequence number: one past the last line's.
pub open spec fn next_chat_seq(lines: Seq<crate::client::ChatLine>) -> u64 {
    if lines.len() == 0 {
        0
    } else {
        (lines.last().seq + 1) as u64
    }
}

fn same_card(a: DevCardType, b: DevCardType) -> (r: bool)
    ensures
        r == (a == b),
{
    match (a, b) {
        (DevCardType::Knight, DevCardType::Knight) => true,
        (DevCardType::VictoryPoint, DevCardType::VictoryPoint) => true,
        (DevCardType::RoadBuilding, DevCardType::RoadBuilding) => true,
        (DevCardType::Monopoly, DevCardType::Monopoly) => true,
        (DevCardType::YearOfPlenty, DevCardType::YearOfPlenty) => true,
        _ => false,
    }
}

impl GameState {
    pub(crate) fn on_resource_update(&mut self, player_id: PlayerId, resources: Resources)
        requires
            resources_total(resources) <= u8::MAX,
        ensures
            final(self).players@ == with_resource_count(old(self).players@, player_id, resources_total(resources) as u8),
            *final(self) == (GameState {
                my_resources: if old(self).player_id == Some(player_id) {
                    resources
                } else {
                    old(self).my_resources
                },
                players: final(self).players,
                ..*old(self)
            }),
    {
        if self.player_id == Some(player_id) {
            self.my_resources = resources;
        }
        let count = resources.brick + resources.lumber + resources.wool + resources.grain + resources.ore;
        match find_player(&self.players, player_id) {
            Some(k) => {
                let mut p = self.players.remove(k);
                p.resource_count = count;
                self.players.insert(k, p);
                proof {
                    assert(self.players@ =~= old(self).players@.update(k as int, PlayerInfo { resource_count: count, ..old(self).players@[k as int] }));
                }
            },
            None => {},
        }
    }

    pub(crate) fn on_built(&mut self, player_id: PlayerId, structure_type: StructureType, coords: (i32, i32))
        ensures
            logged(*old(self), *final(self), built_line(name_of(old(self).players@, player_id), structure_type)),
            structure_type == StructureType::Settlement ==> *final(self) == (GameState {
                settlements: final(self).settlements,
                messages: final(self).messages,
                ..*old(self)
            }) && final(self).settlements@ == old(self).settlements@.push(
                BuildingInfo { player_id, x: coords.0, y: coords.1 },
            ),
            structure_type == StructureType::City ==> *final(self) == (GameState {
                settlements: final(self).settlements,
                cities: final(self).cities,
                messages: final(self).messages,
                ..*old(self)
            }) && final(self).settlements@ == keep(
                old(self).settlements@,
                |b: BuildingInfo| !(b.x == coords.0 && b.y == coords.1),
            ) && final(self).cities@ == old(self).cities@.push(BuildingInfo { player_id, x: coords.0, y: coords.1 }),
            structure_type == StructureType::Road ==> {
                let mine_free = old(self).player_id == Some(player_id) && old(self).free_roads_remaining > 0;
                let left = (old(self).free_roads_remaining - 1) as u8;
                &&& final(self).roads@ == old(self).roads@.push(BuildingInfo { player_id, x: coords.0, y: coords.1 })
                &&& *final(self) == (GameState {
                    roads: final(self).roads,
                    free_roads_remaining: if mine_free { left } else { old(self).free_roads_remaining },
                    build_mode: if mine_free && left == 0 { BuildMode::Idle } else { old(self).build_mode },
                    messages: final(self).messages,
                    ..*old(self)
                })
            },
    {
        let building = BuildingInfo { player_id, x: coords.0, y: coords.1 };
        match structure_type {
            StructureType::Settlement => {
                self.settlements.push(building);
            },
            StructureType::City => {
                retain_buildings_elsewhere(&mut self.settlements, coords);
                self.cities.push(building);
            },
            StructureType::Road => {
                self.roads.push(building);
                if self.player_id == Some(player_id) {
                    let remaining = self.free_roads_remaining;
                    if remaining > 0 {
                        let new_remaining = remaining - 1;
                        self.free_roads_remaining = new_remaining;
                        if new_remaining == 0 {
                            self.build_mode = BuildMode::Idle;
                        }
                    }
                }
            },
        }
        let line = built_text(self.player_name(player_id), structure_type);
        self.log(line);
    }

    pub(crate) fn on_chat(&mut self, player_id: PlayerId, text: String)
        requires
            old(self).chat@.len() > 0 ==> old(self).chat@.last().seq < u64::MAX,
        ensures
            final(self).chat@ == chat_after(
                old(self).chat@,
                crate::client::ChatLine { player_id, text, seq: next_chat_seq(old(self).chat@) },
            ),
            *final(self) == (GameState { chat: final(self).chat, ..*old(self) }),
    {
        let n = self.chat.len();
        let seq: u64 = if n == 0 { 0 } else { self.chat[n - 1].seq + 1 };
        self.chat.push(crate::client::ChatLine { player_id, text, seq });
        if self.chat.len() > 200 {
            self.chat.remove(0);
            proof {
                let pushed = old(self).chat@.push(crate::client::ChatLine { player_id, text, seq });
                assert(self.chat@ =~= pushed.drop_first());
            }
        }
    }

    pub(crate) fn on_dev_card_bought(&mut self, player_id: PlayerId)
        requires
            seated(old(self).players@, player_id) ==> dev_count(old(self).players@, player_id) < usize::MAX,
        ensures
            final(self).players@ == (if seated(old(self).players@, player_id) {
                with_dev_count(old(self).players@, player_id, (dev_count(old(self).players@, player_id) + 1) as usize)
            } else {
                old(self).players@
            }),
            old(self).player_id == Some(player_id) ==> log_kept(*old(self), *final(self)),
            old(self).player_id != Some(player_id) ==> logged(
                *old(self),
                *final(self),
                name_of(final(self).players@, player_id) + " bought a development card"@,
            ),
            *final(self) == (GameState { players: final(self).players, messages: final(self).messages, ..*old(self) }),
    {
        match find_player(&self.players, player_id) {
            Some(k) => {
                let mut p = self.players.remove(k);
                p.dev_card_count = p.dev_card_count + 1;
                let c = p.dev_card_count;
                self.players.insert(k, p);
                proof {
                    assert(self.players@ =~= old(self).players@.update(k as int, PlayerInfo { dev_card_count: c, ..old(self).players@[k as int] }));
                }
            },
            None => {},
        }
        if self.player_id == Some(player_id) {
            return;
        }
        let line = name_then(self.player_name(player_id), " bought a development card");
        self.log(line);
    }

    /// Takes the first copy of a card out of my hand, and marks a card played.
    pub(crate) fn play_out_card(&mut self, card_type: DevCardType)
        ensures
            final(self).my_dev_cards@ == without_card(old(self).my_dev_cards@, card_type),
            *final(self) == (GameState {
                my_dev_cards: final(self).my_dev_cards,
                dev_card_played_this_turn: true,
                ..*old(self)
            }),
    {
        let mut k: usize = 0;
        while k < self.my_dev_cards.len() && !same_card(self.my_dev_cards[k], card_type)
            invariant
                k <= self.my_dev_cards@.len(),
                forall|j: int| 0 <= j < k ==> self.my_dev_cards@[j] != card_type,
            decreases self.my_dev_cards@.len() - k,
        {
            k = k + 1;
        }
        proof {
            lemma_card_pos(self.my_dev_cards@, card_type, k as int);
        }
        if k < self.my_dev_cards.len() {
            self.my_dev_cards.remove(k);
        }
        self.dev_card_played_this_turn = true;
    }

    /// One fewer development card against a player in the roster, never
    /// going below nought.
    fn drop_dev_count(&mut self, player_id: PlayerId)
        ensures
            final(self).players@ == (if seated(old(self).players@, player_id) {
                with_dev_count(
                    old(self).players@,
                    player_id,
                    if dev_count(old(self).players@, player_id) > 0 {
                        (dev_count(old(self).players@, player_id) - 1) as usize
                    } else {
                        0
                    },
                )
            } else {
                old(self).players@
            }),
            *final(self) == (GameState { players: final(self).players, ..*old(self) }),
    {
        match find_player(&self.players, player_id) {
            Some(k) => {
                let mut p = self.players.remove(k);
                p.dev_card_count = if p.dev_card_count > 0 { p.dev_card_count - 1 } else { 0 };
                let c = p.dev_card_count;
                self.players.insert(k, p);
                proof {
                    assert(self.players@ =~= old(self).players@.update(k as int, PlayerInfo { dev_card_count: c, ..old(self).players@[k as int] }));
                }
            },
            None => {},
        }
    }

    pub(crate) fn on_dev_card_played(&mut self, player_id: PlayerId, card_type: DevCardType)
        ensures
            final(self).players@ == (if seated(old(self).players@, player_id) {
                with_dev_count(
                    old(self).players@,
                    player_id,
                    if dev_count(old(self).players@, player_id) > 0 {
                        (dev_count(old(self).players@, player_id) - 1) as usize
                    } else {
                        0
                    },
                )
            } else {
                old(self).players@
            }),
            final(self).my_dev_cards@ == if old(self).player_id == Some(player_id) {
                without_card(old(self).my_dev_cards@, card_type)
            } else {
                old(self).my_dev_cards@
            },
            (card_type == DevCardType::Knight || card_type == DevCardType::VictoryPoint) ==> logged(
                *old(self),
                *final(self),
                played_line(name_of(final(self).players@, player_id), card_type),
            ),
            !(card_type == DevCardType::Knight || card_type == DevCardType::VictoryPoint) ==> log_kept(
                *old(self),
                *final(self),
            ),
            *final(self) == (GameState {
                players: final(self).players,
                my_dev_cards: final(self).my_dev_cards,
                dev_card_played_this_turn: if old(self).player_id == Some(player_id) {
                    true
                } else {
                    old(self).dev_card_played_this_turn
                },
                messages: final(self).messages,
                ..*old(self)
            }),
    {
        if self.player_id == Some(player_id) {
            self.play_out_card(card_type);
        }
        self.drop_dev_count(player_id);
        let shown = match card_type {
            DevCardType::Knight | DevCardType::VictoryPoint => true,
            _ => false,
        };
        if shown {
            let line = played_text(self.player_name(player_id), card_type);
            self.log(line);
        }
    }

    pub(crate) fn on_player_robbed(&mut self, thief_id: PlayerId, victim_id: PlayerId, resource: Option<crate::rules::ResourceType>, stole_a_card: bool)
        requires
            stole_a_card ==> (old(self).last_steal_event matches Some(e) ==> e.seq < u64::MAX),
        ensures
            logged(
                *old(self),
                *final(self),
                robbed_line(name_of(old(self).players@, thief_id), name_of(old(self).players@, victim_id), resource, stole_a_card),
            ),
            *final(self) == (GameState {
                last_steal_event: if stole_a_card {
                    Some(crate::client::StealEvent {
                        thief: thief_id,
                        victim: victim_id,
                        resource,
                        seq: next_seq(match old(self).last_steal_event { Some(e) => Some(e.seq), None => None }),
                    })
                } else {
                    old(self).last_steal_event
                },
                messages: final(self).messages,
                ..*old(self)
            }),
    {
        let thief_name = self.player_name(thief_id);
        let victim_name = self.player_name(victim_id);
        let line = robbed_text(thief_name, victim_name, resource, stole_a_card);
        self.log(line);
        if stole_a_card {
            let seq: u64 = match self.last_steal_event {
                Some(e) => e.seq + 1,
                None => 0,
            };
            self.last_steal_event = Some(crate::client::StealEvent { thief: thief_id, victim: victim_id, resource, seq });
        }
    }

    pub(crate) fn on_monopoly(&mut self, player_id: PlayerId, resource: crate::rules::ResourceType, total_stolen: u32, victims: Vec<PlayerId>)
        requires
            old(self).last_monopoly_event matches Some(e) ==> e.seq < u64::MAX,
        ensures
            logged(*old(self), *final(self), monopoly_line(name_or_someone(old(self).players@, player_id), total_stolen as nat, resource)),
            *final(self) == (GameState {
                monopoly_pending: if old(self).player_id == Some(player_id) {
                    false
                } else {
                    old(self).monopoly_pending
                },
                last_monopoly_event: Some(crate::client::MonopolyEvent {
                    thief: player_id,
                    resource,
                    victims,
                    total_stolen,
                    seq: next_seq(match old(self).last_monopoly_event { Some(e) => Some(e.seq), None => None }),
                }),
                messages: final(self).messages,
                ..*old(self)
            }),
    {
        if self.player_id == Some(player_id) {
            self.monopoly_pending = false;
        }
        let seq: u64 = match &self.last_monopoly_event {
            Some(e) => e.seq + 1,
            None => 0,
        };
        self.last_monopoly_event = Some(crate::client::MonopolyEvent { thief: player_id, resource, victims, total_stolen, seq });
        let line = monopoly_text(self.name_or_someone(player_id), total_stolen, resource);
        self.log(line);
    }

    pub(crate) fn on_ports_update(&mut self, player_id: PlayerId, ports: Vec<PortType>)
        ensures
            old(self).player_id == Some(player_id) && ports@.len() > 0 ==> logged(
                *old(self),
                *final(self),
                port_line(ports@.last()),
            ) && *final(self) == (GameState { my_ports: ports, messages: final(self).messages, ..*old(self) }),
            old(self).player_id == Some(player_id) && ports@.len() == 0 ==> *final(self) == (GameState {
                my_ports: ports,
                ..*old(self)
            }),
            old(self).player_id != Some(player_id) ==> *final(self) == *old(self),
    {
        if self.player_id == Some(player_id) {
            let n = ports.len();
            if n > 0 {
                let last = ports[n - 1];
                self.my_ports = ports;
                self.log(port_text(last));
            } else {
                self.my_ports = ports;
            }
        }
    }

    pub(crate) fn on_left(&mut self, player_id: PlayerId)
        ensures
            final(self).players@ == keep(old(self).players@, |p: PlayerInfo| p.player_id != player_id),
            logged(*old(self), *final(self), name_of(old(self).players@, player_id) + " has left the game."@),
            *final(self) == (GameState {
                is_in_game: if old(self).player_id == Some(player_id) {
                    false
                } else {
                    old(self).is_in_game
                },
                game_id: if old(self).player_id == Some(player_id) {
                    None
                } else {
                    old(self).game_id
                },
                players: final(self).players,
                messages: final(self).messages,
                ..*old(self)
            }),
    {
        if self.player_id == Some(player_id) {
            self.is_in_game = false;
            self.game_id = None;
        }
        let name = self.player_name(player_id);
        retain_players_other(&mut self.players, player_id);
        self.log(name_then(name, " has left the game."));
    }

    pub(crate) fn on_players_update(&mut self, updated: Vec<PlayerInfo>)
        ensures
            final(self).players@ == apply_updates(old(self).players@, updated@),
            final(self).my_ports@ == match ports_from_updates(old(self).players@, updated@, old(self).player_id) {
                Some(p) => p,
                None => old(self).my_ports@,
            },
            *final(self) == (GameState { players: final(self).players, my_ports: final(self).my_ports, ..*old(self) }),
    {
        let ghost ups = updated@;
        let ghost start_ports = self.my_ports@;
        let my_id = self.player_id;
        let mut src = reversed(updated);
        let ghost mut n: int = 0;
        while src.len() > 0
            invariant
                0 <= n <= ups.len(),
                my_id == old(self).player_id,
                src@ == ups.skip(n).reverse(),
                self.players@ == apply_updates(old(self).players@, ups.take(n)),
                self.my_ports@ == match ports_from_updates(old(self).players@, ups.take(n), my_id) {
                    Some(p) => p,
                    None => start_ports,
                },
                start_ports == old(self).my_ports@,
                *self == (GameState { players: self.players, my_ports: self.my_ports, ..*old(self) }),
            decreases src@.len(),
        {
            let u = src.pop().unwrap();
            proof {
                assert(u == ups[n]);
                assert(src@ =~= ups.skip(n + 1).reverse());
                assert(ups.take(n + 1).drop_last() =~= ups.take(n));
                assert(ups.take(n + 1).last() == u);
            }
            match find_player(&self.players, u.player_id) {
                Some(k) => {
                    if my_id == Some(u.player_id) {
                        self.my_ports = copy_list(&u.ports);
                    }
                    self.players.set(k, u);
                },
                None => {},
            }
            proof {
                n = n + 1;
            }
        }
        proof {
            assert(ups.take(n) =~= ups);
        }
    }
}


/// The prompts a new game or a resync clears, with the trades.
pub open spec fn prompts_cleared(s: GameState) -> bool {
    &&& s.must_discard_count is None
    &&& !s.must_move_robber
    &&& s.must_steal_from_players@.len() == 0
    &&& !s.waiting_for_discards
    &&& !s.year_of_plenty_pending
    &&& !s.monopoly_pending
    &&& s.free_roads_remaining == 0
    &&& s.build_mode == BuildMode::Idle
    &&& s.incoming_trades@.len() == 0
    &&& s.my_offers@.len() == 0
    &&& s.my_accepted_offers@.len() == 0
    &&& s.my_counter_offers@.len() == 0
}

/// The lines a roll writes: the seven notice when it applies, the roll
/// itself, and who it paid.
pub open spec fn roll_lines(s: GameState, player_id: PlayerId, d1: u8, d2: u8, pending: usize) -> Seq<Seq<char>> {
    let total = (d1 + d2) as u8;
    let seven = total == 7 && s.player_id == Some(player_id) && pending > 0;
    (if seven { seq![seven_line(pending as nat)] } else { seq![] }) + seq![
        rolled_line(name_of(s.players@, player_id), total as nat, d1 as nat, d2 as nat),
    ] + payout_lines(s.players@, payout(s, total))
}

impl GameState {
    pub(crate) fn on_game_started(
        &mut self,
        your_player_id: PlayerId,
        players: Vec<PlayerInfo>,
        board: BoardState,
        game_phase: GamePhase,
        your_resources: Resources,
        your_dev_cards: Vec<DevCardType>,
    )
        ensures
            prompts_cleared(*final(self)),
            logged(*old(self), *final(self), start_line(game_phase, players@.len() as nat)),
            final(self).my_ports@ == (if seated(players@, your_player_id) {
                players@[seat_of(players@, your_player_id)].ports@
            } else {
                old(self).my_ports@
            }),
            *final(self) == (GameState {
                player_id: Some(your_player_id),
                players,
                hexes: board.hexes,
                settlements: board.settlements,
                cities: board.cities,
                roads: board.roads,
                robber_pos: Some(board.robber_pos),
                robber_asset: board.robber_asset,
                board_ports: board.ports,
                game_phase,
                current_turn_player: if seated(players@, your_player_id) {
                    players@[0].player_id
                } else {
                    old(self).current_turn_player
                },
                my_ports: final(self).my_ports,
                my_resources: your_resources,
                my_dev_cards: your_dev_cards,
                must_discard_count: None,
                must_move_robber: false,
                must_steal_from_players: final(self).must_steal_from_players,
                waiting_for_discards: false,
                year_of_plenty_pending: false,
                monopoly_pending: false,
                free_roads_remaining: 0,
                build_mode: BuildMode::Idle,
                incoming_trades: final(self).incoming_trades,
                my_offers: final(self).my_offers,
                my_accepted_offers: final(self).my_accepted_offers,
                my_counter_offers: final(self).my_counter_offers,
                messages: final(self).messages,
                ..*old(self)
            }),
    {
        let count = players.len();
        let seat = find_player(&players, your_player_id);
        self.player_id = Some(your_player_id);
        let BoardState { hexes, settlements, cities, roads, robber_pos, robber_asset, ports } = board;
        self.hexes = hexes;
        self.settlements = settlements;
        self.cities = cities;
        self.roads = roads;
        self.robber_pos = Some(robber_pos);
        self.robber_asset = robber_asset;
        self.board_ports = ports;
        self.game_phase = game_phase;
        self.clear_pending_prompts();
        match seat {
            Some(k) => {
                self.current_turn_player = players[0].player_id;
                self.my_ports = copy_list(&players[k].ports);
            },
            None => {},
        }
        self.players = players;
        self.my_resources = your_resources;
        self.my_dev_cards = your_dev_cards;
        self.log(start_text(game_phase, count));
    }

    pub(crate) fn on_full_sync(
        &mut self,
        player_id: PlayerId,
        players: Vec<PlayerInfo>,
        board: BoardInfo,
        game_phase: GamePhase,
        current_turn_player_id: PlayerId,
        robber_pos: (i32, i32),
        last_dice_roll: Option<(u8, u8)>,
        your_resources: Resources,
        your_dev_cards: Vec<DevCardType>,
        pending_trades: Vec<crate::rules::TradeSnapshot>,
        bank: BankInfo,
        now: i64,
    )
        ensures
            logged(*old(self), *final(self), "Game state synchronized."@),
            final(self).my_ports@ == (if seated(players@, player_id) {
                players@[seat_of(players@, player_id)].ports@
            } else {
                old(self).my_ports@
            }),
            final(self).fresh_dev_cards@ == your_dev_cards@,
            final(self).incoming_trades@ == crate::trades::restored_incoming(pending_trades@, player_id, now as int),
            final(self).my_accepted_offers@ == crate::trades::restored_accepted(pending_trades@, player_id),
            final(self).my_counter_offers@ == crate::trades::restored_counters(pending_trades@, player_id),
            final(self).my_offers@.len() == crate::trades::restored_mine(pending_trades@, player_id).len(),
            forall|k: int|
                0 <= k < final(self).my_offers@.len() ==> crate::trades::offer_restored(
                    #[trigger] final(self).my_offers@[k],
                    crate::trades::restored_mine(pending_trades@, player_id)[k],
                ),
            final(self).must_steal_from_players@.len() == 0,
            *final(self) == (GameState {
                player_id: Some(player_id),
                players,
                hexes: board.hexes,
                settlements: board.settlements,
                cities: board.cities,
                roads: board.roads,
                robber_pos: Some(robber_pos),
                robber_asset: board.robber_asset,
                board_ports: board.ports,
                game_phase,
                current_turn_player: current_turn_player_id,
                my_ports: final(self).my_ports,
                my_resources: your_resources,
                my_dev_cards: your_dev_cards,
                last_dice_roll,
                table_last_roll: if last_dice_roll is Some { last_dice_roll } else { old(self).table_last_roll },
                bank,
                fresh_dev_cards: final(self).fresh_dev_cards,
                must_discard_count: None,
                must_move_robber: false,
                must_steal_from_players: final(self).must_steal_from_players,
                waiting_for_discards: false,
                year_of_plenty_pending: false,
                monopoly_pending: false,
                free_roads_remaining: 0,
                build_mode: BuildMode::Idle,
                incoming_trades: final(self).incoming_trades,
                my_offers: final(self).my_offers,
                my_accepted_offers: final(self).my_accepted_offers,
                my_counter_offers: final(self).my_counter_offers,
                messages: final(self).messages,
                ..*old(self)
            }),
    {
        self.clear_pending_prompts();
        let seat = find_player(&players, player_id);
        self.player_id = Some(player_id);
        let BoardInfo { hexes, settlements, cities, roads, robber_pos: _, robber_asset, ports } = board;
        self.hexes = hexes;
        self.settlements = settlements;
        self.cities = cities;
        self.roads = roads;
        self.robber_pos = Some(robber_pos);
        self.robber_asset = robber_asset;
        self.board_ports = ports;
        self.game_phase = game_phase;
        self.current_turn_player = current_turn_player_id;
        match seat {
            Some(k) => {
                self.my_ports = copy_list(&players[k].ports);
            },
            None => {},
        }
        self.players = players;
        self.log(String::from_str("Game state synchronized."));
        self.my_resources = your_resources;
        let fresh = copy_list(&your_dev_cards);
        self.my_dev_cards = your_dev_cards;
        self.last_dice_roll = last_dice_roll;
        if last_dice_roll.is_some() {
            self.table_last_roll = last_dice_roll;
        }
        self.bank = bank;
        self.restore_trades(player_id, pending_trades, now);
        self.fresh_dev_cards = fresh;
    }

    pub(crate) fn on_dice_rolled(&mut self, player_id: PlayerId, dice_1: u8, dice_2: u8, discards_pending: usize)
        requires
            dice_1 + dice_2 <= u8::MAX,
            old(self).last_roll_event matches Some(e) ==> e.1 < u64::MAX,
            crate::payout::producing_fit(old(self).hexes@, old(self).robber_pos, (dice_1 + dice_2) as u8),
        ensures
            log_of(final(self).messages@) == log_of(old(self).messages@) + roll_lines(*old(self), player_id, dice_1, dice_2, discards_pending),
            *final(self) == (GameState {
                last_dice_roll: Some((dice_1, dice_2)),
                table_last_roll: Some((dice_1, dice_2)),
                last_roll_event: Some(((dice_1 + dice_2) as u8, next_seq(match old(self).last_roll_event { Some(e) => Some(e.1), None => None }))),
                waiting_for_discards: if dice_1 + dice_2 == 7 && old(self).player_id == Some(player_id) && discards_pending > 0 {
                    true
                } else {
                    old(self).waiting_for_discards
                },
                messages: final(self).messages,
                ..*old(self)
            }),
    {
        let total = dice_1 + dice_2;
        self.last_dice_roll = Some((dice_1, dice_2));
        self.table_last_roll = Some((dice_1, dice_2));
        let seq: u64 = match self.last_roll_event {
            Some(e) => e.1 + 1,
            None => 0,
        };
        self.last_roll_event = Some((total, seq));
        let ghost start = log_of(self.messages@);
        if total == 7 && self.player_id == Some(player_id) && discards_pending > 0 {
            self.waiting_for_discards = true;
            self.log(seven_text(discards_pending));
        }
        let ghost mid = log_of(self.messages@);
        let line = rolled_text(self.player_name(player_id), total, dice_1, dice_2);
        self.log(line);
        let ghost mid2 = log_of(self.messages@);
        self.log_payout(total);
        proof {
            let seven = total == 7 && old(self).player_id == Some(player_id) && discards_pending > 0;
            let a: Seq<Seq<char>> = if seven { seq![seven_line(discards_pending as nat)] } else { seq![] };
            assert(mid == start + a);
            assert(log_of(self.messages@) =~= log_of(old(self).messages@) + roll_lines(*old(self), player_id, dice_1, dice_2, discards_pending));
        }
    }
}

} // verus!
