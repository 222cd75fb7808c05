//! Handling one message from the server: which change each message makes to
//! the client's state, and the dispatch that makes it.

use vstd::prelude::*;
use crate::protocol::ServerMessage;
use crate::client::{GameState, BuildMode, MyOffer, PendingTradeOffer, name_of, name_or_someone, seated, seat_of, my_special_build};
use crate::rules::{BuildingInfo, DevCardType, PlayerId, PlayerInfo, StructureType, resources_total};
use crate::lists::keep;
use crate::payout::log_of;
use crate::events::{apply_updates, chat_after, dev_count, log_kept, logged, next_chat_seq, next_seq, ports_from_updates, prompts_cleared, roll_lines, with_dev_count, with_resource_count, without_card};
use crate::trades::{bids_rewritten, closed_lists, fresh_offer, offer_reaches, offer_restored, proposed_line, restored_accepted, restored_counters, restored_incoming, restored_mine, with_id, with_player};
use crate::narration::{built_line, completed_line, discarded_line, drew_line, free_roads_line, monopoly_line, must_discard_line, phase_line, played_line, plenty_line, port_line, robbed_line, start_line, turn_line, won_line};
use crate::banklog::{bank_log, bank_merge_fits};
use crate::bids::{law_bid_lists_stay_clean, sync_clean, trade_lists_clean};

verus! {

/// What the state may hold for a message to be handled without overflow:
/// the counters a message bumps are below their limits, and the amounts it
/// adds up fit their types.
pub open spec fn acceptable(before: GameState, msg: ServerMessage) -> bool {
    match msg {
        ServerMessage::DiceRolled { dice_1, dice_2, .. } => {
            &&& dice_1 + dice_2 <= u8::MAX
            &&& before.last_roll_event matches Some(e) ==> e.1 < u64::MAX
            &&& crate::payout::producing_fit(before.hexes@, before.robber_pos, (dice_1 + dice_2) as u8)
        },
        ServerMessage::ResourceUpdate { resources, .. } => {
            &&& resources_total(resources) <= u8::MAX
        },
        ServerMessage::NextTurn { .. } => {
            &&& before.turn_epoch < u64::MAX
        },
        ServerMessage::ChatMessage { .. } => {
            &&& before.chat@.len() > 0 ==> before.chat@.last().seq < u64::MAX
        },
        ServerMessage::DevCardBought { player_id, .. } => {
            &&& seated(before.players@, player_id) ==> dev_count(before.players@, player_id) < usize::MAX
        },
        ServerMessage::PlayerRobbed { stole_a_card, .. } => {
            &&& stole_a_card ==> (before.last_steal_event matches Some(e) ==> e.seq < u64::MAX)
        },
        ServerMessage::MonopolyResourcesStolen { .. } => {
            &&& before.last_monopoly_event matches Some(e) ==> e.seq < u64::MAX
        },
        ServerMessage::BankTradeCompleted { player_id, gave, received, gave_count, received_count, .. } => {
            &&& bank_merge_fits(before, player_id, gave, received, gave_count, received_count)
        },
        _ => true,
    }
}

/// What handling a message does to the state, message by message.
pub open spec fn handled(before: GameState, msg: ServerMessage, now: i64, after: GameState) -> bool {
    match msg {
        ServerMessage::LobbyUpdate { games, .. } => {
            &&& after == (GameState { lobby_games: games, ..before })
        },
        ServerMessage::Session { player_id, .. } => {
            &&& after == (GameState { player_id: Some(player_id), ..before })
        },
        ServerMessage::Joined { game_id, .. } => {
            &&& after == (GameState {
                game_id: Some(game_id),
                is_in_game: true,
                winner_player_id: None,
                game_stats: None,
                secret_victory_points: 0,
                ..before
            })
        },
        ServerMessage::PlayersUpdate { players, .. } => {
            let updated = players;
            &&& after.players@ == apply_updates(before.players@, updated@)
            &&& after.my_ports@ == match ports_from_updates(before.players@, updated@, before.player_id) {
                Some(p) => p,
                None => before.my_ports@,
            }
            &&& after == (GameState { players: after.players, my_ports: after.my_ports, ..before })
        },
        ServerMessage::GameStarted { your_player_id, players, board, game_phase, your_resources, your_dev_cards, .. } => {
            &&& prompts_cleared(after)
            &&& logged(before, after, start_line(game_phase, players@.len() as nat))
            &&& after.my_ports@ == (if seated(players@, your_player_id) {
                players@[seat_of(players@, your_player_id)].ports@
            } else {
                before.my_ports@
            })
            &&& after == (GameState {
                player_id: Some(your_player_id),
                players,
                hexes: board.hexes,
                settlements: board.settlements,
                cities: board.cities,
                roads: board.roads,
                robber_pos: Some(board.robber_pos),
                robber_asset: board.robber_asset,
                board_ports: board.ports,
                game_phase,
                current_turn_player: if seated(players@, your_player_id) {
                    players@[0].player_id
                } else {
                    before.current_turn_player
                },
                my_ports: after.my_ports,
                my_resources: your_resources,
                my_dev_cards: your_dev_cards,
                must_discard_count: None,
                must_move_robber: false,
                must_steal_from_players: after.must_steal_from_players,
                waiting_for_discards: false,
                year_of_plenty_pending: false,
                monopoly_pending: false,
                free_roads_remaining: 0,
                build_mode: BuildMode::Idle,
                incoming_trades: after.incoming_trades,
                my_offers: after.my_offers,
                my_accepted_offers: after.my_accepted_offers,
                my_counter_offers: after.my_counter_offers,
                messages: after.messages,
                ..before
            })
        },
        ServerMessage::BankUpdate { bank, .. } => {
            &&& after == (GameState { bank, ..before })
        },
        ServerMessage::DiceRolled { player_id, dice_1, dice_2, discards_pending, .. } => {
            &&& log_of(after.messages@) == log_of(before.messages@) + roll_lines(before, player_id, dice_1, dice_2, discards_pending)
            &&& after == (GameState {
                last_dice_roll: Some((dice_1, dice_2)),
                table_last_roll: Some((dice_1, dice_2)),
                last_roll_event: Some(((dice_1 + dice_2) as u8, next_seq(match before.last_roll_event { Some(e) => Some(e.1), None => None }))),
                waiting_for_discards: if dice_1 + dice_2 == 7 && before.player_id == Some(player_id) && discards_pending > 0 {
                    true
                } else {
                    before.waiting_for_discards
                },
                messages: after.messages,
                ..before
            })
        },
        ServerMessage::ResourceUpdate { player_id, resources, .. } => {
            &&& after.players@ == with_resource_count(before.players@, player_id, resources_total(resources) as u8)
            &&& after == (GameState {
                my_resources: if before.player_id == Some(player_id) {
                    resources
                } else {
                    before.my_resources
                },
                players: after.players,
                ..before
            })
        },
        ServerMessage::Built { player_id, structure_type, coords, .. } => {
            &&& logged(before, after, built_line(name_of(before.players@, player_id), structure_type))
            &&& structure_type == StructureType::Settlement ==> after == (GameState {
                settlements: after.settlements,
                messages: after.messages,
                ..before
            }) && after.settlements@ == before.settlements@.push(
                BuildingInfo { player_id, x: coords.0, y: coords.1 },
            )
            &&& structure_type == StructureType::City ==> after == (GameState {
                settlements: after.settlements,
                cities: after.cities,
                messages: after.messages,
                ..before
            }) && after.settlements@ == keep(
                before.settlements@,
                |b: BuildingInfo| !(b.x == coords.0 && b.y == coords.1),
            ) && after.cities@ == before.cities@.push(BuildingInfo { player_id, x: coords.0, y: coords.1 })
            &&& structure_type == StructureType::Road ==> {
                let mine_free = before.player_id == Some(player_id) && before.free_roads_remaining > 0;
                let left = (before.free_roads_remaining - 1) as u8;
                &&& after.roads@ == before.roads@.push(BuildingInfo { player_id, x: coords.0, y: coords.1 })
                &&& after == (GameState {
                    roads: after.roads,
                    free_roads_remaining: if mine_free { left } else { before.free_roads_remaining },
                    build_mode: if mine_free && left == 0 { BuildMode::Idle } else { before.build_mode },
                    messages: after.messages,
                    ..before
                })
            }
        },
        ServerMessage::NextTurn { player_id, .. } => {
            &&& after.fresh_dev_cards@.len() == 0
            &&& logged(before, after, turn_line(name_of(before.players@, player_id)))
            &&& after == (GameState {
                current_turn_player: player_id,
                turn_epoch: (before.turn_epoch + 1) as u64,
                last_dice_roll: None,
                fresh_dev_cards: after.fresh_dev_cards,
                dev_card_played_this_turn: false,
                waiting_for_discards: false,
                messages: after.messages,
                ..before
            })
        },
        ServerMessage::PhaseChanged { new_phase, .. } => {
            &&& logged(
                before,
                after,
                phase_line(new_phase, my_special_build(GameState { game_phase: new_phase, ..before })),
            )
            &&& after == (GameState { game_phase: new_phase, messages: after.messages, ..before })
        },
        ServerMessage::ChatMessage { player_id, text, .. } => {
            &&& after.chat@ == chat_after(
                before.chat@,
                crate::client::ChatLine { player_id, text, seq: next_chat_seq(before.chat@) },
            )
            &&& after == (GameState { chat: after.chat, ..before })
        },
        ServerMessage::DevCardBought { player_id, .. } => {
            &&& after.players@ == (if seated(before.players@, player_id) {
                with_dev_count(before.players@, player_id, (dev_count(before.players@, player_id) + 1) as usize)
            } else {
                before.players@
            })
            &&& before.player_id == Some(player_id) ==> log_kept(before, after)
            &&& before.player_id != Some(player_id) ==> logged(
                before,
                after,
                name_of(after.players@, player_id) + " bought a development card"@,
            )
            &&& after == (GameState { players: after.players, messages: after.messages, ..before })
        },
        ServerMessage::DevCardDrawn { card_type, .. } => {
            &&& after.my_dev_cards@ == before.my_dev_cards@.push(card_type)
            &&& after.fresh_dev_cards@ == before.fresh_dev_cards@.push(card_type)
            &&& logged(before, after, drew_line(card_type))
            &&& after == (GameState {
                my_dev_cards: after.my_dev_cards,
                fresh_dev_cards: after.fresh_dev_cards,
                messages: after.messages,
                ..before
            })
        },
        ServerMessage::DevCardPlayed { player_id, card_type, .. } => {
            &&& after.players@ == (if seated(before.players@, player_id) {
                with_dev_count(
                    before.players@,
                    player_id,
                    if dev_count(before.players@, player_id) > 0 {
                        (dev_count(before.players@, player_id) - 1) as usize
                    } else {
                        0
                    },
                )
            } else {
                before.players@
            })
            &&& after.my_dev_cards@ == if before.player_id == Some(player_id) {
                without_card(before.my_dev_cards@, card_type)
            } else {
                before.my_dev_cards@
            }
            &&& (card_type == DevCardType::Knight || card_type == DevCardType::VictoryPoint) ==> logged(
                before,
                after,
                played_line(name_of(after.players@, player_id), card_type),
            )
            &&& !(card_type == DevCardType::Knight || card_type == DevCardType::VictoryPoint) ==> log_kept(
                before,
                after,
            )
            &&& after == (GameState {
                players: after.players,
                my_dev_cards: after.my_dev_cards,
                dev_card_played_this_turn: if before.player_id == Some(player_id) {
                    true
                } else {
                    before.dev_card_played_this_turn
                },
                messages: after.messages,
                ..before
            })
        },
        ServerMessage::Error { message, .. } => {
            &&& logged(before, after, "Error: "@ + message@)
            &&& after == (GameState { messages: after.messages, ..before })
        },
        ServerMessage::RobberMoved { player_id, new_q, new_r, .. } => {
            let q = new_q;
            let r = new_r;
            &&& logged(before, after, name_of(before.players@, player_id) + " moved the robber"@)
            &&& after == (GameState { robber_pos: Some((q, r)), messages: after.messages, ..before })
        },
        ServerMessage::PlayerRobbed { thief_id, victim_id, resource, stole_a_card, .. } => {
            &&& logged(
                before,
                after,
                robbed_line(name_of(before.players@, thief_id), name_of(before.players@, victim_id), resource, stole_a_card),
            )
            &&& after == (GameState {
                last_steal_event: if stole_a_card {
                    Some(crate::client::StealEvent {
                        thief: thief_id,
                        victim: victim_id,
                        resource,
                        seq: next_seq(match before.last_steal_event { Some(e) => Some(e.seq), None => None }),
                    })
                } else {
                    before.last_steal_event
                },
                messages: after.messages,
                ..before
            })
        },
        ServerMessage::MustDiscardCards { player_id, count, .. } => {
            &&& logged(before, after, must_discard_line(name_of(before.players@, player_id), count as nat))
            &&& after == (GameState {
                must_discard_count: if before.player_id == Some(player_id) {
                    Some(count)
                } else {
                    before.must_discard_count
                },
                messages: after.messages,
                ..before
            })
        },
        ServerMessage::CardsDiscarded { player_id, resources, .. } => {
            &&& logged(before, after, discarded_line(name_of(before.players@, player_id), resources))
            &&& after == (GameState {
                must_discard_count: if before.player_id == Some(player_id) {
                    None
                } else {
                    before.must_discard_count
                },
                messages: after.messages,
                ..before
            })
        },
        ServerMessage::MustMoveRobber { player_id, .. } => {
            &&& before.player_id == Some(player_id) ==> logged(before, after, "You must move the robber!"@)
                && after == (GameState {
                    waiting_for_discards: false,
                    must_move_robber: true,
                    messages: after.messages,
                    ..before
                })
            &&& before.player_id != Some(player_id) ==> after == before
        },
        ServerMessage::MustPlaceRoads { player_id, roads_remaining, .. } => {
            &&& before.player_id == Some(player_id) ==> logged(before, after, free_roads_line(roads_remaining as nat))
                && after == (GameState {
                    free_roads_remaining: roads_remaining,
                    build_mode: BuildMode::Road,
                    messages: after.messages,
                    ..before
                })
            &&& before.player_id != Some(player_id) ==> after == before
        },
        ServerMessage::MustChooseYearOfPlentyResources { player_id, .. } => {
            &&& before.player_id == Some(player_id) ==> logged(before, after, "Choose 2 resources to receive from the bank!"@)
                && after == (GameState {
                    year_of_plenty_pending: true,
                    messages: after.messages,
                    ..before
                })
            &&& before.player_id != Some(player_id) ==> after == before
        },
        ServerMessage::YearOfPlentyResourcesReceived { player_id, resource1, resource2, .. } => {
            let r1 = resource1;
            let r2 = resource2;
            &&& logged(before, after, plenty_line(name_or_someone(before.players@, player_id), r1, r2))
            &&& after == (GameState {
                year_of_plenty_pending: if before.player_id == Some(player_id) {
                    false
                } else {
                    before.year_of_plenty_pending
                },
                messages: after.messages,
                ..before
            })
        },
        ServerMessage::MustChooseMonopolyResource { player_id, .. } => {
            &&& before.player_id == Some(player_id) ==> logged(before, after, "Choose a resource type to steal from all players!"@)
                && after == (GameState {
                    monopoly_pending: true,
                    messages: after.messages,
                    ..before
                })
            &&& before.player_id != Some(player_id) ==> after == before
        },
        ServerMessage::MonopolyResourcesStolen { player_id, resource, total_stolen, victims, .. } => {
            &&& logged(before, after, monopoly_line(name_or_someone(before.players@, player_id), total_stolen as nat, resource))
            &&& after == (GameState {
                monopoly_pending: if before.player_id == Some(player_id) {
                    false
                } else {
                    before.monopoly_pending
                },
                last_monopoly_event: Some(crate::client::MonopolyEvent {
                    thief: player_id,
                    resource,
                    victims,
                    total_stolen,
                    seq: next_seq(match before.last_monopoly_event { Some(e) => Some(e.seq), None => None }),
                }),
                messages: after.messages,
                ..before
            })
        },
        ServerMessage::CanRobPlayers { player_ids, .. } => {
            &&& player_ids@.len() == 0 ==> logged(before, after, "No players to rob"@)
                && after == (GameState { messages: after.messages, ..before })
            &&& player_ids@.len() > 0 ==> after == (GameState { must_steal_from_players: player_ids, ..before })
        },
        ServerMessage::BankTradeCompleted { player_id, gave, received, gave_count, received_count, .. } => {
            &&& log_of(after.messages@) == bank_log(before, player_id, gave, received, gave_count, received_count)
            &&& after == (GameState { messages: after.messages, ..before })
        },
        ServerMessage::PortsUpdate { player_id, ports, .. } => {
            &&& before.player_id == Some(player_id) && ports@.len() > 0 ==> logged(
                before,
                after,
                port_line(ports@.last()),
            ) && after == (GameState { my_ports: ports, messages: after.messages, ..before })
            &&& before.player_id == Some(player_id) && ports@.len() == 0 ==> after == (GameState {
                my_ports: ports,
                ..before
            })
            &&& before.player_id != Some(player_id) ==> after == before
        },
        ServerMessage::TradeProposed { offer_id, proposer_id, target_player_id, offering, requesting, offering_any, requesting_any, counters, .. } => {
            &&& (before.player_id == Some(proposer_id) && counters is None) ==> after.my_offers@.len()
                == keep(before.my_offers@, |o: MyOffer| o.offer_id != offer_id).len() + 1
            &&& (before.player_id == Some(proposer_id) && counters is None) ==> after.my_offers@.drop_last()
                == keep(before.my_offers@, |o: MyOffer| o.offer_id != offer_id)
            &&& (before.player_id == Some(proposer_id) && counters is None) ==> fresh_offer(
                after.my_offers@.last(),
                offer_id,
                offering,
                requesting,
                offering_any,
                requesting_any,
            )
            &&& (counters is Some && before.player_id != Some(proposer_id)) ==> bids_rewritten(
                before.my_offers@,
                after.my_offers@,
                counters.unwrap(),
                |a: Seq<PlayerId>| keep(a, |y: PlayerId| y != proposer_id),
                |d: Seq<PlayerId>| d,
            )
            &&& (counters is Some && before.player_id == Some(proposer_id)) ==> after.my_offers == before.my_offers
            &&& (counters is None && before.player_id != Some(proposer_id)) ==> after.my_offers == before.my_offers
            &&& after.my_accepted_offers@ == match counters {
                Some(orig) if before.player_id == Some(proposer_id) => keep(
                    before.my_accepted_offers@,
                    |x: u64| x != orig,
                ),
                _ => before.my_accepted_offers@,
            }
            &&& after.my_counter_offers@ == match counters {
                Some(orig) if before.player_id == Some(proposer_id) => keep(
                    before.my_counter_offers@,
                    |c: (u64, u64)| c.0 != orig,
                ).push((orig, offer_id)),
                _ => before.my_counter_offers@,
            }
            &&& after.incoming_trades@ == if offer_reaches(before.player_id, proposer_id, target_player_id) {
                before.incoming_trades@.push(PendingTradeOffer {
                    offer_id,
                    proposer_id,
                    target_player_id,
                    offering,
                    requesting,
                    offering_any,
                    requesting_any,
                    received_at: now as i128,
                    counters,
                })
            } else {
                before.incoming_trades@
            }
            &&& crate::events::logged(before, after, proposed_line(name_of(before.players@, proposer_id), counters))
            &&& after == (GameState {
                my_offers: after.my_offers,
                my_accepted_offers: after.my_accepted_offers,
                my_counter_offers: after.my_counter_offers,
                incoming_trades: after.incoming_trades,
                messages: after.messages,
                ..before
            })
        },
        ServerMessage::TradeAccepted { offer_id, accepter_id, .. } => {
            &&& bids_rewritten(
                before.my_offers@,
                after.my_offers@,
                offer_id,
                |a: Seq<PlayerId>| with_player(a, accepter_id),
                |d: Seq<PlayerId>| keep(d, |y: PlayerId| y != accepter_id),
            )
            &&& after.my_accepted_offers@ == if before.player_id == Some(accepter_id) {
                with_id(before.my_accepted_offers@, offer_id)
            } else {
                before.my_accepted_offers@
            }
            &&& crate::events::logged(before, after, name_of(before.players@, accepter_id) + " is willing to trade"@)
            &&& after == (GameState {
                my_offers: after.my_offers,
                my_accepted_offers: after.my_accepted_offers,
                messages: after.messages,
                ..before
            })
        },
        ServerMessage::TradeAcceptanceWithdrawn { offer_id, accepter_id, .. } => {
            &&& bids_rewritten(
                before.my_offers@,
                after.my_offers@,
                offer_id,
                |a: Seq<PlayerId>| keep(a, |y: PlayerId| y != accepter_id),
                |d: Seq<PlayerId>| d,
            )
            &&& after.my_accepted_offers@ == if before.player_id == Some(accepter_id) {
                keep(before.my_accepted_offers@, |x: u64| x != offer_id)
            } else {
                before.my_accepted_offers@
            }
            &&& after.incoming_trades@ == if before.player_id == Some(accepter_id) {
                keep(before.incoming_trades@, |t: PendingTradeOffer| t.offer_id != offer_id)
            } else {
                before.incoming_trades@
            }
            &&& after == (GameState {
                my_offers: after.my_offers,
                my_accepted_offers: after.my_accepted_offers,
                incoming_trades: after.incoming_trades,
                ..before
            })
        },
        ServerMessage::TradeCompleted { offer_id, proposer_id, accepter_id, also_closed, .. } => {
            &&& closed_lists(before, seq![offer_id] + also_closed@, after)
            &&& crate::events::logged(
                before,
                after,
                crate::narration::completed_line(name_of(before.players@, proposer_id), name_of(before.players@, accepter_id)),
            )
            &&& after == (GameState {
                incoming_trades: after.incoming_trades,
                my_accepted_offers: after.my_accepted_offers,
                my_counter_offers: after.my_counter_offers,
                my_offers: after.my_offers,
                messages: after.messages,
                ..before
            })
        },
        ServerMessage::TradeCancelled { offer_id, .. } => {
            &&& after.incoming_trades@ == keep(
                keep(before.incoming_trades@, |t: PendingTradeOffer| t.offer_id != offer_id),
                |t: PendingTradeOffer| t.counters != Some(offer_id),
            )
            &&& after.my_accepted_offers@ == keep(before.my_accepted_offers@, |x: u64| x != offer_id)
            &&& after.my_counter_offers@ == keep(
                before.my_counter_offers@,
                |c: (u64, u64)| c.0 != offer_id && c.1 != offer_id,
            )
            &&& after.my_offers@ == keep(before.my_offers@, |o: MyOffer| o.offer_id != offer_id)
            &&& (exists|k: int| 0 <= k < before.my_offers@.len() && #[trigger] before.my_offers@[k].offer_id == offer_id)
                ==> crate::events::logged(before, after, "Your trade offer closed."@)
            &&& !(exists|k: int| 0 <= k < before.my_offers@.len() && #[trigger] before.my_offers@[k].offer_id == offer_id)
                ==> crate::events::log_kept(before, after)
            &&& after == (GameState {
                incoming_trades: after.incoming_trades,
                my_accepted_offers: after.my_accepted_offers,
                my_counter_offers: after.my_counter_offers,
                my_offers: after.my_offers,
                messages: after.messages,
                ..before
            })
        },
        ServerMessage::TradeDeclined { offer_id, proposer_id, decliner_id, .. } => {
            &&& before.player_id == Some(proposer_id) ==> bids_rewritten(
                before.my_offers@,
                after.my_offers@,
                offer_id,
                |a: Seq<PlayerId>| keep(a, |y: PlayerId| y != decliner_id),
                |d: Seq<PlayerId>| with_player(d, decliner_id),
            )
            &&& before.player_id != Some(proposer_id) ==> after.my_offers == before.my_offers
            &&& after.my_accepted_offers@ == if before.player_id == Some(decliner_id) {
                keep(before.my_accepted_offers@, |x: u64| x != offer_id)
            } else {
                before.my_accepted_offers@
            }
            &&& after.incoming_trades@ == if before.player_id == Some(decliner_id) {
                keep(before.incoming_trades@, |t: PendingTradeOffer| t.offer_id != offer_id)
            } else {
                before.incoming_trades@
            }
            &&& crate::events::logged(before, after, name_of(before.players@, decliner_id) + " declined the trade"@)
            &&& after == (GameState {
                my_offers: after.my_offers,
                my_accepted_offers: after.my_accepted_offers,
                incoming_trades: after.incoming_trades,
                messages: after.messages,
                ..before
            })
        },
        ServerMessage::FullStateSync { player_id, players, board, game_phase, current_turn_player_id, robber_pos, last_dice_roll, your_resources, your_dev_cards, pending_trades, bank, .. } => {
            &&& logged(before, after, "Game state synchronized."@)
            &&& after.my_ports@ == (if seated(players@, player_id) {
                players@[seat_of(players@, player_id)].ports@
            } else {
                before.my_ports@
            })
            &&& after.fresh_dev_cards@ == your_dev_cards@
            &&& after.incoming_trades@ == crate::trades::restored_incoming(pending_trades@, player_id, now as int)
            &&& after.my_accepted_offers@ == crate::trades::restored_accepted(pending_trades@, player_id)
            &&& after.my_counter_offers@ == crate::trades::restored_counters(pending_trades@, player_id)
            &&& after.my_offers@.len() == crate::trades::restored_mine(pending_trades@, player_id).len()
            &&& forall|k: int|
                0 <= k < after.my_offers@.len() ==> crate::trades::offer_restored(
                    #[trigger] after.my_offers@[k],
                    crate::trades::restored_mine(pending_trades@, player_id)[k],
                )
            &&& after.must_steal_from_players@.len() == 0
            &&& after == (GameState {
                player_id: Some(player_id),
                players,
                hexes: board.hexes,
                settlements: board.settlements,
                cities: board.cities,
                roads: board.roads,
                robber_pos: Some(robber_pos),
                robber_asset: board.robber_asset,
                board_ports: board.ports,
                game_phase,
                current_turn_player: current_turn_player_id,
                my_ports: after.my_ports,
                my_resources: your_resources,
                my_dev_cards: your_dev_cards,
                last_dice_roll,
                table_last_roll: if last_dice_roll is Some { last_dice_roll } else { before.table_last_roll },
                bank,
                fresh_dev_cards: after.fresh_dev_cards,
                must_discard_count: None,
                must_move_robber: false,
                must_steal_from_players: after.must_steal_from_players,
                waiting_for_discards: false,
                year_of_plenty_pending: false,
                monopoly_pending: false,
                free_roads_remaining: 0,
                build_mode: BuildMode::Idle,
                incoming_trades: after.incoming_trades,
                my_offers: after.my_offers,
                my_accepted_offers: after.my_accepted_offers,
                my_counter_offers: after.my_counter_offers,
                messages: after.messages,
                ..before
            })
        },
        ServerMessage::PlayerWon { player_id, secret_victory_points, stats, .. } => {
            let points = secret_victory_points;
            &&& logged(before, after, won_line(name_of(before.players@, player_id), points as nat))
            &&& after == (GameState {
                game_stats: Some(stats),
                winner_player_id: Some(player_id),
                messages: after.messages,
                ..before
            })
        },
        ServerMessage::PlayerSecretVictoryPointsUpdated { secret_victory_points, .. } => {
            let points = secret_victory_points;
            &&& after == (GameState { secret_victory_points: points, ..before })
        },
        ServerMessage::SystemNote { text, .. } => {
            &&& logged(before, after, text@)
            &&& after == (GameState { messages: after.messages, ..before })
        },
        ServerMessage::Left { player_id, game_id, .. } => {
            &&& after.players@ == keep(before.players@, |p: PlayerInfo| p.player_id != player_id)
            &&& logged(before, after, name_of(before.players@, player_id) + " has left the game."@)
            &&& after == (GameState {
                is_in_game: if before.player_id == Some(player_id) {
                    false
                } else {
                    before.is_in_game
                },
                game_id: if before.player_id == Some(player_id) {
                    None
                } else {
                    before.game_id
                },
                players: after.players,
                messages: after.messages,
                ..before
            })
        },
    }
}

impl GameState {
    /// Brings the state up to date with one message from the server. Hands
    /// back the credential to keep when the message opens a session.
    pub fn process_message(&mut self, msg: ServerMessage, now: i64) -> (token: Option<PlayerId>)
        requires
            acceptable(*old(self), msg),
        ensures
            handled(*old(self), msg, now, *final(self)),
            token == (match msg {
                ServerMessage::Session { token, .. } => Some(token),
                _ => None,
            }),
            trade_lists_clean(*old(self)) && sync_clean(msg) ==> trade_lists_clean(*final(self)),
    {
        let ghost before = *self;
        let ghost m = msg;
        let token = self.apply_message(msg, now);
        proof {
            if trade_lists_clean(before) && sync_clean(m) {
                law_bid_lists_stay_clean(before, m, now, *self);
            }
        }
        token
    }

    /// The change one message makes, message by message.
    fn apply_message(&mut self, msg: ServerMessage, now: i64) -> (token: Option<PlayerId>)
        requires
            acceptable(*old(self), msg),
        ensures
            handled(*old(self), msg, now, *final(self)),
            token == (match msg {
                ServerMessage::Session { token, .. } => Some(token),
                _ => None,
            }),
    {
        match msg {
            ServerMessage::LobbyUpdate { games } => {
                self.on_lobby_update(games);
                None
            },
            ServerMessage::Session { player_id, token } => {
                self.on_session(player_id);
                Some(token)
            },
            ServerMessage::Joined { game_id, .. } => {
                self.on_joined(game_id);
                None
            },
            ServerMessage::PlayersUpdate { players } => {
                self.on_players_update(players);
                None
            },
            ServerMessage::GameStarted { your_player_id, players, board, game_phase, your_resources, your_dev_cards } => {
                self.on_game_started(your_player_id, players, board, game_phase, your_resources, your_dev_cards);
                None
            },
            ServerMessage::BankUpdate { bank } => {
                self.on_bank_update(bank);
                None
            },
            ServerMessage::DiceRolled { player_id, dice_1, dice_2, discards_pending } => {
                self.on_dice_rolled(player_id, dice_1, dice_2, discards_pending);
                None
            },
            ServerMessage::ResourceUpdate { player_id, resources } => {
                self.on_resource_update(player_id, resources);
                None
            },
            ServerMessage::Built { player_id, structure_type, coords } => {
                self.on_built(player_id, structure_type, coords);
                None
            },
            ServerMessage::NextTurn { player_id } => {
                self.on_next_turn(player_id);
                None
            },
            ServerMessage::PhaseChanged { new_phase } => {
                self.on_phase_changed(new_phase);
                None
            },
            ServerMessage::ChatMessage { player_id, text } => {
                self.on_chat(player_id, text);
                None
            },
            ServerMessage::DevCardBought { player_id } => {
                self.on_dev_card_bought(player_id);
                None
            },
            ServerMessage::DevCardDrawn { card_type } => {
                self.on_dev_card_drawn(card_type);
                None
            },
            ServerMessage::DevCardPlayed { player_id, card_type } => {
                self.on_dev_card_played(player_id, card_type);
                None
            },
            ServerMessage::Error { message } => {
                self.on_error(message);
                None
            },
            ServerMessage::RobberMoved { player_id, new_q, new_r } => {
                self.on_robber_moved(player_id, new_q, new_r);
                None
            },
            ServerMessage::PlayerRobbed { thief_id, victim_id, resource, stole_a_card } => {
                self.on_player_robbed(thief_id, victim_id, resource, stole_a_card);
                None
            },
            ServerMessage::MustDiscardCards { player_id, count } => {
                self.on_must_discard(player_id, count);
                None
            },
            ServerMessage::CardsDiscarded { player_id, resources, .. } => {
                self.on_cards_discarded(player_id, resources);
                None
            },
            ServerMessage::MustMoveRobber { player_id } => {
                self.on_must_move_robber(player_id);
                None
            },
            ServerMessage::MustPlaceRoads { player_id, roads_remaining } => {
                self.on_must_place_roads(player_id, roads_remaining);
                None
            },
            ServerMessage::MustChooseYearOfPlentyResources { player_id } => {
                self.on_choose_plenty(player_id);
                None
            },
            ServerMessage::YearOfPlentyResourcesReceived { player_id, resource1, resource2 } => {
                self.on_plenty_received(player_id, resource1, resource2);
                None
            },
            ServerMessage::MustChooseMonopolyResource { player_id } => {
                self.on_choose_monopoly(player_id);
                None
            },
            ServerMessage::MonopolyResourcesStolen { player_id, resource, total_stolen, victims } => {
                self.on_monopoly(player_id, resource, total_stolen, victims);
                None
            },
            ServerMessage::CanRobPlayers { player_ids } => {
                self.on_can_rob(player_ids);
                None
            },
            ServerMessage::BankTradeCompleted { player_id, gave, received, gave_count, received_count } => {
                self.on_bank_trade(player_id, gave, received, gave_count, received_count);
                None
            },
            ServerMessage::PortsUpdate { player_id, ports } => {
                self.on_ports_update(player_id, ports);
                None
            },
            ServerMessage::TradeProposed { offer_id, proposer_id, target_player_id, offering, requesting, offering_any, requesting_any, counters } => {
                self.on_trade_proposed(offer_id, proposer_id, target_player_id, offering, requesting, offering_any, requesting_any, counters, now);
                None
            },
            ServerMessage::TradeAccepted { offer_id, accepter_id } => {
                self.on_trade_accepted(offer_id, accepter_id);
                None
            },
            ServerMessage::TradeAcceptanceWithdrawn { offer_id, accepter_id } => {
                self.on_acceptance_withdrawn(offer_id, accepter_id);
                None
            },
            ServerMessage::TradeCompleted { offer_id, proposer_id, accepter_id, also_closed, .. } => {
                self.on_trade_completed(offer_id, proposer_id, accepter_id, also_closed);
                None
            },
            ServerMessage::TradeCancelled { offer_id } => {
                self.on_trade_cancelled(offer_id);
                None
            },
            ServerMessage::TradeDeclined { offer_id, proposer_id, decliner_id } => {
                self.on_trade_declined(offer_id, proposer_id, decliner_id);
                None
            },
            ServerMessage::FullStateSync { player_id, players, board, game_phase, current_turn_player_id, robber_pos, last_dice_roll, your_resources, your_dev_cards, pending_trades, bank } => {
                self.on_full_sync(player_id, players, board, game_phase, current_turn_player_id, robber_pos, last_dice_roll, your_resources, your_dev_cards, pending_trades, bank, now);
                None
            },
            ServerMessage::PlayerWon { player_id, secret_victory_points, stats } => {
                self.on_player_won(player_id, secret_victory_points, stats);
                None
            },
            ServerMessage::PlayerSecretVictoryPointsUpdated { secret_victory_points } => {
                self.on_secret_points(secret_victory_points);
                None
            },
            ServerMessage::SystemNote { text } => {
                self.on_system_note(text);
                None
            },
            ServerMessage::Left { player_id, .. } => {
                self.on_left(player_id);
                None
            },
        }
    }
}

impl GameState {
    /// Whether a message can be handled without a count passing its type:
    /// what `process_message` asks of the state before it is called.
    pub fn accepts(&self, msg: &ServerMessage) -> (b: bool)
        ensures
            b == acceptable(*self, *msg),
    {
        match msg {
            ServerMessage::DiceRolled { dice_1, dice_2, .. } => {
                (*dice_1 as u16) + (*dice_2 as u16) <= 255 && match self.last_roll_event {
                    Some(e) => e.1 < u64::MAX,
                    None => true,
                } && crate::payout::producing_hexes_fit(&self.hexes, self.robber_pos, *dice_1 + *dice_2)
            },
            ServerMessage::ResourceUpdate { resources, .. } => {
                (resources.brick as u16) + (resources.lumber as u16) + (resources.wool as u16) + (
                resources.grain as u16) + (resources.ore as u16) <= 255
            },
            ServerMessage::NextTurn { .. } => self.turn_epoch < u64::MAX,
            ServerMessage::ChatMessage { .. } => {
                let n = self.chat.len();
                n == 0 || self.chat[n - 1].seq < u64::MAX
            },
            ServerMessage::DevCardBought { player_id, .. } => match crate::client::find_player(&self.players, *player_id) {
                Some(k) => self.players[k].dev_card_count < usize::MAX,
                None => true,
            },
            ServerMessage::PlayerRobbed { stole_a_card, .. } => {
                !*stole_a_card || match &self.last_steal_event {
                    Some(e) => e.seq < u64::MAX,
                    None => true,
                }
            },
            ServerMessage::MonopolyResourcesStolen { .. } => match &self.last_monopoly_event {
                Some(e) => e.seq < u64::MAX,
                None => true,
            },
            ServerMessage::BankTradeCompleted { player_id, gave, received, gave_count, received_count } => {
                self.bank_merge_ok(*player_id, *gave, *received, *gave_count, *received_count)
            },
            _ => true,
        }
    }
}

} // verus!
