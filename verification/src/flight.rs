//! The cards that fly across the table: which payments of a roll are put in
//! the air, when each leaves, how long a batch stays up, and what a stolen
//! card shows on its way.

use vstd::prelude::*;
use crate::art::{label_of, resource_art, resource_art_name};
use crate::client::GameState;
use crate::payout::{Payment, payout, producing_fit};
use crate::rules::{ResourceType, resource_name};

verus! {

/// How long one card is in the air, in milliseconds.
pub const FLIGHT_MS: u64 = 1500;

/// How far apart the cards of one roll leave, in milliseconds.
pub const STAGGER_MS: u64 = 100;

/// The most cards of one roll put in the air; the rest are dropped.
pub const MAX_CARDS: usize = 18;

/// How many of `n` cards fly.
pub open spec fn flown(n: nat) -> nat {
    if n < MAX_CARDS {
        n
    } else {
        MAX_CARDS as nat
    }
}

impl GameState {
    /// The payments of a roll of `total` put in the air: the payout, cut
    /// after the first eighteen cards.
    pub fn planned_flights(&self, total: u8) -> (v: Vec<Payment>)
        requires
            producing_fit(self.hexes@, self.robber_pos, total),
        ensures
            v@ == payout(*self, total).take(flown(payout(*self, total).len()) as int),
    {
        let mut paid = self.roll_payout(total);
        paid.truncate(MAX_CARDS);
        proof {
            assert(paid@ =~= payout(*self, total).take(flown(payout(*self, total).len()) as int));
        }
        paid
    }
}

/// When each of `n` cards of one roll leaves: card `i` after `i` staggers,
/// for as many cards as fly.
pub fn flight_delays(n: usize) -> (d: Vec<u64>)
    ensures
        d@.len() == flown(n as nat),
        forall|i: int| 0 <= i < d@.len() ==> d@[i] == STAGGER_MS * i,
{
    let m = if n < MAX_CARDS {
        n
    } else {
        MAX_CARDS
    };
    let mut d: Vec<u64> = Vec::new();
    let mut i: usize = 0;
    while i < m
        invariant
            m <= MAX_CARDS,
            i <= m,
            d@.len() == i,
            forall|j: int| 0 <= j < i ==> d@[j] == STAGGER_MS * j,
        decreases m - i,
    {
        d.push(STAGGER_MS * (i as u64));
        i = i + 1;
    }
    d
}

/// How long a batch stays up once it is launched: until its last card,
/// leaving after `last_delay`, has landed, with a tenth of a second to spare.
pub fn batch_lifetime(last_delay: u64) -> (ms: u64)
    requires
        last_delay + FLIGHT_MS + 100 <= u64::MAX,
    ensures
        ms == last_delay + FLIGHT_MS + 100,
{
    last_delay + FLIGHT_MS + 100
}

/// The art a stolen card shows in flight: its resource where this client
/// may see it, the back of a card otherwise.
pub fn steal_art(resource: Option<ResourceType>) -> (s: &'static str)
    ensures
        s@ == (match resource {
            Some(r) => resource_art_name(r),
            None => "any-card"@,
        }),
{
    match resource {
        Some(r) => resource_art(r),
        None => "any-card",
    }
}

/// The name a stolen card carries in flight: its resource where this client
/// may see it, "A card" otherwise.
pub fn steal_label(resource: Option<ResourceType>) -> (s: &'static str)
    ensures
        s@ == (match resource {
            Some(r) => resource_name(r),
            None => "A card"@,
        }),
{
    match resource {
        Some(r) => label_of(r),
        None => "A card",
    }
}

} // verus!
