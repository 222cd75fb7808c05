//! The cards a player handles when putting a trade together: the five
//! resource kinds as the tray shows them, a pile of them on one side of a
//! trade, and the trade being assembled.

use vstd::prelude::*;
use crate::rules::{ResourceType, Resources, resource_name};

verus! {

/// One of the five resource kinds a hand or a trade holds.
#[derive(Clone, Copy, Debug, PartialEq, Eq, Structural)]
pub enum Res {
    Wood,
    Brick,
    Sheep,
    Wheat,
    Ore,
}

/// The five kinds in tray order.
pub open spec fn res_order() -> Seq<Res> {
    seq![Res::Wood, Res::Brick, Res::Sheep, Res::Wheat, Res::Ore]
}

/// The game's resource type for a kind.
pub open spec fn res_resource(k: Res) -> ResourceType {
    match k {
        Res::Wood => ResourceType::Wood,
        Res::Brick => ResourceType::Brick,
        Res::Sheep => ResourceType::Sheep,
        Res::Wheat => ResourceType::Wheat,
        Res::Ore => ResourceType::Ore,
    }
}

/// How many of a kind a hand holds.
pub open spec fn held(k: Res, r: Resources) -> u8 {
    match k {
        Res::Wood => r.lumber,
        Res::Brick => r.brick,
        Res::Sheep => r.wool,
        Res::Wheat => r.grain,
        Res::Ore => r.ore,
    }
}

impl Res {
    /// The five kinds in tray order.
    pub fn all() -> (v: Vec<Res>)
        ensures
            v@ == res_order(),
    {
        vec![Res::Wood, Res::Brick, Res::Sheep, Res::Wheat, Res::Ore]
    }

    /// The kind's name, capitalised.
    pub fn label(self) -> (s: &'static str)
        ensures
            s@ == resource_name(res_resource(self)),
    {
        match self {
            Res::Wood => "Wood",
            Res::Brick => "Brick",
            Res::Sheep => "Sheep",
            Res::Wheat => "Wheat",
            Res::Ore => "Ore",
        }
    }

    /// The game's resource type for this kind.
    pub fn shared(self) -> (r: ResourceType)
        ensures
            r == res_resource(self),
    {
        match self {
            Res::Wood => ResourceType::Wood,
            Res::Brick => ResourceType::Brick,
            Res::Sheep => ResourceType::Sheep,
            Res::Wheat => ResourceType::Wheat,
            Res::Ore => ResourceType::Ore,
        }
    }

    /// The card face for this kind.
    pub fn art(self) -> (s: &'static str)
        ensures
            s@ == crate::art::resource_art_name(res_resource(self)),
    {
        crate::art::resource_art(self.shared())
    }

    /// How many of this kind a hand holds.
    pub fn in_hand(self, r: &Resources) -> (n: u8)
        ensures
            n == held(self, *r),
    {
        match self {
            Res::Wood => r.lumber,
            Res::Brick => r.brick,
            Res::Sheep => r.wool,
            Res::Wheat => r.grain,
            Res::Ore => r.ore,
        }
    }
}

/// A pile of resources on one side of a trade.
#[derive(Clone, Copy, Debug, PartialEq, Eq, Structural)]
pub struct Basket {
    pub wood: u8,
    pub brick: u8,
    pub sheep: u8,
    pub wheat: u8,
    pub ore: u8,
}

/// The most of one resource a trade may ask for: no game holds more than the
/// deepest bank stack.
pub const MAX_ASK_PER_KIND: u8 = 24;

/// An empty pile.
pub open spec fn empty_basket() -> Basket {
    Basket { wood: 0, brick: 0, sheep: 0, wheat: 0, ore: 0 }
}

/// How many of a kind a pile holds.
pub open spec fn in_basket(b: Basket, k: Res) -> u8 {
    match k {
        Res::Wood => b.wood,
        Res::Brick => b.brick,
        Res::Sheep => b.sheep,
        Res::Wheat => b.wheat,
        Res::Ore => b.ore,
    }
}

/// The number of cards in a pile, counted to at most 255.
pub open spec fn basket_total(b: Basket) -> u8 {
    let n = b.wood + b.brick + b.sheep + b.wheat + b.ore;
    if n > 255 {
        255
    } else {
        n as u8
    }
}

/// The pile as the game's resource record.
pub open spec fn basket_resources(b: Basket) -> Resources {
    Resources { brick: b.brick, lumber: b.wood, wool: b.sheep, grain: b.wheat, ore: b.ore }
}

/// A record of cards as a pile.
pub open spec fn resources_basket(r: Resources) -> Basket {
    Basket { wood: r.lumber, brick: r.brick, sheep: r.wool, wheat: r.grain, ore: r.ore }
}

/// Every card of a pile, one entry per card: `n` copies of a kind.
pub open spec fn copies(k: Res, n: nat) -> Seq<Res> {
    Seq::new(n, |i: int| k)
}

/// Every card of a pile, kind by kind in tray order.
pub open spec fn spread_of(b: Basket) -> Seq<Res> {
    copies(Res::Wood, b.wood as nat) + copies(Res::Brick, b.brick as nat) + copies(Res::Sheep, b.sheep as nat)
        + copies(Res::Wheat, b.wheat as nat) + copies(Res::Ore, b.ore as nat)
}

impl Default for Basket {
    fn default() -> (b: Basket)
        ensures
            b == empty_basket(),
    {
        Basket { wood: 0, brick: 0, sheep: 0, wheat: 0, ore: 0 }
    }
}

impl Basket {
    /// The number of cards in the pile. A pile past 255 cards counts as 255
    /// rather than wrapping round.
    pub fn total(&self) -> (n: u8)
        ensures
            n == basket_total(*self),
    {
        self.wood.saturating_add(self.brick).saturating_add(self.sheep).saturating_add(self.wheat).saturating_add(
            self.ore,
        )
    }

    /// How many of a kind the pile holds.
    pub fn get(&self, k: Res) -> (n: u8)
        ensures
            n == in_basket(*self, k),
    {
        match k {
            Res::Wood => self.wood,
            Res::Brick => self.brick,
            Res::Sheep => self.sheep,
            Res::Wheat => self.wheat,
            Res::Ore => self.ore,
        }
    }

    /// Puts `v` of a kind in the pile; the other kinds stay as they are.
    pub fn set(&mut self, k: Res, v: u8)
        ensures
            in_basket(*final(self), k) == v,
            forall|j: Res| j != k ==> in_basket(*final(self), j) == in_basket(*old(self), j),
    {
        match k {
            Res::Wood => self.wood = v,
            Res::Brick => self.brick = v,
            Res::Sheep => self.sheep = v,
            Res::Wheat => self.wheat = v,
            Res::Ore => self.ore = v,
        }
    }

    /// The pile as the game's resource record.
    pub fn to_shared(self) -> (r: Resources)
        ensures
            r == basket_resources(self),
    {
        Resources { brick: self.brick, lumber: self.wood, wool: self.sheep, grain: self.wheat, ore: self.ore }
    }

    /// Every card in the pile, one entry per card, kind by kind in tray order.
    pub fn spread(&self) -> (v: Vec<Res>)
        ensures
            v@ == spread_of(*self),
    {
        let mut v: Vec<Res> = Vec::new();
        let kinds = Res::all();
        let mut k: usize = 0;
        while k < 5
            invariant
                kinds@ == res_order(),
                k <= 5,
                v@ == spread_upto(*self, k as int),
            decreases 5 - k,
        {
            let kind = kinds[k];
            let n = self.get(kind);
            let mut i: u8 = 0;
            let ghost before = v@;
            while i < n
                invariant
                    i <= n,
                    v@ == before + copies(kind, i as nat),
                decreases n - i,
            {
                v.push(kind);
                i = i + 1;
                proof {
                    assert(v@ =~= before + copies(kind, i as nat));
                }
            }
            k = k + 1;
            proof {
                assert(v@ =~= spread_upto(*self, k as int));
            }
        }
        proof {
            reveal_with_fuel(spread_upto, 6);
            assert(spread_upto(*self, 5) =~= spread_of(*self));
        }
        v
    }
}

/// The cards of the first `k` kinds of a pile, in tray order.
pub open spec fn spread_upto(b: Basket, k: int) -> Seq<Res>
    decreases k,
{
    if k <= 0 {
        Seq::empty()
    } else {
        spread_upto(b, k - 1) + copies(res_order()[k - 1], in_basket(b, res_order()[k - 1]) as nat)
    }
}

/// The wire's record of cards as a pile.
pub fn to_basket(r: &Resources) -> (b: Basket)
    ensures
        b == resources_basket(*r),
{
    Basket { wood: r.lumber, brick: r.brick, sheep: r.wool, wheat: r.grain, ore: r.ore }
}

/// The trade being put together: what is asked for, what is put up, the
/// cards of any kind on each side, and whether its panel is open.
#[derive(Clone, Copy, Debug, PartialEq, Eq, Structural)]
pub struct TradeDraft {
    pub receive: Basket,
    pub offer: Basket,
    pub receive_any: u8,
    pub offer_any: u8,
    pub open: bool,
}

impl TradeDraft {
    /// An empty trade with its panel shut.
    pub fn new() -> (d: Self)
        ensures
            d == (TradeDraft {
                receive: empty_basket(),
                offer: empty_basket(),
                receive_any: 0,
                offer_any: 0,
                open: false,
            }),
    {
        TradeDraft { receive: Basket::default(), offer: Basket::default(), receive_any: 0, offer_any: 0, open: false }
    }

    /// Empties both sides of the trade; the panel stays as it is.
    pub fn clear(&mut self)
        ensures
            *final(self) == (TradeDraft {
                receive: empty_basket(),
                offer: empty_basket(),
                receive_any: 0,
                offer_any: 0,
                open: old(self).open,
            }),
    {
        self.receive = Basket::default();
        self.offer = Basket::default();
        self.receive_any = 0;
        self.offer_any = 0;
    }
}

} // verus!
