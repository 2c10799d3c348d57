use vstd::prelude::*;

verus! {

/// The scoring rules that a user has turned on.
#[derive(Debug, Clone, Copy, PartialEq, Eq, Structural)]
pub struct ScoringSettings {
    pub use_kiriage_mangan: bool,
    pub use_honba: bool,
    pub use_kazoe_yakuman: bool,
}

/// A winning hand to be scored.
#[derive(Debug, Clone, Copy, PartialEq, Eq, Structural)]
pub struct HandScoreData {
    pub han: u8,
    pub fu: u8,
    pub honba: u8,
    pub ron: bool,
    pub is_dealer: bool,
}

/// What the winner is paid: by the dealer, and by each other player (or by the
/// discarder alone on a ron, in `others`).
#[derive(Debug, Clone, Copy, PartialEq, Eq, Structural)]
pub struct HandScoreTotals {
    pub dealer: u16,
    pub others: u16,
}

/// Two to the power `n`.
pub open spec fn power_of_two(n: nat) -> nat
    decreases n,
{
    if n == 0 {
        1
    } else {
        2 * power_of_two((n - 1) as nat)
    }
}

/// The base points of a limit hand, by han above five: mangan up to haneman,
/// baiman and sanbaiman, capped at sanbaiman.
pub open spec fn limit_base(index: int) -> int {
    if index <= 0 {
        2000
    } else if index <= 2 {
        3000
    } else if index <= 5 {
        4000
    } else {
        6000
    }
}

/// The base points of a limit hand when kazoe yakuman counts: as `limit_base`, with
/// yakuman from thirteen han on.
pub open spec fn kazoe_limit_base(index: int) -> int {
    if index <= 6 {
        limit_base(index)
    } else if index == 7 {
        6000
    } else {
        8000
    }
}

/// The base points of a hand.
pub open spec fn base_points(h: HandScoreData, s: ScoringSettings) -> int {
    if h.han > 5 {
        if s.use_kazoe_yakuman {
            kazoe_limit_base(h.han - 5)
        } else {
            limit_base(h.han - 5)
        }
    } else if s.use_kiriage_mangan && (h.han == 4 && h.fu == 30 || h.han == 3 && h.fu == 60) {
        2000
    } else {
        let b = h.fu * power_of_two((2 + h.han) as nat);
        if b < 2000 {
            b
        } else {
            2000
        }
    }
}

/// `x` rounded up to a multiple of one hundred.
pub open spec fn round_up_100(x: int) -> int {
    (x + 99) / 100 * 100
}

/// What the dealer pays before rounding and honba.
pub open spec fn dealer_share(h: HandScoreData, s: ScoringSettings) -> int {
    if !h.ron && !h.is_dealer {
        2 * base_points(h, s)
    } else {
        0
    }
}

/// What the other players pay each (or the discarder, on a ron) before rounding and honba.
pub open spec fn others_share(h: HandScoreData, s: ScoringSettings) -> int {
    let b = base_points(h, s);
    if h.ron {
        if h.is_dealer {
            6 * b
        } else {
            4 * b
        }
    } else if h.is_dealer {
        2 * b
    } else {
        b
    }
}

/// The dealer's total: rounded, plus one hundred a honba where the dealer pays at all.
pub open spec fn dealer_total(h: HandScoreData, s: ScoringSettings) -> int {
    let d = round_up_100(dealer_share(h, s));
    if d != 0 {
        d + 100 * h.honba
    } else {
        d
    }
}

/// The others' total: rounded, plus three hundred a honba on a ron, one hundred otherwise.
pub open spec fn others_total(h: HandScoreData, s: ScoringSettings) -> int {
    round_up_100(others_share(h, s)) + h.honba * (if h.ron {
        300int
    } else {
        100int
    })
}

/// The base points never exceed eight thousand.
proof fn lemma_base_points_bound(h: HandScoreData, s: ScoringSettings)
    ensures
        0 <= base_points(h, s) <= 8000,
{
    if h.han <= 5 {
        let p = power_of_two((2 + h.han) as nat);
        assert(p >= 0) by {
            lemma_power_of_two_nonneg((2 + h.han) as nat);
        }
        assert(h.fu * p >= 0) by (nonlinear_arith)
            requires
                h.fu >= 0,
                p >= 0,
        ;
    }
}

proof fn lemma_power_of_two_nonneg(n: nat)
    ensures
        power_of_two(n) >= 1,
    decreases n,
{
    if n > 0 {
        lemma_power_of_two_nonneg((n - 1) as nat);
    }
}

/// With at most twelve honba, as the bot deals them, both totals fit in sixteen bits.
pub proof fn lemma_totals_fit(h: HandScoreData, s: ScoringSettings)
    requires
        h.honba <= 12,
    ensures
        0 <= dealer_total(h, s) <= u16::MAX,
        0 <= others_total(h, s) <= u16::MAX,
{
    lemma_base_points_bound(h, s);
    lemma_round_up_100(dealer_share(h, s));
    lemma_round_up_100(others_share(h, s));
}

proof fn lemma_round_up_100(x: int)
    requires
        x >= 0,
    ensures
        0 <= round_up_100(x) <= x + 99,
{
    vstd::arithmetic::div_mod::lemma_fundamental_div_mod(x + 99, 100);
}

impl HandScoreData {
    /// The totals of this hand under the given rules.
    pub fn calculate_totals(&self, settings: ScoringSettings) -> (totals: HandScoreTotals)
        requires
            dealer_total(*self, settings) <= u16::MAX,
            others_total(*self, settings) <= u16::MAX,
        ensures
            totals.dealer == dealer_total(*self, settings),
            totals.others == others_total(*self, settings),
    {
        proof {
            lemma_base_points_bound(*self, settings);
        }
        let base: u16;
        if self.han > 5 {
            let index: u8 = self.han - 5;
            if settings.use_kazoe_yakuman {
                base = if index == 0 {
                    2000
                } else if index <= 2 {
                    3000
                } else if index <= 6 {
                    if index <= 5 {
                        4000
                    } else {
                        6000
                    }
                } else if index == 7 {
                    6000
                } else {
                    8000
                };
            } else {
                base = if index == 0 {
                    2000
                } else if index <= 2 {
                    3000
                } else if index <= 5 {
                    4000
                } else {
                    6000
                };
            }
        } else if settings.use_kiriage_mangan && (self.han == 4 && self.fu == 30 || self.han == 3
            && self.fu == 60) {
            base = 2000;
        } else {
            proof {
                reveal_with_fuel(power_of_two, 3);
            }
            let mut multiplier: u16 = 4;
            let mut i: u8 = 0;
            while i < self.han
                invariant
                    self.han <= 5,
                    i <= self.han,
                    multiplier == power_of_two((2 + i) as nat),
                decreases self.han - i,
            {
                proof {
                    assert(power_of_two((2 + i + 1) as nat) == 2 * power_of_two((2 + i) as nat));
                    lemma_small_power((2 + i) as nat);
                }
                multiplier = multiplier * 2;
                i = i + 1;
            }
            proof {
                lemma_small_power((2 + self.han) as nat);
                assert(self.fu as int * multiplier as int <= 255 * 128) by (nonlinear_arith)
                    requires
                        self.fu <= 255,
                        multiplier <= 128,
                ;
            }
            let b: u16 = self.fu as u16 * multiplier;
            base = if b < 2000 {
                b
            } else {
                2000
            };
        }
        let mut totals = HandScoreTotals { dealer: 0, others: 0 };
        if self.ron {
            if self.is_dealer {
                totals.others = base * 6;
            } else {
                totals.others = base * 4;
            }
        } else {
            if self.is_dealer {
                totals.others = base * 2;
            } else {
                totals.dealer = base * 2;
                totals.others = base;
            }
        }
        totals.dealer = (totals.dealer + 99) / 100 * 100;
        totals.others = (totals.others + 99) / 100 * 100;
        totals.dealer = totals.dealer + if totals.dealer != 0 {
            self.honba as u16 * 100
        } else {
            0
        };
        totals.others = totals.others + self.honba as u16 * if self.ron {
            300
        } else {
            100
        };
        totals
    }
}

proof fn lemma_small_power(n: nat)
    requires
        n <= 7,
    ensures
        power_of_two(n) <= 128,
{
    reveal_with_fuel(power_of_two, 8);
}

} // verus!
