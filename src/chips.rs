use vstd::prelude::*;

verus! {

/// A chip denomination.
#[derive(Debug, Clone, Copy, PartialEq, Eq, Structural)]
pub enum Chip {
    C1,
    C5,
    C10,
    C25,
    C100,
    C500,
    C1000,
}

/// The face value of a chip.
pub open spec fn chip_value(c: Chip) -> nat {
    match c {
        Chip::C1 => 1,
        Chip::C5 => 5,
        Chip::C10 => 10,
        Chip::C25 => 25,
        Chip::C100 => 100,
        Chip::C500 => 500,
        Chip::C1000 => 1000,
    }
}

/// The total value of a sequence of chips.
pub open spec fn chips_total(s: Seq<Chip>) -> nat
    decreases s.len(),
{
    if s.len() == 0 {
        0
    } else {
        chip_value(s[0]) + chips_total(s.drop_first())
    }
}

/// The `k`-th denomination, from the largest (0) down to the smallest (6).
pub open spec fn denomination(k: nat) -> Chip {
    if k == 0 {
        Chip::C1000
    } else if k == 1 {
        Chip::C500
    } else if k == 2 {
        Chip::C100
    } else if k == 3 {
        Chip::C25
    } else if k == 4 {
        Chip::C10
    } else if k == 5 {
        Chip::C5
    } else {
        Chip::C1
    }
}

/// The greedy decomposition of `v` into chips, from the `k`-th denomination
/// down: as many of each denomination as fit, largest first.
pub open spec fn greedy_chips(v: nat, k: nat) -> Seq<Chip>
    decreases 7 - k, v,
{
    if k >= 7 {
        Seq::empty()
    } else if v >= chip_value(denomination(k)) {
        seq![denomination(k)] + greedy_chips((v - chip_value(denomination(k))) as nat, k)
    } else {
        greedy_chips(v, k + 1)
    }
}

/// The chips of the standard starting balance: four 100s, six 10s, eight 5s.
pub open spec fn euro5_chips() -> Seq<Chip> {
    Seq::new(4, |i: int| Chip::C100) + Seq::new(6, |i: int| Chip::C10) + Seq::new(
        8,
        |i: int| Chip::C5,
    )
}

/// The total of a sequence with one more chip in front.
pub proof fn lemma_chips_total_prepend(c: Chip, s: Seq<Chip>)
    ensures
        chips_total(seq![c] + s) == chip_value(c) + chips_total(s),
{
    assert((seq![c] + s).drop_first() =~= s);
}

/// The total of a sequence with one more chip at the end.
pub proof fn lemma_chips_total_push(s: Seq<Chip>, c: Chip)
    ensures
        chips_total(s.push(c)) == chips_total(s) + chip_value(c),
    decreases s.len(),
{
    if s.len() > 0 {
        lemma_chips_total_push(s.drop_first(), c);
        assert(s.push(c).drop_first() =~= s.drop_first().push(c));
    } else {
        assert(s.push(c).drop_first() =~= s);
    }
}

/// The greedy decomposition, from any denomination down to the 1-chip,
/// adds up to the amount decomposed.
pub proof fn lemma_greedy_total(v: nat, k: nat)
    requires
        k <= 6,
    ensures
        chips_total(greedy_chips(v, k)) == v,
    decreases 7 - k, v,
{
    let c = denomination(k);
    if v >= chip_value(c) {
        let rest = greedy_chips((v - chip_value(c)) as nat, k);
        assert(greedy_chips(v, k) == seq![c] + rest);
        lemma_greedy_total((v - chip_value(c)) as nat, k);
        lemma_chips_total_prepend(c, rest);
    } else {
        assert(greedy_chips(v, k) == greedy_chips(v, k + 1));
        if k < 6 {
            lemma_greedy_total(v, k + 1);
        } else {
            assert(v == 0);
            assert(greedy_chips(v, k + 1) == Seq::<Chip>::empty());
        }
    }
}

/// A wager: the chips a player has put down for the round.
#[derive(Debug, Clone)]
pub struct Bet(pub Vec<Chip>);

impl Bet {
    /// The total value of the bet.
    pub fn sum(&self) -> (r: u32)
        requires
            chips_total(self.0@) <= u32::MAX,
        ensures
            r == chips_total(self.0@),
    {
        sum_of_chips(&self.0)
    }
}

/// Where a starting balance comes from.
#[derive(Debug, Clone)]
pub enum Loadout {
    /// The standard starting balance, worth 500.
    Euro5,
    /// A balance of the given chips.
    CustomLoadout(Vec<Chip>),
}

/// The chips a player holds.
#[derive(Debug, Clone)]
pub struct Balance(pub Vec<Chip>);

impl Balance {
    /// The total value of the balance.
    pub fn sum(&self) -> (r: u32)
        requires
            chips_total(self.0@) <= u32::MAX,
        ensures
            r == chips_total(self.0@),
    {
        sum_of_chips(&self.0)
    }
}

/// The total value of a vector of chips.
pub fn sum_of_chips(chips: &Vec<Chip>) -> (r: u32)
    requires
        chips_total(chips@) <= u32::MAX,
    ensures
        r == chips_total(chips@),
{
    let mut total: u32 = 0;
    let mut i: usize = chips.len();
    assert(chips@.subrange(0, i as int) =~= chips@);
    while i > 0
        invariant
            i <= chips@.len(),
            chips_total(chips@) <= u32::MAX,
            chips_total(chips@) == total + chips_total(chips@.subrange(0, i as int)),
        decreases i,
    {
        i -= 1;
        proof {
            lemma_chips_total_push(chips@.subrange(0, i as int), chips@[i as int]);
            assert(chips@.subrange(0, i as int).push(chips@[i as int]) =~= chips@.subrange(
                0,
                i + 1,
            ));
        }
        total += chips[i].value();
    }
    assert(chips@.subrange(0, 0) =~= Seq::<Chip>::empty());
    total
}

/// Conversion of an amount into chips.
pub trait IntoChips {
    fn into_chips(self) -> Vec<Chip>;
}

impl IntoChips for u32 {
    /// The greedy decomposition of the amount, largest denomination first;
    /// the chips add up to the amount exactly.
    fn into_chips(self) -> (r: Vec<Chip>)
        ensures
            r@ == greedy_chips(self as nat, 0),
            chips_total(r@) == self,
    {
        let mut value: u32 = self;
        let mut chips: Vec<Chip> = Vec::new();
        let all = Chip::all_chips();
        let mut k: usize = 0;
        while k < 7
            invariant
                k <= 7,
                all@ == Chip::spec_all_chips(),
                chips@ + greedy_chips(value as nat, k as nat) == greedy_chips(self as nat, 0),
            decreases 7 - k,
        {
            let chip = all[6 - k];
            assert(chip == denomination(k as nat));
            while value >= chip.value()
                invariant
                    k < 7,
                    chip == denomination(k as nat),
                    chips@ + greedy_chips(value as nat, k as nat) == greedy_chips(self as nat, 0),
                decreases value,
            {
                let ghost before = chips@;
                chips.push(chip);
                value -= chip.value();
                assert(before + greedy_chips((value + chip_value(chip)) as nat, k as nat)
                    =~= chips@ + greedy_chips(value as nat, k as nat));
            }
            k += 1;
        }
        assert(chips@ =~= chips@ + greedy_chips(value as nat, 7));
        proof {
            lemma_greedy_total(self as nat, 0);
        }
        chips
    }
}

impl Chip {
    pub open spec fn spec_all_chips() -> Seq<Chip> {
        seq![Chip::C1, Chip::C5, Chip::C10, Chip::C25, Chip::C100, Chip::C500, Chip::C1000]
    }

    /// The balance a loadout stands for.
    pub fn from_loadout(loadout: Loadout) -> (r: Balance)
        ensures
            loadout is Euro5 ==> r.0@ == euro5_chips() && chips_total(r.0@) == 500,
            loadout is CustomLoadout ==> r.0@ == loadout->CustomLoadout_0@,
    {
        match loadout {
            Loadout::Euro5 => {
                let v = vec![
                    Chip::C100, Chip::C100, Chip::C100, Chip::C100,
                    Chip::C10, Chip::C10, Chip::C10, Chip::C10, Chip::C10, Chip::C10,
                    Chip::C5, Chip::C5, Chip::C5, Chip::C5, Chip::C5, Chip::C5, Chip::C5, Chip::C5,
                ];
                assert(v@ =~= euro5_chips());
                assert(chips_total(v@) == 500) by {
                    reveal_with_fuel(chips_total, 19);
                }
                Balance(v)
            },
            Loadout::CustomLoadout(vec) => Balance(vec),
        }
    }

    /// Every denomination, smallest first.
    pub fn all_chips() -> (r: Vec<Chip>)
        ensures
            r@ == Chip::spec_all_chips(),
    {
        let r = vec![Chip::C1, Chip::C5, Chip::C10, Chip::C25, Chip::C100, Chip::C500, Chip::C1000];
        assert(r@ =~= Chip::spec_all_chips());
        r
    }

    /// The face value of the chip.
    pub fn value(&self) -> (r: u32)
        ensures
            r == chip_value(*self),
    {
        match self {
            Chip::C1 => 1,
            Chip::C5 => 5,
            Chip::C10 => 10,
            Chip::C25 => 25,
            Chip::C100 => 100,
            Chip::C500 => 500,
            Chip::C1000 => 1000,
        }
    }
}

} // verus!
