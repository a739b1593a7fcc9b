//! A single logic cell: its ports, its configuration and its evaluation.
use vstd::prelude::*;

verus! {

/// One of the four ports (lines) of a cell.
#[derive(Clone, Copy, Debug, PartialEq, Eq, Hash, Structural)]
pub enum Selector {
    Column1,
    Column2,
    Row1,
    Row2,
}

/// True when no selector appears twice in `s`.
pub open spec fn no_repeat(s: Seq<Selector>) -> bool {
    forall|i: int, j: int| 0 <= i < j < s.len() ==> s[i] != s[j]
}

/// True when `s` holds each of the four selectors exactly once.
pub open spec fn is_permutation(s: Seq<Selector>) -> bool {
    &&& s.len() == 4
    &&& no_repeat(s)
}

/// Four selectors without a repeat are exactly the four selectors, each
/// once: a four-element sequence has no repeat if and only if every selector
/// occurs in it.
pub proof fn lemma_no_repeat_iff_all_present(s: Seq<Selector>)
    requires
        s.len() == 4,
    ensures
        no_repeat(s) <==> forall|x: Selector| s.contains(x),
{
    if no_repeat(s) {
        assert forall|x: Selector| s.contains(x) by {
            if !s.contains(x) {
                assert(s[0] != x && s[1] != x && s[2] != x && s[3] != x);
                assert(s[0] != s[1] && s[0] != s[2] && s[0] != s[3]);
                assert(s[1] != s[2] && s[1] != s[3] && s[2] != s[3]);
            }
        }
    }
    if forall|x: Selector| s.contains(x) {
        assert(s.contains(Selector::Column1));
        assert(s.contains(Selector::Column2));
        assert(s.contains(Selector::Row1));
        assert(s.contains(Selector::Row2));
        if !no_repeat(s) {
            let (i, j) = choose|i: int, j: int| 0 <= i < j < s.len() && s[i] == s[j];
            let c1 = choose|k: int| 0 <= k < 4 && s[k] == Selector::Column1;
            let c2 = choose|k: int| 0 <= k < 4 && s[k] == Selector::Column2;
            let r1 = choose|k: int| 0 <= k < 4 && s[k] == Selector::Row1;
            let r2 = choose|k: int| 0 <= k < 4 && s[k] == Selector::Row2;
            assert(c1 != c2 && c1 != r1 && c1 != r2 && c2 != r1 && c2 != r2 && r1 != r2);
        }
    }
}

/// The order in which the lines of a cell resolve during one evaluation.
#[derive(Clone, Copy, Debug, PartialEq, Eq, Hash)]
pub struct ActivationOrder {
    order: [Selector; 4],
}

impl View for ActivationOrder {
    type V = Seq<Selector>;

    closed spec fn view(&self) -> Seq<Selector> {
        self.order@
    }
}

impl ActivationOrder {
    #[verifier::type_invariant]
    closed spec fn inv(self) -> bool {
        no_repeat(self.order@)
    }

    /// Builds an order from four selectors, kept as given; fails when a
    /// selector is repeated.
    pub fn new(order: [Selector; 4]) -> (r: Result<Self, &'static str>)
        ensures
            r is Ok <==> no_repeat(order@),
            r matches Ok(o) ==> o@ == order@,
            r matches Err(e) ==> e == "Duplicate enum variants not allowed",
    {
        let mut i: usize = 0;
        while i < 4
            invariant
                0 <= i <= 4,
                forall|a: int, b: int| 0 <= a < b < 4 && a < i ==> order@[a] != order@[b],
            decreases 4 - i,
        {
            let mut j: usize = i + 1;
            while j < 4
                invariant
                    0 <= i < 4,
                    i + 1 <= j <= 4,
                    forall|a: int, b: int| 0 <= a < b < 4 && a < i ==> order@[a] != order@[b],
                    forall|b: int| i < b < j ==> order@[i as int] != order@[b],
                decreases 4 - j,
            {
                if order[i] == order[j] {
                    return Err("Duplicate enum variants not allowed");
                }
                j = j + 1;
            }
            i = i + 1;
        }
        Ok(ActivationOrder { order })
    }

    /// The four selectors, in activation order.
    pub fn order(&self) -> (r: [Selector; 4])
        ensures
            r@ == self@,
            is_permutation(r@),
    {
        proof {
            use_type_invariant(self);
        }
        self.order
    }

}

impl Default for ActivationOrder {
    /// Column1, Column2, Row1, Row2.
    fn default() -> (r: Self)
        ensures
            r@ == seq![Selector::Column1, Selector::Column2, Selector::Row1, Selector::Row2],
    {
        let r = ActivationOrder {
            order: [Selector::Column1, Selector::Column2, Selector::Row1, Selector::Row2],
        };
        assert(r.order@ == seq![Selector::Column1, Selector::Column2, Selector::Row1, Selector::Row2]);
        r
    }
}

/// Filler-block counts of the four lines, added to each line's threshold sum.
#[derive(Clone, Copy, Debug)]
pub struct Fills {
    pub counts: [u8; 4],
}

impl Selector {
    /// Position of the line in per-line tables.
    pub open spec fn index(self) -> int {
        match self {
            Selector::Column1 => 0,
            Selector::Column2 => 1,
            Selector::Row1 => 2,
            Selector::Row2 => 3,
        }
    }

    pub fn to_index(self) -> (r: usize)
        ensures
            r == self.index(),
    {
        match self {
            Selector::Column1 => 0,
            Selector::Column2 => 1,
            Selector::Row1 => 2,
            Selector::Row2 => 3,
        }
    }
}

impl Fills {
    pub open spec fn fill(self, line: Selector) -> u8 {
        self.counts@[line.index()]
    }

    pub fn new(c1: u8, c2: u8, r1: u8, r2: u8) -> (r: Self)
        ensures
            r.counts@ == seq![c1, c2, r1, r2],
    {
        let r = Fills { counts: [c1, c2, r1, r2] };
        assert(r.counts@ == seq![c1, c2, r1, r2]);
        r
    }

    /// Sets the filler count of one line.
    pub fn set(&mut self, target: Selector, val: u8)
        ensures
            final(self).counts@ == old(self).counts@.update(target.index(), val),
    {
        self.counts[target.to_index()] = val;
    }

    /// The filler count of one line.
    pub fn get(&self, target: Selector) -> (r: u8)
        ensures
            r == self.fill(target),
    {
        self.counts[target.to_index()]
    }
}

impl Default for Fills {
    /// No fillers on any line.
    fn default() -> (r: Self)
        ensures
            r.counts@ == seq![0u8, 0u8, 0u8, 0u8],
    {
        Fills::new(0, 0, 0, 0)
    }
}

/// The four port signals of a cell, used as the input and the output of one
/// evaluation.
#[derive(Clone, Copy, Debug, PartialEq, Eq, Hash, Structural)]
pub struct CellIO {
    pub column_1: bool,
    pub column_2: bool,
    pub row_1: bool,
    pub row_2: bool,
}

pub open spec fn b2n(b: bool) -> nat {
    if b {
        1
    } else {
        0
    }
}

impl CellIO {
    pub const COLUMN_1: Selector = Selector::Column1;
    pub const COLUMN_2: Selector = Selector::Column2;
    pub const ROW_1: Selector = Selector::Row1;
    pub const ROW_2: Selector = Selector::Row2;

    pub fn new(c1: bool, c2: bool, r1: bool, r2: bool) -> (r: Self)
        ensures
            r == (CellIO { column_1: c1, column_2: c2, row_1: r1, row_2: r2 }),
    {
        CellIO { column_1: c1, column_2: c2, row_1: r1, row_2: r2 }
    }

    /// The signal on one port.
    pub open spec fn port(self, line: Selector) -> bool {
        match line {
            Selector::Column1 => self.column_1,
            Selector::Column2 => self.column_2,
            Selector::Row1 => self.row_1,
            Selector::Row2 => self.row_2,
        }
    }

    /// The same vector with one port replaced.
    pub open spec fn with_port(self, line: Selector, v: bool) -> CellIO {
        match line {
            Selector::Column1 => CellIO { column_1: v, ..self },
            Selector::Column2 => CellIO { column_2: v, ..self },
            Selector::Row1 => CellIO { row_1: v, ..self },
            Selector::Row2 => CellIO { row_2: v, ..self },
        }
    }

    /// The vector as a 4-bit number: column 1 is bit 0, row 2 is bit 3.
    pub open spec fn value(self) -> nat {
        b2n(self.column_1) + 2 * b2n(self.column_2) + 4 * b2n(self.row_1) + 8 * b2n(self.row_2)
    }

    pub fn get(&self, line: Selector) -> (r: bool)
        ensures
            r == self.port(line),
    {
        match line {
            Selector::Column1 => self.column_1,
            Selector::Column2 => self.column_2,
            Selector::Row1 => self.row_1,
            Selector::Row2 => self.row_2,
        }
    }

    pub fn set(&mut self, line: Selector, v: bool)
        ensures
            *final(self) == old(self).with_port(line, v),
    {
        match line {
            Selector::Column1 => self.column_1 = v,
            Selector::Column2 => self.column_2 = v,
            Selector::Row1 => self.row_1 = v,
            Selector::Row2 => self.row_2 = v,
        }
    }

    /// The vector as a 4-bit number.
    pub fn bits(&self) -> (r: u8)
        ensures
            r == self.value(),
    {
        let mut r: u8 = 0;
        if self.column_1 {
            r = r + 1;
        }
        if self.column_2 {
            r = r + 2;
        }
        if self.row_1 {
            r = r + 4;
        }
        if self.row_2 {
            r = r + 8;
        }
        r
    }

    /// The vector whose ports are bits 0 to 3 of `bits`; higher bits are
    /// dropped.
    pub fn from_bits_truncate(bits: u8) -> (r: Self)
        ensures
            r.value() == bits % 16,
    {
        let low = bits % 16;
        let r = CellIO {
            column_1: low % 2 == 1,
            column_2: (low / 2) % 2 == 1,
            row_1: (low / 4) % 2 == 1,
            row_2: (low / 8) % 2 == 1,
        };
        r
    }

    /// The signal on one port as 0 or 1.
    pub fn contains_as_u8(&self, flag: Selector) -> (r: u8)
        ensures
            r == b2n(self.port(flag)),
    {
        if self.get(flag) {
            1
        } else {
            0
        }
    }
}

/// Bit `k` of `bits`.
pub open spec fn has_bit(bits: u16, k: u16) -> bool {
    (bits >> k) & 1u16 == 1u16
}

/// The thirteen flags of a cell, bit `k` of the packed form being flag `k`
/// in declaration order. During an evaluation pass the junction and still
/// flags of a working copy are cleared as lines resolve.
#[derive(Clone, Copy, Debug, PartialEq, Eq, Hash, Structural)]
pub struct FlagState {
    /// Junction between column 1 and row 1.
    pub jc1_r1: bool,
    /// Junction between column 1 and row 2.
    pub jc1_r2: bool,
    /// Junction between column 2 and row 1.
    pub jc2_r1: bool,
    /// Junction between column 2 and row 2.
    pub jc2_r2: bool,
    /// NOT function on column 1.
    pub not_c1: bool,
    /// NOT function on column 2.
    pub not_c2: bool,
    /// Output latch of column 1: holds it active once row 1 has come to
    /// rest; also counts toward its threshold.
    pub c1_out: bool,
    /// Output latch of column 2: holds it active once row 1 has come to
    /// rest; also counts toward its threshold.
    pub c2_out: bool,
    /// Output of row 1.
    pub r1_out: bool,
    /// Output of row 2.
    pub r2_out: bool,
    /// Column 1 has not moved yet in this pass.
    pub still_c1: bool,
    /// Column 2 has not moved yet in this pass.
    pub still_c2: bool,
    /// Row 1 has not moved yet in this pass.
    pub still_r1: bool,
}

impl FlagState {
    /// Flag `k`, in declaration order.
    pub open spec fn flag(self, k: int) -> bool {
        if k == 0 {
            self.jc1_r1
        } else if k == 1 {
            self.jc1_r2
        } else if k == 2 {
            self.jc2_r1
        } else if k == 3 {
            self.jc2_r2
        } else if k == 4 {
            self.not_c1
        } else if k == 5 {
            self.not_c2
        } else if k == 6 {
            self.c1_out
        } else if k == 7 {
            self.c2_out
        } else if k == 8 {
            self.r1_out
        } else if k == 9 {
            self.r2_out
        } else if k == 10 {
            self.still_c1
        } else if k == 11 {
            self.still_c2
        } else {
            self.still_r1
        }
    }

    /// The flags held in `bits` (bits above 12 are dropped), with the three
    /// still flags set whatever `bits` holds.
    pub open spec fn from_bits(bits: u16) -> FlagState {
        FlagState {
            jc1_r1: has_bit(bits, 0),
            jc1_r2: has_bit(bits, 1),
            jc2_r1: has_bit(bits, 2),
            jc2_r2: has_bit(bits, 3),
            not_c1: has_bit(bits, 4),
            not_c2: has_bit(bits, 5),
            c1_out: has_bit(bits, 6),
            c2_out: has_bit(bits, 7),
            r1_out: has_bit(bits, 8),
            r2_out: has_bit(bits, 9),
            still_c1: true,
            still_c2: true,
            still_r1: true,
        }
    }

    pub open spec fn still_set(self) -> bool {
        self.still_c1 && self.still_c2 && self.still_r1
    }
}

/// One of the ten configuration flags of a cell.
#[derive(Clone, Copy, Debug, PartialEq, Eq, Hash, Structural)]
pub enum ConfigFlag {
    Jc1R1,
    Jc1R2,
    Jc2R1,
    Jc2R2,
    NotC1,
    NotC2,
    C1Out,
    C2Out,
    R1Out,
    R2Out,
}

impl ConfigFlag {
    pub open spec fn index(self) -> int {
        match self {
            ConfigFlag::Jc1R1 => 0,
            ConfigFlag::Jc1R2 => 1,
            ConfigFlag::Jc2R1 => 2,
            ConfigFlag::Jc2R2 => 3,
            ConfigFlag::NotC1 => 4,
            ConfigFlag::NotC2 => 5,
            ConfigFlag::C1Out => 6,
            ConfigFlag::C2Out => 7,
            ConfigFlag::R1Out => 8,
            ConfigFlag::R2Out => 9,
        }
    }
}

/// The configuration of a cell. Every value holds its three still flags set:
/// each way of building or changing one sets them again.
#[derive(Clone, Copy, Debug)]
pub struct CellFlags {
    state: FlagState,
}

impl View for CellFlags {
    type V = FlagState;

    closed spec fn view(&self) -> FlagState {
        self.state
    }
}

impl CellFlags {
    pub const JC1_R1: ConfigFlag = ConfigFlag::Jc1R1;
    pub const JC1_R2: ConfigFlag = ConfigFlag::Jc1R2;
    pub const JC2_R1: ConfigFlag = ConfigFlag::Jc2R1;
    pub const JC2_R2: ConfigFlag = ConfigFlag::Jc2R2;
    pub const NOT_C1: ConfigFlag = ConfigFlag::NotC1;
    pub const NOT_C2: ConfigFlag = ConfigFlag::NotC2;
    pub const C1_OUT: ConfigFlag = ConfigFlag::C1Out;
    pub const C2_OUT: ConfigFlag = ConfigFlag::C2Out;
    pub const R1_OUT: ConfigFlag = ConfigFlag::R1Out;
    pub const R2_OUT: ConfigFlag = ConfigFlag::R2Out;

    #[verifier::type_invariant]
    closed spec fn inv(self) -> bool {
        self.state.still_set()
    }

    /// The still flags of every value are set.
    pub fn state(&self) -> (r: FlagState)
        ensures
            r == self@,
            r.still_set(),
    {
        proof {
            use_type_invariant(self);
        }
        self.state
    }

    /// The flags held in the low ten bits of `bits`, with the still flags
    /// set; unknown bits are dropped.
    pub fn from_bits_checked(bits: u16) -> (r: Self)
        ensures
            r@ == FlagState::from_bits(bits),
            r@.still_set(),
    {
        CellFlags {
            state: FlagState {
                jc1_r1: (bits >> 0u16) & 1u16 == 1u16,
                jc1_r2: (bits >> 1u16) & 1u16 == 1u16,
                jc2_r1: (bits >> 2u16) & 1u16 == 1u16,
                jc2_r2: (bits >> 3u16) & 1u16 == 1u16,
                not_c1: (bits >> 4u16) & 1u16 == 1u16,
                not_c2: (bits >> 5u16) & 1u16 == 1u16,
                c1_out: (bits >> 6u16) & 1u16 == 1u16,
                c2_out: (bits >> 7u16) & 1u16 == 1u16,
                r1_out: (bits >> 8u16) & 1u16 == 1u16,
                r2_out: (bits >> 9u16) & 1u16 == 1u16,
                still_c1: true,
                still_c2: true,
                still_r1: true,
            },
        }
    }

    /// The flags as a number, flag `k` being bit `k`.
    pub fn bits(&self) -> (r: u16)
        ensures
            r < 8192,
            forall|k: u16| k < 13 ==> has_bit(r, k) == self@.flag(k as int),
            FlagState::from_bits(r) == self@,
    {
        proof {
            use_type_invariant(self);
        }
        let st = self.state;
        let b0: u16 = if st.jc1_r1 { 1 } else { 0 };
        let b1: u16 = if st.jc1_r2 { 1 } else { 0 };
        let b2: u16 = if st.jc2_r1 { 1 } else { 0 };
        let b3: u16 = if st.jc2_r2 { 1 } else { 0 };
        let b4: u16 = if st.not_c1 { 1 } else { 0 };
        let b5: u16 = if st.not_c2 { 1 } else { 0 };
        let b6: u16 = if st.c1_out { 1 } else { 0 };
        let b7: u16 = if st.c2_out { 1 } else { 0 };
        let b8: u16 = if st.r1_out { 1 } else { 0 };
        let b9: u16 = if st.r2_out { 1 } else { 0 };
        let b10: u16 = if st.still_c1 { 1 } else { 0 };
        let b11: u16 = if st.still_c2 { 1 } else { 0 };
        let b12: u16 = if st.still_r1 { 1 } else { 0 };
        let r: u16 = b0
            | (b1 << 1u16)
            | (b2 << 2u16)
            | (b3 << 3u16)
            | (b4 << 4u16)
            | (b5 << 5u16)
            | (b6 << 6u16)
            | (b7 << 7u16)
            | (b8 << 8u16)
            | (b9 << 9u16)
            | (b10 << 10u16)
            | (b11 << 11u16)
            | (b12 << 12u16);
        assert((r >> 0u16) & 1u16 == b0 && (r >> 1u16) & 1u16 == b1 &&
                (r >> 2u16) & 1u16 == b2 &&
                (r >> 3u16) & 1u16 == b3 &&
                (r >> 4u16) & 1u16 == b4 &&
                (r >> 5u16) & 1u16 == b5 &&
                (r >> 6u16) & 1u16 == b6 &&
                (r >> 7u16) & 1u16 == b7 &&
                (r >> 8u16) & 1u16 == b8 &&
                (r >> 9u16) & 1u16 == b9 &&
                (r >> 10u16) & 1u16 == b10 &&
                (r >> 11u16) & 1u16 == b11 &&
                (r >> 12u16) & 1u16 == b12 &&
                r < 8192) by (bit_vector)
            requires
                b0 <= 1,
                b1 <= 1,
                b2 <= 1,
                b3 <= 1,
                b4 <= 1,
                b5 <= 1,
                b6 <= 1,
                b7 <= 1,
                b8 <= 1,
                b9 <= 1,
                b10 <= 1,
                b11 <= 1,
                b12 <= 1,
                r == b0
                    | (b1 << 1u16)
                    | (b2 << 2u16)
                    | (b3 << 3u16)
                    | (b4 << 4u16)
                    | (b5 << 5u16)
                    | (b6 << 6u16)
                    | (b7 << 7u16)
                    | (b8 << 8u16)
                    | (b9 << 9u16)
                    | (b10 << 10u16)
                    | (b11 << 11u16)
                    | (b12 << 12u16),
        ;
        proof {
            assert forall|k: u16| k < 13 implies has_bit(r, k) == self@.flag(k as int) by {
                if k == 0 {
                    assert(has_bit(r, 0) == (b0 == 1));
                } else if k == 1 {
                    assert(has_bit(r, 1) == (b1 == 1));
                } else if k == 2 {
                    assert(has_bit(r, 2) == (b2 == 1));
                } else if k == 3 {
                    assert(has_bit(r, 3) == (b3 == 1));
                } else if k == 4 {
                    assert(has_bit(r, 4) == (b4 == 1));
                } else if k == 5 {
                    assert(has_bit(r, 5) == (b5 == 1));
                } else if k == 6 {
                    assert(has_bit(r, 6) == (b6 == 1));
                } else if k == 7 {
                    assert(has_bit(r, 7) == (b7 == 1));
                } else if k == 8 {
                    assert(has_bit(r, 8) == (b8 == 1));
                } else if k == 9 {
                    assert(has_bit(r, 9) == (b9 == 1));
                } else if k == 10 {
                    assert(has_bit(r, 10) == (b10 == 1));
                } else if k == 11 {
                    assert(has_bit(r, 11) == (b11 == 1));
                } else if k == 12 {
                    assert(has_bit(r, 12) == (b12 == 1));
                }
            }
            assert(FlagState::from_bits(r) == self@);
        }
        r
    }

    /// Whether a configuration flag is set.
    pub fn contains(&self, flag: ConfigFlag) -> (r: bool)
        ensures
            r == self@.flag(flag.index()),
    {
        match flag {
            ConfigFlag::Jc1R1 => self.state.jc1_r1,
            ConfigFlag::Jc1R2 => self.state.jc1_r2,
            ConfigFlag::Jc2R1 => self.state.jc2_r1,
            ConfigFlag::Jc2R2 => self.state.jc2_r2,
            ConfigFlag::NotC1 => self.state.not_c1,
            ConfigFlag::NotC2 => self.state.not_c2,
            ConfigFlag::C1Out => self.state.c1_out,
            ConfigFlag::C2Out => self.state.c2_out,
            ConfigFlag::R1Out => self.state.r1_out,
            ConfigFlag::R2Out => self.state.r2_out,
        }
    }

    /// Sets or clears one configuration flag, leaving the others.
    pub fn set(&mut self, flag: ConfigFlag, value: bool)
        ensures
            final(self)@.still_set(),
            forall|k: int|
                0 <= k < 13 ==> final(self)@.flag(k) == if k == flag.index() {
                    value
                } else {
                    old(self)@.flag(k)
                },
    {
        proof {
            use_type_invariant(&*self);
        }
        let mut st = self.state;
        match flag {
            ConfigFlag::Jc1R1 => st.jc1_r1 = value,
            ConfigFlag::Jc1R2 => st.jc1_r2 = value,
            ConfigFlag::Jc2R1 => st.jc2_r1 = value,
            ConfigFlag::Jc2R2 => st.jc2_r2 = value,
            ConfigFlag::NotC1 => st.not_c1 = value,
            ConfigFlag::NotC2 => st.not_c2 = value,
            ConfigFlag::C1Out => st.c1_out = value,
            ConfigFlag::C2Out => st.c2_out = value,
            ConfigFlag::R1Out => st.r1_out = value,
            ConfigFlag::R2Out => st.r2_out = value,
        }
        self.state = st;
    }

    /// Sets the flags `pos .. pos + range`; fails when that range is empty
    /// or reaches past the thirteen flags.
    pub fn set_range(&mut self, pos: u8, range: u8) -> (r: Result<(), &'static str>)
        ensures
            final(self)@.still_set(),
            r is Err <==> (pos > 12 || range == 0 || pos + range > 13),
            r matches Err(e) ==> (pos > 12 ==> e == "Position out of range") && (pos <= 12
                ==> e == "Invalid range"),
            r is Err ==> final(self)@ == old(self)@,
            r is Ok ==> forall|k: int|
                0 <= k < 13 ==> final(self)@.flag(k) == (old(self)@.flag(k) || (pos <= k < pos
                    + range)),
    {
        proof {
            use_type_invariant(&*self);
        }
        if pos > 12 {
            return Err("Position out of range");
        }
        if range == 0 || range > 13 - pos {
            return Err("Invalid range");
        }
        let end: u8 = pos + range;
        let st = self.state;
        self.state = FlagState {
            jc1_r1: st.jc1_r1 || (pos <= 0 && 0 < end),
            jc1_r2: st.jc1_r2 || (pos <= 1 && 1 < end),
            jc2_r1: st.jc2_r1 || (pos <= 2 && 2 < end),
            jc2_r2: st.jc2_r2 || (pos <= 3 && 3 < end),
            not_c1: st.not_c1 || (pos <= 4 && 4 < end),
            not_c2: st.not_c2 || (pos <= 5 && 5 < end),
            c1_out: st.c1_out || (pos <= 6 && 6 < end),
            c2_out: st.c2_out || (pos <= 7 && 7 < end),
            r1_out: st.r1_out || (pos <= 8 && 8 < end),
            r2_out: st.r2_out || (pos <= 9 && 9 < end),
            still_c1: st.still_c1 || (pos <= 10 && 10 < end),
            still_c2: st.still_c2 || (pos <= 11 && 11 < end),
            still_r1: st.still_r1 || (pos <= 12 && 12 < end),
        };
        Ok(())
    }
}

impl Default for CellFlags {
    /// No configuration flag set; the still flags set.
    fn default() -> (r: Self)
        ensures
            r@ == FlagState::from_bits(0),
            r@.still_set(),
    {
        CellFlags::from_bits_checked(0)
    }
}

/// Blocks that every line holds before fillers, input and flags.
pub const FIXED_BLOCKS: u16 = 9;

/// A line is active once its block count exceeds this value.
pub const SATURATION: u16 = 12;

/// The number of set junction/output flags that count toward a line's
/// threshold.
pub open spec fn group_count(f: FlagState, line: Selector) -> nat {
    match line {
        Selector::Column1 => b2n(f.jc1_r1) + b2n(f.jc1_r2) + b2n(f.c1_out),
        Selector::Column2 => b2n(f.jc2_r1) + b2n(f.jc2_r2) + b2n(f.c2_out),
        Selector::Row1 => b2n(f.jc1_r1) + b2n(f.jc2_r1) + b2n(f.r1_out),
        Selector::Row2 => b2n(f.jc1_r2) + b2n(f.jc2_r2) + b2n(f.r2_out),
    }
}

/// The block count of a line: fixed blocks, fillers, the input bit and the
/// line's three counted flags.
pub open spec fn line_count(fills: Fills, f: FlagState, line: Selector, input: bool) -> nat {
    (FIXED_BLOCKS + fills.fill(line) + b2n(input) + group_count(f, line)) as nat
}

/// The output of a line, given the flags as they stand when it resolves.
pub open spec fn line_output(fills: Fills, f: FlagState, line: Selector, input: bool) -> bool {
    let count = line_count(fills, f, line, input);
    match line {
        Selector::Column1 => (f.c1_out && !f.still_r1) || count > SATURATION,
        Selector::Column2 => (f.c2_out && !f.still_r1) || count > SATURATION,
        Selector::Row1 => count + b2n(f.not_c1) + b2n(f.not_c2) > SATURATION || (f.not_c1
            && !f.still_c1) || (f.not_c2 && !f.still_c2),
        Selector::Row2 => count > SATURATION,
    }
}

/// The flags after `line` resolved inactive: its two junctions cleared and,
/// where the line has one, its still flag cleared.
pub open spec fn settle(f: FlagState, line: Selector) -> FlagState {
    match line {
        Selector::Column1 => FlagState { jc1_r1: false, jc1_r2: false, still_c1: false, ..f },
        Selector::Column2 => FlagState { jc2_r1: false, jc2_r2: false, still_c2: false, ..f },
        Selector::Row1 => FlagState { jc1_r1: false, jc2_r1: false, still_r1: false, ..f },
        Selector::Row2 => FlagState { jc1_r2: false, jc2_r2: false, ..f },
    }
}

/// Resolves one line: its output is written into the port vector, and the
/// flags settle when it is inactive.
pub open spec fn step(fills: Fills, state: (FlagState, CellIO), line: Selector) -> (
    FlagState,
    CellIO,
) {
    let out = line_output(fills, state.0, line, state.1.port(line));
    (if out {
        state.0
    } else {
        settle(state.0, line)
    }, state.1.with_port(line, out))
}

/// Resolves the lines of `order` one after the other.
pub open spec fn run(fills: Fills, order: Seq<Selector>, state: (FlagState, CellIO)) -> (
    FlagState,
    CellIO,
)
    decreases order.len(),
{
    if order.len() == 0 {
        state
    } else {
        step(fills, run(fills, order.drop_last(), state), order.last())
    }
}

/// One configured cell of the fabric.
#[derive(Clone, Copy, Debug)]
pub struct Cell {
    pub activation_order: ActivationOrder,
    pub flags: CellFlags,
    pub fills: Fills,
}

impl Cell {
    /// The cell that a new grid holds: default order, no configuration flag,
    /// no fillers.
    pub open spec fn is_blank(self) -> bool {
        &&& self.activation_order@ == seq![
            Selector::Column1,
            Selector::Column2,
            Selector::Row1,
            Selector::Row2,
        ]
        &&& self.flags@ == FlagState::from_bits(0)
        &&& self.fills.counts@ == seq![0u8, 0u8, 0u8, 0u8]
    }

    /// What the cell outputs for `input`.
    pub open spec fn output(self, input: CellIO) -> CellIO {
        run(self.fills, self.activation_order@, (self.flags@, input)).1
    }

    pub fn new(activation_order: &ActivationOrder, flags: &CellFlags, fills: Fills) -> (r: Self)
        ensures
            r.activation_order@ == activation_order@,
            r.flags@ == flags@,
            r.flags@.still_set(),
            r.fills == fills,
    {
        proof {
            use_type_invariant(flags);
        }
        Cell { activation_order: *activation_order, flags: *flags, fills }
    }

    /// The block count of `line` under the working flags `work`.
    fn count(&self, work: &FlagState, line: Selector, input: bool) -> (r: u16)
        ensures
            r == line_count(self.fills, *work, line, input),
    {
        let (a, b, c) = match line {
            Selector::Column1 => (work.jc1_r1, work.jc1_r2, work.c1_out),
            Selector::Column2 => (work.jc2_r1, work.jc2_r2, work.c2_out),
            Selector::Row1 => (work.jc1_r1, work.jc2_r1, work.r1_out),
            Selector::Row2 => (work.jc1_r2, work.jc2_r2, work.r2_out),
        };
        let mut count: u16 = FIXED_BLOCKS + self.fills.get(line) as u16;
        if input {
            count = count + 1;
        }
        if a {
            count = count + 1;
        }
        if b {
            count = count + 1;
        }
        if c {
            count = count + 1;
        }
        count
    }

    /// Resolves column `line`, settling `work` when the column is inactive.
    fn sim_gate(&self, work: &mut FlagState, line: Selector, input: bool) -> (r: bool)
        requires
            line == Selector::Column1 || line == Selector::Column2,
        ensures
            r == line_output(self.fills, *old(work), line, input),
            *final(work) == if r {
                *old(work)
            } else {
                settle(*old(work), line)
            },
    {
        let count = self.count(work, line, input);
        let latched = if line == Selector::Column1 {
            work.c1_out
        } else {
            work.c2_out
        };
        let out = (latched && !work.still_r1) || count > SATURATION;
        if !out {
            if line == Selector::Column1 {
                work.jc1_r1 = false;
                work.jc1_r2 = false;
                work.still_c1 = false;
            } else {
                work.jc2_r1 = false;
                work.jc2_r2 = false;
                work.still_c2 = false;
            }
        }
        out
    }

    /// Resolves row 1, which also sees the NOT functions of both columns.
    fn sim_row1(&self, work: &mut FlagState, input: bool) -> (r: bool)
        ensures
            r == line_output(self.fills, *old(work), Selector::Row1, input),
            *final(work) == if r {
                *old(work)
            } else {
                settle(*old(work), Selector::Row1)
            },
    {
        let mut count = self.count(work, Selector::Row1, input);
        if work.not_c1 {
            count = count + 1;
        }
        if work.not_c2 {
            count = count + 1;
        }
        let out = count > SATURATION || (work.not_c1 && !work.still_c1) || (work.not_c2
            && !work.still_c2);
        if !out {
            work.jc1_r1 = false;
            work.jc2_r1 = false;
            work.still_r1 = false;
        }
        out
    }

    /// Resolves row 2, which has no NOT function.
    fn sim_row2(&self, work: &mut FlagState, input: bool) -> (r: bool)
        ensures
            r == line_output(self.fills, *old(work), Selector::Row2, input),
            *final(work) == if r {
                *old(work)
            } else {
                settle(*old(work), Selector::Row2)
            },
    {
        let count = self.count(work, Selector::Row2, input);
        let out = count > SATURATION;
        if !out {
            work.jc1_r2 = false;
            work.jc2_r2 = false;
        }
        out
    }

    /// Evaluates the cell: the lines resolve in activation order on a working
    /// copy of the flags, each seeing what the earlier ones changed. The cell
    /// itself is left as it is.
    pub fn eval_cell(&self, input: CellIO) -> (r: CellIO)
        ensures
            r == self.output(input),
    {
        let order = self.activation_order.order();
        let mut work = self.flags.state();
        let mut io = input;
        let mut i: usize = 0;
        while i < 4
            invariant
                0 <= i <= 4,
                order@ == self.activation_order@,
                (work, io) == run(self.fills, order@.take(i as int), (self.flags@, input)),
            decreases 4 - i,
        {
            let line = order[i];
            let out = match line {
                Selector::Column1 | Selector::Column2 => self.sim_gate(
                    &mut work,
                    line,
                    io.get(line),
                ),
                Selector::Row1 => self.sim_row1(&mut work, io.row_1),
                Selector::Row2 => self.sim_row2(&mut work, io.row_2),
            };
            io.set(line, out);
            assert(order@.take(i + 1).drop_last() == order@.take(i as int));
            i = i + 1;
        }
        assert(order@.take(4) == order@);
        io
    }

    /// The cell's truth table: one row per input vector, from 15 down to 0,
    /// each paired with the cell's output for it.
    pub fn truth_table(&self) -> (r: Vec<(CellIO, CellIO)>)
        ensures
            r@.len() == 16,
            forall|i: int|
                0 <= i < 16 ==> (#[trigger] r@[i]).0.value() == 15 - i && r@[i].1 == self.output(
                    r@[i].0,
                ),
    {
        let mut r: Vec<(CellIO, CellIO)> = Vec::new();
        let mut i: u8 = 16;
        while i > 0
            invariant
                i <= 16,
                r@.len() == 16 - i,
                forall|m: int|
                    0 <= m < 16 - i ==> (#[trigger] r@[m]).0.value() == 15 - m && r@[m].1
                        == self.output(r@[m].0),
            decreases i,
        {
            i = i - 1;
            let input = CellIO::from_bits_truncate(i);
            r.push((input, self.eval_cell(input)));
        }
        r
    }
}

impl Default for Cell {
    fn default() -> (r: Self)
        ensures
            r.is_blank(),
    {
        Cell {
            activation_order: ActivationOrder::default(),
            flags: CellFlags::default(),
            fills: Fills::default(),
        }
    }
}

/// The threshold: a line with none of its counted flags set, with no NOT
/// function in the cell and an input of 0, is active exactly when its filler
/// count exceeds 3, since 9 + fills > 12 just when fills > 3.
pub proof fn lemma_threshold(fills: Fills, f: FlagState, line: Selector)
    requires
        group_count(f, line) == 0,
        !f.not_c1,
        !f.not_c2,
    ensures
        line_output(fills, f, line, false) <==> fills.fill(line) > 3,
{
}

} // verus!
