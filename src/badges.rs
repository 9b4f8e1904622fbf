//! Badge bit-fields: fixed, ordered sets of named flags whose wire form is a
//! fixed-length sequence of small integers.
use vstd::prelude::*;

verus! {

/// Number of special badges.
pub const SPECIAL_COUNT: usize = 6;

/// Number of pride badges.
pub const PRIDE_COUNT: usize = 25;

/// Why a wire form could not be read as badges.
#[derive(Clone, Copy, Debug, PartialEq, Eq, Structural)]
pub enum BadgeError {
    /// The sequence does not hold one entry per badge.
    WrongLength { expected: usize, found: usize },
}

/// The integer that stands for a flag on the wire.
pub open spec fn flag_value(b: bool) -> u8 {
    if b {
        1
    } else {
        0
    }
}

/// The wire form of a sequence of flags.
pub open spec fn flags_to_ints(f: Seq<bool>) -> Seq<u8> {
    f.map_values(|b: bool| flag_value(b))
}

/// The flags that a wire form stands for: any non-zero entry is set.
pub open spec fn ints_to_flags(a: Seq<u8>) -> Seq<bool> {
    a.map_values(|x: u8| x != 0)
}

fn flag_int(b: bool) -> (r: u8)
    ensures
        r == flag_value(b),
{
    if b {
        1
    } else {
        0
    }
}

fn flags_as_ints(v: &Vec<bool>) -> (r: Vec<u8>)
    ensures
        r@ == flags_to_ints(v@),
{
    let mut r: Vec<u8> = Vec::new();
    let mut i: usize = 0;
    while i < v.len()
        invariant
            i <= v@.len(),
            r@ == flags_to_ints(v@).subrange(0, i as int),
        decreases v@.len() - i,
    {
        r.push(flag_int(v[i]));
        i = i + 1;
        assert(r@ =~= flags_to_ints(v@).subrange(0, i as int));
    }
    assert(r@ =~= flags_to_ints(v@));
    r
}

/// Badges granted by the service itself.
#[derive(Clone, Copy, Debug, PartialEq, Eq, Structural)]
pub struct SpecialBadges {
    pub figura_dev: bool,
    pub figura_mod: bool,
    pub contest_winner: bool,
    pub supporter: bool,
    pub translator: bool,
    pub texture_artist: bool,
}

impl SpecialBadges {
    /// The flag at position `i` of the wire order.
    pub open spec fn flag_at(self, i: int) -> bool {
        if i == 0 {
            self.figura_dev
        } else if i == 1 {
            self.figura_mod
        } else if i == 2 {
            self.contest_winner
        } else if i == 3 {
            self.supporter
        } else if i == 4 {
            self.translator
        } else {
            i == 5 && self.texture_artist
        }
    }

    /// The flags in their wire order.
    pub open spec fn flags(self) -> Seq<bool> {
        Seq::new(SPECIAL_COUNT as nat, |i: int| self.flag_at(i))
    }

    /// The flag at position `i` of the wire order.
    pub fn flag(&self, i: usize) -> (r: bool)
        requires
            i < SPECIAL_COUNT,
        ensures
            r == self.flag_at(i as int),
    {
        match i {
            0 => self.figura_dev,
            1 => self.figura_mod,
            2 => self.contest_winner,
            3 => self.supporter,
            4 => self.translator,
            _ => self.texture_artist,
        }
    }

    /// Builds the badges from flags in wire order; the count must be exact.
    pub fn from_flags(v: &Vec<bool>) -> (r: Result<SpecialBadges, BadgeError>)
        ensures
            match r {
                Ok(b) => v@.len() == SPECIAL_COUNT && b.flags() == v@,
                Err(e) => v@.len() != SPECIAL_COUNT && e == (BadgeError::WrongLength { expected: SPECIAL_COUNT, found: v@.len() as usize }),
            },
    {
        let ints = flags_as_ints(v);
        proof {
            assert(ints_to_flags(ints@) =~= v@);
        }
        SpecialBadges::from_int_array(ints.as_slice())
    }

    /// Reads the badges from their wire form: one integer per flag, in
    /// order, where any non-zero value sets the flag.
    pub fn from_int_array(arr: &[u8]) -> (r: Result<SpecialBadges, BadgeError>)
        ensures
            match r {
                Ok(b) => arr@.len() == SPECIAL_COUNT && b.flags() == ints_to_flags(arr@),
                Err(e) => arr@.len() != SPECIAL_COUNT && e == (BadgeError::WrongLength { expected: SPECIAL_COUNT, found: arr@.len() as usize }),
            },
    {
        if arr.len() != SPECIAL_COUNT {
            return Err(BadgeError::WrongLength { expected: SPECIAL_COUNT, found: arr.len() });
        }
        let b = SpecialBadges {
            figura_dev: arr[0] != 0,
            figura_mod: arr[1] != 0,
            contest_winner: arr[2] != 0,
            supporter: arr[3] != 0,
            translator: arr[4] != 0,
            texture_artist: arr[5] != 0,
        };
        assert(b.flags() =~= ints_to_flags(arr@));
        Ok(b)
    }

    /// The wire form: one integer per flag, in order, 1 for set and 0 for
    /// clear.
    pub fn as_int_array(&self) -> (r: Vec<u8>)
        ensures
            r@ == flags_to_ints(self.flags()),
    {
        let mut r: Vec<u8> = Vec::new();
        let mut i: usize = 0;
        while i < SPECIAL_COUNT
            invariant
                i <= SPECIAL_COUNT,
                r@ == flags_to_ints(self.flags()).subrange(0, i as int),
            decreases SPECIAL_COUNT - i,
        {
            r.push(flag_int(self.flag(i)));
            i = i + 1;
            assert(r@ =~= flags_to_ints(self.flags()).subrange(0, i as int));
        }
        assert(r@ =~= flags_to_ints(self.flags()));
        r
    }
}

impl Default for SpecialBadges {
    /// No badge set.
    fn default() -> (r: SpecialBadges)
        ensures
            r.flags() == Seq::new(SPECIAL_COUNT as nat, |i: int| false),
    {
        let r = SpecialBadges {
            figura_dev: false,
            figura_mod: false,
            contest_winner: false,
            supporter: false,
            translator: false,
            texture_artist: false,
        };
        assert(r.flags() =~= Seq::new(SPECIAL_COUNT as nat, |i: int| false));
        r
    }
}

/// Reading the wire form of badges back gives the same badges.
pub proof fn lemma_special_round_trip(b: SpecialBadges)
    ensures
        ints_to_flags(flags_to_ints(b.flags())) == b.flags(),
        flags_to_ints(b.flags()).len() == SPECIAL_COUNT,
{
    assert(ints_to_flags(flags_to_ints(b.flags())) =~= b.flags());
}

/// Pride flags a user may show.
#[derive(Clone, Copy, Debug, PartialEq, Eq, Structural)]
pub struct PrideBadges {
    pub agender: bool,
    pub aroace: bool,
    pub aromantic: bool,
    pub asexual: bool,
    pub bigender: bool,
    pub bisexual: bool,
    pub demiboy: bool,
    pub demigender: bool,
    pub demigirl: bool,
    pub demiromantic: bool,
    pub demisexual: bool,
    pub disabled: bool,
    pub finsexual: bool,
    pub gay: bool,
    pub genderfae: bool,
    pub genderfluid: bool,
    pub genderqueer: bool,
    pub intersex: bool,
    pub lesbian: bool,
    pub non_binary: bool,
    pub pansexual: bool,
    pub plural: bool,
    pub poly: bool,
    pub pride_flag: bool,
    pub trans: bool,
}

impl PrideBadges {
    /// The flag at position `i` of the wire order.
    pub open spec fn flag_at(self, i: int) -> bool {
        if i == 0 {
            self.agender
        } else if i == 1 {
            self.aroace
        } else if i == 2 {
            self.aromantic
        } else if i == 3 {
            self.asexual
        } else if i == 4 {
            self.bigender
        } else if i == 5 {
            self.bisexual
        } else if i == 6 {
            self.demiboy
        } else if i == 7 {
            self.demigender
        } else if i == 8 {
            self.demigirl
        } else if i == 9 {
            self.demiromantic
        } else if i == 10 {
            self.demisexual
        } else if i == 11 {
            self.disabled
        } else if i == 12 {
            self.finsexual
        } else if i == 13 {
            self.gay
        } else if i == 14 {
            self.genderfae
        } else if i == 15 {
            self.genderfluid
        } else if i == 16 {
            self.genderqueer
        } else if i == 17 {
            self.intersex
        } else if i == 18 {
            self.lesbian
        } else if i == 19 {
            self.non_binary
        } else if i == 20 {
            self.pansexual
        } else if i == 21 {
            self.plural
        } else if i == 22 {
            self.poly
        } else if i == 23 {
            self.pride_flag
        } else {
            i == 24 && self.trans
        }
    }

    /// The flags in their wire order.
    pub open spec fn flags(self) -> Seq<bool> {
        Seq::new(PRIDE_COUNT as nat, |i: int| self.flag_at(i))
    }

    /// The flag at position `i` of the wire order.
    pub fn flag(&self, i: usize) -> (r: bool)
        requires
            i < PRIDE_COUNT,
        ensures
            r == self.flag_at(i as int),
    {
        match i {
            0 => self.agender,
            1 => self.aroace,
            2 => self.aromantic,
            3 => self.asexual,
            4 => self.bigender,
            5 => self.bisexual,
            6 => self.demiboy,
            7 => self.demigender,
            8 => self.demigirl,
            9 => self.demiromantic,
            10 => self.demisexual,
            11 => self.disabled,
            12 => self.finsexual,
            13 => self.gay,
            14 => self.genderfae,
            15 => self.genderfluid,
            16 => self.genderqueer,
            17 => self.intersex,
            18 => self.lesbian,
            19 => self.non_binary,
            20 => self.pansexual,
            21 => self.plural,
            22 => self.poly,
            23 => self.pride_flag,
            _ => self.trans,
        }
    }

    /// Builds the badges from flags in wire order; the count must be exact.
    pub fn from_flags(v: &Vec<bool>) -> (r: Result<PrideBadges, BadgeError>)
        ensures
            match r {
                Ok(b) => v@.len() == PRIDE_COUNT && b.flags() == v@,
                Err(e) => v@.len() != PRIDE_COUNT && e == (BadgeError::WrongLength { expected: PRIDE_COUNT, found: v@.len() as usize }),
            },
    {
        let ints = flags_as_ints(v);
        proof {
            assert(ints_to_flags(ints@) =~= v@);
        }
        PrideBadges::from_int_array(ints.as_slice())
    }

    /// Reads the badges from their wire form: one integer per flag, in
    /// order, where any non-zero value sets the flag.
    pub fn from_int_array(arr: &[u8]) -> (r: Result<PrideBadges, BadgeError>)
        ensures
            match r {
                Ok(b) => arr@.len() == PRIDE_COUNT && b.flags() == ints_to_flags(arr@),
                Err(e) => arr@.len() != PRIDE_COUNT && e == (BadgeError::WrongLength { expected: PRIDE_COUNT, found: arr@.len() as usize }),
            },
    {
        if arr.len() != PRIDE_COUNT {
            return Err(BadgeError::WrongLength { expected: PRIDE_COUNT, found: arr.len() });
        }
        let b = PrideBadges {
            agender: arr[0] != 0,
            aroace: arr[1] != 0,
            aromantic: arr[2] != 0,
            asexual: arr[3] != 0,
            bigender: arr[4] != 0,
            bisexual: arr[5] != 0,
            demiboy: arr[6] != 0,
            demigender: arr[7] != 0,
            demigirl: arr[8] != 0,
            demiromantic: arr[9] != 0,
            demisexual: arr[10] != 0,
            disabled: arr[11] != 0,
            finsexual: arr[12] != 0,
            gay: arr[13] != 0,
            genderfae: arr[14] != 0,
            genderfluid: arr[15] != 0,
            genderqueer: arr[16] != 0,
            intersex: arr[17] != 0,
            lesbian: arr[18] != 0,
            non_binary: arr[19] != 0,
            pansexual: arr[20] != 0,
            plural: arr[21] != 0,
            poly: arr[22] != 0,
            pride_flag: arr[23] != 0,
            trans: arr[24] != 0,
        };
        assert(b.flags() =~= ints_to_flags(arr@));
        Ok(b)
    }

    /// The wire form: one integer per flag, in order, 1 for set and 0 for
    /// clear.
    pub fn as_int_array(&self) -> (r: Vec<u8>)
        ensures
            r@ == flags_to_ints(self.flags()),
    {
        let mut r: Vec<u8> = Vec::new();
        let mut i: usize = 0;
        while i < PRIDE_COUNT
            invariant
                i <= PRIDE_COUNT,
                r@ == flags_to_ints(self.flags()).subrange(0, i as int),
            decreases PRIDE_COUNT - i,
        {
            r.push(flag_int(self.flag(i)));
            i = i + 1;
            assert(r@ =~= flags_to_ints(self.flags()).subrange(0, i as int));
        }
        assert(r@ =~= flags_to_ints(self.flags()));
        r
    }
}

impl Default for PrideBadges {
    /// No badge set.
    fn default() -> (r: PrideBadges)
        ensures
            r.flags() == Seq::new(PRIDE_COUNT as nat, |i: int| false),
    {
        let r = PrideBadges {
            agender: false,
            aroace: false,
            aromantic: false,
            asexual: false,
            bigender: false,
            bisexual: false,
            demiboy: false,
            demigender: false,
            demigirl: false,
            demiromantic: false,
            demisexual: false,
            disabled: false,
            finsexual: false,
            gay: false,
            genderfae: false,
            genderfluid: false,
            genderqueer: false,
            intersex: false,
            lesbian: false,
            non_binary: false,
            pansexual: false,
            plural: false,
            poly: false,
            pride_flag: false,
            trans: false,
        };
        assert(r.flags() =~= Seq::new(PRIDE_COUNT as nat, |i: int| false));
        r
    }
}

/// Reading the wire form of badges back gives the same badges.
pub proof fn lemma_pride_round_trip(b: PrideBadges)
    ensures
        ints_to_flags(flags_to_ints(b.flags())) == b.flags(),
        flags_to_ints(b.flags()).len() == PRIDE_COUNT,
{
    assert(ints_to_flags(flags_to_ints(b.flags())) =~= b.flags());
}

/// The badges a user shows, or that a server allows.
#[derive(Clone, Copy, Debug, PartialEq, Eq, Structural)]
pub struct Badges {
    pub special: SpecialBadges,
    pub pride: PrideBadges,
}

impl Default for Badges {
    /// No badge set.
    fn default() -> (r: Badges)
        ensures
            r.special.flags() == Seq::new(SPECIAL_COUNT as nat, |i: int| false),
            r.pride.flags() == Seq::new(PRIDE_COUNT as nat, |i: int| false),
    {
        Badges { special: SpecialBadges::default(), pride: PrideBadges::default() }
    }
}

/// The badges shown on a user's profile.
#[derive(Clone, Copy, Debug, PartialEq, Eq, Structural)]
pub struct EquippedBadges {
    pub special: SpecialBadges,
    pub pride: PrideBadges,
}

impl Default for EquippedBadges {
    /// No badge shown.
    fn default() -> (r: EquippedBadges)
        ensures
            r.special.flags() == Seq::new(SPECIAL_COUNT as nat, |i: int| false),
            r.pride.flags() == Seq::new(PRIDE_COUNT as nat, |i: int| false),
    {
        EquippedBadges { special: SpecialBadges::default(), pride: PrideBadges::default() }
    }
}

} // verus!
