//! Player ranks: thirty grades, each with the score that unlocks it and the
//! crystal bonus awarded on reaching it.

use vstd::prelude::*;

verus! {

/// A player's rank.
#[derive(Debug, Copy, Clone, PartialEq, Eq, Structural)]
pub enum Rank {
    Recruit,
    Private,
    Gefreiter,
    Corporal,
    MasterCorporal,
    Sergeant,
    StaffSergeant,
    MasterSergeant,
    FirstSergeant,
    SergeantMajor,
    WarrantOfficer1,
    WarrantOfficer2,
    WarrantOfficer3,
    WarrantOfficer4,
    WarrantOfficer5,
    ThirdLieutenant,
    SecondLieutenant,
    FirstLieutenant,
    Captain,
    Major,
    LieutenantColonel,
    Colonel,
    Brigadier,
    MajorGeneral,
    LieutenantGeneral,
    General,
    Marshal,
    FieldMarshal,
    Commander,
    Generalissimo,
}

impl Rank {
    /// The ordinal a rank is stored and transmitted as, starting at 1.
    pub open spec fn spec_value(self) -> u8 {
        match self {
            Rank::Recruit => 1,
            Rank::Private => 2,
            Rank::Gefreiter => 3,
            Rank::Corporal => 4,
            Rank::MasterCorporal => 5,
            Rank::Sergeant => 6,
            Rank::StaffSergeant => 7,
            Rank::MasterSergeant => 8,
            Rank::FirstSergeant => 9,
            Rank::SergeantMajor => 10,
            Rank::WarrantOfficer1 => 11,
            Rank::WarrantOfficer2 => 12,
            Rank::WarrantOfficer3 => 13,
            Rank::WarrantOfficer4 => 14,
            Rank::WarrantOfficer5 => 15,
            Rank::ThirdLieutenant => 16,
            Rank::SecondLieutenant => 17,
            Rank::FirstLieutenant => 18,
            Rank::Captain => 19,
            Rank::Major => 20,
            Rank::LieutenantColonel => 21,
            Rank::Colonel => 22,
            Rank::Brigadier => 23,
            Rank::MajorGeneral => 24,
            Rank::LieutenantGeneral => 25,
            Rank::General => 26,
            Rank::Marshal => 27,
            Rank::FieldMarshal => 28,
            Rank::Commander => 29,
            Rank::Generalissimo => 30,
        }
    }

    /// The score that unlocks a rank.
    pub open spec fn spec_score(self) -> u32 {
        match self {
            Rank::Recruit => 0,
            Rank::Private => 100,
            Rank::Gefreiter => 500,
            Rank::Corporal => 1500,
            Rank::MasterCorporal => 3700,
            Rank::Sergeant => 7100,
            Rank::StaffSergeant => 12300,
            Rank::MasterSergeant => 20000,
            Rank::FirstSergeant => 29000,
            Rank::SergeantMajor => 41000,
            Rank::WarrantOfficer1 => 57000,
            Rank::WarrantOfficer2 => 76000,
            Rank::WarrantOfficer3 => 98000,
            Rank::WarrantOfficer4 => 125000,
            Rank::WarrantOfficer5 => 156000,
            Rank::ThirdLieutenant => 192000,
            Rank::SecondLieutenant => 233000,
            Rank::FirstLieutenant => 280000,
            Rank::Captain => 332000,
            Rank::Major => 390000,
            Rank::LieutenantColonel => 455000,
            Rank::Colonel => 527000,
            Rank::Brigadier => 606000,
            Rank::MajorGeneral => 692000,
            Rank::LieutenantGeneral => 787000,
            Rank::General => 889000,
            Rank::Marshal => 1000000,
            Rank::FieldMarshal => 1122000,
            Rank::Commander => 1255000,
            Rank::Generalissimo => 1400000,
        }
    }

    /// The crystal bonus awarded on reaching a rank.
    pub open spec fn spec_bonus(self) -> u32 {
        match self {
            Rank::Recruit => 0,
            Rank::Private => 10,
            Rank::Gefreiter => 40,
            Rank::Corporal => 120,
            Rank::MasterCorporal => 230,
            Rank::Sergeant => 420,
            Rank::StaffSergeant => 740,
            Rank::MasterSergeant => 950,
            Rank::FirstSergeant => 1400,
            Rank::SergeantMajor => 2000,
            Rank::WarrantOfficer1 => 2500,
            Rank::WarrantOfficer2 => 3100,
            Rank::WarrantOfficer3 => 3900,
            Rank::WarrantOfficer4 => 4600,
            Rank::WarrantOfficer5 => 5600,
            Rank::ThirdLieutenant => 6600,
            Rank::SecondLieutenant => 7900,
            Rank::FirstLieutenant => 8900,
            Rank::Captain => 10000,
            Rank::Major => 12000,
            Rank::LieutenantColonel => 14000,
            Rank::Colonel => 16000,
            Rank::Brigadier => 17000,
            Rank::MajorGeneral => 20000,
            Rank::LieutenantGeneral => 22000,
            Rank::General => 24000,
            Rank::Marshal => 28000,
            Rank::FieldMarshal => 31000,
            Rank::Commander => 34000,
            Rank::Generalissimo => 37000,
        }
    }

    /// The rank stored under an ordinal, if any.
    pub open spec fn spec_from_value(value: u8) -> Option<Rank> {
        if value == 1 {
            Some(Rank::Recruit)
        } else if value == 2 {
            Some(Rank::Private)
        } else if value == 3 {
            Some(Rank::Gefreiter)
        } else if value == 4 {
            Some(Rank::Corporal)
        } else if value == 5 {
            Some(Rank::MasterCorporal)
        } else if value == 6 {
            Some(Rank::Sergeant)
        } else if value == 7 {
            Some(Rank::StaffSergeant)
        } else if value == 8 {
            Some(Rank::MasterSergeant)
        } else if value == 9 {
            Some(Rank::FirstSergeant)
        } else if value == 10 {
            Some(Rank::SergeantMajor)
        } else if value == 11 {
            Some(Rank::WarrantOfficer1)
        } else if value == 12 {
            Some(Rank::WarrantOfficer2)
        } else if value == 13 {
            Some(Rank::WarrantOfficer3)
        } else if value == 14 {
            Some(Rank::WarrantOfficer4)
        } else if value == 15 {
            Some(Rank::WarrantOfficer5)
        } else if value == 16 {
            Some(Rank::ThirdLieutenant)
        } else if value == 17 {
            Some(Rank::SecondLieutenant)
        } else if value == 18 {
            Some(Rank::FirstLieutenant)
        } else if value == 19 {
            Some(Rank::Captain)
        } else if value == 20 {
            Some(Rank::Major)
        } else if value == 21 {
            Some(Rank::LieutenantColonel)
        } else if value == 22 {
            Some(Rank::Colonel)
        } else if value == 23 {
            Some(Rank::Brigadier)
        } else if value == 24 {
            Some(Rank::MajorGeneral)
        } else if value == 25 {
            Some(Rank::LieutenantGeneral)
        } else if value == 26 {
            Some(Rank::General)
        } else if value == 27 {
            Some(Rank::Marshal)
        } else if value == 28 {
            Some(Rank::FieldMarshal)
        } else if value == 29 {
            Some(Rank::Commander)
        } else if value == 30 {
            Some(Rank::Generalissimo)
        } else {
            None
        }
    }

    /// Every rank, lowest first.
    pub fn values() -> (r: Vec<Rank>)
        ensures
            r@.len() == 30,
            forall|i: int| 0 <= i < 30 ==> (#[trigger] r@[i]).spec_value() == i + 1,
    {
        let mut r: Vec<Rank> = Vec::new();
        let mut v: u8 = 1;
        while v <= 30
            invariant
                1 <= v <= 31,
                r@.len() == v - 1,
                forall|i: int| 0 <= i < v - 1 ==> (#[trigger] r@[i]).spec_value() == i + 1,
            decreases 31 - v,
        {
            match Rank::from_value(v) {
                Some(rank) => {
                    r.push(rank);
                },
                None => {
                    proof {
                        assert(false);
                    }
                },
            }
            v = v + 1;
        }
        r
    }

    /// The crystal bonus awarded on reaching this rank.
    pub fn bonus(&self) -> (r: u32)
        ensures
            r == self.spec_bonus(),
    {
        match self {
            Rank::Recruit => 0,
            Rank::Private => 10,
            Rank::Gefreiter => 40,
            Rank::Corporal => 120,
            Rank::MasterCorporal => 230,
            Rank::Sergeant => 420,
            Rank::StaffSergeant => 740,
            Rank::MasterSergeant => 950,
            Rank::FirstSergeant => 1400,
            Rank::SergeantMajor => 2000,
            Rank::WarrantOfficer1 => 2500,
            Rank::WarrantOfficer2 => 3100,
            Rank::WarrantOfficer3 => 3900,
            Rank::WarrantOfficer4 => 4600,
            Rank::WarrantOfficer5 => 5600,
            Rank::ThirdLieutenant => 6600,
            Rank::SecondLieutenant => 7900,
            Rank::FirstLieutenant => 8900,
            Rank::Captain => 10000,
            Rank::Major => 12000,
            Rank::LieutenantColonel => 14000,
            Rank::Colonel => 16000,
            Rank::Brigadier => 17000,
            Rank::MajorGeneral => 20000,
            Rank::LieutenantGeneral => 22000,
            Rank::General => 24000,
            Rank::Marshal => 28000,
            Rank::FieldMarshal => 31000,
            Rank::Commander => 34000,
            Rank::Generalissimo => 37000,
        }
    }

    /// The score that unlocks this rank.
    pub fn score(&self) -> (r: u32)
        ensures
            r == self.spec_score(),
    {
        match self {
            Rank::Recruit => 0,
            Rank::Private => 100,
            Rank::Gefreiter => 500,
            Rank::Corporal => 1500,
            Rank::MasterCorporal => 3700,
            Rank::Sergeant => 7100,
            Rank::StaffSergeant => 12300,
            Rank::MasterSergeant => 20000,
            Rank::FirstSergeant => 29000,
            Rank::SergeantMajor => 41000,
            Rank::WarrantOfficer1 => 57000,
            Rank::WarrantOfficer2 => 76000,
            Rank::WarrantOfficer3 => 98000,
            Rank::WarrantOfficer4 => 125000,
            Rank::WarrantOfficer5 => 156000,
            Rank::ThirdLieutenant => 192000,
            Rank::SecondLieutenant => 233000,
            Rank::FirstLieutenant => 280000,
            Rank::Captain => 332000,
            Rank::Major => 390000,
            Rank::LieutenantColonel => 455000,
            Rank::Colonel => 527000,
            Rank::Brigadier => 606000,
            Rank::MajorGeneral => 692000,
            Rank::LieutenantGeneral => 787000,
            Rank::General => 889000,
            Rank::Marshal => 1000000,
            Rank::FieldMarshal => 1122000,
            Rank::Commander => 1255000,
            Rank::Generalissimo => 1400000,
        }
    }

    /// The ordinal this rank is stored as.
    pub fn value(&self) -> (r: u8)
        ensures
            r == self.spec_value(),
    {
        match self {
            Rank::Recruit => 1,
            Rank::Private => 2,
            Rank::Gefreiter => 3,
            Rank::Corporal => 4,
            Rank::MasterCorporal => 5,
            Rank::Sergeant => 6,
            Rank::StaffSergeant => 7,
            Rank::MasterSergeant => 8,
            Rank::FirstSergeant => 9,
            Rank::SergeantMajor => 10,
            Rank::WarrantOfficer1 => 11,
            Rank::WarrantOfficer2 => 12,
            Rank::WarrantOfficer3 => 13,
            Rank::WarrantOfficer4 => 14,
            Rank::WarrantOfficer5 => 15,
            Rank::ThirdLieutenant => 16,
            Rank::SecondLieutenant => 17,
            Rank::FirstLieutenant => 18,
            Rank::Captain => 19,
            Rank::Major => 20,
            Rank::LieutenantColonel => 21,
            Rank::Colonel => 22,
            Rank::Brigadier => 23,
            Rank::MajorGeneral => 24,
            Rank::LieutenantGeneral => 25,
            Rank::General => 26,
            Rank::Marshal => 27,
            Rank::FieldMarshal => 28,
            Rank::Commander => 29,
            Rank::Generalissimo => 30,
        }
    }

    /// The rank stored under an ordinal, if any.
    pub fn from_value(value: u8) -> (r: Option<Rank>)
        ensures
            r == Rank::spec_from_value(value),
    {
        match value {
            1 => Some(Rank::Recruit),
            2 => Some(Rank::Private),
            3 => Some(Rank::Gefreiter),
            4 => Some(Rank::Corporal),
            5 => Some(Rank::MasterCorporal),
            6 => Some(Rank::Sergeant),
            7 => Some(Rank::StaffSergeant),
            8 => Some(Rank::MasterSergeant),
            9 => Some(Rank::FirstSergeant),
            10 => Some(Rank::SergeantMajor),
            11 => Some(Rank::WarrantOfficer1),
            12 => Some(Rank::WarrantOfficer2),
            13 => Some(Rank::WarrantOfficer3),
            14 => Some(Rank::WarrantOfficer4),
            15 => Some(Rank::WarrantOfficer5),
            16 => Some(Rank::ThirdLieutenant),
            17 => Some(Rank::SecondLieutenant),
            18 => Some(Rank::FirstLieutenant),
            19 => Some(Rank::Captain),
            20 => Some(Rank::Major),
            21 => Some(Rank::LieutenantColonel),
            22 => Some(Rank::Colonel),
            23 => Some(Rank::Brigadier),
            24 => Some(Rank::MajorGeneral),
            25 => Some(Rank::LieutenantGeneral),
            26 => Some(Rank::General),
            27 => Some(Rank::Marshal),
            28 => Some(Rank::FieldMarshal),
            29 => Some(Rank::Commander),
            30 => Some(Rank::Generalissimo),
            _ => None,
        }
    }

    /// The next rank up, or `None` at the top.
    pub fn next_rank(&self) -> (r: Option<Rank>)
        ensures
            r == Rank::spec_from_value((self.spec_value() + 1) as u8),
    {
        let value = self.value();
        Rank::from_value(value + 1)
    }

    /// The highest rank a score has unlocked: its own score is within the
    /// given score, and the next rank's — where one exists — is beyond it.
    pub fn from_score(score: u32) -> (r: Rank)
        ensures
            r.spec_score() <= score,
            Rank::spec_from_value((r.spec_value() + 1) as u8) matches Some(n) ==> score
                < n.spec_score(),
    {
        let mut current_rank = Rank::Recruit;
        loop
            invariant
                current_rank.spec_score() <= score,
            decreases 30 - current_rank.spec_value(),
        {
            let next = current_rank.next_rank();
            match next {
                Some(next_rank) => {
                    if next_rank.score() > score {
                        return current_rank;
                    }
                    current_rank = next_rank;
                },
                None => {
                    return current_rank;
                },
            }
        }
    }
}

} // verus!
