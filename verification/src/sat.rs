use vstd::prelude::*;
use vstd::string::*;

verus! {

/// GNSS constellation of a satellite.
#[derive(Clone, Copy, Debug, PartialEq, Eq, Hash, Structural)]
pub enum Constellation {
    Gps,
    Glonass,
    Galileo,
    Beidou,
    Qzss,
    Sbas,
}

/// A satellite, identified by constellation and PRN number.
#[derive(Clone, Copy, Debug, PartialEq, Eq, Hash, Structural)]
pub struct SatelliteId {
    pub constellation: Constellation,
    pub prn: u8,
}

/// The one-letter SP3 system code of a constellation.
pub open spec fn sp3_letter(c: Constellation) -> char {
    match c {
        Constellation::Gps => 'G',
        Constellation::Glonass => 'R',
        Constellation::Galileo => 'E',
        Constellation::Beidou => 'C',
        Constellation::Qzss => 'J',
        Constellation::Sbas => '?',
    }
}

/// The decimal digit character for `d` (0..=9).
pub open spec fn digit_char(d: int) -> char {
    if d == 0 {
        '0'
    } else if d == 1 {
        '1'
    } else if d == 2 {
        '2'
    } else if d == 3 {
        '3'
    } else if d == 4 {
        '4'
    } else if d == 5 {
        '5'
    } else if d == 6 {
        '6'
    } else if d == 7 {
        '7'
    } else if d == 8 {
        '8'
    } else {
        '9'
    }
}

/// A number written in decimal, zero-padded to at least two digits.
pub open spec fn two_digit_decimal(n: u8) -> Seq<char> {
    if n < 100 {
        seq![digit_char(n as int / 10), digit_char(n as int % 10)]
    } else {
        seq![digit_char(n as int / 100), digit_char((n as int / 10) % 10), digit_char(n as int % 10)]
    }
}

/// The satellite identifier as written in SP3 precise-orbit files ("G05").
pub open spec fn sp3_id(sat: SatelliteId) -> Seq<char> {
    seq![sp3_letter(sat.constellation)] + two_digit_decimal(sat.prn)
}

fn letter_str(c: Constellation) -> (s: &'static str)
    ensures
        s@ == seq![sp3_letter(c)],
{
    match c {
        Constellation::Gps => {
            proof {
                reveal_strlit("G");
            }
            "G"
        },
        Constellation::Glonass => {
            proof {
                reveal_strlit("R");
            }
            "R"
        },
        Constellation::Galileo => {
            proof {
                reveal_strlit("E");
            }
            "E"
        },
        Constellation::Beidou => {
            proof {
                reveal_strlit("C");
            }
            "C"
        },
        Constellation::Qzss => {
            proof {
                reveal_strlit("J");
            }
            "J"
        },
        Constellation::Sbas => {
            proof {
                reveal_strlit("?");
            }
            "?"
        },
    }
}

fn digit_str(d: u8) -> (s: &'static str)
    requires
        d < 10,
    ensures
        s@ == seq![digit_char(d as int)],
{
    if d == 0 {
        proof {
            reveal_strlit("0");
        }
        "0"
    } else if d == 1 {
        proof {
            reveal_strlit("1");
        }
        "1"
    } else if d == 2 {
        proof {
            reveal_strlit("2");
        }
        "2"
    } else if d == 3 {
        proof {
            reveal_strlit("3");
        }
        "3"
    } else if d == 4 {
        proof {
            reveal_strlit("4");
        }
        "4"
    } else if d == 5 {
        proof {
            reveal_strlit("5");
        }
        "5"
    } else if d == 6 {
        proof {
            reveal_strlit("6");
        }
        "6"
    } else if d == 7 {
        proof {
            reveal_strlit("7");
        }
        "7"
    } else if d == 8 {
        proof {
            reveal_strlit("8");
        }
        "8"
    } else {
        proof {
            reveal_strlit("9");
        }
        "9"
    }
}

/// Formats a satellite as its SP3 identifier: the system letter followed by
/// the PRN, zero-padded to two digits.
pub fn format_sp3_id(sat: SatelliteId) -> (s: String)
    ensures
        s@ == sp3_id(sat),
{
    let mut s = String::from_str(letter_str(sat.constellation));
    let p = sat.prn;
    if p >= 100 {
        s.append(digit_str(p / 100));
    }
    s.append(digit_str((p / 10) % 10));
    s.append(digit_str(p % 10));
    proof {
        if p < 100 {
            assert((p / 10) % 10 == p / 10);
        }
        assert(s@ =~= sp3_id(sat));
    }
    s
}

/// Inter-system bias state that applies to a constellation's clock.
#[derive(Clone, Copy, Debug, PartialEq, Eq, Structural)]
pub enum IsbState {
    Glonass,
    Galileo,
    Beidou,
}

/// The inter-system bias carried by a constellation relative to GPS time,
/// if any; GPS, QZSS and SBAS share the receiver clock itself.
pub open spec fn spec_isb_state(c: Constellation) -> Option<IsbState> {
    match c {
        Constellation::Glonass => Some(IsbState::Glonass),
        Constellation::Galileo => Some(IsbState::Galileo),
        Constellation::Beidou => Some(IsbState::Beidou),
        _ => None,
    }
}

/// Index of an inter-system bias in the filter state vector.
pub open spec fn spec_isb_column(s: IsbState) -> nat {
    match s {
        IsbState::Glonass => 16,
        IsbState::Galileo => 17,
        IsbState::Beidou => 18,
    }
}

/// Index of the receiver clock bias in the filter state vector.
pub const CLOCK_BIAS_COLUMN: usize = 15;

/// Which inter-system bias, if any, the pseudorange of a constellation sees.
pub fn isb_state(c: Constellation) -> (r: Option<IsbState>)
    ensures
        r == spec_isb_state(c),
{
    match c {
        Constellation::Glonass => Some(IsbState::Glonass),
        Constellation::Galileo => Some(IsbState::Galileo),
        Constellation::Beidou => Some(IsbState::Beidou),
        _ => None,
    }
}

/// The state-vector columns a pseudorange of a constellation depends on
/// through the clock: the receiver clock, and the constellation's
/// inter-system bias when it has one.
pub fn clock_columns(c: Constellation) -> (cols: Vec<usize>)
    ensures
        cols@.len() >= 1,
        cols@[0] == CLOCK_BIAS_COLUMN,
        spec_isb_state(c) is None ==> cols@.len() == 1,
        spec_isb_state(c) matches Some(s) ==> cols@.len() == 2 && cols@[1] == spec_isb_column(s),
{
    let mut cols = Vec::new();
    cols.push(CLOCK_BIAS_COLUMN);
    match isb_state(c) {
        Some(IsbState::Glonass) => cols.push(16),
        Some(IsbState::Galileo) => cols.push(17),
        Some(IsbState::Beidou) => cols.push(18),
        None => {},
    }
    cols
}

/// The reference satellite of a constellation in a table of
/// `(constellation, reference satellite)` entries.
pub open spec fn spec_ref_sat(table: Seq<(Constellation, SatelliteId)>, c: Constellation) -> Option<SatelliteId>
    decreases table.len(),
{
    if table.len() == 0 {
        None
    } else if table[0].0 == c {
        Some(table[0].1)
    } else {
        spec_ref_sat(table.drop_first(), c)
    }
}

/// A constellation's reference satellite is the one named by its first
/// entry in the table; later entries for it are never consulted, and there
/// is none when it has no entry.
pub proof fn lemma_ref_sat_first_entry(table: Seq<(Constellation, SatelliteId)>, c: Constellation)
    ensures
        spec_ref_sat(table, c) is None <==> forall|i: int| 0 <= i < table.len() ==> #[trigger] table[i].0 != c,
        spec_ref_sat(table, c) matches Some(s) ==> exists|i: int|
            #![trigger table[i]]
            0 <= i < table.len() && table[i] == (c, s) && forall|t: int| 0 <= t < i ==> #[trigger] table[t].0 != c,
    decreases table.len(),
{
    if table.len() > 0 {
        let rest = table.drop_first();
        lemma_ref_sat_first_entry(rest, c);
        if table[0].0 != c {
            assert forall|i: int| 1 <= i < table.len() implies #[trigger] table[i] == rest[i - 1] by {}
            if let Some(s) = spec_ref_sat(rest, c) {
                let k = choose|k: int|
                    #![trigger rest[k]]
                    0 <= k < rest.len() && rest[k] == (c, s) && forall|t: int| 0 <= t < k ==> #[trigger] rest[t].0 != c;
                assert(table[k + 1] == rest[k]);
                assert forall|t: int| 0 <= t < k + 1 implies #[trigger] table[t].0 != c by {
                    if t > 0 {
                        assert(table[t] == rest[t - 1]);
                    }
                }
            } else {
                assert forall|i: int| 0 <= i < table.len() implies #[trigger] table[i].0 != c by {
                    if i > 0 {
                        assert(table[i] == rest[i - 1]);
                    }
                }
            }
        } else {
            assert(table[0] == (c, table[0].1));
        }
    }
}

/// Looks up the reference satellite of a constellation.
pub fn ref_sat_for(table: &Vec<(Constellation, SatelliteId)>, c: Constellation) -> (r: Option<SatelliteId>)
    ensures
        r == spec_ref_sat(table@, c),
{
    let mut i: usize = 0;
    assert(table@.skip(0) =~= table@);
    while i < table.len()
        invariant
            i <= table@.len(),
            spec_ref_sat(table@, c) == spec_ref_sat(table@.skip(i as int), c),
        decreases table@.len() - i,
    {
        assert(table@.skip(i as int).drop_first() =~= table@.skip(i + 1));
        if table[i].0 == c {
            return Some(table[i].1);
        }
        i = i + 1;
    }
    None
}

} // verus!
