//! What an MSM message contributes to a RINEX observation file: the whole
//! second under which its observations are filed, and for each cell the
//! satellite, the observation type and the kind of value it yields.

use vstd::prelude::*;
use vstd::string::*;
use vstd::seq_lib::{to_multiset_build, to_multiset_insert};
use crate::gnss::{GnssSystem, SatelliteId, system_char};
use crate::rtcm::msm::{GnssType, MsmEpoch, MsmSatelliteData, MsmSignalData, msm_content, msm_variant};
use crate::rtcm::rtcm3::Rtcm3MessageType;
use crate::util::text::{decimal_text, push_char};

verus! {

/// The whole second of an MSM epoch: seconds of the week for GPS and
/// Galileo; day of week times 86400 plus seconds of day for GLONASS; seconds
/// of the BeiDou week plus 14 (the offset to GPS time).
pub open spec fn epoch_key_spec(e: MsmEpoch) -> i64 {
    match e {
        MsmEpoch::TimeOfWeek { ms } => (ms / 1000) as i64,
        MsmEpoch::GlonassDayTime { day_of_week, ms } => (day_of_week * 86400 + ms / 1000) as i64,
        MsmEpoch::BeidouTimeOfWeek { ms } => (ms / 1000 + 14) as i64,
    }
}

/// The whole second under which the observations of an MSM epoch are filed.
pub fn epoch_key(epoch: &MsmEpoch) -> (k: i64)
    ensures
        k == epoch_key_spec(*epoch),
{
    match *epoch {
        MsmEpoch::TimeOfWeek { ms } => (ms / 1000) as i64,
        MsmEpoch::GlonassDayTime { day_of_week, ms } => day_of_week as i64 * 86400 + (ms / 1000) as i64,
        MsmEpoch::BeidouTimeOfWeek { ms } => (ms / 1000) as i64 + 14,
    }
}

/// The epoch keys in increasing order, with repeats kept: the order in which
/// the observation file lists its epochs.
pub fn epoch_order(keys: &Vec<i64>) -> (sorted: Vec<i64>)
    ensures
        sorted@.to_multiset() == keys@.to_multiset(),
        forall|i: int, j: int| 0 <= i < j < sorted@.len() ==> sorted@[i] <= sorted@[j],
{
    let mut out: Vec<i64> = Vec::new();
    let mut i: usize = 0;
    proof {
        assert(keys@.take(0) =~= Seq::<i64>::empty());
    }
    while i < keys.len()
        invariant
            i <= keys@.len(),
            out@.to_multiset() == keys@.take(i as int).to_multiset(),
            forall|a: int, b: int| 0 <= a < b < out@.len() ==> out@[a] <= out@[b],
        decreases keys@.len() - i,
    {
        let k = keys[i];
        let mut p: usize = 0;
        while p < out.len() && out[p] <= k
            invariant
                p <= out@.len(),
                forall|a: int| 0 <= a < p ==> out@[a] <= k,
                out@.to_multiset() == keys@.take(i as int).to_multiset(),
                forall|a: int, b: int| 0 <= a < b < out@.len() ==> out@[a] <= out@[b],
            decreases out@.len() - p,
        {
            p = p + 1;
        }
        let ghost before = out@;
        proof {
            assert forall|a: int| p <= a < before.len() implies k < #[trigger] before[a] by {
                assert(before[p as int] <= before[a]);
            }
        }
        out.insert(p, k);
        proof {
            assert(keys@.take(i + 1) =~= keys@.take(i as int).push(k));
            assert(out@ == before.insert(p as int, k));
            to_multiset_insert(before, p as int, k);
            to_multiset_build(keys@.take(i as int), k);
            assert forall|a: int, b: int| 0 <= a < b < out@.len() implies out@[a] <= out@[b] by {
                if b < p {
                    assert(out@[a] == before[a] && out@[b] == before[b]);
                } else if b == p {
                    assert(out@[a] == before[a]);
                } else if a < p {
                    assert(out@[a] == before[a] && out@[b] == before[b - 1]);
                } else if a == p {
                    assert(out@[b] == before[b - 1]);
                } else {
                    assert(out@[a] == before[a - 1] && out@[b] == before[b - 1]);
                }
            }
        }
        i = i + 1;
    }
    proof {
        assert(keys@.take(keys@.len() as int) =~= keys@);
    }
    out
}

/// The kind of value an observation holds.
#[derive(Debug, Clone, Copy, PartialEq, Eq, Structural)]
pub enum ObservationKind {
    /// Pseudorange, from the satellite's rough range and the cell's fine pseudorange.
    Pseudorange,
    /// Carrier phase, from the rough range and the cell's fine phase range.
    Phase,
    /// Doppler, from the satellite's phase range rate.
    Doppler,
    /// Signal strength, from the cell's CNR.
    Strength,
}

/// One observation that a cell yields.
#[derive(Debug, Clone)]
pub struct PlannedObservation {
    /// Index of the cell in the message's cell list.
    pub cell: usize,
    /// The satellite observed.
    pub satellite: SatelliteId,
    /// The observation type, such as `G1C` or `L1C`.
    pub obs_type: String,
    /// Which value of the cell or its satellite is observed.
    pub kind: ObservationKind,
}

/// A planned observation as plain values.
pub open spec fn planned_view(o: PlannedObservation) -> (int, SatelliteId, Seq<char>, ObservationKind) {
    (o.cell as int, o.satellite, o.obs_type@, o.kind)
}

/// The system whose observations an MSM message carries.
pub open spec fn msm_system(m: Rtcm3MessageType) -> Option<GnssSystem> {
    match msm_variant(m) {
        Some((_, GnssType::Gps)) => Some(GnssSystem::Gps),
        Some((_, GnssType::Glonass)) => Some(GnssSystem::Glonass),
        Some((_, GnssType::Galileo)) => Some(GnssSystem::Galileo),
        Some((_, GnssType::Beidou)) => Some(GnssSystem::BeiDou),
        _ => None,
    }
}

/// The band and attribute part of the observation type of signal `index`:
/// `1C`, `2X` and `5X` for the first three signals, the index and `X` after.
pub open spec fn signal_code(index: u8) -> Seq<char> {
    if index == 0 {
        seq!['1', 'C']
    } else if index == 1 {
        seq!['2', 'X']
    } else if index == 2 {
        seq!['5', 'X']
    } else {
        decimal_text(index as nat).push('X')
    }
}

/// The observations that cell `cell` (number `i`) yields, given the
/// message's satellites: none where its satellite index is out of range;
/// else a pseudorange (typed with the system letter), a phase (`L`), a
/// Doppler (`D`) where the satellite has a rate, and a strength (`S`), each
/// where the value is present.
pub open spec fn cell_plan(
    sys: GnssSystem,
    sats: Seq<MsmSatelliteData>,
    cell: MsmSignalData,
    i: int,
) -> Seq<(int, SatelliteId, Seq<char>, ObservationKind)> {
    if cell.satellite_index as int >= sats.len() {
        Seq::empty()
    } else {
        let sat = sats[cell.satellite_index as int];
        let id = SatelliteId { system: sys, prn: sat.satellite_id };
        let code = signal_code(cell.signal_index);
        (if cell.fine_pseudorange is Some {
            seq![(i, id, seq![system_char(sys)] + code, ObservationKind::Pseudorange)]
        } else {
            Seq::empty()
        }) + (if cell.fine_phaserange is Some {
            seq![(i, id, seq!['L'] + code, ObservationKind::Phase)]
        } else {
            Seq::empty()
        }) + (if sat.phase_range_rate is Some {
            seq![(i, id, seq!['D'] + code, ObservationKind::Doppler)]
        } else {
            Seq::empty()
        }) + (if cell.cnr is Some {
            seq![(i, id, seq!['S'] + code, ObservationKind::Strength)]
        } else {
            Seq::empty()
        })
    }
}

/// The observations of the first `n` cells, in cell order.
pub open spec fn cells_plan(
    sys: GnssSystem,
    sats: Seq<MsmSatelliteData>,
    cells: Seq<MsmSignalData>,
    n: nat,
) -> Seq<(int, SatelliteId, Seq<char>, ObservationKind)>
    decreases n,
{
    if n == 0 {
        Seq::empty()
    } else {
        cells_plan(sys, sats, cells, (n - 1) as nat) + cell_plan(sys, sats, cells[n - 1], n - 1)
    }
}

/// The observations that an MSM message yields; none for other messages.
pub open spec fn msm_plan_spec(m: Rtcm3MessageType) -> Seq<(int, SatelliteId, Seq<char>, ObservationKind)> {
    match (msm_system(m), msm_content(m)) {
        (Some(sys), Some(c)) => cells_plan(sys, c.2, c.3, c.3.len()),
        _ => Seq::empty(),
    }
}

/// Each observation of a cell names that cell and the satellite its
/// satellite index points at, which lies within the satellite list.
proof fn lemma_cell_plan_entries(sys: GnssSystem, sats: Seq<MsmSatelliteData>, cell: MsmSignalData, i: int)
    ensures
        forall|k: int|
            0 <= k < cell_plan(sys, sats, cell, i).len() ==> {
                &&& (#[trigger] cell_plan(sys, sats, cell, i)[k]).0 == i
                &&& (cell.satellite_index as int) < sats.len()
                &&& cell_plan(sys, sats, cell, i)[k].1 == (SatelliteId {
                    system: sys,
                    prn: sats[cell.satellite_index as int].satellite_id,
                })
            },
{
    if (cell.satellite_index as int) < sats.len() {
        let id = SatelliteId { system: sys, prn: sats[cell.satellite_index as int].satellite_id };
        let plan = cell_plan(sys, sats, cell, i);
        assert forall|k: int| 0 <= k < plan.len() implies (#[trigger] plan[k]).0 == i && plan[k].1 == id by {
        }
    }
}

/// The observations of the first `n` cells name cells below `n`.
proof fn lemma_cells_plan_entries(sys: GnssSystem, sats: Seq<MsmSatelliteData>, cells: Seq<MsmSignalData>, n: nat)
    requires
        n <= cells.len(),
    ensures
        forall|k: int|
            0 <= k < cells_plan(sys, sats, cells, n).len() ==> {
                let o = #[trigger] cells_plan(sys, sats, cells, n)[k];
                &&& 0 <= o.0 < n
                &&& (cells[o.0].satellite_index as int) < sats.len()
                &&& o.1 == (SatelliteId { system: sys, prn: sats[cells[o.0].satellite_index as int].satellite_id })
            },
    decreases n,
{
    if n > 0 {
        let prev = cells_plan(sys, sats, cells, (n - 1) as nat);
        let last = cell_plan(sys, sats, cells[n - 1], n - 1);
        lemma_cells_plan_entries(sys, sats, cells, (n - 1) as nat);
        lemma_cell_plan_entries(sys, sats, cells[n - 1], n - 1);
        assert forall|k: int| 0 <= k < cells_plan(sys, sats, cells, n).len() implies {
            let o = #[trigger] cells_plan(sys, sats, cells, n)[k];
            &&& 0 <= o.0 < n
            &&& (cells[o.0].satellite_index as int) < sats.len()
            &&& o.1 == (SatelliteId { system: sys, prn: sats[cells[o.0].satellite_index as int].satellite_id })
        } by {
            if k < prev.len() {
                assert(cells_plan(sys, sats, cells, n)[k] == prev[k]);
            } else {
                assert(cells_plan(sys, sats, cells, n)[k] == last[k - prev.len()]);
            }
        }
    }
}

/// Each observation of a cell has a type whose first letter is the system's
/// letter for a pseudorange and `L`, `D` or `S` for a phase, a Doppler or a
/// strength.
proof fn lemma_cell_plan_letters(sys: GnssSystem, sats: Seq<MsmSatelliteData>, cell: MsmSignalData, i: int)
    ensures
        forall|k: int|
            0 <= k < cell_plan(sys, sats, cell, i).len() ==> {
                let o = #[trigger] cell_plan(sys, sats, cell, i)[k];
                &&& o.2.len() > 0
                &&& (o.3 == ObservationKind::Pseudorange ==> o.2[0] == system_char(sys))
                &&& (o.3 == ObservationKind::Phase ==> o.2[0] == 'L')
                &&& (o.3 == ObservationKind::Doppler ==> o.2[0] == 'D')
                &&& (o.3 == ObservationKind::Strength ==> o.2[0] == 'S')
            },
{
}

/// The observations of the first `n` cells have the letters of
/// [`lemma_cell_plan_letters`].
proof fn lemma_cells_plan_letters(sys: GnssSystem, sats: Seq<MsmSatelliteData>, cells: Seq<MsmSignalData>, n: nat)
    requires
        n <= cells.len(),
    ensures
        forall|k: int|
            0 <= k < cells_plan(sys, sats, cells, n).len() ==> {
                let o = #[trigger] cells_plan(sys, sats, cells, n)[k];
                &&& o.2.len() > 0
                &&& (o.3 == ObservationKind::Pseudorange ==> o.2[0] == system_char(sys))
                &&& (o.3 == ObservationKind::Phase ==> o.2[0] == 'L')
                &&& (o.3 == ObservationKind::Doppler ==> o.2[0] == 'D')
                &&& (o.3 == ObservationKind::Strength ==> o.2[0] == 'S')
            },
    decreases n,
{
    if n > 0 {
        let prev = cells_plan(sys, sats, cells, (n - 1) as nat);
        let last = cell_plan(sys, sats, cells[n - 1], n - 1);
        lemma_cells_plan_letters(sys, sats, cells, (n - 1) as nat);
        lemma_cell_plan_letters(sys, sats, cells[n - 1], n - 1);
        assert forall|k: int| 0 <= k < cells_plan(sys, sats, cells, n).len() implies {
            let o = #[trigger] cells_plan(sys, sats, cells, n)[k];
            &&& o.2.len() > 0
            &&& (o.3 == ObservationKind::Pseudorange ==> o.2[0] == system_char(sys))
            &&& (o.3 == ObservationKind::Phase ==> o.2[0] == 'L')
            &&& (o.3 == ObservationKind::Doppler ==> o.2[0] == 'D')
            &&& (o.3 == ObservationKind::Strength ==> o.2[0] == 'S')
        } by {
            if k < prev.len() {
                assert(cells_plan(sys, sats, cells, n)[k] == prev[k]);
            } else {
                assert(cells_plan(sys, sats, cells, n)[k] == last[k - prev.len()]);
            }
        }
    }
}

/// The observations of an MSM message belong to satellites of the message's
/// own system: GPS for the GPS messages, GLONASS for the GLONASS ones,
/// Galileo for the Galileo ones and BeiDou for the BeiDou ones. A
/// pseudorange's type begins with that system's letter (`G`, `R`, `E`, `C`),
/// a phase's with `L`, a Doppler's with `D` and a strength's with `S`.
pub proof fn lemma_plan_system(m: Rtcm3MessageType, k: int)
    requires
        0 <= k < msm_plan_spec(m).len(),
    ensures
        msm_variant(m) is Some,
        ({
            let g = msm_variant(m)->Some_0.1;
            let o = msm_plan_spec(m)[k];
            let (system, letter) = if g == GnssType::Gps {
                (GnssSystem::Gps, 'G')
            } else if g == GnssType::Glonass {
                (GnssSystem::Glonass, 'R')
            } else if g == GnssType::Galileo {
                (GnssSystem::Galileo, 'E')
            } else {
                (GnssSystem::BeiDou, 'C')
            };
            &&& g == GnssType::Gps || g == GnssType::Glonass || g == GnssType::Galileo || g == GnssType::Beidou
            &&& o.1.system == system
            &&& o.2.len() > 0
            &&& (o.3 == ObservationKind::Pseudorange ==> o.2[0] == letter)
            &&& (o.3 == ObservationKind::Phase ==> o.2[0] == 'L')
            &&& (o.3 == ObservationKind::Doppler ==> o.2[0] == 'D')
            &&& (o.3 == ObservationKind::Strength ==> o.2[0] == 'S')
        }),
{
    match (msm_system(m), msm_content(m)) {
        (Some(sys), Some(c)) => {
            lemma_cells_plan_entries(sys, c.2, c.3, c.3.len());
            lemma_cells_plan_letters(sys, c.2, c.3, c.3.len());
            assert(msm_plan_spec(m)[k] == cells_plan(sys, c.2, c.3, c.3.len())[k]);
        },
        _ => {},
    }
}

/// Every observation that an MSM message yields names one of its cells,
/// whose satellite index lies within its satellite list, and the satellite
/// of that index in the message's system.
pub proof fn lemma_plan_names_cells(m: Rtcm3MessageType, k: int)
    requires
        0 <= k < msm_plan_spec(m).len(),
    ensures
        msm_system(m) is Some,
        msm_content(m) is Some,
        0 <= msm_plan_spec(m)[k].0 < msm_content(m)->Some_0.3.len(),
        (msm_content(m)->Some_0.3[msm_plan_spec(m)[k].0].satellite_index as int) < msm_content(m)->Some_0.2.len(),
        msm_plan_spec(m)[k].1 == (SatelliteId {
            system: msm_system(m)->Some_0,
            prn: msm_content(m)->Some_0.2[msm_content(m)->Some_0.3[msm_plan_spec(m)[k].0].satellite_index as int].satellite_id,
        }),
{
    match (msm_system(m), msm_content(m)) {
        (Some(sys), Some(c)) => {
            lemma_cells_plan_entries(sys, c.2, c.3, c.3.len());
            assert(msm_plan_spec(m)[k] == cells_plan(sys, c.2, c.3, c.3.len())[k]);
        },
        _ => {},
    }
}

/// The system, satellites and cells of an MSM message.
fn msm_cells(m: &Rtcm3MessageType) -> (r: Option<(GnssSystem, &Vec<MsmSatelliteData>, &Vec<MsmSignalData>)>)
    ensures
        r is Some <==> (msm_system(*m) is Some && msm_content(*m) is Some),
        r is Some ==> {
            &&& msm_system(*m) == Some(r->Some_0.0)
            &&& msm_content(*m)->Some_0.2 == r->Some_0.1@
            &&& msm_content(*m)->Some_0.3 == r->Some_0.2@
        },
{
    match m {
        Rtcm3MessageType::Msm4Gps { satellites, signals, .. } => Some((GnssSystem::Gps, satellites, signals)),
        Rtcm3MessageType::Msm5Gps { satellites, signals, .. } => Some((GnssSystem::Gps, satellites, signals)),
        Rtcm3MessageType::Msm6Gps { satellites, signals, .. } => Some((GnssSystem::Gps, satellites, signals)),
        Rtcm3MessageType::Msm7Gps { satellites, signals, .. } => Some((GnssSystem::Gps, satellites, signals)),
        Rtcm3MessageType::Msm4Glonass { satellites, signals, .. } => Some((GnssSystem::Glonass, satellites, signals)),
        Rtcm3MessageType::Msm5Glonass { satellites, signals, .. } => Some((GnssSystem::Glonass, satellites, signals)),
        Rtcm3MessageType::Msm6Glonass { satellites, signals, .. } => Some((GnssSystem::Glonass, satellites, signals)),
        Rtcm3MessageType::Msm7Glonass { satellites, signals, .. } => Some((GnssSystem::Glonass, satellites, signals)),
        Rtcm3MessageType::Msm4Galileo { satellites, signals, .. } => Some((GnssSystem::Galileo, satellites, signals)),
        Rtcm3MessageType::Msm5Galileo { satellites, signals, .. } => Some((GnssSystem::Galileo, satellites, signals)),
        Rtcm3MessageType::Msm6Galileo { satellites, signals, .. } => Some((GnssSystem::Galileo, satellites, signals)),
        Rtcm3MessageType::Msm7Galileo { satellites, signals, .. } => Some((GnssSystem::Galileo, satellites, signals)),
        Rtcm3MessageType::Msm4Beidou { satellites, signals, .. } => Some((GnssSystem::BeiDou, satellites, signals)),
        Rtcm3MessageType::Msm5Beidou { satellites, signals, .. } => Some((GnssSystem::BeiDou, satellites, signals)),
        Rtcm3MessageType::Msm6Beidou { satellites, signals, .. } => Some((GnssSystem::BeiDou, satellites, signals)),
        Rtcm3MessageType::Msm7Beidou { satellites, signals, .. } => Some((GnssSystem::BeiDou, satellites, signals)),
        _ => None,
    }
}

/// The observation type `prefix` followed by the code of signal `index`.
fn obs_type_text(prefix: char, index: u8) -> (s: String)
    ensures
        s@ == seq![prefix] + signal_code(index),
{
    let mut s = String::new();
    push_char(&mut s, prefix);
    if index == 0 {
        push_char(&mut s, '1');
        push_char(&mut s, 'C');
    } else if index == 1 {
        push_char(&mut s, '2');
        push_char(&mut s, 'X');
    } else if index == 2 {
        push_char(&mut s, '5');
        push_char(&mut s, 'X');
    } else {
        proof {
            reveal_with_fuel(decimal_text, 3);
        }
        if index < 10 {
            push_char(&mut s, (48 + index) as char);
        } else if index < 100 {
            push_char(&mut s, (48 + index / 10) as char);
            push_char(&mut s, (48 + index % 10) as char);
        } else {
            push_char(&mut s, (48 + index / 100) as char);
            push_char(&mut s, (48 + (index / 10) % 10) as char);
            push_char(&mut s, (48 + index % 10) as char);
        }
        push_char(&mut s, 'X');
    }
    proof {
        assert(s@ =~= seq![prefix] + signal_code(index));
    }
    s
}

/// Appends to `plan` the observations that cell `cell` (number `i`) yields.
fn plan_cell(
    plan: &mut Vec<PlannedObservation>,
    sys: GnssSystem,
    sats: &Vec<MsmSatelliteData>,
    cell: &MsmSignalData,
    i: usize,
)
    ensures
        final(plan)@.len() == old(plan)@.len() + cell_plan(sys, sats@, *cell, i as int).len(),
        forall|k: int| 0 <= k < old(plan)@.len() ==> #[trigger] final(plan)@[k] == old(plan)@[k],
        forall|k: int|
            0 <= k < cell_plan(sys, sats@, *cell, i as int).len() ==> planned_view(
                #[trigger] final(plan)@[old(plan)@.len() + k],
            ) == cell_plan(sys, sats@, *cell, i as int)[k],
{
    let ghost start = plan@;
    if (cell.satellite_index as usize) < sats.len() {
        let sat = sats[cell.satellite_index as usize];
        let id = SatelliteId { system: sys, prn: sat.satellite_id };
        let ghost expected = cell_plan(sys, sats@, *cell, i as int);
        let ghost code = signal_code(cell.signal_index);
        let ghost e1: Seq<(int, SatelliteId, Seq<char>, ObservationKind)> = if cell.fine_pseudorange is Some {
            seq![(i as int, id, seq![system_char(sys)] + code, ObservationKind::Pseudorange)]
        } else {
            Seq::empty()
        };
        let ghost e2: Seq<(int, SatelliteId, Seq<char>, ObservationKind)> = if cell.fine_phaserange is Some {
            seq![(i as int, id, seq!['L'] + code, ObservationKind::Phase)]
        } else {
            Seq::empty()
        };
        let ghost e3: Seq<(int, SatelliteId, Seq<char>, ObservationKind)> = if sat.phase_range_rate is Some {
            seq![(i as int, id, seq!['D'] + code, ObservationKind::Doppler)]
        } else {
            Seq::empty()
        };
        let ghost e4: Seq<(int, SatelliteId, Seq<char>, ObservationKind)> = if cell.cnr is Some {
            seq![(i as int, id, seq!['S'] + code, ObservationKind::Strength)]
        } else {
            Seq::empty()
        };
        assert(expected == e1 + e2 + e3 + e4);
        if cell.fine_pseudorange.is_some() {
            let t = obs_type_text(sys.to_char(), cell.signal_index);
            plan.push(PlannedObservation { cell: i, satellite: id, obs_type: t, kind: ObservationKind::Pseudorange });
        }
        let ghost after1 = plan@;
        assert(after1.len() == start.len() + e1.len());
        if cell.fine_phaserange.is_some() {
            let t = obs_type_text('L', cell.signal_index);
            plan.push(PlannedObservation { cell: i, satellite: id, obs_type: t, kind: ObservationKind::Phase });
        }
        let ghost after2 = plan@;
        if sat.phase_range_rate.is_some() {
            let t = obs_type_text('D', cell.signal_index);
            plan.push(PlannedObservation { cell: i, satellite: id, obs_type: t, kind: ObservationKind::Doppler });
        }
        let ghost after3 = plan@;
        if cell.cnr.is_some() {
            let t = obs_type_text('S', cell.signal_index);
            plan.push(PlannedObservation { cell: i, satellite: id, obs_type: t, kind: ObservationKind::Strength });
        }
        proof {
            let all = e1 + e2 + e3 + e4;
            assert(plan@.len() == start.len() + all.len());
            assert forall|k: int| 0 <= k < all.len() implies planned_view(#[trigger] plan@[start.len() + k]) == all[k] by {
                if k < e1.len() {
                    assert(plan@[start.len() + k] == after1[start.len() + k]);
                } else if k < e1.len() + e2.len() {
                    assert(plan@[start.len() + k] == after2[start.len() + k]);
                } else if k < e1.len() + e2.len() + e3.len() {
                    assert(plan@[start.len() + k] == after3[start.len() + k]);
                }
            }
        }
    }
}

/// The observations that an MSM message yields, cell by cell: for a cell
/// whose satellite index is in range, its pseudorange, phase, Doppler and
/// strength, each where present. Other messages yield none.
pub fn msm_observation_plan(msg: &Rtcm3MessageType) -> (plan: Vec<PlannedObservation>)
    ensures
        plan@.len() == msm_plan_spec(*msg).len(),
        forall|k: int| 0 <= k < plan@.len() ==> planned_view(#[trigger] plan@[k]) == msm_plan_spec(*msg)[k],
{
    let mut plan: Vec<PlannedObservation> = Vec::new();
    match msm_cells(msg) {
        None => {
            proof {
                assert(msm_plan_spec(*msg) =~= Seq::empty());
            }
        },
        Some((sys, sats, cells)) => {
            let mut i: usize = 0;
            while i < cells.len()
                invariant
                    i <= cells@.len(),
                    plan@.len() == cells_plan(sys, sats@, cells@, i as nat).len(),
                    forall|k: int|
                        0 <= k < plan@.len() ==> planned_view(#[trigger] plan@[k]) == cells_plan(
                            sys,
                            sats@,
                            cells@,
                            i as nat,
                        )[k],
                decreases cells@.len() - i,
            {
                let ghost before = plan@;
                let ghost prefix = cells_plan(sys, sats@, cells@, i as nat);
                plan_cell(&mut plan, sys, sats, &cells[i], i);
                proof {
                    let next = cells_plan(sys, sats@, cells@, (i + 1) as nat);
                    assert(next == prefix + cell_plan(sys, sats@, cells@[i as int], i as int));
                    assert forall|k: int| 0 <= k < plan@.len() implies planned_view(#[trigger] plan@[k]) == next[k] by {
                        if k < before.len() {
                            assert(plan@[k] == before[k]);
                        } else {
                            assert(plan@[before.len() + (k - before.len())] == plan@[k]);
                        }
                    }
                }
                i = i + 1;
            }
        },
    }
    plan
}

} // verus!
