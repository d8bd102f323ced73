//! Which RINEX files a conversion writes, and which satellite systems its
//! observation file covers, from the options and from what the stream held.

use vstd::prelude::*;
use vstd::string::*;
use crate::Error;

verus! {

/// The files that a conversion writes.
#[derive(Debug, Clone, Copy, PartialEq, Eq, Structural)]
pub struct OutputPlan {
    /// The observation file.
    pub obs: bool,
    /// The GPS navigation file.
    pub gps_nav: bool,
    /// The GLONASS navigation file.
    pub glo_nav: bool,
}

/// The text of the error for requested observations that the stream did not hold.
pub open spec fn no_observations_text() -> Seq<char> {
    "No observation data available"@
}

/// Whether `v` holds `c`.
fn contains_char(v: &Vec<char>, c: char) -> (b: bool)
    ensures
        b == v@.contains(c),
{
    let mut i: usize = 0;
    while i < v.len()
        invariant
            i <= v@.len(),
            forall|k: int| 0 <= k < i ==> v@[k] != c,
        decreases v@.len() - i,
    {
        if v[i] == c {
            assert(v@[i as int] == c);
            return true;
        }
        i = i + 1;
    }
    false
}

/// The files to write: an error where observations are asked for but there
/// are none; otherwise the observation file as asked, the GPS navigation file
/// where navigation is asked for, GPS ephemerides exist and `G` is among the
/// systems, and the GLONASS file likewise with `R`.
pub fn output_plan(
    output_obs: bool,
    output_nav: bool,
    systems: &Vec<char>,
    has_obs: bool,
    has_gps_nav: bool,
    has_glo_nav: bool,
) -> (r: Result<OutputPlan, Error>)
    ensures
        r is Err <==> (output_obs && !has_obs),
        r matches Err(e) ==> (e matches Error::Other(s) && s@ == no_observations_text()),
        r matches Ok(p) ==> p == (OutputPlan {
            obs: output_obs,
            gps_nav: output_nav && has_gps_nav && systems@.contains('G'),
            glo_nav: output_nav && has_glo_nav && systems@.contains('R'),
        }),
{
    if output_obs && !has_obs {
        return Err(Error::Other(String::from_str("No observation data available")));
    }
    let gps = contains_char(systems, 'G');
    let glo = contains_char(systems, 'R');
    Ok(OutputPlan {
        obs: output_obs && has_obs,
        gps_nav: output_nav && has_gps_nav && gps,
        glo_nav: output_nav && has_glo_nav && glo,
    })
}

/// The systems of `present` that are among `systems`, in the order of `present`.
pub open spec fn selected_spec(systems: Seq<char>, present: Seq<char>) -> Seq<char>
    decreases present.len(),
{
    if present.len() == 0 {
        Seq::empty()
    } else {
        let prev = selected_spec(systems, present.drop_last());
        if systems.contains(present.last()) {
            prev.push(present.last())
        } else {
            prev
        }
    }
}

/// The systems whose observation types an observation file carries: those
/// present in the observations that are also selected.
pub fn selected_systems(systems: &Vec<char>, present: &Vec<char>) -> (r: Vec<char>)
    ensures
        r@ == selected_spec(systems@, present@),
        forall|c: char| r@.contains(c) <==> (present@.contains(c) && systems@.contains(c)),
{
    let mut r: Vec<char> = Vec::new();
    let mut i: usize = 0;
    while i < present.len()
        invariant
            i <= present@.len(),
            r@ == selected_spec(systems@, present@.take(i as int)),
            forall|c: char| r@.contains(c) <==> (present@.take(i as int).contains(c) && systems@.contains(c)),
        decreases present@.len() - i,
    {
        let c = present[i];
        let ghost before = r@;
        assert(forall|d: char| before.contains(d) <==> (present@.take(i as int).contains(d) && systems@.contains(d)));
        proof {
            assert(present@.take(i + 1).drop_last() =~= present@.take(i as int));
            assert(present@.take(i + 1).last() == c);
        }
        if contains_char(systems, c) {
            r.push(c);
        }
        proof {
            let pre = present@.take(i as int);
            let pre1 = present@.take(i + 1);
            assert(pre1 =~= pre.push(c));
            assert forall|d: char| pre1.contains(d) <==> (pre.contains(d) || d == c) by {
                if pre1.contains(d) {
                    let k = choose|k: int| 0 <= k < pre1.len() && #[trigger] pre1[k] == d;
                    if k < pre.len() {
                        assert(pre[k] == d);
                    }
                }
                if pre.contains(d) {
                    let k = choose|k: int| 0 <= k < pre.len() && #[trigger] pre[k] == d;
                    assert(pre1[k] == d);
                }
                if d == c {
                    assert(pre1[pre.len() as int] == d);
                }
            }
            assert forall|d: char| r@.contains(d) <==> (before.contains(d) || (d == c && systems@.contains(c))) by {
                if r@.contains(d) {
                    let k = choose|k: int| 0 <= k < r@.len() && #[trigger] r@[k] == d;
                    if k < before.len() {
                        assert(before[k] == d);
                    }
                }
                if before.contains(d) {
                    let k = choose|k: int| 0 <= k < before.len() && #[trigger] before[k] == d;
                    assert(r@[k] == d);
                }
                if d == c && systems@.contains(c) {
                    assert(r@[r@.len() - 1] == c);
                }
            }
            assert forall|d: char| r@.contains(d) <==> (pre1.contains(d) && systems@.contains(d)) by {
                assert(before.contains(d) <==> (pre.contains(d) && systems@.contains(d)));
            }
        }
        i = i + 1;
    }
    proof {
        assert(present@.take(present@.len() as int) =~= present@);
    }
    r
}

} // verus!
