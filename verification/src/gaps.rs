//! Gap finder: read-only range queries that locate the next unscraped
//! serial number in either direction over a snapshot of the persisted
//! serials.

use vstd::prelude::*;
use crate::car::Car;
use crate::serial::SerialNumber;

verus! {

/// The snapshot holds serial `v`.
pub open spec fn spec_has_serial(s: Seq<SerialNumber>, v: int) -> bool {
    exists|i: int| 0 <= i < s.len() && (#[trigger] s[i]).0 == v
}

/// Serial `v` is persisted, lies at or above the bound, and its
/// successor is missing.
pub open spec fn spec_gap_above(s: Seq<SerialNumber>, bound: int, v: int) -> bool {
    &&& spec_has_serial(s, v)
    &&& v >= bound
    &&& !spec_has_serial(s, v + 1)
}

/// Serial `v` is persisted, lies strictly below the bound, and its
/// successor is missing.
pub open spec fn spec_gap_below(s: Seq<SerialNumber>, bound: int, v: int) -> bool {
    &&& spec_has_serial(s, v)
    &&& v < bound
    &&& !spec_has_serial(s, v + 1)
}

/// Whether the snapshot holds serial `v`.
pub fn contains_serial(persisted: &Vec<SerialNumber>, v: i32) -> (r: bool)
    ensures
        r == spec_has_serial(persisted@, v as int),
{
    let mut i: usize = 0;
    while i < persisted.len()
        invariant
            0 <= i <= persisted@.len(),
            forall|j: int| 0 <= j < i ==> (#[trigger] persisted@[j]).0 != v,
        decreases persisted@.len() - i,
    {
        if persisted[i].0 == v {
            return true;
        }
        i = i + 1;
    }
    false
}

impl Car {
    /// The first missing serial above the bound: one more than the
    /// smallest persisted serial at or above `num` whose successor is
    /// not persisted; `None` when every persisted serial at or above
    /// the bound has its successor.
    pub fn first_unknown_serial_above(persisted: &Vec<SerialNumber>, num: SerialNumber) -> (r:
        Option<SerialNumber>)
        requires
            forall|i: int|
                0 <= i < persisted@.len() ==> (#[trigger] persisted@[i]).0 < i32::MAX,
        ensures
            match r {
                Some(v) => spec_gap_above(persisted@, num.0 as int, v.0 - 1) && forall|t: int|
                    spec_gap_above(persisted@, num.0 as int, t) ==> v.0 - 1 <= t,
                None => forall|t: int| !spec_gap_above(persisted@, num.0 as int, t),
            },
    {
        let mut best: Option<i32> = None;
        let mut i: usize = 0;
        while i < persisted.len()
            invariant
                0 <= i <= persisted@.len(),
                forall|k: int|
                    0 <= k < persisted@.len() ==> (#[trigger] persisted@[k]).0 < i32::MAX,
                match best {
                    Some(b) => spec_gap_above(persisted@, num.0 as int, b as int) && forall|j: int|
                        0 <= j < i && spec_gap_above(
                            persisted@,
                            num.0 as int,
                            (#[trigger] persisted@[j]).0 as int,
                        ) ==> b <= persisted@[j].0,
                    None => forall|j: int|
                        0 <= j < i ==> !spec_gap_above(
                            persisted@,
                            num.0 as int,
                            (#[trigger] persisted@[j]).0 as int,
                        ),
                },
            decreases persisted@.len() - i,
        {
            let e = persisted[i].0;
            if e >= num.0 && !contains_serial(persisted, e + 1) {
                match best {
                    Some(b) => {
                        if e < b {
                            best = Some(e);
                        }
                    },
                    None => {
                        best = Some(e);
                    },
                }
            }
            i = i + 1;
        }
        match best {
            Some(b) => {
                proof {
                    assert forall|t: int|
                        spec_gap_above(persisted@, num.0 as int, t) implies b as int <= t by {
                        let j = choose|j: int|
                            0 <= j < persisted@.len() && (#[trigger] persisted@[j]).0 == t;
                        assert(spec_gap_above(
                            persisted@,
                            num.0 as int,
                            persisted@[j].0 as int,
                        ));
                    }
                }
                Some(SerialNumber(b + 1))
            },
            None => {
                proof {
                    assert forall|t: int| !spec_gap_above(persisted@, num.0 as int, t) by {
                        if spec_has_serial(persisted@, t) {
                            let j = choose|j: int|
                                0 <= j < persisted@.len() && (#[trigger] persisted@[j]).0 == t;
                            assert(!spec_gap_above(
                                persisted@,
                                num.0 as int,
                                persisted@[j].0 as int,
                            ));
                        }
                    }
                }
                None
            },
        }
    }

    /// The first missing serial below the bound: one more than the
    /// largest persisted serial strictly below `num` whose successor is
    /// not persisted; `None` when every persisted serial below the
    /// bound has its successor.
    pub fn first_unknown_serial_below(persisted: &Vec<SerialNumber>, num: SerialNumber) -> (r:
        Option<SerialNumber>)
        requires
            forall|i: int|
                0 <= i < persisted@.len() ==> (#[trigger] persisted@[i]).0 < i32::MAX,
        ensures
            match r {
                Some(v) => spec_gap_below(persisted@, num.0 as int, v.0 - 1) && forall|t: int|
                    spec_gap_below(persisted@, num.0 as int, t) ==> t <= v.0 - 1,
                None => forall|t: int| !spec_gap_below(persisted@, num.0 as int, t),
            },
    {
        let mut best: Option<i32> = None;
        let mut i: usize = 0;
        while i < persisted.len()
            invariant
                0 <= i <= persisted@.len(),
                forall|k: int|
                    0 <= k < persisted@.len() ==> (#[trigger] persisted@[k]).0 < i32::MAX,
                match best {
                    Some(b) => spec_gap_below(persisted@, num.0 as int, b as int) && forall|j: int|
                        0 <= j < i && spec_gap_below(
                            persisted@,
                            num.0 as int,
                            (#[trigger] persisted@[j]).0 as int,
                        ) ==> persisted@[j].0 <= b,
                    None => forall|j: int|
                        0 <= j < i ==> !spec_gap_below(
                            persisted@,
                            num.0 as int,
                            (#[trigger] persisted@[j]).0 as int,
                        ),
                },
            decreases persisted@.len() - i,
        {
            let e = persisted[i].0;
            if e < num.0 && !contains_serial(persisted, e + 1) {
                match best {
                    Some(b) => {
                        if e > b {
                            best = Some(e);
                        }
                    },
                    None => {
                        best = Some(e);
                    },
                }
            }
            i = i + 1;
        }
        match best {
            Some(b) => {
                proof {
                    assert forall|t: int|
                        spec_gap_below(persisted@, num.0 as int, t) implies t <= b as int by {
                        let j = choose|j: int|
                            0 <= j < persisted@.len() && (#[trigger] persisted@[j]).0 == t;
                        assert(spec_gap_below(
                            persisted@,
                            num.0 as int,
                            persisted@[j].0 as int,
                        ));
                    }
                }
                Some(SerialNumber(b + 1))
            },
            None => {
                proof {
                    assert forall|t: int| !spec_gap_below(persisted@, num.0 as int, t) by {
                        if spec_has_serial(persisted@, t) {
                            let j = choose|j: int|
                                0 <= j < persisted@.len() && (#[trigger] persisted@[j]).0 == t;
                            assert(!spec_gap_below(
                                persisted@,
                                num.0 as int,
                                persisted@[j].0 as int,
                            ));
                        }
                    }
                }
                None
            },
        }
    }
}

/// The largest persisted serial, or zero over an empty snapshot.
pub fn highest_serial(persisted: &Vec<SerialNumber>) -> (r: SerialNumber)
    ensures
        persisted@.len() == 0 ==> r.0 == 0,
        persisted@.len() > 0 ==> spec_has_serial(persisted@, r.0 as int) && forall|j: int|
            0 <= j < persisted@.len() ==> (#[trigger] persisted@[j]).0 <= r.0,
{
    if persisted.len() == 0 {
        return SerialNumber(0);
    }
    let mut best: i32 = persisted[0].0;
    let mut i: usize = 1;
    while i < persisted.len()
        invariant
            1 <= i <= persisted@.len(),
            spec_has_serial(persisted@, best as int),
            forall|j: int| 0 <= j < i ==> (#[trigger] persisted@[j]).0 <= best,
        decreases persisted@.len() - i,
    {
        let e = persisted[i].0;
        if e > best {
            best = e;
        }
        i = i + 1;
    }
    SerialNumber(best)
}

} // verus!
