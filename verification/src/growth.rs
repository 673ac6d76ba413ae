//! The default growth mapping of the continuous rule: a Gaussian density
//! bump. The value for input `v` is the Gaussian density with center `122`
//! and spread `30` evaluated at `v`, scaled by `255 * 100`, rounded to the
//! nearest integer and saturated to the `0..=255` byte range. Because the
//! mapping depends only on the distance from the center, it is written
//! down pointwise, by distance.

use vstd::prelude::*;

verus! {

/// Distance of a cell value from the center `122` of the default growth
/// bump.
pub open spec fn growth_distance(v: u8) -> int {
    if v >= 122 {
        v - 122
    } else {
        122 - v
    }
}

/// The scaled, rounded and saturated Gaussian density value at distance
/// `d` from the center: `255` up to distance `22` (the rounded value
/// saturates there), then falling off to `0` from distance `109` on.
pub open spec fn gauss_by_distance(d: int) -> u8 {
    if d <= 22 {
        255
    } else if d == 23 {
        253
    } else if d == 24 {
        246
    } else if d == 25 {
        240
    } else if d == 26 {
        233
    } else if d == 27 {
        226
    } else if d == 28 {
        219
    } else if d == 29 {
        213
    } else if d == 30 {
        206
    } else if d == 31 {
        199
    } else if d == 32 {
        192
    } else if d == 33 {
        185
    } else if d == 34 {
        178
    } else if d == 35 {
        172
    } else if d == 36 {
        165
    } else if d == 37 {
        158
    } else if d == 38 {
        152
    } else if d == 39 {
        146
    } else if d == 40 {
        139
    } else if d == 41 {
        133
    } else if d == 42 {
        127
    } else if d == 43 {
        121
    } else if d == 44 {
        116
    } else if d == 45 {
        110
    } else if d == 46 {
        105
    } else if d == 47 {
        99
    } else if d == 48 {
        94
    } else if d == 49 {
        89
    } else if d == 50 {
        85
    } else if d == 51 {
        80
    } else if d == 52 {
        75
    } else if d == 53 {
        71
    } else if d == 54 {
        67
    } else if d == 55 {
        63
    } else if d == 56 {
        59
    } else if d == 57 {
        56
    } else if d == 58 {
        52
    } else if d == 59 {
        49
    } else if d == 60 {
        46
    } else if d == 61 {
        43
    } else if d == 62 {
        40
    } else if d == 63 {
        37
    } else if d == 64 {
        35
    } else if d == 65 {
        32
    } else if d == 66 {
        30
    } else if d == 67 {
        28
    } else if d == 68 {
        26
    } else if d == 69 {
        24
    } else if d == 70 {
        22
    } else if d == 71 {
        21
    } else if d == 72 {
        19
    } else if d == 73 {
        18
    } else if d == 74 {
        16
    } else if d == 75 {
        15
    } else if d == 76 {
        14
    } else if d == 77 {
        13
    } else if d == 78 {
        12
    } else if d == 79 {
        11
    } else if d == 80 {
        10
    } else if d == 81 {
        9
    } else if d == 82 {
        8
    } else if d == 83 {
        7
    } else if d == 84 {
        7
    } else if d == 85 {
        6
    } else if d == 86 {
        6
    } else if d == 87 {
        5
    } else if d == 88 {
        5
    } else if d == 89 {
        4
    } else if d == 90 {
        4
    } else if d == 91 {
        3
    } else if d == 92 {
        3
    } else if d == 93 {
        3
    } else if d == 94 {
        3
    } else if d == 95 {
        2
    } else if d == 96 {
        2
    } else if d == 97 {
        2
    } else if d == 98 {
        2
    } else if d == 99 {
        1
    } else if d == 100 {
        1
    } else if d == 101 {
        1
    } else if d == 102 {
        1
    } else if d == 103 {
        1
    } else if d == 104 {
        1
    } else if d == 105 {
        1
    } else if d == 106 {
        1
    } else if d == 107 {
        1
    } else if d == 108 {
        1
    } else {
        0
    }
}

/// The default growth mapping applied to one averaged neighborhood value.
pub open spec fn default_growth(v: u8) -> u8 {
    gauss_by_distance(growth_distance(v))
}

/// The default growth mapping as a 256-entry table, one entry per
/// possible averaged neighborhood value.
pub open spec fn default_growth_seq() -> Seq<u8> {
    Seq::new(256, |k: int| default_growth(k as u8))
}

/// The default growth function: the scaled, rounded and saturated
/// Gaussian density with center `122` and spread `30`, evaluated at
/// `value`.
pub fn lenia_growth_function_default(value: u8) -> (r: u8)
    ensures
        r == default_growth(value),
{
    let d: u8 = if value >= 122 {
        value - 122
    } else {
        122 - value
    };
    if d <= 22 {
        255
    } else if d == 23 {
        253
    } else if d == 24 {
        246
    } else if d == 25 {
        240
    } else if d == 26 {
        233
    } else if d == 27 {
        226
    } else if d == 28 {
        219
    } else if d == 29 {
        213
    } else if d == 30 {
        206
    } else if d == 31 {
        199
    } else if d == 32 {
        192
    } else if d == 33 {
        185
    } else if d == 34 {
        178
    } else if d == 35 {
        172
    } else if d == 36 {
        165
    } else if d == 37 {
        158
    } else if d == 38 {
        152
    } else if d == 39 {
        146
    } else if d == 40 {
        139
    } else if d == 41 {
        133
    } else if d == 42 {
        127
    } else if d == 43 {
        121
    } else if d == 44 {
        116
    } else if d == 45 {
        110
    } else if d == 46 {
        105
    } else if d == 47 {
        99
    } else if d == 48 {
        94
    } else if d == 49 {
        89
    } else if d == 50 {
        85
    } else if d == 51 {
        80
    } else if d == 52 {
        75
    } else if d == 53 {
        71
    } else if d == 54 {
        67
    } else if d == 55 {
        63
    } else if d == 56 {
        59
    } else if d == 57 {
        56
    } else if d == 58 {
        52
    } else if d == 59 {
        49
    } else if d == 60 {
        46
    } else if d == 61 {
        43
    } else if d == 62 {
        40
    } else if d == 63 {
        37
    } else if d == 64 {
        35
    } else if d == 65 {
        32
    } else if d == 66 {
        30
    } else if d == 67 {
        28
    } else if d == 68 {
        26
    } else if d == 69 {
        24
    } else if d == 70 {
        22
    } else if d == 71 {
        21
    } else if d == 72 {
        19
    } else if d == 73 {
        18
    } else if d == 74 {
        16
    } else if d == 75 {
        15
    } else if d == 76 {
        14
    } else if d == 77 {
        13
    } else if d == 78 {
        12
    } else if d == 79 {
        11
    } else if d == 80 {
        10
    } else if d == 81 {
        9
    } else if d == 82 {
        8
    } else if d == 83 {
        7
    } else if d == 84 {
        7
    } else if d == 85 {
        6
    } else if d == 86 {
        6
    } else if d == 87 {
        5
    } else if d == 88 {
        5
    } else if d == 89 {
        4
    } else if d == 90 {
        4
    } else if d == 91 {
        3
    } else if d == 92 {
        3
    } else if d == 93 {
        3
    } else if d == 94 {
        3
    } else if d == 95 {
        2
    } else if d == 96 {
        2
    } else if d == 97 {
        2
    } else if d == 98 {
        2
    } else if d == 99 {
        1
    } else if d == 100 {
        1
    } else if d == 101 {
        1
    } else if d == 102 {
        1
    } else if d == 103 {
        1
    } else if d == 104 {
        1
    } else if d == 105 {
        1
    } else if d == 106 {
        1
    } else if d == 107 {
        1
    } else if d == 108 {
        1
    } else {
        0
    }
}

/// Builds the default growth table: entry `v` holds the default growth
/// value for an averaged neighborhood value of `v`.
pub fn default_growth_table() -> (t: Vec<u8>)
    ensures
        t@ == default_growth_seq(),
{
    let mut t: Vec<u8> = Vec::new();
    let mut v: usize = 0;
    while v < 256
        invariant
            v <= 256,
            t@.len() == v,
            forall|k: int| 0 <= k < v ==> t@[k] == default_growth(k as u8),
        decreases 256 - v,
    {
        t.push(lenia_growth_function_default(v as u8));
        v += 1;
    }
    proof {
        assert(t@ =~= default_growth_seq());
    }
    t
}

} // verus!
