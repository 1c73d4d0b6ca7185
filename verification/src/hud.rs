use vstd::prelude::*;

verus! {

/// How full one heart of the health bar is.
#[derive(Clone, Copy, Debug, PartialEq, Eq, Structural)]
pub enum Heart {
    Full,
    Half,
    Empty,
}

/// The heart at place `i` of the bar of a player with `hp` health points:
/// each heart stands for two points.
pub open spec fn heart_of(hp: i32, i: u32) -> Heart {
    let left = hp - i * 2;
    if left >= 2 {
        Heart::Full
    } else if left == 1 {
        Heart::Half
    } else {
        Heart::Empty
    }
}

/// Computes [`heart_of`].
pub fn heart_at(hp: i32, i: u32) -> (h: Heart)
    ensures
        h == heart_of(hp, i),
{
    let left: i64 = hp as i64 - (i as i64) * 2;
    if left >= 2 {
        Heart::Full
    } else if left == 1 {
        Heart::Half
    } else {
        Heart::Empty
    }
}

/// How a figure of the performance display is rated.
#[derive(Clone, Copy, Debug, PartialEq, Eq, Structural)]
pub enum Rating {
    Good,
    Fair,
    Poor,
}

/// Memory in use, in mebibytes: good up to 512, fair up to 1024.
pub fn rate_memory(ram: u64) -> (r: Rating)
    ensures
        r == (if ram <= 512 {
            Rating::Good
        } else if ram <= 1024 {
            Rating::Fair
        } else {
            Rating::Poor
        }),
{
    if ram <= 512 {
        Rating::Good
    } else if ram <= 1024 {
        Rating::Fair
    } else {
        Rating::Poor
    }
}

/// Processor load in whole percent: good from 0 to 30, fair up to 70.
pub fn rate_cpu(cpu: i32) -> (r: Rating)
    ensures
        r == (if 0 <= cpu <= 30 {
            Rating::Good
        } else if 31 <= cpu <= 70 {
            Rating::Fair
        } else {
            Rating::Poor
        }),
{
    if 0 <= cpu && cpu <= 30 {
        Rating::Good
    } else if 31 <= cpu && cpu <= 70 {
        Rating::Fair
    } else {
        Rating::Poor
    }
}

/// Frames per second: good from 60 to 1000, fair from 30 to 59.
pub fn rate_fps(fps: u32) -> (r: Rating)
    ensures
        r == (if 60 <= fps <= 1000 {
            Rating::Good
        } else if 30 <= fps <= 59 {
            Rating::Fair
        } else {
            Rating::Poor
        }),
{
    if 60 <= fps && fps <= 1000 {
        Rating::Good
    } else if 30 <= fps && fps <= 59 {
        Rating::Fair
    } else {
        Rating::Poor
    }
}

} // verus!
