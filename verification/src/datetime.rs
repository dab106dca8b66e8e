//! `date-time`: `"dd-Mon-yyyy hh:mm:ss +zzzz"` between double quotes.

use vstd::prelude::*;
use crate::chars::{eq_ci, is_digit, is_digit_x, up};
use crate::kw;
use crate::types::{datetime_wf, DateTime};

verus! {

broadcast use vstd::slice::axiom_spec_len;

/// A two-digit number at `i`.
pub open spec fn p_d2(f: Seq<u8>, i: int) -> Option<u8> {
    if 0 <= i && i + 2 <= f.len() && is_digit(f[i]) && is_digit(f[i + 1]) {
        Some((((f[i] - 0x30) * 10 + (f[i + 1] - 0x30))) as u8)
    } else {
        None
    }
}

pub fn x_d2(f: &[u8], i: usize) -> (r: Option<u8>)
    requires
        i <= f@.len(),
    ensures
        r == p_d2(f@, i as int),
{
    if i < f.len() && f.len() - i >= 2 && is_digit_x(f[i]) && is_digit_x(f[i + 1]) {
        Some((f[i] - 0x30) * 10 + (f[i + 1] - 0x30))
    } else {
        None
    }
}

/// The month name (three letters, case-insensitive) as 1 to 12.
pub open spec fn month_of(m: Seq<u8>) -> Option<u8> {
    if eq_ci(m, kw::kw_jan()) {
        Some(1u8)
    } else if eq_ci(m, kw::kw_feb()) {
        Some(2u8)
    } else if eq_ci(m, kw::kw_mar()) {
        Some(3u8)
    } else if eq_ci(m, kw::kw_apr()) {
        Some(4u8)
    } else if eq_ci(m, kw::kw_may()) {
        Some(5u8)
    } else if eq_ci(m, kw::kw_jun()) {
        Some(6u8)
    } else if eq_ci(m, kw::kw_jul()) {
        Some(7u8)
    } else if eq_ci(m, kw::kw_aug()) {
        Some(8u8)
    } else if eq_ci(m, kw::kw_sep()) {
        Some(9u8)
    } else if eq_ci(m, kw::kw_oct()) {
        Some(10u8)
    } else if eq_ci(m, kw::kw_nov()) {
        Some(11u8)
    } else if eq_ci(m, kw::kw_dec()) {
        Some(12u8)
    } else {
        None
    }
}

/// `date-time`, starting at the opening quote; yields a well-formed value.
pub open spec fn p_datetime(f: Seq<u8>, i: int) -> Option<(int, DateTime)> {
    // "dd-Mon-yyyy hh:mm:ss +zzzz"  (day may be ` d`)
    if !(0 <= i && i + 28 <= f.len() && f[i] == 0x22u8) {
        None
    } else {
        let day = if f[i + 1] == 0x20u8 && is_digit(f[i + 2]) {
            Some((f[i + 2] - 0x30) as u8)
        } else {
            p_d2(f, i + 1)
        };
        match day {
            None => None,
            Some(d) => {
                if !(1 <= d <= 31 && f[i + 3] == 0x2du8) {
                    None
                } else {
                    match month_of(f.subrange(i + 4, i + 7)) {
                        None => None,
                        Some(mo) => {
                            if !(f[i + 7] == 0x2du8) {
                                None
                            } else {
                                match (p_d2(f, i + 8), p_d2(f, i + 10)) {
                                    (Some(yh), Some(yl)) => {
                                        let year = yh as int * 100 + yl as int;
                                        if !(f[i + 12] == 0x20u8) {
                                            None
                                        } else {
                                            match (p_d2(f, i + 13), p_d2(f, i + 16), p_d2(
                                                f,
                                                i + 19,
                                            )) {
                                                (Some(hh), Some(mi), Some(ss)) => {
                                                    if !(f[i + 15] == 0x3au8 && f[i + 18]
                                                        == 0x3au8 && hh <= 23 && mi <= 59 && ss
                                                        <= 60 && f[i + 21] == 0x20u8 && (f[i + 22]
                                                        == 0x2bu8 || f[i + 22] == 0x2du8)) {
                                                        None
                                                    } else {
                                                        match (p_d2(f, i + 23), p_d2(f, i + 25)) {
                                                            (Some(zh), Some(zm)) => {
                                                                if zh <= 23 && zm <= 59 && f[i
                                                                    + 27] == 0x22u8 {
                                                                    Some(
                                                                        (
                                                                            i + 28,
                                                                            DateTime {
                                                                                day: d,
                                                                                month: mo,
                                                                                year: year as u16,
                                                                                hour: hh,
                                                                                minute: mi,
                                                                                second: ss,
                                                                                zone_negative: f[i
                                                                                    + 22]
                                                                                    == 0x2du8,
                                                                                zone_hours: zh,
                                                                                zone_minutes: zm,
                                                                            },
                                                                        ),
                                                                    )
                                                                } else {
                                                                    None
                                                                }
                                                            },
                                                            _ => None,
                                                        }
                                                    }
                                                },
                                                _ => None,
                                            }
                                        }
                                    },
                                    _ => None,
                                }
                            }
                        },
                    }
                }
            },
        }
    }
}

pub fn x_datetime(f: &[u8], i: usize) -> (r: Option<(usize, DateTime)>)
    requires
        i <= f@.len(),
    ensures
        match (r, p_datetime(f@, i as int)) {
            (Some((j, v)), Some((jm, vm))) => j as int == jm && v == vm && j <= f@.len(),
            (None, None) => true,
            _ => false,
        },
{
    let n = f.len();
    if !(i < n && n - i >= 28 && f[i] == 0x22) {
        return None;
    }
    let day: Option<u8> = if f[i + 1] == 0x20 && is_digit_x(f[i + 2]) {
        Some(f[i + 2] - 0x30)
    } else {
        x_d2(f, i + 1)
    };
    let d = match day {
        None => {
            return None;
        },
        Some(d) => d,
    };
    if !(1 <= d && d <= 31 && f[i + 3] == 0x2d) {
        return None;
    }
    let ms = vstd::slice::slice_subrange(f, i + 4, i + 7);
    let mo = if kw::ke_jan(ms) {
        1u8
    } else if kw::ke_feb(ms) {
        2
    } else if kw::ke_mar(ms) {
        3
    } else if kw::ke_apr(ms) {
        4
    } else if kw::ke_may(ms) {
        5
    } else if kw::ke_jun(ms) {
        6
    } else if kw::ke_jul(ms) {
        7
    } else if kw::ke_aug(ms) {
        8
    } else if kw::ke_sep(ms) {
        9
    } else if kw::ke_oct(ms) {
        10
    } else if kw::ke_nov(ms) {
        11
    } else if kw::ke_dec(ms) {
        12
    } else {
        assert(month_of(f@.subrange(i + 4 as int, i + 7 as int)) is None);
        return None;
    };
    assert(month_of(f@.subrange(i + 4 as int, i + 7 as int)) == Some(mo));
    if f[i + 7] != 0x2d {
        return None;
    }
    let yh = match x_d2(f, i + 8) {
        Some(v) => v,
        None => {
            return None;
        },
    };
    let yl = match x_d2(f, i + 10) {
        Some(v) => v,
        None => {
            return None;
        },
    };
    let year: u16 = yh as u16 * 100 + yl as u16;
    if f[i + 12] != 0x20 {
        return None;
    }
    let hh = match x_d2(f, i + 13) {
        Some(v) => v,
        None => {
            return None;
        },
    };
    let mi = match x_d2(f, i + 16) {
        Some(v) => v,
        None => {
            return None;
        },
    };
    let ss = match x_d2(f, i + 19) {
        Some(v) => v,
        None => {
            return None;
        },
    };
    if !(f[i + 15] == 0x3a && f[i + 18] == 0x3a && hh <= 23 && mi <= 59 && ss <= 60 && f[i + 21]
        == 0x20 && (f[i + 22] == 0x2b || f[i + 22] == 0x2d)) {
        return None;
    }
    let zh = match x_d2(f, i + 23) {
        Some(v) => v,
        None => {
            return None;
        },
    };
    let zm = match x_d2(f, i + 25) {
        Some(v) => v,
        None => {
            return None;
        },
    };
    if zh <= 23 && zm <= 59 && f[i + 27] == 0x22 {
        Some(
            (
                i + 28,
                DateTime {
                    day: d,
                    month: mo,
                    year,
                    hour: hh,
                    minute: mi,
                    second: ss,
                    zone_negative: f[i + 22] == 0x2d,
                    zone_hours: zh,
                    zone_minutes: zm,
                },
            ),
        )
    } else {
        None
    }
}

/// Parsed date-times are well-formed.
pub proof fn lemma_p_datetime_wf(f: Seq<u8>, i: int)
    ensures
        match p_datetime(f, i) {
            Some((_, d)) => datetime_wf(d),
            None => true,
        },
{
}

} // verus!
