//! Human-readable byte sizes with binary prefixes and two decimal places.

use vstd::prelude::*;
use vstd::arithmetic::div_mod::lemma_div_is_ordered;
use vstd::string::StringExecFns;
use crate::text::{decimal, u64_to_string};

verus! {

/// The unit label for each binary-prefix step.
pub open spec fn size_unit(u: int) -> Seq<char> {
    if u == 0 {
        "B"@
    } else if u == 1 {
        "KB"@
    } else if u == 2 {
        "MB"@
    } else if u == 3 {
        "GB"@
    } else {
        "TB"@
    }
}

/// Which prefix a byte count is shown in: the largest with a value of at
/// least one, capped at terabytes.
pub open spec fn size_unit_index(bytes: int) -> int {
    if bytes < 1024 {
        0
    } else if bytes < 1048576 {
        1
    } else if bytes < 1073741824 {
        2
    } else if bytes < 1099511627776 {
        3
    } else {
        4
    }
}

pub open spec fn size_unit_den(u: int) -> int {
    if u == 0 {
        1
    } else if u == 1 {
        1024
    } else if u == 2 {
        1048576
    } else if u == 3 {
        1073741824
    } else {
        1099511627776
    }
}

/// `num / den` in hundredths, rounded to nearest with ties to even.
pub open spec fn round_half_even(num: int, den: int) -> int {
    let q = num / den;
    let r = num % den;
    if 2 * r > den {
        q + 1
    } else if 2 * r < den {
        q
    } else if q % 2 == 0 {
        q
    } else {
        q + 1
    }
}

/// The fraction part, always two digits.
pub open spec fn two_digits(f: int) -> Seq<char> {
    if f < 10 {
        "0"@ + decimal(f)
    } else {
        decimal(f)
    }
}

/// What `format_size` renders: the byte count scaled to its unit, with two
/// decimal places, a space, and the unit label.
pub open spec fn format_size_spec(bytes: int) -> Seq<char> {
    let u = size_unit_index(bytes);
    let h = round_half_even(bytes * 100, size_unit_den(u));
    decimal(h / 100) + "."@ + two_digits(h % 100) + " "@ + size_unit(u)
}

/// Renders a byte count for people: `1536` becomes `"1.50 KB"`.
pub fn format_size(bytes: u64) -> (r: String)
    ensures
        r@ == format_size_spec(bytes as int),
{
    let pair: (&'static str, u64) = if bytes < 1024 {
        ("B", 1)
    } else if bytes < 1048576 {
        ("KB", 1024)
    } else if bytes < 1073741824 {
        ("MB", 1048576)
    } else if bytes < 1099511627776 {
        ("GB", 1073741824)
    } else {
        ("TB", 1099511627776)
    };
    let unit = pair.0;
    let den: u128 = pair.1 as u128;
    let num: u128 = (bytes as u128) * 100;
    let q: u128 = num / den;
    let rem: u128 = num % den;
    let h: u128 = if 2 * rem > den {
        q + 1
    } else if 2 * rem < den {
        q
    } else if q % 2 == 0 {
        q
    } else {
        q + 1
    };
    proof {
        assert(h == round_half_even(bytes as int * 100, size_unit_den(size_unit_index(bytes as int))));
        assert(h <= num + 1);
        lemma_div_is_ordered(h as int, (num + 1) as int, 100);
        assert((num + 1) as int / 100 <= bytes as int);
    }
    let int_part: u64 = (h / 100) as u64;
    let frac: u64 = (h % 100) as u64;
    let mut r = u64_to_string(int_part).concat(".");
    if frac < 10 {
        r = r.concat("0");
    }
    let r = r.concat(u64_to_string(frac).as_str()).concat(" ").concat(unit);
    proof {
        assert(r@ =~= format_size_spec(bytes as int));
    }
    r
}

} // verus!
