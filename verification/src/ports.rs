//! The browser "unsafe port" list: ports a server should not be offered on,
//! because browsers refuse to fetch from them.

use vstd::prelude::*;

verus! {

/// The ports that browsers block.
pub open spec fn spec_unsafe_browser_port(port: u16) -> bool {
    ||| port == 1
    ||| port == 7
    ||| port == 9
    ||| port == 11
    ||| port == 13
    ||| port == 15
    ||| port == 17
    ||| port == 19
    ||| port == 20
    ||| port == 21
    ||| port == 22
    ||| port == 23
    ||| port == 25
    ||| port == 37
    ||| port == 42
    ||| port == 43
    ||| port == 53
    ||| port == 69
    ||| port == 77
    ||| port == 79
    ||| port == 87
    ||| port == 95
    ||| port == 101
    ||| port == 102
    ||| port == 103
    ||| port == 104
    ||| port == 109
    ||| port == 110
    ||| port == 111
    ||| port == 113
    ||| port == 115
    ||| port == 117
    ||| port == 119
    ||| port == 123
    ||| port == 135
    ||| port == 137
    ||| port == 139
    ||| port == 143
    ||| port == 161
    ||| port == 179
    ||| port == 389
    ||| port == 427
    ||| port == 465
    ||| port == 512
    ||| port == 513
    ||| port == 514
    ||| port == 515
    ||| port == 526
    ||| port == 530
    ||| port == 531
    ||| port == 532
    ||| port == 540
    ||| port == 548
    ||| port == 554
    ||| port == 556
    ||| port == 563
    ||| port == 587
    ||| port == 601
    ||| port == 636
    ||| port == 989
    ||| port == 990
    ||| port == 993
    ||| port == 995
    ||| port == 1719
    ||| port == 1720
    ||| port == 1723
    ||| port == 2049
    ||| port == 3659
    ||| port == 4045
    ||| port == 5060
    ||| port == 5061
    ||| port == 6000
    ||| port == 6566
    ||| port == 6665
    ||| port == 6666
    ||| port == 6667
    ||| port == 6668
    ||| port == 6669
    ||| port == 6697
    ||| port == 10080
}

/// Whether browsers would refuse to talk to a server on `port`.
pub fn is_unsafe_browser_port(port: u16) -> (r: bool)
    ensures
        r == spec_unsafe_browser_port(port),
{
    match port {
        1 | 7 | 9 | 11 | 13 | 15 | 17 | 19 | 20 | 21 | 22 | 23 | 25 | 37 | 42 | 43 | 53 | 69
        | 77 | 79 | 87 | 95 | 101 | 102 | 103 | 104 | 109 | 110 | 111 | 113 | 115 | 117 | 119
        | 123 | 135 | 137 | 139 | 143 | 161 | 179 | 389 | 427 | 465 | 512 | 513 | 514 | 515
        | 526 | 530 | 531 | 532 | 540 | 548 | 554 | 556 | 563 | 587 | 601 | 636 | 989 | 990
        | 993 | 995 | 1719 | 1720 | 1723 | 2049 | 3659 | 4045 | 5060 | 5061 | 6000 | 6566
        | 6665 | 6666 | 6667 | 6668 | 6669 | 6697 | 10080 => true,
        _ => false,
    }
}

} // verus!
