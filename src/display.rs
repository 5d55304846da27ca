//! Human-readable byte counts and durations, and the status of an item as a
//! listing shows it.

use vstd::prelude::*;
use vstd::string::*;
use crate::progress::TransferProgress;
use crate::text::{decimal, decimal_two, push_char, push_decimal, push_decimal_two, push_str};

verus! {

/// Name of the binary unit `1024^idx` bytes.
pub open spec fn unit_name(idx: nat) -> Seq<char> {
    if idx == 0 { "B"@ }
    else if idx == 1 { "KiB"@ }
    else if idx == 2 { "MiB"@ }
    else if idx == 3 { "GiB"@ }
    else if idx == 4 { "TiB"@ }
    else if idx == 5 { "PiB"@ }
    else { "EiB"@ }
}

/// `bytes` counted in the unit `idx`: divided by 1024 while it is at least
/// 1024 and a larger unit exists, then printed whole with the unit name.
pub open spec fn bytes_text(bytes: nat, idx: nat) -> Seq<char>
    decreases 6 - idx,
{
    if bytes >= 1024 && idx < 6 {
        bytes_text(bytes / 1024, idx + 1)
    } else {
        decimal(bytes) + " "@ + unit_name(idx)
    }
}

/// A duration in seconds as `MM:SS`, or `HH:MM:SS` from one hour on.
pub open spec fn eta_text(secs: nat) -> Seq<char> {
    let h = secs / 3600;
    let m = (secs % 3600) / 60;
    let s = secs % 60;
    if h > 0 {
        decimal_two(h) + ":"@ + decimal_two(m) + ":"@ + decimal_two(s)
    } else {
        decimal_two(m) + ":"@ + decimal_two(s)
    }
}

fn unit(idx: usize) -> (r: &'static str)
    requires
        idx <= 6,
    ensures
        r@ == unit_name(idx as nat),
{
    if idx == 0 { "B" }
    else if idx == 1 { "KiB" }
    else if idx == 2 { "MiB" }
    else if idx == 3 { "GiB" }
    else if idx == 4 { "TiB" }
    else if idx == 5 { "PiB" }
    else { "EiB" }
}

/// A byte count in whole binary units, such as `3 MiB`.
pub fn fmt_bytes(bytes: u64) -> (r: String)
    ensures
        r@ == bytes_text(bytes as nat, 0),
{
    let mut b = bytes;
    let mut idx: usize = 0;
    while b >= 1024 && idx < 6
        invariant
            idx <= 6,
            bytes_text(b as nat, idx as nat) == bytes_text(bytes as nat, 0),
        decreases 6 - idx,
    {
        b = b / 1024;
        idx = idx + 1;
    }
    let mut r = String::new();
    push_decimal(&mut r, b);
    push_char(&mut r, ' ');
    push_str(&mut r, unit(idx));
    proof {
        reveal_strlit(" ");
    }
    assert(r@ =~= bytes_text(b as nat, idx as nat));
    r
}

/// A duration in seconds as `MM:SS`, or `HH:MM:SS` from one hour on.
pub fn fmt_eta(secs: u64) -> (r: String)
    ensures
        r@ == eta_text(secs as nat),
{
    let h: u64 = secs / 3600;
    let m: u64 = (secs % 3600) / 60;
    let s: u64 = secs % 60;
    let mut r = String::new();
    if h > 0 {
        push_decimal_two(&mut r, h);
        push_char(&mut r, ':');
    }
    push_decimal_two(&mut r, m);
    push_char(&mut r, ':');
    push_decimal_two(&mut r, s);
    proof {
        reveal_strlit(":");
    }
    assert(r@ =~= eta_text(secs as nat));
    r
}

/// Percentage of a transfer: `100 * done / total` when the total is known and
/// not zero, else zero; capped at the largest `u64`.
pub open spec fn percent_of(p: TransferProgress) -> nat {
    match p.total {
        Some(t) => if t == 0 {
            0
        } else if 100 * (p.done as int) / (t as int) > u64::MAX {
            u64::MAX as nat
        } else {
            (100 * (p.done as int) / (t as int)) as nat
        },
        None => 0,
    }
}

/// Percentage of a transfer, for display.
pub fn progress_percent(p: TransferProgress) -> (r: u64)
    ensures
        r == percent_of(p),
{
    match p.total {
        Some(t) => {
            if t == 0 {
                0
            } else {
                let q: u128 = (100 * (p.done as u128)) / (t as u128);
                if q > u64::MAX as u128 {
                    u64::MAX
                } else {
                    q as u64
                }
            }
        },
        None => 0,
    }
}

/// Status of a catalog entry as a listing shows it.
#[derive(Clone, Copy, Debug, PartialEq, Eq)]
pub enum ItemStatus {
    /// A transfer is running, this far along in percent.
    InProgress(u64),
    /// The audio file is in the mirror.
    Downloaded,
    /// An owned item that can be requested.
    Available(u64),
    /// Not an owned item: nothing to offer.
    Unavailable,
}

/// The status of an entry with owned id `id`, from its registry entry and
/// whether its audio file exists; a running transfer comes first.
pub open spec fn status_of(id: Option<u64>, progress: Option<TransferProgress>, downloaded: bool) -> ItemStatus {
    match progress {
        Some(p) => ItemStatus::InProgress(percent_of(p) as u64),
        None => match id {
            Some(i) => if downloaded { ItemStatus::Downloaded } else { ItemStatus::Available(i) },
            None => ItemStatus::Unavailable,
        },
    }
}

/// The status of an entry, as `status_of` states it.
pub fn item_status(id: Option<u64>, progress: Option<TransferProgress>, downloaded: bool) -> (r: ItemStatus)
    ensures
        r == status_of(id, progress, downloaded),
{
    match progress {
        Some(p) => ItemStatus::InProgress(progress_percent(p)),
        None => match id {
            Some(i) => if downloaded { ItemStatus::Downloaded } else { ItemStatus::Available(i) },
            None => ItemStatus::Unavailable,
        },
    }
}

} // verus!
