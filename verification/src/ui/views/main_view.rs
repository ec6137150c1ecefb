//! Text and choices of the main view.
use vstd::prelude::*;
use crate::collectors::disk::{device_short_name, short_name};
use crate::collectors::node_runtime::{decimal, decimal_chars};
use crate::collectors::ports::string_views;
use crate::text::{append_chars, chars_of, contains, contains_chars, starts_with, starts_with_chars, string_from_chars};

verus! {

/// The system uptime in the header: days and hours, else hours and
/// minutes, else minutes.
pub open spec fn up_text(secs: nat) -> Seq<char> {
    let days = secs / 86400;
    let hours = (secs % 86400) / 3600;
    let mins = (secs % 3600) / 60;
    if days > 0 {
        "up "@ + decimal(days) + "d "@ + decimal(hours) + "h"@
    } else if hours > 0 {
        "up "@ + decimal(hours) + "h "@ + decimal(mins) + "m"@
    } else {
        "up "@ + decimal(mins) + "m"@
    }
}

/// `up 3d 4h`, `up 2h 5m`, `up 7m`.
pub fn format_uptime(secs: u64) -> (r: String)
    ensures
        r@ == up_text(secs as nat),
{
    let days = secs / 86400;
    let hours = (secs % 86400) / 3600;
    let mins = (secs % 3600) / 60;
    let mut out = chars_of("up ");
    if days > 0 {
        append_chars(&mut out, decimal_chars(days).as_slice());
        append_chars(&mut out, chars_of("d ").as_slice());
        append_chars(&mut out, decimal_chars(hours).as_slice());
        append_chars(&mut out, chars_of("h").as_slice());
    } else if hours > 0 {
        append_chars(&mut out, decimal_chars(hours).as_slice());
        append_chars(&mut out, chars_of("h ").as_slice());
        append_chars(&mut out, decimal_chars(mins).as_slice());
        append_chars(&mut out, chars_of("m").as_slice());
    } else {
        append_chars(&mut out, decimal_chars(mins).as_slice());
        append_chars(&mut out, chars_of("m").as_slice());
    }
    string_from_chars(out.as_slice())
}

/// How the header names a CPU architecture.
pub open spec fn arch_text(arch: Seq<char>) -> Seq<char> {
    if arch == "aarch64"@ {
        "ARM64"@
    } else if arch == "arm"@ {
        "ARM"@
    } else {
        arch
    }
}

/// `aarch64` is shown as `ARM64` and `arm` as `ARM`; other names as they are.
pub fn arch_label(arch: &str) -> (r: String)
    ensures
        r@ == arch_text(arch@),
{
    let a = chars_of(arch);
    if crate::collectors::ports::chars_eq(a.as_slice(), chars_of("aarch64").as_slice()) {
        "ARM64".to_owned()
    } else if crate::collectors::ports::chars_eq(a.as_slice(), chars_of("arm").as_slice()) {
        "ARM".to_owned()
    } else {
        arch.to_owned()
    }
}

/// A disk worth showing by default: a real device with a known size.
pub open spec fn displayable(device: Seq<char>, total: u64) -> bool {
    starts_with(device, "/dev/"@) && !contains(device, "loop"@) && total > 0
}

/// Position of the first device from `i` on whose short name is `sel`.
pub open spec fn first_selected(devices: Seq<Seq<char>>, sel: Seq<char>, i: int) -> Option<int>
    decreases devices.len() - i,
{
    if i < 0 || i >= devices.len() {
        None
    } else if short_name(devices[i]) == sel {
        Some(i)
    } else {
        first_selected(devices, sel, i + 1)
    }
}

/// Position of the first displayable device from `i` on.
pub open spec fn first_displayable(devices: Seq<Seq<char>>, totals: Seq<u64>, i: int) -> Option<int>
    decreases devices.len() - i,
{
    if i < 0 || i >= devices.len() {
        None
    } else if displayable(devices[i], totals[i]) {
        Some(i)
    } else {
        first_displayable(devices, totals, i + 1)
    }
}

/// The disk the main view shows: the selected one when it is mounted, else
/// the first real device with a known size, else the first disk.
pub open spec fn best_disk(devices: Seq<Seq<char>>, totals: Seq<u64>, selected: Option<Seq<char>>) -> Option<int> {
    let chosen = match selected {
        Some(sel) => first_selected(devices, sel, 0),
        None => None,
    };
    if chosen is Some {
        chosen
    } else if first_displayable(devices, totals, 0) is Some {
        first_displayable(devices, totals, 0)
    } else if devices.len() > 0 {
        Some(0)
    } else {
        None
    }
}

pub open spec fn opt_str_view(o: Option<&str>) -> Option<Seq<char>> {
    match o {
        Some(s) => Some(s@),
        None => None,
    }
}

/// Position of the disk the main view shows, among disks with the given
/// device names and sizes.
pub fn best_disk_index(devices: &Vec<String>, totals: &Vec<u64>, selected: Option<&str>) -> (r: Option<usize>)
    requires
        devices@.len() == totals@.len(),
    ensures
        r matches Some(i) ==> best_disk(string_views(devices@), totals@, opt_str_view(selected)) == Some(i as int),
        r is None ==> best_disk(string_views(devices@), totals@, opt_str_view(selected)) is None,
{
    let ghost dv = string_views(devices@);
    if let Some(sel) = selected {
        let mut i: usize = 0;
        while i < devices.len()
            invariant
                i <= devices@.len(),
                dv == string_views(devices@),
                first_selected(dv, sel@, 0) == first_selected(dv, sel@, i as int),
                selected == Some(sel),
            decreases devices.len() - i,
        {
            assert(dv[i as int] == devices@[i as int]@);
            let short = device_short_name(devices[i].as_str());
            if crate::collectors::ports::chars_eq(chars_of(short.as_str()).as_slice(), chars_of(sel).as_slice()) {
                assert(short_name(dv[i as int]) == sel@);
                assert(first_selected(dv, sel@, i as int) == Some(i as int));
                assert(opt_str_view(selected) == Some(sel@));
                return Some(i);
            }
            i += 1;
        }
    }
    let dev = chars_of("/dev/");
    let lp = chars_of("loop");
    let mut j: usize = 0;
    while j < devices.len()
        invariant
            j <= devices@.len(),
            devices@.len() == totals@.len(),
            dv == string_views(devices@),
            dev@ == "/dev/"@,
            lp@ == "loop"@,
            first_displayable(dv, totals@, 0) == first_displayable(dv, totals@, j as int),
            selected matches Some(sel) ==> first_selected(dv, sel@, 0) is None,
        decreases devices.len() - j,
    {
        assert(dv[j as int] == devices@[j as int]@);
        let d = chars_of(devices[j].as_str());
        if starts_with_chars(d.as_slice(), dev.as_slice()) && !contains_chars(d.as_slice(), lp.as_slice())
            && totals[j] > 0 {
            return Some(j);
        }
        j += 1;
    }
    if devices.len() > 0 {
        Some(0)
    } else {
        None
    }
}

} // verus!
