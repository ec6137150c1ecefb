//! The interactive setup's rules: how each typed answer reads, which disk
//! is offered first, and whether a write test fits on a disk. Answers reach
//! these functions already trimmed of surrounding white space.
use vstd::prelude::*;
use crate::collectors::ports::chars_eq;
use crate::config::Tab;
use crate::text::{chars_of, lowercase, parse_unsigned, parse_unsigned_exec, to_lowercase};
use crate::ui::theme::ThemeMode;

verus! {

/// Size of the disk write test when none is typed, in MB.
pub const DEFAULT_BENCHMARK_MB: u64 = 256;
/// Smallest disk write test, in MB.
pub const MIN_BENCHMARK_MB: u64 = 64;
/// Largest disk write test, in MB.
pub const MAX_BENCHMARK_MB: u64 = 4096;

/// What a typed answer to a setting asks for.
#[derive(Clone, Debug, PartialEq, Eq)]
pub enum Answer<T> {
    /// Keep the current value (nothing was typed).
    Keep,
    Change(T),
    /// Not a valid answer: ask again.
    Invalid,
}

/// Whether `s` is one of `words`.
pub open spec fn one_of(s: Seq<char>, words: Seq<Seq<char>>) -> bool {
    exists|i: int| 0 <= i < words.len() && words[i] == s
}

fn is_word(lc: &Vec<char>, w: &str) -> (b: bool)
    ensures
        b == (lc@ == w@),
{
    let wc = chars_of(w);
    chars_eq(lc.as_slice(), wc.as_slice())
}

/// A yes/no answer, in lower case: nothing keeps the default; `s`, `si`,
/// `sí`, `y`, `yes` mean yes; `n`, `no` mean no; anything else asks again.
pub open spec fn yes_no_of(low: Seq<char>, default: bool) -> Option<bool> {
    if low == ""@ {
        Some(default)
    } else if low == "s"@ || low == "si"@ || low == "sí"@ || low == "y"@ || low == "yes"@ {
        Some(true)
    } else if low == "n"@ || low == "no"@ {
        Some(false)
    } else {
        None
    }
}

/// Reads a yes/no answer (see `yes_no_of`), in any letter case.
pub fn yes_no_answer(input: &str, default: bool) -> (r: Option<bool>)
    ensures
        r == yes_no_of(lowercase(input@), default),
{
    let low = to_lowercase(input);
    let lc = chars_of(low.as_str());
    if is_word(&lc, "") {
        Some(default)
    } else if is_word(&lc, "s") || is_word(&lc, "si") || is_word(&lc, "sí") || is_word(&lc, "y") || is_word(
        &lc,
        "yes",
    ) {
        Some(true)
    } else if is_word(&lc, "n") || is_word(&lc, "no") {
        Some(false)
    } else {
        None
    }
}

/// The size of the disk write test: the default when nothing is typed, a
/// whole number of MB between the smallest and the largest test, or
/// `None` to ask again.
pub open spec fn benchmark_size_of(s: Seq<char>) -> Option<u64> {
    if s.len() == 0 {
        Some(DEFAULT_BENCHMARK_MB)
    } else {
        match parse_unsigned(s, u64::MAX as nat) {
            Some(v) => if MIN_BENCHMARK_MB <= v <= MAX_BENCHMARK_MB {
                Some(v as u64)
            } else {
                None
            },
            None => None,
        }
    }
}

pub fn benchmark_size_answer(input: &str) -> (r: Option<u64>)
    ensures
        r == benchmark_size_of(input@),
{
    let cs = chars_of(input);
    if cs.len() == 0 {
        return Some(DEFAULT_BENCHMARK_MB);
    }
    match parse_unsigned_exec(cs.as_slice(), u64::MAX) {
        Some(v) => if MIN_BENCHMARK_MB <= v && v <= MAX_BENCHMARK_MB {
            Some(v)
        } else {
            None
        },
        None => None,
    }
}

/// The disk's transfer capacity in MB/s: a whole number above zero.
pub open spec fn disk_capacity_of(s: Seq<char>) -> Answer<u64> {
    if s.len() == 0 {
        Answer::Keep
    } else {
        match parse_unsigned(s, u64::MAX as nat) {
            Some(v) => if v > 0 {
                Answer::Change(v as u64)
            } else {
                Answer::Invalid
            },
            None => Answer::Invalid,
        }
    }
}

pub fn disk_capacity_answer(input: &str) -> (r: Answer<u64>)
    ensures
        r == disk_capacity_of(input@),
{
    let cs = chars_of(input);
    if cs.len() == 0 {
        return Answer::Keep;
    }
    match parse_unsigned_exec(cs.as_slice(), u64::MAX) {
        Some(v) => if v > 0 {
            Answer::Change(v)
        } else {
            Answer::Invalid
        },
        None => Answer::Invalid,
    }
}

/// The starting tab, named in Spanish or English in any letter case.
pub open spec fn tab_of(low: Seq<char>) -> Answer<Tab> {
    if low == ""@ {
        Answer::Keep
    } else if low == "procesos"@ || low == "processes"@ {
        Answer::Change(Tab::Processes)
    } else if low == "contenedores"@ || low == "containers"@ {
        Answer::Change(Tab::Containers)
    } else if low == "red"@ || low == "network"@ {
        Answer::Change(Tab::Network)
    } else {
        Answer::Invalid
    }
}

pub fn tab_answer(input: &str) -> (r: Answer<Tab>)
    ensures
        r == tab_of(lowercase(input@)),
{
    let low = to_lowercase(input);
    let lc = chars_of(low.as_str());
    if is_word(&lc, "") {
        Answer::Keep
    } else if is_word(&lc, "procesos") || is_word(&lc, "processes") {
        Answer::Change(Tab::Processes)
    } else if is_word(&lc, "contenedores") || is_word(&lc, "containers") {
        Answer::Change(Tab::Containers)
    } else if is_word(&lc, "red") || is_word(&lc, "network") {
        Answer::Change(Tab::Network)
    } else {
        Answer::Invalid
    }
}

/// The colour scheme, by its name in any letter case.
pub open spec fn theme_of(low: Seq<char>) -> Answer<ThemeMode> {
    if low == ""@ {
        Answer::Keep
    } else if low == "dark"@ {
        Answer::Change(ThemeMode::Dark)
    } else if low == "light"@ {
        Answer::Change(ThemeMode::Light)
    } else if low == "nord"@ {
        Answer::Change(ThemeMode::Nord)
    } else if low == "matrix"@ {
        Answer::Change(ThemeMode::Matrix)
    } else if low == "sunset"@ {
        Answer::Change(ThemeMode::Sunset)
    } else if low == "dracula"@ {
        Answer::Change(ThemeMode::Dracula)
    } else if low == "gruvbox"@ {
        Answer::Change(ThemeMode::Gruvbox)
    } else if low == "tokyo_night"@ || low == "tokyo night"@ {
        Answer::Change(ThemeMode::TokyoNight)
    } else {
        Answer::Invalid
    }
}

pub fn theme_answer(input: &str) -> (r: Answer<ThemeMode>)
    ensures
        r == theme_of(lowercase(input@)),
{
    let low = to_lowercase(input);
    let lc = chars_of(low.as_str());
    if is_word(&lc, "") {
        Answer::Keep
    } else if is_word(&lc, "dark") {
        Answer::Change(ThemeMode::Dark)
    } else if is_word(&lc, "light") {
        Answer::Change(ThemeMode::Light)
    } else if is_word(&lc, "nord") {
        Answer::Change(ThemeMode::Nord)
    } else if is_word(&lc, "matrix") {
        Answer::Change(ThemeMode::Matrix)
    } else if is_word(&lc, "sunset") {
        Answer::Change(ThemeMode::Sunset)
    } else if is_word(&lc, "dracula") {
        Answer::Change(ThemeMode::Dracula)
    } else if is_word(&lc, "gruvbox") {
        Answer::Change(ThemeMode::Gruvbox)
    } else if is_word(&lc, "tokyo_night") || is_word(&lc, "tokyo night") {
        Answer::Change(ThemeMode::TokyoNight)
    } else {
        Answer::Invalid
    }
}

/// A setting holding a name or path (the network interface, the engine's
/// socket): nothing keeps it, `-` clears it, anything else is the new value.
pub fn text_setting_answer(input: &str) -> (r: Answer<Option<String>>)
    ensures
        input@ == ""@ ==> r == Answer::<Option<String>>::Keep,
        input@ == "-"@ ==> r == Answer::<Option<String>>::Change(None),
        input@ != ""@ && input@ != "-"@ ==> (r matches Answer::Change(Some(s)) && s@ == input@),
{
    let cs = chars_of(input);
    proof {
        reveal_strlit("");
        reveal_strlit("-");
        assert(""@.len() == 0);
        assert("-"@.len() == 1);
    }
    if is_word(&cs, "-") {
        Answer::Change(None)
    } else if is_word(&cs, "") {
        Answer::Keep
    } else {
        Answer::Change(Some(crate::text::string_from_chars(cs.as_slice())))
    }
}

/// The entry of the options menu: nothing or `0` to finish, `1` to `7`
/// for an option, `None` for anything else.
pub open spec fn menu_choice_of(s: Seq<char>) -> Option<u8> {
    if s == ""@ || s == "0"@ {
        Some(0)
    } else if s.len() == 1 && '1' <= s[0] <= '7' {
        Some((s[0] as u32 - '0' as u32) as u8)
    } else {
        None
    }
}

pub fn menu_choice(input: &str) -> (r: Option<u8>)
    ensures
        r == menu_choice_of(input@),
{
    let cs = chars_of(input);
    if is_word(&cs, "") || is_word(&cs, "0") {
        Some(0)
    } else if cs.len() == 1 && '1' <= cs[0] && cs[0] <= '7' {
        Some((cs[0] as u32 - '0' as u32) as u8)
    } else {
        None
    }
}

/// A mounted disk the setup offers: its short device name and whether it
/// can be written to.
pub struct DiskOption {
    pub device_short: String,
    pub writable: bool,
}

/// The first position at or after `i` holding a writable disk named `name`
/// (any writable disk when `name` is `None`), or -1.
pub open spec fn first_writable_from(disks: Seq<DiskOption>, name: Option<Seq<char>>, i: int) -> int
    decreases disks.len() - i,
{
    if i < 0 || i >= disks.len() {
        -1
    } else if disks[i].writable && (name is None || disks[i].device_short@ == name->0) {
        i
    } else {
        first_writable_from(disks, name, i + 1)
    }
}

/// The disk offered first: the configured one when it is writable, else
/// the first writable disk, else the first disk.
pub open spec fn default_disk_of(disks: Seq<DiskOption>, current: Option<Seq<char>>) -> int {
    let by_name = match current {
        Some(n) => first_writable_from(disks, Some(n), 0),
        None => -1,
    };
    if by_name >= 0 {
        by_name
    } else {
        let any = first_writable_from(disks, None, 0);
        if any >= 0 {
            any
        } else {
            0
        }
    }
}

pub open spec fn name_view(name: Option<&str>) -> Option<Seq<char>> {
    match name {
        Some(n) => Some(n@),
        None => None,
    }
}

fn first_writable_exec(disks: &Vec<DiskOption>, name: Option<&str>) -> (r: Option<usize>)
    ensures
        r matches Some(i) ==> i as int == first_writable_from(disks@, name_view(name), 0),
        r is None ==> first_writable_from(disks@, name_view(name), 0) == -1,
{
    let ghost nm: Option<Seq<char>> = name_view(name);
    let nc: Option<Vec<char>> = match name {
        Some(n) => Some(chars_of(n)),
        None => None,
    };
    let mut i: usize = 0;
    while i < disks.len()
        invariant
            i <= disks@.len(),
            nm == name_view(name),
            nc is Some <==> nm is Some,
            nc is Some ==> nc->0@ == nm->0,
            first_writable_from(disks@, nm, 0) == first_writable_from(disks@, nm, i as int),
        decreases disks.len() - i,
    {
        let d = &disks[i];
        let name_ok = match &nc {
            None => true,
            Some(n) => {
                let dc = chars_of(d.device_short.as_str());
                chars_eq(dc.as_slice(), n.as_slice())
            },
        };
        if d.writable && name_ok {
            assert(first_writable_from(disks@, nm, i as int) == i as int);
            return Some(i);
        }
        i += 1;
    }
    None
}

/// The position of the disk offered first (see `default_disk_of`).
pub fn default_disk_index(disks: &Vec<DiskOption>, current: Option<&str>) -> (r: usize)
    ensures
        r as int == default_disk_of(disks@, name_view(current)),
{
    let by_name = match current {
        Some(n) => first_writable_exec(disks, Some(n)),
        None => None,
    };
    match by_name {
        Some(i) => i,
        None => match first_writable_exec(disks, None) {
            Some(i) => i,
            None => 0,
        },
    }
}

/// The disk chosen among `count`: the default when nothing is typed, else
/// the typed position counted from one (zero also picks the first), or
/// `None` to ask again.
pub open spec fn disk_choice_of(s: Seq<char>, count: nat, default_idx: nat) -> Option<nat> {
    if s.len() == 0 {
        Some(default_idx)
    } else {
        match parse_unsigned(s, usize::MAX as nat) {
            Some(p) => {
                let i: nat = if p >= 1 { (p - 1) as nat } else { 0 };
                if i < count {
                    Some(i)
                } else {
                    None
                }
            },
            None => None,
        }
    }
}

pub fn disk_answer(input: &str, count: usize, default_idx: usize) -> (r: Option<usize>)
    ensures
        r matches Some(i) ==> disk_choice_of(input@, count as nat, default_idx as nat) == Some(i as nat),
        r is None ==> disk_choice_of(input@, count as nat, default_idx as nat) is None,
{
    let cs = chars_of(input);
    if cs.len() == 0 {
        return Some(default_idx);
    }
    match parse_unsigned_exec(cs.as_slice(), usize::MAX as u64) {
        Some(p) => {
            let i: u64 = if p >= 1 { p - 1 } else { 0 };
            if i < count as u64 {
                Some(i as usize)
            } else {
                None
            }
        },
        None => None,
    }
}

/// The bytes a write test of `size_mb` MB takes, held at the largest `u64`.
pub open spec fn test_bytes(size_mb: u64) -> int {
    if size_mb * 1_000_000 > u64::MAX {
        u64::MAX as int
    } else {
        size_mb * 1_000_000
    }
}

/// Whether a write test of `size_mb` MB leaves at least 64 MB free on a
/// disk with `available_bytes` free.
pub fn benchmark_fits(size_mb: u64, available_bytes: u64) -> (b: bool)
    ensures
        b == (test_bytes(size_mb) <= (if available_bytes >= 64_000_000 {
            available_bytes - 64_000_000
        } else {
            0
        })),
{
    let need = match size_mb.checked_mul(1_000_000) {
        Some(p) => p,
        None => u64::MAX,
    };
    need <= available_bytes.saturating_sub(64_000_000)
}

} // verus!
