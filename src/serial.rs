//! The serial number chain: `dmidecode --type baseboard`, the DMI board and
//! product serial files, `lshw -class system -short`, then `/etc/machine-id`.
use vstd::prelude::*;
use crate::memory::{first_some_exec, opt_seq};
use crate::text::{
    chars_of, colon_field, colon_field_exec, contains, contains_exec, eq_exec, first_some, lines,
    slice, split_lines, split_words, starts_with, starts_with_exec, string_of, trim, trim_exec,
    words,
};

verus! {

/// A serial number that means something: not empty, not `Not Specified`.
pub open spec fn real_serial(s: Seq<char>) -> Option<Seq<char>> {
    if s.len() > 0 && s != "Not Specified"@ { Some(s) } else { None }
}

/// The serial of a `Serial Number:` line of `dmidecode --type baseboard`.
pub open spec fn dmi_serial(line: Seq<char>) -> Option<Seq<char>> {
    let t = trim(line);
    if starts_with(t, "Serial Number:"@) {
        match colon_field(t) {
            Some(f) => real_serial(trim(f)),
            None => None,
        }
    } else {
        None
    }
}

/// Bytes that `c` takes in UTF-8.
pub open spec fn utf8_width(c: char) -> nat {
    if (c as u32) < 0x80 { 1 } else if (c as u32) < 0x800 { 2 } else if (c as u32) < 0x10000 { 3 } else { 4 }
}

/// Length of `s` in UTF-8 bytes, as `str::len` counts it.
pub open spec fn utf8_len(s: Seq<char>) -> nat
    decreases s.len(),
{
    if s.len() == 0 { 0 } else { utf8_len(s.drop_last()) + utf8_width(s.last()) }
}

/// The last word of an `lshw -class system -short` line about the computer
/// or system, where it has at least three words and the last is longer than
/// four bytes and is not about the computer.
pub open spec fn lshw_serial(line: Seq<char>) -> Option<Seq<char>> {
    let ws = words(line);
    if (contains(line, "computer"@) || contains(line, "system"@)) && ws.len() > 2 && utf8_len(ws.last())
        > 4 && !contains(ws.last(), "computer"@) {
        Some(ws.last())
    } else {
        None
    }
}

/// `machine-` and the first eight characters of a machine id (all of it, if shorter).
pub open spec fn machine_serial(id: Seq<char>) -> Option<Seq<char>> {
    let t = trim(id);
    if t.len() > 0 {
        Some("machine-"@ + t.take(if t.len() < 8 { t.len() as int } else { 8 }))
    } else {
        None
    }
}

pub open spec fn scan_lines(t: Option<Seq<char>>, f: spec_fn(Seq<char>) -> Option<Seq<char>>) -> Option<Seq<char>> {
    match t {
        Some(t) => first_some(lines(t), f),
        None => None,
    }
}

pub open spec fn file_serial(t: Option<Seq<char>>) -> Option<Seq<char>> {
    match t {
        Some(t) => real_serial(trim(t)),
        None => None,
    }
}

/// The serial number from the sources that could be had (`None`: not
/// available), in order of preference; `"Unknown"` where none gives one.
pub open spec fn serial_text(
    dmidecode: Option<Seq<char>>,
    board_serial: Option<Seq<char>>,
    product_serial: Option<Seq<char>>,
    lshw: Option<Seq<char>>,
    machine_id: Option<Seq<char>>,
) -> Seq<char> {
    if let Some(s) = scan_lines(dmidecode, |l: Seq<char>| dmi_serial(l)) {
        s
    } else if let Some(s) = file_serial(board_serial) {
        s
    } else if let Some(s) = file_serial(product_serial) {
        s
    } else if let Some(s) = scan_lines(lshw, |l: Seq<char>| lshw_serial(l)) {
        s
    } else if let Some(s) = match machine_id {
        Some(m) => machine_serial(m),
        None => None,
    } {
        s
    } else {
        "Unknown"@
    }
}

fn real_serial_exec(s: Vec<char>) -> (r: Option<Vec<char>>)
    ensures
        opt_seq(r) == real_serial(s@),
{
    if s.len() > 0 && !eq_exec(&s, &chars_of("Not Specified")) {
        Some(s)
    } else {
        None
    }
}

fn dmi_serial_exec(line: &Vec<char>) -> (r: Option<Vec<char>>)
    ensures
        opt_seq(r) == dmi_serial(line@),
{
    let t = trim_exec(line);
    if starts_with_exec(&t, &chars_of("Serial Number:")) {
        match colon_field_exec(&t) {
            Some(f) => real_serial_exec(trim_exec(&f)),
            None => None,
        }
    } else {
        None
    }
}

fn utf8_len_exec(s: &Vec<char>) -> (r: usize)
    ensures
        r == (if utf8_len(s@) > 5 { 5 } else { utf8_len(s@) }),
{
    let mut n: usize = 0;
    let mut i: usize = 0;
    while i < s.len()
        invariant
            i <= s@.len(),
            n == (if utf8_len(s@.take(i as int)) > 5 { 5 } else { utf8_len(s@.take(i as int)) }),
        decreases s@.len() - i,
    {
        assert(s@.take(i + 1).drop_last() =~= s@.take(i as int));
        let c = s[i] as u32;
        let w: usize = if c < 0x80 { 1 } else if c < 0x800 { 2 } else if c < 0x10000 { 3 } else { 4 };
        n = if n + w > 5 { 5 } else { n + w };
        i = i + 1;
    }
    assert(s@.take(s@.len() as int) =~= s@);
    n
}

fn lshw_serial_exec(line: &Vec<char>) -> (r: Option<Vec<char>>)
    ensures
        opt_seq(r) == lshw_serial(line@),
{
    let ws = split_words(line);
    if (contains_exec(line, &chars_of("computer")) || contains_exec(line, &chars_of("system")))
        && ws.len() > 2 {
        let last = &ws[ws.len() - 1];
        assert(ws@[ws@.len() - 1]@ == crate::text::seqs(ws@).last());
        if utf8_len_exec(last) > 4 && !contains_exec(last, &chars_of("computer")) {
            let r = slice(last, 0, last.len());
            assert(last@.subrange(0, last@.len() as int) =~= last@);
            return Some(r);
        }
    }
    None
}

pub fn scan_lines_exec<F: Fn(&Vec<char>) -> Option<Vec<char>>>(
    t: &Option<String>,
    f: F,
    Ghost(g): Ghost<spec_fn(Seq<char>) -> Option<Seq<char>>>,
) -> (r: Option<Vec<char>>)
    requires
        forall|l: &Vec<char>| f.requires((l,)),
        forall|l: &Vec<char>, x: Option<Vec<char>>| f.ensures((l,), x) ==> opt_seq(x) == g(l@),
    ensures
        opt_seq(r) == scan_lines(crate::kv::view_of(*t), g),
{
    match t {
        Some(t) => first_some_exec(&split_lines(&chars_of(t.as_str())), f, Ghost(g)),
        None => None,
    }
}

fn file_serial_exec(t: &Option<String>) -> (r: Option<Vec<char>>)
    ensures
        opt_seq(r) == file_serial(crate::kv::view_of(*t)),
{
    match t {
        Some(t) => real_serial_exec(trim_exec(&chars_of(t.as_str()))),
        None => None,
    }
}

fn machine_serial_exec(id: &str) -> (r: Option<Vec<char>>)
    ensures
        opt_seq(r) == machine_serial(id@),
{
    let t = trim_exec(&chars_of(id));
    if t.len() > 0 {
        let k: usize = if t.len() < 8 { t.len() } else { 8 };
        let mut r = chars_of("machine-");
        let mut head = slice(&t, 0, k);
        r.append(&mut head);
        Some(r)
    } else {
        None
    }
}

/// The serial number from the contents of `dmidecode --type baseboard`,
/// `/sys/class/dmi/id/board_serial`, `/sys/class/dmi/id/product_serial`,
/// `lshw -class system -short` and `/etc/machine-id` (`None` where one could
/// not be had): the first that gives one, else `"Unknown"`.
pub fn get_serial_number(
    dmidecode: &Option<String>,
    board_serial: &Option<String>,
    product_serial: &Option<String>,
    lshw: &Option<String>,
    machine_id: &Option<String>,
) -> (r: String)
    ensures
        r@ == serial_text(
            crate::kv::view_of(*dmidecode),
            crate::kv::view_of(*board_serial),
            crate::kv::view_of(*product_serial),
            crate::kv::view_of(*lshw),
            crate::kv::view_of(*machine_id),
        ),
{
    if let Some(s) = scan_lines_exec(dmidecode, dmi_serial_exec, Ghost(|l: Seq<char>| dmi_serial(l))) {
        return string_of(&s);
    }
    if let Some(s) = file_serial_exec(board_serial) {
        return string_of(&s);
    }
    if let Some(s) = file_serial_exec(product_serial) {
        return string_of(&s);
    }
    if let Some(s) = scan_lines_exec(lshw, lshw_serial_exec, Ghost(|l: Seq<char>| lshw_serial(l))) {
        return string_of(&s);
    }
    if let Some(m) = machine_id {
        if let Some(s) = machine_serial_exec(m.as_str()) {
            return string_of(&s);
        }
    }
    string_of(&chars_of("Unknown"))
}

} // verus!
