//! The memory description: total size from `/proc/meminfo`, speed and type
//! from `dmidecode` or `lshw`, with `free` as the fallback.
use vstd::prelude::*;
use crate::fastfetch::push_str;
use crate::text::{
    chars_of, colon_field, colon_field_exec, contains, contains_exec, eq_exec, first_some,
    lemma_first_some_ends, lemma_first_some_step, lines, one_decimal, one_decimal_exec,
    parse_u64, parse_u64_exec, replace, replace_exec, seqs, split_lines, split_words,
    starts_with, starts_with_exec, string_of, tenths, tenths_exec, trim, trim_exec, word_at,
    words,
};

verus! {

/// Kibibytes in a gibibyte and in a tebibyte.
pub const KIB_PER_GIB: u64 = 1048576;
pub const KIB_PER_TIB: u64 = 1073741824;

pub open spec fn opt_view(o: Option<&str>) -> Option<Seq<char>> {
    match o {
        Some(s) => Some(s@),
        None => None,
    }
}

/// The kibibytes of a `MemTotal:` line.
pub open spec fn meminfo_total(line: Seq<char>) -> Option<u64> {
    if starts_with(line, "MemTotal:"@) {
        match word_at(line, 1) {
            Some(w) => parse_u64(w),
            None => None,
        }
    } else {
        None
    }
}

/// Total memory in KiB from `/proc/meminfo`; 0 where no `MemTotal:` line parses.
pub open spec fn total_kib(meminfo: Seq<char>) -> u64 {
    match first_some(lines(meminfo), |l: Seq<char>| meminfo_total(l)) {
        Some(k) => k,
        None => 0,
    }
}

/// The speed of a `Speed:` line of `dmidecode --type memory`, `MT/s` written as `MHz`.
pub open spec fn dmi_speed(line: Seq<char>) -> Option<Seq<char>> {
    let t = trim(line);
    if starts_with(t, "Speed:"@) {
        match colon_field(t) {
            Some(f) => {
                let v = replace(trim(f), "MT/s"@, "MHz"@);
                if v.len() > 0 { Some(v) } else { None }
            },
            None => None,
        }
    } else {
        None
    }
}

/// The type of a `Type:` line of `dmidecode --type memory`, unless empty or `Unknown`.
pub open spec fn dmi_type(line: Seq<char>) -> Option<Seq<char>> {
    let t = trim(line);
    if starts_with(t, "Type:"@) {
        match colon_field(t) {
            Some(f) => {
                let v = trim(f);
                if v.len() > 0 && v != "Unknown"@ { Some(v) } else { None }
            },
            None => None,
        }
    } else {
        None
    }
}

pub open spec fn ddr_word(w: Seq<char>) -> Option<Seq<char>> {
    if contains(w, "DDR"@) { Some(w) } else { None }
}

/// The memory type in an `lshw -class memory -short` line about DDR or SDRAM
/// memory: its first word that names DDR.
pub open spec fn lshw_type(line: Seq<char>) -> Option<Seq<char>> {
    if contains(line, "memory"@) && (contains(line, "DDR"@) || contains(line, "SDRAM"@)) {
        first_some(words(line), |w: Seq<char>| ddr_word(w))
    } else {
        None
    }
}

/// The size of a `Mem:` line of `free -h`, as `"<size>B RAM"`.
pub open spec fn free_line(line: Seq<char>) -> Option<Seq<char>> {
    if starts_with(line, "Mem:"@) && words(line).len() > 1 {
        Some(words(line)[1] + "B RAM"@)
    } else {
        None
    }
}

/// A size in KiB with one decimal, in GB, or in TB from 1024 GiB on.
pub open spec fn size_text(kib: u64) -> Seq<char> {
    if kib >= KIB_PER_TIB {
        one_decimal(tenths(kib as nat, KIB_PER_TIB as nat)) + " TB"@
    } else {
        one_decimal(tenths(kib as nat, KIB_PER_GIB as nat)) + " GB"@
    }
}

pub open spec fn found_or_empty(o: Option<Seq<char>>) -> Seq<char> {
    match o {
        Some(s) => s,
        None => Seq::empty(),
    }
}

/// The first value that `f` gives for a line of an available output.
pub open spec fn scan(t: Option<Seq<char>>, f: spec_fn(Seq<char>) -> Option<Seq<char>>) -> Seq<char> {
    match t {
        Some(t) => found_or_empty(first_some(lines(t), f)),
        None => Seq::empty(),
    }
}

/// `" <s>"` where `s` is not empty.
pub open spec fn spaced(s: Seq<char>) -> Seq<char> {
    if s.len() > 0 { " "@ + s } else { Seq::empty() }
}

/// The memory description from the outputs that could be had (`None`: not
/// available): total size, then speed and type where known; else the size
/// that `free` reports; else `"Unknown Memory"`.
pub open spec fn memory_text(
    meminfo: Option<Seq<char>>,
    dmidecode: Option<Seq<char>>,
    lshw: Option<Seq<char>>,
    free: Option<Seq<char>>,
) -> Seq<char> {
    let kib = match meminfo {
        Some(m) => total_kib(m),
        None => 0,
    };
    if kib > 0 {
        let speed = scan(dmidecode, |l: Seq<char>| dmi_speed(l));
        let dmi_t = scan(dmidecode, |l: Seq<char>| dmi_type(l));
        let mtype = if dmi_t.len() == 0 { scan(lshw, |l: Seq<char>| lshw_type(l)) } else { dmi_t };
        size_text(kib) + spaced(speed) + spaced(mtype)
    } else {
        match free {
            Some(f) => match first_some(lines(f), |l: Seq<char>| free_line(l)) {
                Some(s) => s,
                None => "Unknown Memory"@,
            },
            None => "Unknown Memory"@,
        }
    }
}


pub open spec fn opt_seq(o: Option<Vec<char>>) -> Option<Seq<char>> {
    match o {
        Some(v) => Some(v@),
        None => None,
    }
}

/// The first value that `f` gives for a line of `ls`.
pub fn first_some_exec<F: Fn(&Vec<char>) -> Option<Vec<char>>>(
    ls: &Vec<Vec<char>>,
    f: F,
    Ghost(g): Ghost<spec_fn(Seq<char>) -> Option<Seq<char>>>,
) -> (r: Option<Vec<char>>)
    requires
        forall|l: &Vec<char>| f.requires((l,)),
        forall|l: &Vec<char>, x: Option<Vec<char>>| f.ensures((l,), x) ==> opt_seq(x) == g(l@),
    ensures
        opt_seq(r) == first_some(seqs(ls@), g),
{
    let ghost all = seqs(ls@);
    proof {
        lemma_first_some_ends(all, g);
    }
    let mut i: usize = 0;
    while i < ls.len()
        invariant
            i <= ls@.len(),
            all == seqs(ls@),
            forall|l: &Vec<char>| f.requires((l,)),
            forall|l: &Vec<char>, x: Option<Vec<char>>| f.ensures((l,), x) ==> opt_seq(x) == g(l@),
            first_some(all, g) == first_some(all.subrange(i as int, all.len() as int), g),
        decreases ls@.len() - i,
    {
        proof {
            lemma_first_some_step(all, g, i as int);
        }
        let x = f(&ls[i]);
        if x.is_some() {
            return x;
        }
        i = i + 1;
    }
    None
}

/// The first value that `f` gives for a line of an available output.
pub fn scan_exec<F: Fn(&Vec<char>) -> Option<Vec<char>>>(
    t: Option<&str>,
    f: F,
    Ghost(g): Ghost<spec_fn(Seq<char>) -> Option<Seq<char>>>,
) -> (r: Vec<char>)
    requires
        forall|l: &Vec<char>| f.requires((l,)),
        forall|l: &Vec<char>, x: Option<Vec<char>>| f.ensures((l,), x) ==> opt_seq(x) == g(l@),
    ensures
        r@ == scan(opt_view(t), g),
{
    match t {
        Some(t) => {
            let ls = split_lines(&chars_of(t));
            match first_some_exec(&ls, f, Ghost(g)) {
                Some(v) => v,
                None => Vec::new(),
            }
        },
        None => Vec::new(),
    }
}

fn meminfo_total_exec(line: &Vec<char>) -> (r: Option<u64>)
    ensures
        r == meminfo_total(line@),
{
    if starts_with_exec(line, &chars_of("MemTotal:")) {
        let ws = split_words(line);
        if ws.len() > 1 {
            parse_u64_exec(&ws[1])
        } else {
            None
        }
    } else {
        None
    }
}

pub fn total_kib_exec(meminfo: &str) -> (r: u64)
    ensures
        r == total_kib(meminfo@),
{
    let ls = split_lines(&chars_of(meminfo));
    let ghost all = seqs(ls@);
    let ghost g = |l: Seq<char>| meminfo_total(l);
    proof {
        lemma_first_some_ends(all, g);
    }
    let mut i: usize = 0;
    while i < ls.len()
        invariant
            i <= ls@.len(),
            all == seqs(ls@),
            all == lines(meminfo@),
            g == (|l: Seq<char>| meminfo_total(l)),
            first_some(all, g) == first_some(all.subrange(i as int, all.len() as int), g),
        decreases ls@.len() - i,
    {
        proof {
            lemma_first_some_step(all, g, i as int);
        }
        if let Some(k) = meminfo_total_exec(&ls[i]) {
            return k;
        }
        i = i + 1;
    }
    0
}

fn dmi_speed_exec(line: &Vec<char>) -> (r: Option<Vec<char>>)
    ensures
        opt_seq(r) == dmi_speed(line@),
{
    let t = trim_exec(line);
    if starts_with_exec(&t, &chars_of("Speed:")) {
        match colon_field_exec(&t) {
            Some(f) => {
                proof {
                    reveal_strlit("MT/s");
                }
                let v = replace_exec(&trim_exec(&f), &chars_of("MT/s"), &chars_of("MHz"));
                if v.len() > 0 { Some(v) } else { None }
            },
            None => None,
        }
    } else {
        None
    }
}

fn dmi_type_exec(line: &Vec<char>) -> (r: Option<Vec<char>>)
    ensures
        opt_seq(r) == dmi_type(line@),
{
    let t = trim_exec(line);
    if starts_with_exec(&t, &chars_of("Type:")) {
        match colon_field_exec(&t) {
            Some(f) => {
                let v = trim_exec(&f);
                let is_unknown = eq_exec(&v, &chars_of("Unknown"));
                if v.len() > 0 && !is_unknown { Some(v) } else { None }
            },
            None => None,
        }
    } else {
        None
    }
}

fn ddr_word_exec(w: &Vec<char>) -> (r: Option<Vec<char>>)
    ensures
        opt_seq(r) == ddr_word(w@),
{
    if contains_exec(w, &chars_of("DDR")) {
        Some(slice_all(w))
    } else {
        None
    }
}

fn slice_all(w: &Vec<char>) -> (r: Vec<char>)
    ensures
        r@ == w@,
{
    let r = crate::text::slice(w, 0, w.len());
    assert(w@.subrange(0, w@.len() as int) =~= w@);
    r
}

fn lshw_type_exec(line: &Vec<char>) -> (r: Option<Vec<char>>)
    ensures
        opt_seq(r) == lshw_type(line@),
{
    if contains_exec(line, &chars_of("memory")) && (contains_exec(line, &chars_of("DDR"))
        || contains_exec(line, &chars_of("SDRAM"))) {
        let ws = split_words(line);
        first_some_exec(&ws, ddr_word_exec, Ghost(|w: Seq<char>| ddr_word(w)))
    } else {
        None
    }
}

fn free_line_exec(line: &Vec<char>) -> (r: Option<Vec<char>>)
    ensures
        opt_seq(r) == free_line(line@),
{
    if starts_with_exec(line, &chars_of("Mem:")) {
        let ws = split_words(line);
        if ws.len() > 1 {
            let mut v = slice_all(&ws[1]);
            push_str(&mut v, "B RAM");
            return Some(v);
        }
    }
    None
}

fn size_text_exec(kib: u64) -> (r: Vec<char>)
    ensures
        r@ == size_text(kib),
{
    if kib >= KIB_PER_TIB {
        let mut r = one_decimal_exec(tenths_exec(kib, KIB_PER_TIB));
        push_str(&mut r, " TB");
        r
    } else {
        let mut r = one_decimal_exec(tenths_exec(kib, KIB_PER_GIB));
        push_str(&mut r, " GB");
        r
    }
}

fn push_spaced(v: &mut Vec<char>, s: &Vec<char>)
    ensures
        final(v)@ == old(v)@ + spaced(s@),
{
    if s.len() > 0 {
        push_str(v, " ");
        let mut w = slice_all(s);
        v.append(&mut w);
        assert(final(v)@ =~= old(v)@ + spaced(s@));
    } else {
        assert(final(v)@ =~= old(v)@ + spaced(s@));
    }
}

/// The memory description from the outputs of `/proc/meminfo`,
/// `dmidecode --type memory`, `lshw -class memory -short` and `free -h`
/// (`None` where one could not be had).
pub fn get_memory_info(
    meminfo: Option<&str>,
    dmidecode: Option<&str>,
    lshw: Option<&str>,
    free: Option<&str>,
) -> (r: String)
    ensures
        r@ == memory_text(opt_view(meminfo), opt_view(dmidecode), opt_view(lshw), opt_view(free)),
{
    let kib = match meminfo {
        Some(m) => total_kib_exec(m),
        None => 0,
    };
    if kib > 0 {
        let speed = scan_exec(dmidecode, dmi_speed_exec, Ghost(|l: Seq<char>| dmi_speed(l)));
        let dmi_t = scan_exec(dmidecode, dmi_type_exec, Ghost(|l: Seq<char>| dmi_type(l)));
        let mtype = if dmi_t.len() == 0 {
            scan_exec(lshw, lshw_type_exec, Ghost(|l: Seq<char>| lshw_type(l)))
        } else {
            dmi_t
        };
        let mut r = size_text_exec(kib);
        push_spaced(&mut r, &speed);
        push_spaced(&mut r, &mtype);
        string_of(&r)
    } else {
        match free {
            Some(f) => {
                let ls = split_lines(&chars_of(f));
                match first_some_exec(&ls, free_line_exec, Ghost(|l: Seq<char>| free_line(l))) {
                    Some(v) => string_of(&v),
                    None => string_of(&chars_of("Unknown Memory")),
                }
            },
            None => string_of(&chars_of("Unknown Memory")),
        }
    }
}

} // verus!
