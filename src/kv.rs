//! Key-value maps and the line parsers that fill them.
use vstd::prelude::*;
use crate::text::{
    chars_of, find_from, find_from_exec, lines, seqs, slice, split_lines, string_of, trim, trim_exec,
};

verus! {

/// A mapping from keys to values; where a key was inserted twice the later
/// value wins.
pub struct KeyValueMap {
    pub entries: Vec<(String, String)>,
}

pub type Entries = Seq<(Seq<char>, Seq<char>)>;

impl View for KeyValueMap {
    type V = Entries;

    open spec fn view(&self) -> Entries {
        self.entries@.map_values(|e: (String, String)| (e.0@, e.1@))
    }
}

/// The value last inserted under `key`.
pub open spec fn lookup(es: Entries, key: Seq<char>) -> Option<Seq<char>>
    decreases es.len(),
{
    if es.len() == 0 {
        None
    } else if es.last().0 == key {
        Some(es.last().1)
    } else {
        lookup(es.drop_last(), key)
    }
}

pub open spec fn view_of(o: Option<String>) -> Option<Seq<char>> {
    match o {
        Some(s) => Some(s@),
        None => None,
    }
}

impl KeyValueMap {
    pub fn new() -> (r: KeyValueMap)
        ensures
            r@ == Seq::<(Seq<char>, Seq<char>)>::empty(),
    {
        let r = KeyValueMap { entries: Vec::new() };
        assert(r@ =~= Seq::<(Seq<char>, Seq<char>)>::empty());
        r
    }

    pub fn insert(&mut self, key: String, value: String)
        ensures
            final(self)@ == old(self)@.push((key@, value@)),
    {
        self.entries.push((key, value));
        assert(final(self)@ =~= old(self)@.push((key@, value@)));
    }

    pub fn get(&self, key: &str) -> (r: Option<String>)
        ensures
            view_of(r) == lookup(self@, key@),
    {
        let mut i: usize = self.entries.len();
        proof {
            lemma_take_all(self@);
        }
        while i > 0
            invariant
                i <= self.entries@.len(),
                lookup(self@, key@) == lookup(self@.take(i as int), key@),
            decreases i,
        {
            let ghost pre = self@.take(i as int);
            assert(pre.drop_last() =~= self@.take(i - 1));
            if crate::json::str_eq(self.entries[i - 1].0.as_str(), key) {
                return Some(self.entries[i - 1].1.clone());
            }
            i = i - 1;
        }
        None
    }
}

proof fn lemma_take_all<T>(s: Seq<T>)
    ensures
        s.take(s.len() as int) == s,
{
    assert(s.take(s.len() as int) =~= s);
}

/// The entries that `f` gives for each line, in order.
pub open spec fn entries_of(ls: Seq<Seq<char>>, f: spec_fn(Seq<char>) -> Option<(Seq<char>, Seq<char>)>) -> Entries
    decreases ls.len(),
{
    if ls.len() == 0 {
        Seq::empty()
    } else {
        let rest = entries_of(ls.drop_last(), f);
        match f(ls.last()) {
            Some(e) => rest.push(e),
            None => rest,
        }
    }
}

/// A `key: value` line: split at the first colon, both sides trimmed; only
/// where neither side is empty.
pub open spec fn colon_entry(line: Seq<char>) -> Option<(Seq<char>, Seq<char>)> {
    let c = find_from(line, ':', 0);
    if c < line.len() {
        let k = trim(line.subrange(0, c));
        let v = trim(line.subrange(c + 1, line.len() as int));
        if k.len() > 0 && v.len() > 0 {
            Some((k, v))
        } else {
            None
        }
    } else {
        None
    }
}

/// `s` without one pair of surrounding double quotes, where it has them.
pub open spec fn unquote(s: Seq<char>) -> Seq<char> {
    if s.len() >= 2 && s[0] == '"' && s.last() == '"' {
        s.subrange(1, s.len() - 1)
    } else {
        s
    }
}

/// A shell assignment `KEY=value`: split at the first `=`, both sides trimmed,
/// one layer of double quotes removed from the value.
pub open spec fn assignment_entry(line: Seq<char>) -> Option<(Seq<char>, Seq<char>)> {
    let e = find_from(line, '=', 0);
    if e < line.len() {
        Some((trim(line.subrange(0, e)), unquote(trim(line.subrange(e + 1, line.len() as int)))))
    } else {
        None
    }
}

/// The map of the `key: value` lines of `text`.
pub open spec fn colon_map(text: Seq<char>) -> Entries {
    entries_of(lines(text), |l: Seq<char>| colon_entry(l))
}

/// The map of the `KEY=value` lines of `text`.
pub open spec fn assignment_map(text: Seq<char>) -> Entries {
    entries_of(lines(text), |l: Seq<char>| assignment_entry(l))
}

fn colon_entry_exec(line: &Vec<char>) -> (r: Option<(String, String)>)
    ensures
        match r {
            Some(e) => colon_entry(line@) == Some((e.0@, e.1@)),
            None => colon_entry(line@) is None,
        },
{
    let c = find_from_exec(line, ':', 0);
    if c < line.len() {
        let k = trim_exec(&slice(line, 0, c));
        let v = trim_exec(&slice(line, c + 1, line.len()));
        if k.len() > 0 && v.len() > 0 {
            Some((string_of(&k), string_of(&v)))
        } else {
            None
        }
    } else {
        None
    }
}

fn unquote_exec(s: &Vec<char>) -> (r: Vec<char>)
    ensures
        r@ == unquote(s@),
{
    let n = s.len();
    if n >= 2 && s[0] == '"' && s[n - 1] == '"' {
        slice(s, 1, n - 1)
    } else {
        let r = slice(s, 0, n);
        assert(s@.subrange(0, n as int) =~= s@);
        r
    }
}

fn assignment_entry_exec(line: &Vec<char>) -> (r: Option<(String, String)>)
    ensures
        match r {
            Some(e) => assignment_entry(line@) == Some((e.0@, e.1@)),
            None => assignment_entry(line@) is None,
        },
{
    let e = find_from_exec(line, '=', 0);
    if e < line.len() {
        let k = trim_exec(&slice(line, 0, e));
        let v = unquote_exec(&trim_exec(&slice(line, e + 1, line.len())));
        Some((string_of(&k), string_of(&v)))
    } else {
        None
    }
}

/// Parses `key: value` lines; other lines are skipped.
pub fn parse_colon_lines(text: &Vec<char>) -> (r: KeyValueMap)
    ensures
        r@ == colon_map(text@),
{
    let ls = split_lines(text);
    let mut r = KeyValueMap::new();
    let mut i: usize = 0;
    while i < ls.len()
        invariant
            i <= ls@.len(),
            seqs(ls@) == lines(text@),
            r@ == entries_of(seqs(ls@).take(i as int), |l: Seq<char>| colon_entry(l)),
        decreases ls@.len() - i,
    {
        assert(seqs(ls@).take(i + 1).drop_last() =~= seqs(ls@).take(i as int));
        assert(seqs(ls@).take(i + 1).last() == ls@[i as int]@);
        match colon_entry_exec(&ls[i]) {
            Some((k, v)) => r.insert(k, v),
            None => {},
        }
        i = i + 1;
    }
    proof {
        lemma_take_all(seqs(ls@));
    }
    r
}

/// Parses shell-style `KEY=value` lines (as in `/etc/os-release`); other lines are skipped.
pub fn parse_assignments(text: &str) -> (r: KeyValueMap)
    ensures
        r@ == assignment_map(text@),
{
    let chars = chars_of(text);
    let ls = split_lines(&chars);
    let mut r = KeyValueMap::new();
    let mut i: usize = 0;
    while i < ls.len()
        invariant
            i <= ls@.len(),
            seqs(ls@) == lines(text@),
            r@ == entries_of(seqs(ls@).take(i as int), |l: Seq<char>| assignment_entry(l)),
        decreases ls@.len() - i,
    {
        assert(seqs(ls@).take(i + 1).drop_last() =~= seqs(ls@).take(i as int));
        assert(seqs(ls@).take(i + 1).last() == ls@[i as int]@);
        match assignment_entry_exec(&ls[i]) {
            Some((k, v)) => r.insert(k, v),
            None => {},
        }
        i = i + 1;
    }
    proof {
        lemma_take_all(seqs(ls@));
    }
    r
}

} // verus!
