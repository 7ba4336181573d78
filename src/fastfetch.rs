//! Extraction of facts from `fastfetch` output, in its JSON or plain-text form.
use vstd::prelude::*;
use crate::json::{
    array_of, as_array_exec, as_str_exec, as_u64_exec, deref, is_object, is_object_exec,
    member_of, member_of_exec, str_of, u64_of, JsonValue,
};
use crate::kv::{Entries, KeyValueMap};
use crate::text::{
    chars_of, decimal, decimal_exec, one_decimal, one_decimal_exec, string_of, tenths,
    tenths_exec,
};

verus! {

/// Bytes in a gibibyte.
pub const GIB: u64 = 1073741824;

/// A size in bytes as gibibytes with one decimal: `"<x.y> GB"`.
pub open spec fn gib_text(bytes: u64) -> Seq<char> {
    one_decimal(tenths(bytes as nat, GIB as nat)) + " GB"@
}

pub fn gib_text_exec(bytes: u64) -> (r: Vec<char>)
    ensures
        r@ == gib_text(bytes),
{
    let mut r = one_decimal_exec(tenths_exec(bytes, GIB));
    let mut unit = chars_of(" GB");
    r.append(&mut unit);
    r
}

/// The core counts, where both are numbers: `" (<p> cores, <l> threads)"`.
pub open spec fn cores_text(cores: Option<JsonValue>) -> Seq<char> {
    match (u64_of(member_of(cores, "physical"@)), u64_of(member_of(cores, "logical"@))) {
        (Some(p), Some(l)) => if is_object(cores) {
            " ("@ + decimal(p as nat) + " cores, "@ + decimal(l as nat) + " threads)"@
        } else {
            Seq::empty()
        },
        _ => Seq::empty(),
    }
}

/// The frequency range in MHz, where both ends are numbers: `" @ <b>-<m> GHz"`.
pub open spec fn frequency_text(freq: Option<JsonValue>) -> Seq<char> {
    match (u64_of(member_of(freq, "base"@)), u64_of(member_of(freq, "max"@))) {
        (Some(b), Some(m)) => if is_object(freq) {
            " @ "@ + one_decimal(tenths(b as nat, 1000)) + "-"@ + one_decimal(tenths(m as nat, 1000))
                + " GHz"@
        } else {
            Seq::empty()
        },
        _ => Seq::empty(),
    }
}

/// The entries of a `Title` module.
pub open spec fn title_entries(result: Option<JsonValue>) -> Entries {
    if is_object(result) {
        let a = match str_of(member_of(result, "hostName"@)) {
            Some(h) => seq![("Host"@, h)],
            None => Seq::empty(),
        };
        match str_of(member_of(result, "userName"@)) {
            Some(u) => a.push(("User"@, u)),
            None => a,
        }
    } else {
        Seq::empty()
    }
}

/// The entry of a `CPU` module: its name, core counts and frequency range.
pub open spec fn cpu_entries(result: Option<JsonValue>) -> Entries {
    match str_of(member_of(result, "cpu"@)) {
        Some(name) => if is_object(result) {
            seq![("CPU"@, name + cores_text(member_of(result, "cores"@)) + frequency_text(
                member_of(result, "frequency"@),
            ))]
        } else {
            Seq::empty()
        },
        None => Seq::empty(),
    }
}

/// The entry of a `Memory` module: its total size.
pub open spec fn memory_entries(result: Option<JsonValue>) -> Entries {
    match u64_of(member_of(result, "total"@)) {
        Some(t) => if is_object(result) {
            seq![("Memory"@, gib_text(t))]
        } else {
            Seq::empty()
        },
        None => Seq::empty(),
    }
}

/// The entry of a `GPU` module: vendor and name of its first GPU.
pub open spec fn gpu_entries(result: Option<JsonValue>) -> Entries {
    match array_of(result) {
        Some(a) => if a.len() > 0 && is_object(Some(a[0])) {
            match str_of(member_of(Some(a[0]), "name"@)) {
                Some(name) => match str_of(member_of(Some(a[0]), "vendor"@)) {
                    Some(vendor) => seq![("GPU"@, vendor + " "@ + name)],
                    None => seq![("GPU"@, name)],
                },
                None => Seq::empty(),
            }
        } else {
            Seq::empty()
        },
        None => Seq::empty(),
    }
}

/// The description of a disk mounted at `/` with a known total size.
pub open spec fn root_disk_text(d: JsonValue) -> Option<Seq<char>> {
    let bytes = member_of(Some(d), "bytes"@);
    if is_object(Some(d)) && str_of(member_of(Some(d), "mountpoint"@)) == Some("/"@) && is_object(
        bytes,
    ) {
        match u64_of(member_of(bytes, "total"@)) {
            Some(t) => {
                let fs = match str_of(member_of(Some(d), "filesystem"@)) {
                    Some(f) => f,
                    None => "Unknown"@,
                };
                Some(gib_text(t) + " ("@ + fs + ")"@)
            },
            None => None,
        }
    } else {
        None
    }
}

/// The first root disk among `ds`.
pub open spec fn first_root_disk(ds: Seq<JsonValue>) -> Option<Seq<char>>
    decreases ds.len(),
{
    if ds.len() == 0 {
        None
    } else {
        match root_disk_text(ds[0]) {
            Some(t) => Some(t),
            None => first_root_disk(ds.drop_first()),
        }
    }
}

/// The entry of a `Disk` module: the first disk mounted at `/`.
pub open spec fn disk_entries(result: Option<JsonValue>) -> Entries {
    match array_of(result) {
        Some(ds) => match first_root_disk(ds) {
            Some(t) => seq![("Startup Disk"@, t)],
            None => Seq::empty(),
        },
        None => Seq::empty(),
    }
}

/// The hardware description of a `Host` module: vendor and version.
pub open spec fn hardware_text(result: Option<JsonValue>) -> Seq<char> {
    let a = match str_of(member_of(result, "vendor"@)) {
        Some(v) => v,
        None => Seq::empty(),
    };
    match str_of(member_of(result, "version"@)) {
        Some(v) => if a.len() > 0 { a + " "@ + v } else { v },
        None => a,
    }
}

/// The entries of a `Host` module: hardware description and serial number.
pub open spec fn host_entries(result: Option<JsonValue>) -> Entries {
    if is_object(result) {
        let hw = hardware_text(result);
        let a = if hw.len() > 0 { seq![("Hardware"@, hw)] } else { Seq::empty() };
        match str_of(member_of(result, "serial"@)) {
            Some(s) => if s.len() > 0 { a.push(("Serial Number"@, s)) } else { a },
            None => a,
        }
    } else {
        Seq::empty()
    }
}

/// The entries of one module of the output, by its `type`.
pub open spec fn module_entries(item: JsonValue) -> Entries {
    let result = member_of(Some(item), "result"@);
    match str_of(member_of(Some(item), "type"@)) {
        Some(t) => if t == "Title"@ {
            title_entries(result)
        } else if t == "CPU"@ {
            cpu_entries(result)
        } else if t == "Memory"@ {
            memory_entries(result)
        } else if t == "GPU"@ {
            gpu_entries(result)
        } else if t == "Disk"@ {
            disk_entries(result)
        } else if t == "Host"@ {
            host_entries(result)
        } else {
            Seq::empty()
        },
        None => Seq::empty(),
    }
}

/// The entries of all modules, in order.
pub open spec fn modules_entries(items: Seq<JsonValue>) -> Entries
    decreases items.len(),
{
    if items.len() == 0 {
        Seq::empty()
    } else {
        modules_entries(items.drop_last()) + module_entries(items.last())
    }
}

/// The facts of `fastfetch --format json` output: an array of modules.
pub open spec fn fastfetch_json_map(v: JsonValue) -> Entries {
    match v {
        JsonValue::Array(items) => modules_entries(items@),
        _ => Seq::empty(),
    }
}


/// Appends the characters of `lit` to `v`.
pub fn push_str(v: &mut Vec<char>, lit: &str)
    ensures
        final(v)@ == old(v)@ + lit@,
{
    let mut w = chars_of(lit);
    v.append(&mut w);
}

fn cores_text_exec(cores: Option<&JsonValue>) -> (r: Vec<char>)
    ensures
        r@ == cores_text(deref(cores)),
{
    let p = as_u64_exec(member_of_exec(cores, "physical"));
    let l = as_u64_exec(member_of_exec(cores, "logical"));
    match (p, l) {
        (Some(p), Some(l)) => {
            if is_object_exec(cores) {
                let mut r = chars_of(" (");
                r.append(&mut decimal_exec(p));
                push_str(&mut r, " cores, ");
                r.append(&mut decimal_exec(l));
                push_str(&mut r, " threads)");
                r
            } else {
                Vec::new()
            }
        },
        _ => Vec::new(),
    }
}

fn frequency_text_exec(freq: Option<&JsonValue>) -> (r: Vec<char>)
    ensures
        r@ == frequency_text(deref(freq)),
{
    let b = as_u64_exec(member_of_exec(freq, "base"));
    let m = as_u64_exec(member_of_exec(freq, "max"));
    match (b, m) {
        (Some(b), Some(m)) => {
            if is_object_exec(freq) {
                let mut r = chars_of(" @ ");
                r.append(&mut one_decimal_exec(tenths_exec(b, 1000)));
                push_str(&mut r, "-");
                r.append(&mut one_decimal_exec(tenths_exec(m, 1000)));
                push_str(&mut r, " GHz");
                r
            } else {
                Vec::new()
            }
        },
        _ => Vec::new(),
    }
}

fn title_exec(result: Option<&JsonValue>, info: &mut KeyValueMap)
    ensures
        final(info)@ == old(info)@ + title_entries(deref(result)),
{
    if is_object_exec(result) {
        if let Some(h) = as_str_exec(member_of_exec(result, "hostName")) {
            info.insert(string_of(&chars_of("Host")), string_of(&chars_of(h)));
        }
        if let Some(u) = as_str_exec(member_of_exec(result, "userName")) {
            info.insert(string_of(&chars_of("User")), string_of(&chars_of(u)));
        }
    }
    assert(final(info)@ =~= old(info)@ + title_entries(deref(result)));
}

fn cpu_exec(result: Option<&JsonValue>, info: &mut KeyValueMap)
    ensures
        final(info)@ == old(info)@ + cpu_entries(deref(result)),
{
    if let Some(name) = as_str_exec(member_of_exec(result, "cpu")) {
        if is_object_exec(result) {
            let mut text = chars_of(name);
            text.append(&mut cores_text_exec(member_of_exec(result, "cores")));
            text.append(&mut frequency_text_exec(member_of_exec(result, "frequency")));
            info.insert(string_of(&chars_of("CPU")), string_of(&text));
        }
    }
    assert(final(info)@ =~= old(info)@ + cpu_entries(deref(result)));
}

fn memory_exec(result: Option<&JsonValue>, info: &mut KeyValueMap)
    ensures
        final(info)@ == old(info)@ + memory_entries(deref(result)),
{
    if let Some(t) = as_u64_exec(member_of_exec(result, "total")) {
        if is_object_exec(result) {
            info.insert(string_of(&chars_of("Memory")), string_of(&gib_text_exec(t)));
        }
    }
    assert(final(info)@ =~= old(info)@ + memory_entries(deref(result)));
}

fn gpu_exec(result: Option<&JsonValue>, info: &mut KeyValueMap)
    ensures
        final(info)@ == old(info)@ + gpu_entries(deref(result)),
{
    if let Some(a) = as_array_exec(result) {
        if a.len() > 0 && is_object_exec(Some(&a[0])) {
            let first = Some(&a[0]);
            if let Some(name) = as_str_exec(member_of_exec(first, "name")) {
                let text = match as_str_exec(member_of_exec(first, "vendor")) {
                    Some(vendor) => {
                        let mut t = chars_of(vendor);
                        push_str(&mut t, " ");
                        push_str(&mut t, name);
                        t
                    },
                    None => chars_of(name),
                };
                info.insert(string_of(&chars_of("GPU")), string_of(&text));
            }
        }
    }
    assert(final(info)@ =~= old(info)@ + gpu_entries(deref(result)));
}

fn root_disk_text_exec(d: &JsonValue) -> (r: Option<Vec<char>>)
    ensures
        match r {
            Some(t) => root_disk_text(*d) == Some(t@),
            None => root_disk_text(*d) is None,
        },
{
    let bytes = member_of_exec(Some(d), "bytes");
    let mount = as_str_exec(member_of_exec(Some(d), "mountpoint"));
    let is_root = match mount {
        Some(m) => crate::json::str_eq(m, "/"),
        None => false,
    };
    if is_object_exec(Some(d)) && is_root && is_object_exec(bytes) {
        match as_u64_exec(member_of_exec(bytes, "total")) {
            Some(t) => {
                let mut text = gib_text_exec(t);
                push_str(&mut text, " (");
                match as_str_exec(member_of_exec(Some(d), "filesystem")) {
                    Some(f) => push_str(&mut text, f),
                    None => push_str(&mut text, "Unknown"),
                }
                push_str(&mut text, ")");
                Some(text)
            },
            None => None,
        }
    } else {
        None
    }
}

fn disk_exec(result: Option<&JsonValue>, info: &mut KeyValueMap)
    ensures
        final(info)@ == old(info)@ + disk_entries(deref(result)),
{
    if let Some(ds) = as_array_exec(result) {
        let mut i: usize = 0;
        assert(ds@.subrange(0, ds@.len() as int) =~= ds@);
        while i < ds.len()
            invariant
                i <= ds@.len(),
                array_of(deref(result)) == Some(ds@),
                *info == *old(info),
                first_root_disk(ds@) == first_root_disk(ds@.subrange(i as int, ds@.len() as int)),
            decreases ds@.len() - i,
        {
            let ghost rest = ds@.subrange(i as int, ds@.len() as int);
            assert(rest.drop_first() =~= ds@.subrange(i + 1, ds@.len() as int));
            assert(rest[0] == ds@[i as int]);
            if let Some(t) = root_disk_text_exec(&ds[i]) {
                info.insert(string_of(&chars_of("Startup Disk")), string_of(&t));
                assert(final(info)@ =~= old(info)@ + disk_entries(deref(result)));
                return;
            }
            i = i + 1;
        }
        assert(ds@.subrange(i as int, ds@.len() as int) =~= Seq::<JsonValue>::empty());
    }
    assert(final(info)@ =~= old(info)@ + disk_entries(deref(result)));
}

fn host_exec(result: Option<&JsonValue>, info: &mut KeyValueMap)
    ensures
        final(info)@ == old(info)@ + host_entries(deref(result)),
{
    if is_object_exec(result) {
        let mut hw: Vec<char> = Vec::new();
        if let Some(v) = as_str_exec(member_of_exec(result, "vendor")) {
            push_str(&mut hw, v);
        }
        if let Some(v) = as_str_exec(member_of_exec(result, "version")) {
            if hw.len() > 0 {
                push_str(&mut hw, " ");
            }
            push_str(&mut hw, v);
        }
        assert(hw@ =~= hardware_text(deref(result)));
        if hw.len() > 0 {
            info.insert(string_of(&chars_of("Hardware")), string_of(&hw));
        }
        if let Some(s) = as_str_exec(member_of_exec(result, "serial")) {
            let sc = chars_of(s);
            if sc.len() > 0 {
                info.insert(string_of(&chars_of("Serial Number")), string_of(&sc));
            }
        }
    }
    assert(final(info)@ =~= old(info)@ + host_entries(deref(result)));
}

fn module_exec(item: &JsonValue, info: &mut KeyValueMap)
    ensures
        final(info)@ == old(info)@ + module_entries(*item),
{
    let result = member_of_exec(Some(item), "result");
    if let Some(t) = as_str_exec(member_of_exec(Some(item), "type")) {
        if crate::json::str_eq(t, "Title") {
            title_exec(result, info);
        } else if crate::json::str_eq(t, "CPU") {
            cpu_exec(result, info);
        } else if crate::json::str_eq(t, "Memory") {
            memory_exec(result, info);
        } else if crate::json::str_eq(t, "GPU") {
            gpu_exec(result, info);
        } else if crate::json::str_eq(t, "Disk") {
            disk_exec(result, info);
        } else if crate::json::str_eq(t, "Host") {
            host_exec(result, info);
        }
    }
    assert(final(info)@ =~= old(info)@ + module_entries(*item));
}

/// The facts of `fastfetch --format json` output, decoded: hostname (`Host`),
/// `User`, `CPU`, `Memory`, `GPU`, `Startup Disk`, `Hardware` and
/// `Serial Number`, each where its module supplies it.
pub fn parse_fastfetch_json(v: &JsonValue) -> (r: KeyValueMap)
    ensures
        r@ == fastfetch_json_map(*v),
{
    let mut info = KeyValueMap::new();
    if let JsonValue::Array(items) = v {
        let mut i: usize = 0;
        while i < items.len()
            invariant
                i <= items@.len(),
                *v == JsonValue::Array(*items),
                info@ == modules_entries(items@.take(i as int)),
            decreases items@.len() - i,
        {
            assert(items@.take(i + 1).drop_last() =~= items@.take(i as int));
            module_exec(&items[i], &mut info);
            i = i + 1;
        }
        assert(items@.take(items@.len() as int) =~= items@);
    }
    info
}

} // verus!
