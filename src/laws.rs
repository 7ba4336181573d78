//! Properties that hold of every input, proved over the specifications.
use vstd::prelude::*;
use crate::display::{display_list, placeholder, DrmConnector};
use crate::distro::{distro_of, kernel_text};
use crate::json::JsonValue;
use crate::kv::{lookup, view_of, Entries};
use crate::memory::{memory_text, size_text, KIB_PER_TIB};
use crate::serial::serial_text;
use crate::storage::{
    device_list, df_filesystems, health_of, json_devices, listing_decoded, temperature_of,
    device_views, df_row, df_rows, filesystem_views, listed_filesystems, text_devices, DeviceProbe, StorageDeviceView, StorageInfo,
};
use crate::system::{SystemInfo, detected_system, reorder_cpu, startup_disk_text, system_info_of, SystemSources};
use crate::system::{join_words, root_row};
use crate::text::{
    find_from, first_some, lemma_find_from, lemma_skip_spaces_bounds, lemma_skip_word_bounds, lines,
    skip_spaces, skip_word, starts_with, trim, words, words_from,
};

verus! {

/// Nothing could be had, or the text is empty.
pub open spec fn blank(o: Option<String>) -> bool {
    view_of(o) is None || view_of(o) == Some(Seq::<char>::empty())
}

/// With every source empty or unavailable, each extractor gives its sentinel:
/// `Unknown Memory`, `Unknown` serial and startup disk, the placeholder
/// display, no devices or filesystems, `Unknown` kernel, `Unknown Linux` /
/// `Unknown Version` with no codename, `Unknown Host`, `Unknown CPU` and
/// `Unknown Graphics`, and no temperature or health for a device.
pub proof fn lemma_empty_output_gives_sentinels(
    src: SystemSources,
    ps: Seq<(String, DeviceProbe)>,
    probe: DeviceProbe,
    name: Seq<char>,
)
    requires
        view_of(src.fastfetch) is None,
        blank(src.hostname_env),
        blank(src.hostname_command),
        blank(probe.nvme_smart_log),
        blank(probe.smartctl_attributes),
        blank(probe.smartctl_health),
    ensures
        ({
            let e = Seq::<char>::empty();
            &&& memory_text(Some(e), Some(e), Some(e), Some(e)) == "Unknown Memory"@
            &&& memory_text(None, None, None, None) == "Unknown Memory"@
            &&& serial_text(Some(e), Some(e), Some(e), Some(e), Some(e)) == "Unknown"@
            &&& serial_text(None, None, None, None, None) == "Unknown"@
            &&& startup_disk_text(Some(e)) == "Unknown"@
            &&& display_list(Some(e), Some(e), Seq::<DrmConnector>::empty()) == seq![placeholder()]
            &&& device_list(None, Some(e), ps) == Seq::<StorageDeviceView>::empty()
            &&& df_filesystems(e).len() == 0
            &&& kernel_text(Some(e)) == "Unknown"@
            &&& distro_of(e, Some(e)).distro_name == "Unknown Linux"@
            &&& distro_of(e, Some(e)).distro_version == "Unknown Version"@
            &&& distro_of(e, Some(e)).distro_codename is None
            &&& detected_system(src).hostname == "Unknown Host"@
            &&& detected_system(src).cpu == "Unknown CPU"@
            &&& detected_system(src).graphics == "Unknown Graphics"@
            &&& temperature_of(name, probe) is None
            &&& health_of(probe) is None
        }),
{
    let e = Seq::<char>::empty();
    assert(lines(e) =~= Seq::<Seq<char>>::empty());
    assert(trim(e) =~= e);
    assert(detected_system(src) == system_info_of(Seq::empty(), false, src));
}

/// A CPU description without `@` is left as it is.
pub proof fn lemma_cpu_without_at_unchanged(s: Seq<char>)
    requires
        forall|i: int| 0 <= i < s.len() ==> s[i] != '@',
    ensures
        reorder_cpu(s) == s,
{
    lemma_find_from(s, '@', 0);
}

/// A CPU description is split at its first `@`: the trimmed text after it
/// comes first, then a space, then the trimmed text before it.
pub proof fn lemma_cpu_split_at_first_at(s: Seq<char>, k: int)
    requires
        0 <= k < s.len(),
        s[k] == '@',
        forall|i: int| 0 <= i < k ==> s[i] != '@',
    ensures
        reorder_cpu(s) == trim(s.subrange(k + 1, s.len() as int)) + " "@ + trim(s.subrange(0, k)),
{
    lemma_find_from(s, '@', 0);
    assert(find_from(s, '@', 0) == k);
}

/// The memory size is written in GB below 1024 GiB and in TB from there on.
pub proof fn lemma_memory_unit(kib: u64)
    ensures
        kib >= KIB_PER_TIB ==> size_text(kib).subrange(size_text(kib).len() - 3, size_text(kib).len() as int) == " TB"@,
        kib < KIB_PER_TIB ==> size_text(kib).subrange(size_text(kib).len() - 3, size_text(kib).len() as int) == " GB"@,
{
    reveal_strlit(" TB");
    reveal_strlit(" GB");
    let s = size_text(kib);
    if kib >= KIB_PER_TIB {
        assert(s.subrange(s.len() - 3, s.len() as int) =~= " TB"@);
    } else {
        assert(s.subrange(s.len() - 3, s.len() as int) =~= " GB"@);
    }
}


proof fn lemma_dev_path_not_loop(name: Seq<char>)
    requires
        !starts_with(name, "loop"@),
    ensures
        !starts_with("/dev/"@ + name, "/dev/loop"@),
{
    reveal_strlit("/dev/");
    reveal_strlit("/dev/loop");
    reveal_strlit("loop");
    let p = "/dev/"@ + name;
    if starts_with(p, "/dev/loop"@) {
        assert(name.subrange(0, 4) =~= p.subrange(0, 9).subrange(5, 9));
        assert(name.subrange(0, 4) =~= "loop"@);
    }
}

/// Names a device path under `/dev/` that is not a loop device.
pub open spec fn not_loop_path(d: StorageDeviceView) -> bool {
    !starts_with(d.name, "/dev/loop"@)
}

proof fn lemma_json_devices_not_loop(ds: Seq<JsonValue>, ps: Seq<(String, DeviceProbe)>)
    ensures
        forall|i: int| 0 <= i < json_devices(ds, ps).len() ==> not_loop_path(#[trigger] json_devices(ds, ps)[i]),
    decreases ds.len(),
{
    if ds.len() > 0 {
        lemma_json_devices_not_loop(ds.drop_last(), ps);
        let prev = json_devices(ds.drop_last(), ps);
        let name = crate::storage::str_or(crate::json::member_of(Some(ds.last()), "name"@), "Unknown"@);
        if let Some(d) = crate::storage::json_device(ds.last(), ps) {
            lemma_dev_path_not_loop(name);
            assert(not_loop_path(d));
            assert forall|i: int| 0 <= i < prev.push(d).len() implies not_loop_path(#[trigger] prev.push(d)[i]) by {
                if i < prev.len() {
                    assert(prev.push(d)[i] == prev[i]);
                }
            }
        }
    }
}

proof fn lemma_text_devices_not_loop(ls: Seq<Seq<char>>, ps: Seq<(String, DeviceProbe)>)
    ensures
        forall|i: int| 0 <= i < text_devices(ls, ps).len() ==> not_loop_path(#[trigger] text_devices(ls, ps)[i]),
    decreases ls.len(),
{
    if ls.len() > 0 {
        lemma_text_devices_not_loop(ls.drop_last(), ps);
        let prev = text_devices(ls.drop_last(), ps);
        let ws = crate::text::words(ls.last());
        if let Some(d) = crate::storage::text_device(ls.last(), ps) {
            lemma_dev_path_not_loop(ws[0]);
            assert(not_loop_path(d));
            assert forall|i: int| 0 <= i < prev.push(d).len() implies not_loop_path(#[trigger] prev.push(d)[i]) by {
                if i < prev.len() {
                    assert(prev.push(d)[i] == prev[i]);
                }
            }
        }
    }
}

/// No loop device is ever listed, whatever the listings hold.
pub proof fn lemma_loop_devices_excluded(
    decoded: Option<JsonValue>,
    text: Option<Seq<char>>,
    ps: Seq<(String, DeviceProbe)>,
)
    ensures
        forall|i: int|
            0 <= i < device_list(decoded, text, ps).len() ==> not_loop_path(
                #[trigger] device_list(decoded, text, ps)[i],
            ),
{
    if let Some(v) = decoded {
        if let Some(ds) = crate::json::array_of(crate::json::member_of(Some(v), "blockdevices"@)) {
            lemma_json_devices_not_loop(ds, ps);
        }
    }
    if let Some(t) = text {
        if lines(t).len() > 0 {
            lemma_text_devices_not_loop(lines(t).drop_first(), ps);
        }
    }
}


/// The two sets of sources hold the same texts.
pub open spec fn same_sources(a: SystemSources, b: SystemSources) -> bool {
    &&& view_of(a.fastfetch) == view_of(b.fastfetch)
    &&& view_of(a.hostname_env) == view_of(b.hostname_env)
    &&& view_of(a.hostname_command) == view_of(b.hostname_command)
    &&& view_of(a.meminfo) == view_of(b.meminfo)
    &&& view_of(a.dmidecode_memory) == view_of(b.dmidecode_memory)
    &&& view_of(a.lshw_memory) == view_of(b.lshw_memory)
    &&& view_of(a.free) == view_of(b.free)
    &&& view_of(a.lsblk_mounts) == view_of(b.lsblk_mounts)
    &&& view_of(a.dmidecode_baseboard) == view_of(b.dmidecode_baseboard)
    &&& view_of(a.board_serial) == view_of(b.board_serial)
    &&& view_of(a.product_serial) == view_of(b.product_serial)
    &&& view_of(a.lshw_system) == view_of(b.lshw_system)
    &&& view_of(a.machine_id) == view_of(b.machine_id)
}

/// Detection keeps no state: two detections from an unchanged host
/// (sources holding the same texts) give the same static record.
pub proof fn lemma_detection_repeatable(a: SystemSources, b: SystemSources, r1: SystemInfo, r2: SystemInfo)
    requires
        same_sources(a, b),
        r1@ == detected_system(a),
        r2@ == detected_system(b),
    ensures
        r1@ == r2@,
{
}

/// Two storage detections from the same tool outputs list the same devices
/// in the same order and the same filesystems.
pub proof fn lemma_storage_repeatable(
    r1: StorageInfo,
    r2: StorageInfo,
    json: Option<Seq<char>>,
    text: Option<Seq<char>>,
    ps: Seq<(String, DeviceProbe)>,
    df: Option<Seq<char>>,
)
    requires
        device_views(r1.devices@) == device_list(listing_decoded(json), text, ps),
        device_views(r2.devices@) == device_list(listing_decoded(json), text, ps),
        filesystem_views(r1.filesystems@) == listed_filesystems(df),
        filesystem_views(r2.filesystems@) == listed_filesystems(df),
    ensures
        device_views(r1.devices@) == device_views(r2.devices@),
        filesystem_views(r1.filesystems@) == filesystem_views(r2.filesystems@),
{
}

/// A CPU fact without `@` is shown as it is.
pub proof fn lemma_cpu_fact_without_at(facts: Entries, from_json: bool, src: SystemSources, s: Seq<char>)
    requires
        lookup(facts, "CPU"@) == Some(s),
        s.len() > 0,
        forall|i: int| 0 <= i < s.len() ==> s[i] != '@',
    ensures
        system_info_of(facts, from_json, src).cpu == s,
{
    lemma_cpu_without_at_unchanged(s);
}


proof fn lemma_words_from_nonempty(s: Seq<char>, i: int)
    requires
        0 <= i <= s.len(),
    ensures
        forall|k: int| 0 <= k < words_from(s, i).len() ==> (#[trigger] words_from(s, i)[k]).len() > 0,
    decreases s.len() - i,
{
    lemma_skip_spaces_bounds(s, i);
    let a = skip_spaces(s, i);
    if a < s.len() {
        let b = skip_word(s, a);
        lemma_skip_word_bounds(s, a + 1);
        assert(b == skip_word(s, a + 1));
        lemma_words_from_nonempty(s, b);
        let rest = words_from(s, b);
        assert forall|k: int| 0 <= k < words_from(s, i).len() implies (#[trigger] words_from(s, i)[k]).len() > 0 by {
            if k > 0 {
                assert(words_from(s, i)[k] == rest[k - 1]);
            }
        }
    }
}

/// Every word of a text has at least one character.
pub proof fn lemma_words_nonempty(s: Seq<char>)
    ensures
        forall|k: int| 0 <= k < words(s).len() ==> (#[trigger] words(s)[k]).len() > 0,
{
    lemma_words_from_nonempty(s, 0);
}

/// What `first_some` finds, `f` gives for some line.
proof fn lemma_first_some_from(ls: Seq<Seq<char>>, f: spec_fn(Seq<char>) -> Option<Seq<char>>)
    ensures
        first_some(ls, f) matches Some(x) ==> exists|i: int| 0 <= i < ls.len() && f(ls[i]) == Some(x),
    decreases ls.len(),
{
    if ls.len() > 0 {
        lemma_first_some_from(ls.drop_first(), f);
        if f(ls[0]) is None {
            if let Some(x) = first_some(ls, f) {
                let i = choose|i: int| 0 <= i < ls.drop_first().len() && f(ls.drop_first()[i]) == Some(x);
                assert(f(ls[i + 1]) == Some(x));
            }
        }
    }
}

proof fn lemma_join_nonempty(ws: Seq<Seq<char>>)
    requires
        ws.len() > 0,
        ws.last().len() > 0,
    ensures
        join_words(ws).len() > 0,
{
}

proof fn lemma_memory_nonempty(
    meminfo: Option<Seq<char>>,
    dmidecode: Option<Seq<char>>,
    lshw: Option<Seq<char>>,
    free: Option<Seq<char>>,
)
    ensures
        memory_text(meminfo, dmidecode, lshw, free).len() > 0,
{
    reveal_strlit("Unknown Memory");
    reveal_strlit("B RAM");
    let kib = match meminfo {
        Some(m) => crate::memory::total_kib(m),
        None => 0,
    };
    if kib == 0 {
        if let Some(f) = free {
            let g = |l: Seq<char>| crate::memory::free_line(l);
            lemma_first_some_from(lines(f), g);
        }
    }
}

proof fn lemma_serial_nonempty(
    dmidecode: Option<Seq<char>>,
    board_serial: Option<Seq<char>>,
    product_serial: Option<Seq<char>>,
    lshw: Option<Seq<char>>,
    machine_id: Option<Seq<char>>,
)
    ensures
        serial_text(dmidecode, board_serial, product_serial, lshw, machine_id).len() > 0,
{
    reveal_strlit("Unknown");
    reveal_strlit("machine-");
    let g1 = |l: Seq<char>| crate::serial::dmi_serial(l);
    let g2 = |l: Seq<char>| crate::serial::lshw_serial(l);
    if let Some(t) = dmidecode {
        lemma_first_some_from(lines(t), g1);
    }
    if let Some(t) = lshw {
        lemma_first_some_from(lines(t), g2);
        if let Some(x) = first_some(lines(t), g2) {
            let i = choose|i: int| 0 <= i < lines(t).len() && g2(lines(t)[i]) == Some(x);
            if x.len() == 0 {
                assert(crate::serial::utf8_len(x) == 0);
            }
        }
    }
}

proof fn lemma_startup_disk_nonempty(lsblk: Option<Seq<char>>)
    ensures
        startup_disk_text(lsblk).len() > 0,
{
    reveal_strlit("Unknown");
    if let Some(t) = lsblk {
        let g = |l: Seq<char>| root_row(l);
        lemma_first_some_from(lines(t), g);
        if let Some(x) = first_some(lines(t), g) {
            let i = choose|i: int| 0 <= i < lines(t).len() && g(lines(t)[i]) == Some(x);
            let ws = words(lines(t)[i]);
            lemma_words_nonempty(lines(t)[i]);
            if ws.len() >= 3 {
                let tail = ws.subrange(2, ws.len() as int);
                assert(tail.last() == ws[ws.len() - 1]);
                lemma_join_nonempty(tail);
            } else {
                assert(ws[1].len() > 0);
            }
        }
    }
}

/// Whatever the tools printed, no field of the static record is empty: each
/// is real data or its sentinel.
pub proof fn lemma_system_fields_nonempty(facts: Entries, from_json: bool, src: SystemSources)
    ensures
        ({
            let r = system_info_of(facts, from_json, src);
            &&& r.hostname.len() > 0
            &&& r.cpu.len() > 0
            &&& r.memory.len() > 0
            &&& r.startup_disk.len() > 0
            &&& r.graphics.len() > 0
            &&& r.serial_number.len() > 0
        }),
{
    reveal_strlit("Unknown Host");
    reveal_strlit("Unknown CPU");
    reveal_strlit("Unknown Graphics");
    lemma_memory_nonempty(view_of(src.meminfo), view_of(src.dmidecode_memory), view_of(src.lshw_memory), view_of(src.free));
    lemma_startup_disk_nonempty(view_of(src.lsblk_mounts));
    lemma_serial_nonempty(
        view_of(src.dmidecode_baseboard),
        view_of(src.board_serial),
        view_of(src.product_serial),
        view_of(src.lshw_system),
        view_of(src.machine_id),
    );
}


proof fn lemma_df_rows_in_range(ls: Seq<Seq<char>>)
    ensures
        forall|i: int| 0 <= i < df_rows(ls).len() ==> (#[trigger] df_rows(ls)[i]).usage_percent <= 100,
    decreases ls.len(),
{
    if ls.len() > 0 {
        lemma_df_rows_in_range(ls.drop_last());
        let prev = df_rows(ls.drop_last());
        if let Some(f) = df_row(ls.last()) {
            assert forall|i: int| 0 <= i < prev.push(f).len() implies (#[trigger] prev.push(f)[i]).usage_percent <= 100 by {
                if i < prev.len() {
                    assert(prev.push(f)[i] == prev[i]);
                }
            }
        }
    }
}

/// Every listed filesystem's usage is a percentage from 0 to 100.
pub proof fn lemma_usage_in_range(df: Option<Seq<char>>)
    ensures
        forall|i: int|
            0 <= i < listed_filesystems(df).len() ==> (#[trigger] listed_filesystems(df)[i]).usage_percent <= 100,
{
    if let Some(t) = df {
        if lines(t).len() > 0 {
            lemma_df_rows_in_range(lines(t).drop_first());
        }
    }
}

} // verus!
