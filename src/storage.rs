//! Storage detection: block devices from `lsblk` with their classification,
//! temperature and health, and mounted filesystems from `df`.
use vstd::prelude::*;
use crate::fastfetch::push_str;
use crate::json::{
    array_of, as_array_exec, as_str_exec, deref, json_decoded, member_of, member_of_exec,
    parse_json, str_of, JsonValue,
};
use crate::kv::view_of;
use crate::memory::{opt_seq, opt_view};
use crate::serial::{scan_lines, scan_lines_exec};
use crate::system::join_words;
use crate::text::{
    chars_of, colon_field, colon_field_exec, contains, contains_exec, eq_exec, lines, lower_of,
    lowercase, parse_u64, parse_u64_exec, replace, replace_exec, seqs, slice, split_lines,
    split_words, starts_with, starts_with_exec, string_of, trim, trim_exec, words,
};

verus! {

/// The interface that a device name shows.
pub open spec fn storage_interface(name: Seq<char>) -> Seq<char> {
    if starts_with(name, "nvme"@) {
        "NVMe"@
    } else if starts_with(name, "sd"@) {
        "SATA/USB"@
    } else if starts_with(name, "hd"@) {
        "IDE/PATA"@
    } else if starts_with(name, "mmc"@) {
        "eMMC/SD"@
    } else {
        "Unknown"@
    }
}

/// The kind of device that a device name and a lower-cased model show.
pub open spec fn storage_type(name: Seq<char>, lower_model: Seq<char>) -> Seq<char> {
    if starts_with(name, "nvme"@) {
        "NVMe SSD"@
    } else if contains(lower_model, "ssd"@) || contains(lower_model, "solid state"@) {
        "SSD"@
    } else if contains(lower_model, "hdd"@) || contains(lower_model, "hard disk"@) {
        "HDD"@
    } else if starts_with(name, "mmc"@) {
        "eMMC"@
    } else if starts_with(name, "sd"@) {
        "Disk"@
    } else {
        "Unknown"@
    }
}

/// The interface of a device, from its name.
pub fn detect_storage_interface(device_name: &str) -> (r: String)
    ensures
        r@ == storage_interface(device_name@),
{
    let n = chars_of(device_name);
    let t = if starts_with_exec(&n, &chars_of("nvme")) {
        "NVMe"
    } else if starts_with_exec(&n, &chars_of("sd")) {
        "SATA/USB"
    } else if starts_with_exec(&n, &chars_of("hd")) {
        "IDE/PATA"
    } else if starts_with_exec(&n, &chars_of("mmc")) {
        "eMMC/SD"
    } else {
        "Unknown"
    };
    string_of(&chars_of(t))
}

/// The kind of a device, from its name and its model already in lower case.
pub fn storage_type_of_lowered(device_name: &str, lower_model: &str) -> (r: String)
    ensures
        r@ == storage_type(device_name@, lower_model@),
{
    let n = chars_of(device_name);
    let m = chars_of(lower_model);
    let t = if starts_with_exec(&n, &chars_of("nvme")) {
        "NVMe SSD"
    } else if contains_exec(&m, &chars_of("ssd")) || contains_exec(&m, &chars_of("solid state")) {
        "SSD"
    } else if contains_exec(&m, &chars_of("hdd")) || contains_exec(&m, &chars_of("hard disk")) {
        "HDD"
    } else if starts_with_exec(&n, &chars_of("mmc")) {
        "eMMC"
    } else if starts_with_exec(&n, &chars_of("sd")) {
        "Disk"
    } else {
        "Unknown"
    };
    string_of(&chars_of(t))
}

/// The kind of a device, from its name and its model matched without regard to case.
pub fn detect_storage_type(device_name: &str, model: &str) -> (r: String)
    ensures
        r@ == storage_type(device_name@, lower_of(model@)),
{
    let lower = lowercase(model);
    storage_type_of_lowered(device_name, lower.as_str())
}

/// The outputs of the tools that probe one device; `None` where a tool could
/// not be run.
#[derive(Clone, Debug)]
pub struct DeviceProbe {
    /// `nvme smart-log /dev/<name>`.
    pub nvme_smart_log: Option<String>,
    /// `smartctl -A /dev/<name>`.
    pub smartctl_attributes: Option<String>,
    /// `smartctl -H /dev/<name>`.
    pub smartctl_health: Option<String>,
}

/// The temperature on a `temperature` line of `nvme smart-log`.
pub open spec fn nvme_temperature(line: Seq<char>) -> Option<Seq<char>> {
    if contains(line, "temperature"@) {
        match colon_field(line) {
            Some(f) => Some(trim(f)),
            None => None,
        }
    } else {
        None
    }
}

/// The raw value (tenth column) of the `Temperature_Celsius` attribute of `smartctl -A`.
pub open spec fn smart_temperature(line: Seq<char>) -> Option<Seq<char>> {
    if contains(line, "Temperature_Celsius"@) && words(line).len() > 9 {
        Some(words(line)[9] + "°C"@)
    } else {
        None
    }
}

/// The verdict on the `SMART overall-health` line of `smartctl -H`.
pub open spec fn smart_health(line: Seq<char>) -> Option<Seq<char>> {
    if contains(line, "SMART overall-health"@) {
        match colon_field(line) {
            Some(f) => Some(trim(f)),
            None => None,
        }
    } else {
        None
    }
}

/// The temperature of a device: from `nvme smart-log` for NVMe devices, from
/// `smartctl -A` for the others.
pub open spec fn temperature_of(name: Seq<char>, p: DeviceProbe) -> Option<Seq<char>> {
    if starts_with(name, "nvme"@) {
        scan_lines(view_of(p.nvme_smart_log), |l: Seq<char>| nvme_temperature(l))
    } else {
        scan_lines(view_of(p.smartctl_attributes), |l: Seq<char>| smart_temperature(l))
    }
}

/// The health of a device, from `smartctl -H`.
pub open spec fn health_of(p: DeviceProbe) -> Option<Seq<char>> {
    scan_lines(view_of(p.smartctl_health), |l: Seq<char>| smart_health(l))
}

fn nvme_temperature_exec(line: &Vec<char>) -> (r: Option<Vec<char>>)
    ensures
        opt_seq(r) == nvme_temperature(line@),
{
    if contains_exec(line, &chars_of("temperature")) {
        match colon_field_exec(line) {
            Some(f) => Some(trim_exec(&f)),
            None => None,
        }
    } else {
        None
    }
}

fn smart_temperature_exec(line: &Vec<char>) -> (r: Option<Vec<char>>)
    ensures
        opt_seq(r) == smart_temperature(line@),
{
    if contains_exec(line, &chars_of("Temperature_Celsius")) {
        let ws = split_words(line);
        if ws.len() > 9 {
            let mut t = slice(&ws[9], 0, ws[9].len());
            assert(ws@[9]@.subrange(0, ws@[9]@.len() as int) =~= ws@[9]@);
            push_str(&mut t, "°C");
            return Some(t);
        }
    }
    None
}

fn smart_health_exec(line: &Vec<char>) -> (r: Option<Vec<char>>)
    ensures
        opt_seq(r) == smart_health(line@),
{
    if contains_exec(line, &chars_of("SMART overall-health")) {
        match colon_field_exec(line) {
            Some(f) => Some(trim_exec(&f)),
            None => None,
        }
    } else {
        None
    }
}

fn to_string_opt(v: Option<Vec<char>>) -> (r: Option<String>)
    ensures
        view_of(r) == opt_seq(v),
{
    match v {
        Some(v) => Some(string_of(&v)),
        None => None,
    }
}

/// The temperature of the device `device_name`, from what its probe gave.
pub fn get_device_temperature(device_name: &str, probe: &DeviceProbe) -> (r: Option<String>)
    ensures
        view_of(r) == temperature_of(device_name@, *probe),
{
    if starts_with_exec(&chars_of(device_name), &chars_of("nvme")) {
        to_string_opt(
            scan_lines_exec(
                &probe.nvme_smart_log,
                nvme_temperature_exec,
                Ghost(|l: Seq<char>| nvme_temperature(l)),
            ),
        )
    } else {
        to_string_opt(
            scan_lines_exec(
                &probe.smartctl_attributes,
                smart_temperature_exec,
                Ghost(|l: Seq<char>| smart_temperature(l)),
            ),
        )
    }
}

/// The health of a device, from what its probe gave.
pub fn get_device_health(probe: &DeviceProbe) -> (r: Option<String>)
    ensures
        view_of(r) == health_of(*probe),
{
    to_string_opt(
        scan_lines_exec(&probe.smartctl_health, smart_health_exec, Ghost(|l: Seq<char>| smart_health(l))),
    )
}


/// One block device.
#[derive(Clone, Debug)]
pub struct StorageDevice {
    pub name: String,
    pub model: String,
    pub size: String,
    pub device_type: String,
    pub interface: String,
    pub serial: String,
    pub temperature: Option<String>,
    pub health: Option<String>,
}

pub struct StorageDeviceView {
    pub name: Seq<char>,
    pub model: Seq<char>,
    pub size: Seq<char>,
    pub device_type: Seq<char>,
    pub interface: Seq<char>,
    pub serial: Seq<char>,
    pub temperature: Option<Seq<char>>,
    pub health: Option<Seq<char>>,
}

impl View for StorageDevice {
    type V = StorageDeviceView;

    open spec fn view(&self) -> StorageDeviceView {
        StorageDeviceView {
            name: self.name@,
            model: self.model@,
            size: self.size@,
            device_type: self.device_type@,
            interface: self.interface@,
            serial: self.serial@,
            temperature: view_of(self.temperature),
            health: view_of(self.health),
        }
    }
}

pub open spec fn device_views(v: Seq<StorageDevice>) -> Seq<StorageDeviceView> {
    v.map_values(|d: StorageDevice| d@)
}

/// The probe given for the device `name`, the first where several are.
pub open spec fn probe_for(ps: Seq<(String, DeviceProbe)>, name: Seq<char>) -> Option<DeviceProbe>
    decreases ps.len(),
{
    if ps.len() == 0 {
        None
    } else if ps[0].0@ == name {
        Some(ps[0].1)
    } else {
        probe_for(ps.drop_first(), name)
    }
}

/// The record of the device `name` (without `/dev/`).
pub open spec fn device_of(
    name: Seq<char>,
    size: Seq<char>,
    model: Seq<char>,
    serial: Seq<char>,
    ps: Seq<(String, DeviceProbe)>,
) -> StorageDeviceView {
    StorageDeviceView {
        name: "/dev/"@ + name,
        model: model,
        size: size,
        device_type: storage_type(name, lower_of(model)),
        interface: storage_interface(name),
        serial: serial,
        temperature: match probe_for(ps, name) {
            Some(p) => temperature_of(name, p),
            None => None,
        },
        health: match probe_for(ps, name) {
            Some(p) => health_of(p),
            None => None,
        },
    }
}

/// A whole disk that is not a loop device.
pub open spec fn listed(name: Seq<char>, kind: Seq<char>) -> bool {
    kind == "disk"@ && !starts_with(name, "loop"@)
}

pub open spec fn str_or(v: Option<JsonValue>, d: Seq<char>) -> Seq<char> {
    match str_of(v) {
        Some(s) => s,
        None => d,
    }
}

/// The record of one entry of `lsblk --json`, where it is listed.
pub open spec fn json_device(d: JsonValue, ps: Seq<(String, DeviceProbe)>) -> Option<StorageDeviceView> {
    let name = str_or(member_of(Some(d), "name"@), "Unknown"@);
    if listed(name, str_or(member_of(Some(d), "type"@), "disk"@)) {
        Some(
            device_of(
                name,
                str_or(member_of(Some(d), "size"@), "Unknown"@),
                str_or(member_of(Some(d), "model"@), "Unknown"@),
                str_or(member_of(Some(d), "serial"@), "Unknown"@),
                ps,
            ),
        )
    } else {
        None
    }
}

pub open spec fn json_devices(ds: Seq<JsonValue>, ps: Seq<(String, DeviceProbe)>) -> Seq<StorageDeviceView>
    decreases ds.len(),
{
    if ds.len() == 0 {
        Seq::empty()
    } else {
        let prev = json_devices(ds.drop_last(), ps);
        match json_device(ds.last(), ps) {
            Some(d) => prev.push(d),
            None => prev,
        }
    }
}

/// The devices of decoded `lsblk -d -o NAME,SIZE,TYPE,MODEL,SERIAL --json` output.
pub open spec fn lsblk_json_devices(v: JsonValue, ps: Seq<(String, DeviceProbe)>) -> Seq<StorageDeviceView> {
    match array_of(member_of(Some(v), "blockdevices"@)) {
        Some(ds) => json_devices(ds, ps),
        None => Seq::empty(),
    }
}

/// The record of one row of `lsblk -d -o NAME,SIZE,TYPE,MODEL`, where it is listed.
pub open spec fn text_device(line: Seq<char>, ps: Seq<(String, DeviceProbe)>) -> Option<StorageDeviceView> {
    let ws = words(line);
    if ws.len() >= 3 && listed(ws[0], ws[2]) {
        Some(
            device_of(
                ws[0],
                ws[1],
                if ws.len() > 3 { join_words(ws.subrange(3, ws.len() as int)) } else { "Unknown"@ },
                "Unknown"@,
                ps,
            ),
        )
    } else {
        None
    }
}

pub open spec fn text_devices(ls: Seq<Seq<char>>, ps: Seq<(String, DeviceProbe)>) -> Seq<StorageDeviceView>
    decreases ls.len(),
{
    if ls.len() == 0 {
        Seq::empty()
    } else {
        let prev = text_devices(ls.drop_last(), ps);
        match text_device(ls.last(), ps) {
            Some(d) => prev.push(d),
            None => prev,
        }
    }
}

/// The devices of `lsblk -d -o NAME,SIZE,TYPE,MODEL` output, header skipped.
pub open spec fn lsblk_text_devices(t: Seq<char>, ps: Seq<(String, DeviceProbe)>) -> Seq<StorageDeviceView> {
    if lines(t).len() > 0 {
        text_devices(lines(t).drop_first(), ps)
    } else {
        Seq::empty()
    }
}

/// The devices from the decoded JSON listing where it has any, else from the
/// plain listing.
pub open spec fn device_list(
    decoded: Option<JsonValue>,
    text: Option<Seq<char>>,
    ps: Seq<(String, DeviceProbe)>,
) -> Seq<StorageDeviceView> {
    let j = match decoded {
        Some(v) => lsblk_json_devices(v, ps),
        None => Seq::empty(),
    };
    if j.len() > 0 {
        j
    } else {
        match text {
            Some(t) => lsblk_text_devices(t, ps),
            None => Seq::empty(),
        }
    }
}

fn probe_for_exec<'a>(ps: &'a Vec<(String, DeviceProbe)>, name: &str) -> (r: Option<&'a DeviceProbe>)
    ensures
        match r {
            Some(p) => probe_for(ps@, name@) == Some(*p),
            None => probe_for(ps@, name@) is None,
        },
{
    let mut i: usize = 0;
    assert(ps@.subrange(0, ps@.len() as int) =~= ps@);
    while i < ps.len()
        invariant
            i <= ps@.len(),
            probe_for(ps@, name@) == probe_for(ps@.subrange(i as int, ps@.len() as int), name@),
        decreases ps@.len() - i,
    {
        let ghost rest = ps@.subrange(i as int, ps@.len() as int);
        assert(rest.drop_first() =~= ps@.subrange(i + 1, ps@.len() as int));
        assert(rest[0] == ps@[i as int]);
        if crate::json::str_eq(ps[i].0.as_str(), name) {
            return Some(&ps[i].1);
        }
        i = i + 1;
    }
    assert(ps@.subrange(i as int, ps@.len() as int) =~= Seq::<(String, DeviceProbe)>::empty());
    None
}

fn device_of_exec(
    name: &str,
    size: String,
    model: String,
    serial: String,
    ps: &Vec<(String, DeviceProbe)>,
) -> (r: StorageDevice)
    ensures
        r@ == device_of(name@, size@, model@, serial@, ps@),
{
    let mut path = chars_of("/dev/");
    push_str(&mut path, name);
    let (temperature, health) = match probe_for_exec(ps, name) {
        Some(p) => (get_device_temperature(name, p), get_device_health(p)),
        None => (None, None),
    };
    StorageDevice {
        name: string_of(&path),
        device_type: detect_storage_type(name, model.as_str()),
        interface: detect_storage_interface(name),
        model,
        size,
        serial,
        temperature,
        health,
    }
}

fn str_or_exec(v: Option<&JsonValue>, d: &str) -> (r: String)
    ensures
        r@ == str_or(deref(v), d@),
{
    match as_str_exec(v) {
        Some(s) => string_of(&chars_of(s)),
        None => string_of(&chars_of(d)),
    }
}

fn listed_exec(name: &Vec<char>, kind: &Vec<char>) -> (r: bool)
    ensures
        r == listed(name@, kind@),
{
    eq_exec(kind, &chars_of("disk")) && !starts_with_exec(name, &chars_of("loop"))
}

fn json_device_exec(d: &JsonValue, ps: &Vec<(String, DeviceProbe)>) -> (r: Option<StorageDevice>)
    ensures
        match r {
            Some(x) => json_device(*d, ps@) == Some(x@),
            None => json_device(*d, ps@) is None,
        },
{
    let name = str_or_exec(member_of_exec(Some(d), "name"), "Unknown");
    let kind = str_or_exec(member_of_exec(Some(d), "type"), "disk");
    if listed_exec(&chars_of(name.as_str()), &chars_of(kind.as_str())) {
        let size = str_or_exec(member_of_exec(Some(d), "size"), "Unknown");
        let model = str_or_exec(member_of_exec(Some(d), "model"), "Unknown");
        let serial = str_or_exec(member_of_exec(Some(d), "serial"), "Unknown");
        Some(device_of_exec(name.as_str(), size, model, serial, ps))
    } else {
        None
    }
}

/// The devices of decoded `lsblk --json` output.
pub fn parse_lsblk_json(v: &JsonValue, ps: &Vec<(String, DeviceProbe)>) -> (r: Vec<StorageDevice>)
    ensures
        device_views(r@) == lsblk_json_devices(*v, ps@),
{
    let mut out: Vec<StorageDevice> = Vec::new();
    assert(device_views(out@) =~= Seq::<StorageDeviceView>::empty());
    if let Some(ds) = as_array_exec(member_of_exec(Some(v), "blockdevices")) {
        let mut i: usize = 0;
        while i < ds.len()
            invariant
                i <= ds@.len(),
                array_of(member_of(Some(*v), "blockdevices"@)) == Some(ds@),
                device_views(out@) == json_devices(ds@.take(i as int), ps@),
            decreases ds@.len() - i,
        {
            assert(ds@.take(i + 1).drop_last() =~= ds@.take(i as int));
            if let Some(d) = json_device_exec(&ds[i], ps) {
                let ghost before = out@;
                out.push(d);
                assert(device_views(out@) =~= device_views(before).push(d@));
            }
            i = i + 1;
        }
        assert(ds@.take(ds@.len() as int) =~= ds@);
    }
    out
}

fn text_device_exec(line: &Vec<char>, ps: &Vec<(String, DeviceProbe)>) -> (r: Option<StorageDevice>)
    ensures
        match r {
            Some(x) => text_device(line@, ps@) == Some(x@),
            None => text_device(line@, ps@) is None,
        },
{
    let ws = split_words(line);
    if ws.len() >= 3 && listed_exec(&ws[0], &ws[2]) {
        let model = if ws.len() > 3 {
            string_of(&join_words_from(&ws, 3))
        } else {
            string_of(&chars_of("Unknown"))
        };
        let name = string_of(&ws[0]);
        Some(device_of_exec(name.as_str(), string_of(&ws[1]), model, string_of(&chars_of("Unknown")), ps))
    } else {
        None
    }
}

fn join_words_from(ws: &Vec<Vec<char>>, from: usize) -> (r: Vec<char>)
    requires
        from <= ws@.len(),
    ensures
        r@ == join_words(seqs(ws@).subrange(from as int, ws@.len() as int)),
{
    crate::system::join_words_exec(ws, from)
}

/// The devices of `lsblk -d -o NAME,SIZE,TYPE,MODEL` output, header skipped.
pub fn detect_storage_devices_fallback(text: &str, ps: &Vec<(String, DeviceProbe)>) -> (r: Vec<StorageDevice>)
    ensures
        device_views(r@) == lsblk_text_devices(text@, ps@),
{
    let ls = split_lines(&chars_of(text));
    let mut out: Vec<StorageDevice> = Vec::new();
    assert(device_views(out@) =~= Seq::<StorageDeviceView>::empty());
    if ls.len() == 0 {
        return out;
    }
    let ghost body = seqs(ls@).drop_first();
    let mut i: usize = 1;
    while i < ls.len()
        invariant
            1 <= i <= ls@.len(),
            seqs(ls@) == lines(text@),
            body == seqs(ls@).drop_first(),
            device_views(out@) == text_devices(body.take(i - 1), ps@),
        decreases ls@.len() - i,
    {
        assert(body.take(i as int).drop_last() =~= body.take(i - 1));
        assert(body.take(i as int).last() == ls@[i as int]@);
        if let Some(d) = text_device_exec(&ls[i], ps) {
            let ghost before = out@;
            out.push(d);
            assert(device_views(out@) =~= device_views(before).push(d@));
        }
        i = i + 1;
    }
    assert(body.take(ls@.len() - 1) =~= body);
    out
}

/// The devices, given what the JSON decoder made of the `lsblk --json`
/// output: its devices where it lists any, else those of the plain listing
/// (`None` where `lsblk` could not be run); `probes` holds the probe of each
/// device by name.
pub fn storage_devices_from(
    decoded: Option<&JsonValue>,
    text: Option<&str>,
    probes: &Vec<(String, DeviceProbe)>,
) -> (r: Vec<StorageDevice>)
    ensures
        device_views(r@) == device_list(deref(decoded), opt_view(text), probes@),
{
    let j = match decoded {
        Some(v) => parse_lsblk_json(v, probes),
        None => Vec::new(),
    };
    if j.len() > 0 {
        return j;
    }
    assert(device_views(j@).len() == 0);
    match text {
        Some(t) => detect_storage_devices_fallback(t, probes),
        None => {
            let r: Vec<StorageDevice> = Vec::new();
            assert(device_views(r@) =~= Seq::<StorageDeviceView>::empty());
            r
        },
    }
}

/// What the JSON decoder makes of the JSON listing, where there is one.
pub open spec fn listing_decoded(json: Option<Seq<char>>) -> Option<JsonValue> {
    match json {
        Some(j) => json_decoded(j),
        None => None,
    }
}

/// The devices from `lsblk -d -o NAME,SIZE,TYPE,MODEL,SERIAL --json` output,
/// read as JSON where it decodes, else from `lsblk -d -o NAME,SIZE,TYPE,MODEL`
/// output.
pub fn detect_storage_devices(
    json: Option<&str>,
    text: Option<&str>,
    probes: &Vec<(String, DeviceProbe)>,
) -> (r: Vec<StorageDevice>)
    ensures
        device_views(r@) == device_list(listing_decoded(opt_view(json)), opt_view(text), probes@),
{
    let decoded = match json {
        Some(j) => parse_json(j),
        None => None,
    };
    match &decoded {
        Some(v) => storage_devices_from(Some(v), text, probes),
        None => storage_devices_from(None, text, probes),
    }
}


/// One mounted filesystem, as `df -h -T` lists it; the usage is a whole
/// percentage.
#[derive(Clone, Debug)]
pub struct Filesystem {
    pub device: String,
    pub mountpoint: String,
    pub filesystem_type: String,
    pub total_size: String,
    pub used_size: String,
    pub available_size: String,
    pub usage_percent: u64,
}

pub struct FilesystemView {
    pub device: Seq<char>,
    pub mountpoint: Seq<char>,
    pub filesystem_type: Seq<char>,
    pub total_size: Seq<char>,
    pub used_size: Seq<char>,
    pub available_size: Seq<char>,
    pub usage_percent: u64,
}

impl View for Filesystem {
    type V = FilesystemView;

    open spec fn view(&self) -> FilesystemView {
        FilesystemView {
            device: self.device@,
            mountpoint: self.mountpoint@,
            filesystem_type: self.filesystem_type@,
            total_size: self.total_size@,
            used_size: self.used_size@,
            available_size: self.available_size@,
            usage_percent: self.usage_percent,
        }
    }
}

pub open spec fn filesystem_views(v: Seq<Filesystem>) -> Seq<FilesystemView> {
    v.map_values(|f: Filesystem| f@)
}

/// A row of `df -h -T` with seven columns, for a `/dev/` device or `tmpfs`;
/// the usage without its `%`, 0 where it is not a number from 0 to 100.
pub open spec fn df_row(line: Seq<char>) -> Option<FilesystemView> {
    let ws = words(line);
    if ws.len() >= 7 && (starts_with(ws[0], "/dev/"@) || starts_with(ws[0], "tmpfs"@)) {
        Some(
            FilesystemView {
                device: ws[0],
                mountpoint: ws[6],
                filesystem_type: ws[1],
                total_size: ws[2],
                used_size: ws[3],
                available_size: ws[4],
                usage_percent: match parse_u64(replace(ws[5], "%"@, Seq::empty())) {
                    Some(p) => if p <= 100 { p } else { 0 },
                    None => 0,
                },
            },
        )
    } else {
        None
    }
}

pub open spec fn df_rows(ls: Seq<Seq<char>>) -> Seq<FilesystemView>
    decreases ls.len(),
{
    if ls.len() == 0 {
        Seq::empty()
    } else {
        let prev = df_rows(ls.drop_last());
        match df_row(ls.last()) {
            Some(f) => prev.push(f),
            None => prev,
        }
    }
}

/// The filesystems of `df -h -T` output, header skipped.
pub open spec fn df_filesystems(t: Seq<char>) -> Seq<FilesystemView> {
    if lines(t).len() > 0 {
        df_rows(lines(t).drop_first())
    } else {
        Seq::empty()
    }
}

fn df_row_exec(line: &Vec<char>) -> (r: Option<Filesystem>)
    ensures
        match r {
            Some(f) => df_row(line@) == Some(f@),
            None => df_row(line@) is None,
        },
{
    proof {
        reveal_strlit("%");
    }
    let ws = split_words(line);
    if ws.len() >= 7 && (starts_with_exec(&ws[0], &chars_of("/dev/")) || starts_with_exec(
        &ws[0],
        &chars_of("tmpfs"),
    )) {
        let empty: Vec<char> = Vec::new();
        let pct = replace_exec(&ws[5], &chars_of("%"), &empty);
        let usage = match parse_u64_exec(&pct) {
            Some(p) => if p <= 100 { p } else { 0 },
            None => 0,
        };
        Some(
            Filesystem {
                device: string_of(&ws[0]),
                mountpoint: string_of(&ws[6]),
                filesystem_type: string_of(&ws[1]),
                total_size: string_of(&ws[2]),
                used_size: string_of(&ws[3]),
                available_size: string_of(&ws[4]),
                usage_percent: usage,
            },
        )
    } else {
        None
    }
}

/// The filesystems that `df -h -T` output lists; none where it could not be run.
pub open spec fn listed_filesystems(df: Option<Seq<char>>) -> Seq<FilesystemView> {
    match df {
        Some(t) => df_filesystems(t),
        None => Seq::empty(),
    }
}

/// The filesystems of `df -h -T` output (`None` where `df` could not be run: none).
pub fn detect_filesystems(df: Option<&str>) -> (r: Vec<Filesystem>)
    ensures
        filesystem_views(r@) == listed_filesystems(opt_view(df)),
{
    let mut out: Vec<Filesystem> = Vec::new();
    assert(filesystem_views(out@) =~= Seq::<FilesystemView>::empty());
    let text = match df {
        Some(t) => t,
        None => {
            return out;
        },
    };
    let ls = split_lines(&chars_of(text));
    if ls.len() == 0 {
        return out;
    }
    let ghost body = seqs(ls@).drop_first();
    let mut i: usize = 1;
    while i < ls.len()
        invariant
            1 <= i <= ls@.len(),
            seqs(ls@) == lines(text@),
            body == seqs(ls@).drop_first(),
            filesystem_views(out@) == df_rows(body.take(i - 1)),
        decreases ls@.len() - i,
    {
        assert(body.take(i as int).drop_last() =~= body.take(i - 1));
        assert(body.take(i as int).last() == ls@[i as int]@);
        if let Some(f) = df_row_exec(&ls[i]) {
            let ghost before = out@;
            out.push(f);
            assert(filesystem_views(out@) =~= filesystem_views(before).push(f@));
        }
        i = i + 1;
    }
    assert(body.take(ls@.len() - 1) =~= body);
    out
}

/// The storage record: block devices and mounted filesystems.
#[derive(Clone, Debug)]
pub struct StorageInfo {
    pub devices: Vec<StorageDevice>,
    pub filesystems: Vec<Filesystem>,
}

impl StorageInfo {
    /// Detects devices and filesystems from the outputs of
    /// `lsblk -d -o NAME,SIZE,TYPE,MODEL,SERIAL --json`,
    /// `lsblk -d -o NAME,SIZE,TYPE,MODEL`, each device's probe, and `df -h -T`
    /// (`None` where a tool could not be run).
    pub fn detect(
        lsblk_json: Option<&str>,
        lsblk_text: Option<&str>,
        probes: &Vec<(String, DeviceProbe)>,
        df: Option<&str>,
    ) -> (r: StorageInfo)
        ensures
            device_views(r.devices@) == device_list(
                listing_decoded(opt_view(lsblk_json)),
                opt_view(lsblk_text),
                probes@,
            ),
            filesystem_views(r.filesystems@) == listed_filesystems(opt_view(df)),
    {
        StorageInfo {
            devices: detect_storage_devices(lsblk_json, lsblk_text, probes),
            filesystems: detect_filesystems(df),
        }
    }
}

} // verus!
