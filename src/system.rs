//! The static system record: hostname, CPU, memory, startup disk, graphics
//! and serial number, each from its chain of sources.
use vstd::prelude::*;
use crate::config::Config;
use crate::fastfetch::{fastfetch_json_map, parse_fastfetch_json, push_str};
use crate::json::{json_decoded, parse_json, JsonValue};
use crate::kv::{colon_map, lookup, parse_colon_lines, view_of, Entries, KeyValueMap};
use crate::memory::{get_memory_info, memory_text, opt_view};
use crate::serial::{get_serial_number, serial_text};
use crate::text::{
    chars_of, find_from, find_from_exec, first_some, lines, seqs, slice, split_lines, split_words,
    string_of, trim, trim_exec, words,
};

verus! {

/// The static facts shown on the overview; no field is ever empty.
#[derive(Clone, Debug)]
pub struct SystemInfo {
    pub hostname: String,
    pub cpu: String,
    pub memory: String,
    pub startup_disk: String,
    pub graphics: String,
    pub serial_number: String,
}

pub struct SystemInfoView {
    pub hostname: Seq<char>,
    pub cpu: Seq<char>,
    pub memory: Seq<char>,
    pub startup_disk: Seq<char>,
    pub graphics: Seq<char>,
    pub serial_number: Seq<char>,
}

impl View for SystemInfo {
    type V = SystemInfoView;

    open spec fn view(&self) -> SystemInfoView {
        SystemInfoView {
            hostname: self.hostname@,
            cpu: self.cpu@,
            memory: self.memory@,
            startup_disk: self.startup_disk@,
            graphics: self.graphics@,
            serial_number: self.serial_number@,
        }
    }
}

/// The raw outputs and file contents that the static facts are read from;
/// `None` where a tool could not be run or a file could not be read.
#[derive(Clone, Debug)]
pub struct SystemSources {
    /// `fastfetch --format json`, or `fastfetch --logo none` where that failed.
    pub fastfetch: Option<String>,
    /// The `HOSTNAME` environment variable.
    pub hostname_env: Option<String>,
    /// `hostname`.
    pub hostname_command: Option<String>,
    /// `/proc/meminfo`.
    pub meminfo: Option<String>,
    /// `dmidecode --type memory`.
    pub dmidecode_memory: Option<String>,
    /// `lshw -class memory -short`.
    pub lshw_memory: Option<String>,
    /// `free -h`.
    pub free: Option<String>,
    /// `lsblk -o mountpoint,name,label --list`.
    pub lsblk_mounts: Option<String>,
    /// `dmidecode --type baseboard`.
    pub dmidecode_baseboard: Option<String>,
    /// `/sys/class/dmi/id/board_serial`.
    pub board_serial: Option<String>,
    /// `/sys/class/dmi/id/product_serial`.
    pub product_serial: Option<String>,
    /// `lshw -class system -short`.
    pub lshw_system: Option<String>,
    /// `/etc/machine-id`.
    pub machine_id: Option<String>,
}

/// A CPU description with its frequency moved to the front: where it holds
/// an `@`, the trimmed text after the first `@`, a space, and the trimmed
/// text before it; otherwise unchanged.
pub open spec fn reorder_cpu(s: Seq<char>) -> Seq<char> {
    let a = find_from(s, '@', 0);
    if a < s.len() {
        trim(s.subrange(a + 1, s.len() as int)) + " "@ + trim(s.subrange(0, a))
    } else {
        s
    }
}

/// The CPU description with the frequency before the model name.
pub fn reorder_cpu_description(s: &str) -> (r: String)
    ensures
        r@ == reorder_cpu(s@),
{
    let c = chars_of(s);
    let a = find_from_exec(&c, '@', 0);
    if a < c.len() {
        let mut r = trim_exec(&slice(&c, a + 1, c.len()));
        push_str(&mut r, " ");
        let mut model = trim_exec(&slice(&c, 0, a));
        r.append(&mut model);
        string_of(&r)
    } else {
        string_of(&c)
    }
}

/// Words joined with single spaces.
pub open spec fn join_words(ws: Seq<Seq<char>>) -> Seq<char>
    decreases ws.len(),
{
    if ws.len() == 0 {
        Seq::empty()
    } else if ws.len() == 1 {
        ws[0]
    } else {
        join_words(ws.drop_last()) + " "@ + ws.last()
    }
}

/// The label (else the name) of an `lsblk` row mounted at `/`.
pub open spec fn root_row(line: Seq<char>) -> Option<Seq<char>> {
    let ws = words(line);
    if ws.len() >= 2 && ws[0] == "/"@ {
        if ws.len() >= 3 {
            Some(join_words(ws.subrange(2, ws.len() as int)))
        } else {
            Some(ws[1])
        }
    } else {
        None
    }
}

/// The startup disk from `lsblk -o mountpoint,name,label --list` output;
/// `"Unknown"` where no row is mounted at `/`.
pub open spec fn startup_disk_text(lsblk: Option<Seq<char>>) -> Seq<char> {
    match lsblk {
        Some(t) => match first_some(lines(t), |l: Seq<char>| root_row(l)) {
            Some(d) => d,
            None => "Unknown"@,
        },
        None => "Unknown"@,
    }
}

pub fn join_words_exec(ws: &Vec<Vec<char>>, from: usize) -> (r: Vec<char>)
    requires
        from <= ws@.len(),
    ensures
        r@ == join_words(seqs(ws@).subrange(from as int, ws@.len() as int)),
{
    let mut r: Vec<char> = Vec::new();
    let mut i: usize = from;
    while i < ws.len()
        invariant
            from <= i <= ws@.len(),
            r@ == join_words(seqs(ws@).subrange(from as int, i as int)),
        decreases ws@.len() - i,
    {
        let ghost pre = seqs(ws@).subrange(from as int, i + 1);
        assert(pre.drop_last() =~= seqs(ws@).subrange(from as int, i as int));
        if i > from {
            push_str(&mut r, " ");
        }
        let mut w = slice(&ws[i], 0, ws[i].len());
        assert(ws@[i as int]@.subrange(0, ws@[i as int]@.len() as int) =~= ws@[i as int]@);
        r.append(&mut w);
        if i == from {
            assert(r@ =~= pre[0]);
        }
        i = i + 1;
    }
    r
}

fn root_row_exec(line: &Vec<char>) -> (r: Option<Vec<char>>)
    ensures
        crate::memory::opt_seq(r) == root_row(line@),
{
    let ws = split_words(line);
    if ws.len() >= 2 && crate::text::eq_exec(&ws[0], &chars_of("/")) {
        if ws.len() >= 3 {
            Some(join_words_exec(&ws, 2))
        } else {
            let r = slice(&ws[1], 0, ws[1].len());
            assert(ws@[1]@.subrange(0, ws@[1]@.len() as int) =~= ws@[1]@);
            Some(r)
        }
    } else {
        None
    }
}

/// The startup disk from `lsblk -o mountpoint,name,label --list` output
/// (`None` where `lsblk` could not be run).
pub fn get_startup_disk(lsblk: &Option<String>) -> (r: String)
    ensures
        r@ == startup_disk_text(view_of(*lsblk)),
{
    match lsblk {
        Some(t) => {
            let ls = split_lines(&chars_of(t.as_str()));
            match crate::memory::first_some_exec(&ls, root_row_exec, Ghost(|l: Seq<char>| root_row(l))) {
                Some(d) => string_of(&d),
                None => string_of(&chars_of("Unknown")),
            }
        },
        None => string_of(&chars_of("Unknown")),
    }
}

/// The pattern of a terminal escape sequence.
pub open spec fn ansi_pattern() -> Seq<char> {
    "\x1B(?:[@-Z\\\\-_]|\\[[0-?]*[ -/]*[@-~])"@
}

/// What `regex::Regex::replace_all` leaves of `text` when every match of
/// `pattern` is replaced by nothing.
pub uninterp spec fn regex_erased(pattern: Seq<char>, text: Seq<char>) -> Seq<char>;

/// Relies on `regex::Regex::new` to compile `pattern` (`None` where it is not
/// a valid regular expression; the escape-sequence pattern is valid) and on
/// `regex::Regex::replace_all` to remove each of its matches from `text`.
#[verifier::external_body]
fn erase_matches(pattern: &str, text: &str) -> (r: Option<String>)
    ensures
        r matches Some(s) ==> s@ == regex_erased(pattern@, text@),
        pattern@ == ansi_pattern() ==> r is Some,
{
    match regex::Regex::new(pattern) {
        Ok(re) => Some(re.replace_all(text, "").into_owned()),
        Err(_) => None,
    }
}

/// The `key: value` facts of plain-text `fastfetch` output, terminal escape
/// sequences removed first.
pub open spec fn fastfetch_text_map(output: Seq<char>) -> Entries {
    colon_map(regex_erased(ansi_pattern(), output))
}

/// The `key: value` facts of plain-text `fastfetch` output, terminal escape
/// sequences removed first.
pub fn parse_fastfetch_text(output: &str) -> (r: KeyValueMap)
    ensures
        r@ == fastfetch_text_map(output@),
{
    let pattern = "\x1B(?:[@-Z\\\\-_]|\\[[0-?]*[ -/]*[@-~])";
    match erase_matches(pattern, output) {
        Some(clean) => parse_colon_lines(&chars_of(clean.as_str())),
        None => KeyValueMap::new(),
    }
}

/// The facts of `fastfetch` output, given what the JSON decoder made of it:
/// the JSON facts where it decoded, the plain-text facts otherwise.
pub fn fastfetch_info_from(decoded: Option<&JsonValue>, output: &str) -> (r: KeyValueMap)
    ensures
        r@ == fastfetch_facts(crate::json::deref(decoded), output@),
{
    match decoded {
        Some(v) => parse_fastfetch_json(v),
        None => parse_fastfetch_text(output),
    }
}

/// The facts of `fastfetch` output given its decoded JSON, if any.
pub open spec fn fastfetch_facts(decoded: Option<JsonValue>, output: Seq<char>) -> Entries {
    match decoded {
        Some(v) => fastfetch_json_map(v),
        None => fastfetch_text_map(output),
    }
}

/// The facts of `fastfetch` output, read as JSON where it decodes as JSON.
pub open spec fn fastfetch_info(output: Seq<char>) -> Entries {
    fastfetch_facts(json_decoded(output), output)
}

/// The facts of `fastfetch` output, read as JSON where it decodes as JSON.
pub fn get_fastfetch_info(output: &str) -> (r: KeyValueMap)
    ensures
        r@ == fastfetch_info(output@),
{
    match parse_json(output) {
        Some(v) => fastfetch_info_from(Some(&v), output),
        None => fastfetch_info_from(None, output),
    }
}

/// The value when it is present and not empty.
pub open spec fn nonempty(o: Option<Seq<char>>) -> Option<Seq<char>> {
    match o {
        Some(s) => if s.len() > 0 { Some(s) } else { None },
        None => None,
    }
}

/// The first of `a`, `b` that is present and not empty, else `d`.
pub open spec fn first_of(a: Option<Seq<char>>, b: Option<Seq<char>>, d: Seq<char>) -> Seq<char> {
    match nonempty(a) {
        Some(x) => x,
        None => match nonempty(b) {
            Some(y) => y,
            None => d,
        },
    }
}

pub open spec fn trimmed(o: Option<Seq<char>>) -> Option<Seq<char>> {
    match o {
        Some(s) => Some(trim(s)),
        None => None,
    }
}

pub open spec fn reordered(o: Option<Seq<char>>) -> Option<Seq<char>> {
    match o {
        Some(s) => Some(reorder_cpu(s)),
        None => None,
    }
}

/// The record that the facts of `fastfetch` and the other sources give:
/// hostname from the JSON title of fastfetch (a plain-text `Host:` line names
/// the hardware, not the host), `HOSTNAME`, then `hostname`; the CPU from
/// fastfetch with the frequency first; graphics from fastfetch; memory,
/// startup disk and serial number from their own chains.
pub open spec fn system_info_of(facts: Entries, from_json: bool, src: SystemSources) -> SystemInfoView {
    SystemInfoView {
        hostname: match (if from_json { nonempty(lookup(facts, "Host"@)) } else { None }) {
            Some(h) => h,
            None => first_of(view_of(src.hostname_env), trimmed(view_of(src.hostname_command)), "Unknown Host"@),
        },
        cpu: first_of(reordered(lookup(facts, "CPU"@)), None, "Unknown CPU"@),
        memory: memory_text(
            view_of(src.meminfo),
            view_of(src.dmidecode_memory),
            view_of(src.lshw_memory),
            view_of(src.free),
        ),
        startup_disk: startup_disk_text(view_of(src.lsblk_mounts)),
        graphics: first_of(lookup(facts, "GPU"@), None, "Unknown Graphics"@),
        serial_number: serial_text(
            view_of(src.dmidecode_baseboard),
            view_of(src.board_serial),
            view_of(src.product_serial),
            view_of(src.lshw_system),
            view_of(src.machine_id),
        ),
    }
}

fn as_str_opt(o: &Option<String>) -> (r: Option<&str>)
    ensures
        opt_view(r) == view_of(*o),
{
    match o {
        Some(s) => Some(s.as_str()),
        None => None,
    }
}

fn nonempty_exec(o: Option<String>) -> (r: Option<String>)
    ensures
        view_of(r) == nonempty(view_of(o)),
{
    match o {
        Some(s) => if chars_of(s.as_str()).len() == 0 {
            None
        } else {
            Some(s)
        },
        None => None,
    }
}

/// The record that detection gives for the sources.
pub open spec fn detected_system(src: SystemSources) -> SystemInfoView {
    match view_of(src.fastfetch) {
        Some(t) => system_info_of(fastfetch_info(t), json_decoded(t) is Some, src),
        None => system_info_of(Seq::empty(), false, src),
    }
}

impl SystemInfo {
    /// The record from the facts that `fastfetch` gave (`from_json`: read
    /// from its JSON output) and the other sources.
    pub fn from_facts(facts: &KeyValueMap, from_json: bool, src: &SystemSources) -> (r: SystemInfo)
        ensures
            r@ == system_info_of(facts@, from_json, *src),
    {
        let title_host = if from_json { facts.get("Host") } else { None };
        let hostname = match nonempty_exec(title_host) {
            Some(h) => h,
            None => match nonempty_exec(src.hostname_env.clone()) {
                Some(h) => h,
                None => {
                    let cmd = match &src.hostname_command {
                        Some(c) => Some(string_of(&trim_exec(&chars_of(c.as_str())))),
                        None => None,
                    };
                    match nonempty_exec(cmd) {
                        Some(h) => h,
                        None => string_of(&chars_of("Unknown Host")),
                    }
                },
            },
        };
        let cpu_raw = match facts.get("CPU") {
            Some(c) => Some(reorder_cpu_description(c.as_str())),
            None => None,
        };
        let cpu = match nonempty_exec(cpu_raw) {
            Some(c) => c,
            None => string_of(&chars_of("Unknown CPU")),
        };
        let graphics = match nonempty_exec(facts.get("GPU")) {
            Some(g) => g,
            None => string_of(&chars_of("Unknown Graphics")),
        };
        SystemInfo {
            hostname,
            cpu,
            memory: get_memory_info(
                as_str_opt(&src.meminfo),
                as_str_opt(&src.dmidecode_memory),
                as_str_opt(&src.lshw_memory),
                as_str_opt(&src.free),
            ),
            startup_disk: get_startup_disk(&src.lsblk_mounts),
            graphics,
            serial_number: get_serial_number(
                &src.dmidecode_baseboard,
                &src.board_serial,
                &src.product_serial,
                &src.lshw_system,
                &src.machine_id,
            ),
        }
    }

    /// Detects the static facts from the given sources: `fastfetch` output is
    /// read as JSON where it decodes, else as text.
    pub fn detect(src: &SystemSources) -> (r: SystemInfo)
        ensures
            r@ == detected_system(*src),
    {
        match &src.fastfetch {
            Some(out) => {
                let decoded = parse_json(out.as_str());
                match &decoded {
                    Some(v) => SystemInfo::from_facts(&fastfetch_info_from(Some(v), out.as_str()), true, src),
                    None => SystemInfo::from_facts(&fastfetch_info_from(None, out.as_str()), false, src),
                }
            },
            None => SystemInfo::from_facts(&KeyValueMap::new(), false, src),
        }
    }

    /// The configuration that shows this record, with the given image.
    pub fn to_config(&self, image_path: String) -> (r: Config)
        ensures
            r.distro_image_path@ == image_path@,
            r.distro_image_size@ == seq![512i32, 512],
            r.hostname@ == self.hostname@,
            r.cpu@ == self.cpu@,
            r.memory@ == self.memory@,
            r.startup_disk@ == self.startup_disk@,
            r.graphics@ == self.graphics@,
            r.serial_num@ == self.serial_number@,
            r.overview_margins@ == seq![60i32, 60, 60, 60],
            r.section_space == 20,
            r.logo_space == 60,
            r.system_info_command@.len() == 0,
            r.software_update_command@.len() == 0,
            r.font_family is None,
    {
        let r = Config {
            distro_image_path: image_path,
            distro_image_size: [512, 512],
            hostname: self.hostname.clone(),
            cpu: self.cpu.clone(),
            memory: self.memory.clone(),
            startup_disk: self.startup_disk.clone(),
            graphics: self.graphics.clone(),
            serial_num: self.serial_number.clone(),
            overview_margins: [60, 60, 60, 60],
            section_space: 20,
            logo_space: 60,
            system_info_command: String::new(),
            software_update_command: String::new(),
            font_family: None,
        };
        assert(r.distro_image_size@ =~= seq![512i32, 512]);
        assert(r.overview_margins@ =~= seq![60i32, 60, 60, 60]);
        r
    }
}

} // verus!
