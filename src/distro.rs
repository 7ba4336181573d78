//! The dynamic system record: distribution name, version and codename from
//! `/etc/os-release`, and the kernel release.
use vstd::prelude::*;
use crate::fastfetch::push_str;
use crate::kv::{assignment_map, lookup, parse_assignments, view_of};
use crate::memory::opt_view;
use crate::text::{chars_of, string_of, trim, trim_exec};

verus! {

/// The distribution and kernel; only the codename may be absent.
#[derive(Clone, Debug)]
pub struct DynamicSystemInfo {
    pub distro_name: String,
    pub distro_version: String,
    pub distro_codename: Option<String>,
    pub kernel: String,
}

/// Why the dynamic record cannot be had.
#[derive(Clone, Debug)]
pub enum DistroError {
    /// `/etc/os-release` could not be read.
    OsReleaseUnreadable,
}

pub struct DynamicSystemInfoView {
    pub distro_name: Seq<char>,
    pub distro_version: Seq<char>,
    pub distro_codename: Option<Seq<char>>,
    pub kernel: Seq<char>,
}

impl View for DynamicSystemInfo {
    type V = DynamicSystemInfoView;

    open spec fn view(&self) -> DynamicSystemInfoView {
        DynamicSystemInfoView {
            distro_name: self.distro_name@,
            distro_version: self.distro_version@,
            distro_codename: view_of(self.distro_codename),
            kernel: self.kernel@,
        }
    }
}

pub open spec fn or_default(o: Option<Seq<char>>, d: Seq<char>) -> Seq<char> {
    match o {
        Some(s) => s,
        None => d,
    }
}

/// The kernel release from `uname -r` output: trimmed, `"Unknown"` where empty
/// or not available.
pub open spec fn kernel_text(uname: Option<Seq<char>>) -> Seq<char> {
    match uname {
        Some(u) => if trim(u).len() > 0 { trim(u) } else { "Unknown"@ },
        None => "Unknown"@,
    }
}

/// The record that an `/etc/os-release` text and `uname -r` output give.
pub open spec fn distro_of(os_release: Seq<char>, uname: Option<Seq<char>>) -> DynamicSystemInfoView {
    let m = assignment_map(os_release);
    DynamicSystemInfoView {
        distro_name: or_default(lookup(m, "NAME"@), "Unknown Linux"@),
        distro_version: or_default(lookup(m, "VERSION"@), "Unknown Version"@),
        distro_codename: lookup(m, "VERSION_CODENAME"@),
        kernel: kernel_text(uname),
    }
}

/// The markup of the distribution heading: the name in bold, then the codename.
pub open spec fn distro_markup(d: DynamicSystemInfoView) -> Seq<char> {
    match d.distro_codename {
        Some(c) => "<span font-size='xx-large'><span font-weight='bold'>"@ + d.distro_name + " </span>"@
            + c + "</span>"@,
        None => "<span font-size='xx-large'><span font-weight='bold'>"@ + d.distro_name
            + "</span></span>"@,
    }
}

/// The kernel release from `uname -r` output (`None` where it could not be run).
pub fn get_kernel_version(uname: Option<&str>) -> (r: String)
    ensures
        r@ == kernel_text(opt_view(uname)),
{
    match uname {
        Some(u) => {
            let k = trim_exec(&chars_of(u));
            if k.len() > 0 {
                string_of(&k)
            } else {
                string_of(&chars_of("Unknown"))
            }
        },
        None => string_of(&chars_of("Unknown")),
    }
}

impl DynamicSystemInfo {
    /// The record from the contents of `/etc/os-release` and the output of
    /// `uname -r` (`None` where either could not be had); an error only where
    /// `/etc/os-release` could not be read.
    pub fn detect(os_release: Option<&str>, uname: Option<&str>) -> (r: Result<DynamicSystemInfo, DistroError>)
        ensures
            os_release is None <==> r is Err,
            r matches Ok(d) ==> d@ == distro_of(os_release->0@, opt_view(uname)),
    {
        let text = match os_release {
            Some(t) => t,
            None => {
                return Err(DistroError::OsReleaseUnreadable);
            },
        };
        let m = parse_assignments(text);
        let distro_name = match m.get("NAME") {
            Some(n) => n,
            None => string_of(&chars_of("Unknown Linux")),
        };
        let distro_version = match m.get("VERSION") {
            Some(v) => v,
            None => string_of(&chars_of("Unknown Version")),
        };
        let distro_codename = m.get("VERSION_CODENAME");
        let kernel = get_kernel_version(uname);
        Ok(DynamicSystemInfo { distro_name, distro_version, distro_codename, kernel })
    }

    /// The markup of the distribution heading.
    pub fn get_distro_markup(&self) -> (r: String)
        ensures
            r@ == distro_markup(self@),
    {
        let mut m = chars_of("<span font-size='xx-large'><span font-weight='bold'>");
        push_str(&mut m, self.distro_name.as_str());
        match &self.distro_codename {
            Some(c) => {
                push_str(&mut m, " </span>");
                push_str(&mut m, c.as_str());
                push_str(&mut m, "</span>");
            },
            None => {
                push_str(&mut m, "</span></span>");
            },
        }
        string_of(&m)
    }
}

} // verus!
