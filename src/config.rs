//! The overview configuration record that the display layer renders and saves.
use vstd::prelude::*;
use crate::fastfetch::push_str;
use crate::text::{chars_of, string_of};

verus! {

/// What the overview shows, and how it is laid out.
#[derive(Clone, Debug)]
pub struct Config {
    pub distro_image_path: String,
    pub distro_image_size: [i32; 2],
    pub hostname: String,
    pub cpu: String,
    pub memory: String,
    pub startup_disk: String,
    pub graphics: String,
    pub serial_num: String,
    pub overview_margins: [i32; 4],
    pub section_space: i32,
    pub logo_space: i32,
    pub system_info_command: String,
    pub software_update_command: String,
    pub font_family: Option<String>,
}

/// Why a configuration cannot be shown.
#[derive(Clone, Debug)]
pub enum ConfigError {
    /// The distribution image does not exist; its path.
    ImageNotFound(String),
    /// A dimension of the image is not positive.
    InvalidImageSize,
}

impl ConfigError {
    /// The message shown to the user.
    pub fn message(&self) -> (r: String)
        ensures
            r@ == match self {
                ConfigError::ImageNotFound(p) => "Distro image not found: "@ + p@,
                ConfigError::InvalidImageSize => "Invalid image size"@,
            },
    {
        match self {
            ConfigError::ImageNotFound(p) => {
                let mut m = chars_of("Distro image not found: ");
                push_str(&mut m, p.as_str());
                string_of(&m)
            },
            ConfigError::InvalidImageSize => string_of(&chars_of("Invalid image size")),
        }
    }
}

impl Config {
    /// The configuration with nothing detected yet: the Tux logo at 512x512,
    /// empty texts, margins of 60, section space 20, logo space 60.
    pub fn default() -> (r: Config)
        ensures
            r.distro_image_path@ == "tux-logo.png"@,
            r.distro_image_size@ == seq![512i32, 512],
            r.hostname@.len() == 0,
            r.cpu@.len() == 0,
            r.memory@.len() == 0,
            r.startup_disk@.len() == 0,
            r.graphics@.len() == 0,
            r.serial_num@.len() == 0,
            r.overview_margins@ == seq![60i32, 60, 60, 60],
            r.section_space == 20,
            r.logo_space == 60,
            r.system_info_command@.len() == 0,
            r.software_update_command@.len() == 0,
            r.font_family is None,
    {
        let r = Config {
            distro_image_path: string_of(&chars_of("tux-logo.png")),
            distro_image_size: [512, 512],
            hostname: String::new(),
            cpu: String::new(),
            memory: String::new(),
            startup_disk: String::new(),
            graphics: String::new(),
            serial_num: String::new(),
            overview_margins: [60, 60, 60, 60],
            section_space: 20,
            logo_space: 60,
            system_info_command: String::new(),
            software_update_command: String::new(),
            font_family: None,
        };
        assert(r.distro_image_size@ =~= seq![512i32, 512]);
        assert(r.overview_margins@ =~= seq![60i32, 60, 60, 60]);
        r
    }

    /// Checks that the configuration can be shown; `image_exists` tells
    /// whether `distro_image_path` names an existing file.
    pub fn validate(&self, image_exists: bool) -> (r: Result<(), ConfigError>)
        ensures
            !image_exists ==> (r matches Err(ConfigError::ImageNotFound(p)) && p@ == self.distro_image_path@),
            image_exists && (self.distro_image_size[0] <= 0 || self.distro_image_size[1] <= 0)
                ==> r matches Err(ConfigError::InvalidImageSize),
            r is Ok <==> image_exists && self.distro_image_size[0] > 0 && self.distro_image_size[1] > 0,
    {
        if !image_exists {
            return Err(ConfigError::ImageNotFound(self.distro_image_path.clone()));
        }
        if self.distro_image_size[0] <= 0 || self.distro_image_size[1] <= 0 {
            return Err(ConfigError::InvalidImageSize);
        }
        Ok(())
    }
}

} // verus!
