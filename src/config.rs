use vstd::prelude::*;

verus! {

/// General configuration options.
pub struct General {
    pub theme: String,
    pub show_splash: bool,
}

/// Privacy-related configuration options.
pub struct Privacy {
    pub satellite_sync_nodes: bool,
    pub safer_file_scanning: bool,
}

/// Audio and video-related configuration options.
pub struct AudioVideo {
    pub noise_suppression: bool,
    pub call_timer: bool,
}

/// Extension-related configuration options.
pub struct Extensions {
    pub enable: bool,
}

/// Developer-related configuration options.
pub struct Developer {
    pub developer_mode: bool,
    pub cache_dir: String,
}

/// The configuration of the application. Every option is off, and every
/// text empty, unless set.
pub struct Config {
    pub general: General,
    pub privacy: Privacy,
    pub audiovideo: AudioVideo,
    pub extensions: Extensions,
    pub developer: Developer,
}

/// A change of one configuration setting, as requested by the user.
pub enum ConfigAction {
    SetNotificationsEnabled(bool),
    SetTheme(String),
    SetOverlayEnabled(bool),
    SetDevModeEnabled(bool),
    SetInterfaceSoundsEnabled(bool),
    SetMediaSoundsEnabled(bool),
    SetMessageSoundsEnabled(bool),
    SetFriendsNotificationsEnabled(bool),
    SetMessagesNotificationsEnabled(bool),
    SetSettingsNotificationsEnabled(bool),
    SetAutoEnableExtensions(bool),
}

impl Config {
    /// Every option at its default: off, and empty texts.
    pub open spec fn is_default(&self) -> bool {
        &&& self.general.theme@.len() == 0
        &&& !self.general.show_splash
        &&& !self.privacy.satellite_sync_nodes
        &&& !self.privacy.safer_file_scanning
        &&& !self.audiovideo.noise_suppression
        &&& !self.audiovideo.call_timer
        &&& !self.extensions.enable
        &&& !self.developer.developer_mode
        &&& self.developer.cache_dir@.len() == 0
    }

    /// The default configuration.
    pub fn new() -> (r: Self)
        ensures
            r.is_default(),
    {
        Config {
            general: General { theme: String::new(), show_splash: false },
            privacy: Privacy { satellite_sync_nodes: false, safer_file_scanning: false },
            audiovideo: AudioVideo { noise_suppression: false, call_timer: false },
            extensions: Extensions { enable: false },
            developer: Developer { developer_mode: false, cache_dir: String::new() },
        }
    }

    /// Selects the theme `theme_name`; every other option is kept. Saving
    /// the configuration is the caller's part.
    pub fn set_theme(&mut self, theme_name: String)
        ensures
            final(self).general.theme == theme_name,
            final(self).general.show_splash == old(self).general.show_splash,
            final(self).privacy == old(self).privacy,
            final(self).audiovideo == old(self).audiovideo,
            final(self).extensions == old(self).extensions,
            final(self).developer == old(self).developer,
    {
        self.general.theme = theme_name;
    }
}

} // verus!
