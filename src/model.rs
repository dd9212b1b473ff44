//! The records that the library passes around.
use vstd::prelude::*;

verus! {

/// A catalog entry for one downloadable trainer.
#[derive(Clone, Debug, PartialEq, Eq)]
pub struct Trainer {
    pub id: String,
    pub name: String,
    pub version: String,
    pub game_version: String,
    pub download_url: String,
    pub description: String,
    pub thumbnail: String,
    pub download_count: i32,
    pub last_update: String,
}

/// A trainer that has been installed: its catalog entry, where it lives, when
/// it was installed and when it was last launched.
#[derive(Clone, Debug, PartialEq, Eq)]
pub struct InstalledTrainer {
    pub id: String,
    pub name: String,
    pub version: String,
    pub game_version: String,
    pub download_url: String,
    pub description: String,
    pub thumbnail: String,
    pub download_count: i32,
    pub last_update: String,
    pub installed_path: String,
    pub install_time: String,
    pub last_launch_time: Option<String>,
}

/// The metadata written beside an installed trainer.
#[derive(Clone, Debug, PartialEq, Eq)]
pub struct TrainerInstallInfo {
    pub trainer: Trainer,
    pub install_path: String,
    pub install_time: String,
    pub last_launch_time: Option<String>,
}

/// One page of results and the total number of results.
#[derive(Clone, Debug, PartialEq, Eq)]
pub struct PaginatedResponse<T> {
    pub trainers: Vec<T>,
    pub total: u32,
}

impl Trainer {
    /// A copy of this entry.
    pub fn duplicate(&self) -> (r: Trainer)
        ensures
            r == *self,
    {
        Trainer {
            id: self.id.clone(),
            name: self.name.clone(),
            version: self.version.clone(),
            game_version: self.game_version.clone(),
            download_url: self.download_url.clone(),
            description: self.description.clone(),
            thumbnail: self.thumbnail.clone(),
            download_count: self.download_count,
            last_update: self.last_update.clone(),
        }
    }
}

impl TrainerInstallInfo {
    /// The record of `trainer` freshly installed at `install_path` at
    /// `install_time`, never launched yet.
    pub fn new(trainer: Trainer, install_path: String, install_time: String) -> (r: TrainerInstallInfo)
        ensures
            r.trainer == trainer,
            r.install_path == install_path,
            r.install_time == install_time,
            r.last_launch_time is None,
    {
        TrainerInstallInfo { trainer, install_path, install_time, last_launch_time: None }
    }

    /// The installed-records row for this metadata.
    pub fn to_installed(&self) -> (r: InstalledTrainer)
        ensures
            r.id == self.trainer.id,
            r.name == self.trainer.name,
            r.version == self.trainer.version,
            r.game_version == self.trainer.game_version,
            r.download_url == self.trainer.download_url,
            r.description == self.trainer.description,
            r.thumbnail == self.trainer.thumbnail,
            r.download_count == self.trainer.download_count,
            r.last_update == self.trainer.last_update,
            r.installed_path == self.install_path,
            r.install_time == self.install_time,
            r.last_launch_time == self.last_launch_time,
    {
        let t = &self.trainer;
        InstalledTrainer {
            id: t.id.clone(),
            name: t.name.clone(),
            version: t.version.clone(),
            game_version: t.game_version.clone(),
            download_url: t.download_url.clone(),
            description: t.description.clone(),
            thumbnail: t.thumbnail.clone(),
            download_count: t.download_count,
            last_update: t.last_update.clone(),
            installed_path: self.install_path.clone(),
            install_time: self.install_time.clone(),
            last_launch_time: match &self.last_launch_time {
                Some(s) => Some(s.clone()),
                None => None,
            },
        }
    }
}

impl InstalledTrainer {
    /// The catalog entry of this installed trainer.
    pub fn trainer(&self) -> (r: Trainer)
        ensures
            r.id == self.id,
            r.name == self.name,
            r.version == self.version,
            r.game_version == self.game_version,
            r.download_url == self.download_url,
            r.description == self.description,
            r.thumbnail == self.thumbnail,
            r.download_count == self.download_count,
            r.last_update == self.last_update,
    {
        Trainer {
            id: self.id.clone(),
            name: self.name.clone(),
            version: self.version.clone(),
            game_version: self.game_version.clone(),
            download_url: self.download_url.clone(),
            description: self.description.clone(),
            thumbnail: self.thumbnail.clone(),
            download_count: self.download_count,
            last_update: self.last_update.clone(),
        }
    }
}

/// The user's settings.
#[derive(Clone, Debug, PartialEq, Eq)]
pub struct AppSettings {
    pub download_path: String,
    /// `light`, `dark` or `system`.
    pub theme: String,
    pub auto_extract: bool,
    pub auto_open_folder: bool,
    pub language: String,
}

impl AppSettings {
    /// The default settings, downloading into `download_path`: the system
    /// theme, archives extracted, the folder not opened, Simplified Chinese.
    pub fn with_download_path(download_path: String) -> (r: AppSettings)
        ensures
            r.download_path == download_path,
            r.theme@ == "system"@,
            r.auto_extract,
            !r.auto_open_folder,
            r.language@ == "zh-CN"@,
    {
        AppSettings {
            download_path,
            theme: String::from_str("system"),
            auto_extract: true,
            auto_open_folder: false,
            language: String::from_str("zh-CN"),
        }
    }

    /// Switches the download path to `path`, keeping the rest.
    pub fn set_download_path(&mut self, path: &str)
        ensures
            final(self).download_path@ == path@,
            final(self).theme == old(self).theme,
            final(self).auto_extract == old(self).auto_extract,
            final(self).auto_open_folder == old(self).auto_open_folder,
            final(self).language == old(self).language,
    {
        self.download_path = String::from_str(path);
    }
}

} // verus!
