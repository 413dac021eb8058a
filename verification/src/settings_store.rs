//! The user's settings as the application holds them, and how an update is
//! normalized and committed once it has been saved.
use vstd::prelude::*;
use crate::models::{AppSettings, CloseButtonBehavior};
use crate::text::{opt_view, trim_seq, trimmed_owned};

verus! {

/// A download directory as the settings keep it: trimmed, and absent when
/// nothing but white space was given.
pub open spec fn normalized_dir(dir: Option<Seq<char>>) -> Option<Seq<char>> {
    match dir {
        Some(d) => if trim_seq(d).len() > 0 {
            Some(trim_seq(d))
        } else {
            None
        },
        None => None,
    }
}

/// The download directory as the settings keep it.
pub fn normalize_download_dir(dir: Option<String>) -> (r: Option<String>)
    ensures
        opt_view(r) == normalized_dir(opt_view(dir)),
{
    match dir {
        Some(d) => {
            let trimmed = trimmed_owned(d.as_str());
            if trimmed.as_str().is_empty() {
                None
            } else {
                Some(trimmed)
            }
        },
        None => None,
    }
}

/// `settings` with the download directory normalized, as views.
pub open spec fn normalized_settings_match(settings: AppSettings, r: AppSettings) -> bool {
    &&& r.close_button_behavior == settings.close_button_behavior
    &&& r.auto_action_on_complete == settings.auto_action_on_complete
    &&& opt_view(r.download_dir) == normalized_dir(opt_view(settings.download_dir))
}

/// The settings file's path and the settings in force.
#[derive(Debug)]
pub struct SettingsStore {
    path: String,
    state: AppSettings,
}

impl SettingsStore {
    pub closed spec fn path_spec(&self) -> Seq<char> {
        self.path@
    }

    /// The settings in force.
    pub closed spec fn current(&self) -> AppSettings {
        self.state
    }

    /// A store for the file at `path`, holding the settings read from it, or
    /// the defaults when there were none to read.
    pub fn new(path: String, loaded: Option<AppSettings>) -> (r: SettingsStore)
        ensures
            r.path_spec() == path@,
            match loaded {
                Some(s) => r.current() == s,
                None => {
                    &&& r.current().close_button_behavior == CloseButtonBehavior::CloseToTray
                    &&& !r.current().auto_action_on_complete
                    &&& r.current().download_dir is None
                },
            },
    {
        let state = match loaded {
            Some(s) => s,
            None => AppSettings::default_settings(),
        };
        SettingsStore { path, state }
    }

    /// The path of the settings file.
    pub fn path(&self) -> (r: &str)
        ensures
            r@ == self.path_spec(),
    {
        self.path.as_str()
    }

    /// A copy of the settings in force.
    pub fn get(&self) -> (r: AppSettings)
        ensures
            r == self.current(),
    {
        self.state.duplicate()
    }

    /// Normalizes `settings`, saves them with `save` and, once saved, puts
    /// them in force and returns them. When saving fails the error is returned
    /// and the settings in force stay as they were.
    pub fn update<F: FnOnce(&AppSettings) -> Result<(), String>>(
        &mut self,
        settings: AppSettings,
        save: F,
    ) -> (r: Result<AppSettings, String>)
        requires
            forall|s: &AppSettings| call_requires(save, (s,)),
        ensures
            final(self).path_spec() == old(self).path_spec(),
            match r {
                Ok(n) => {
                    &&& normalized_settings_match(settings, n)
                    &&& final(self).current() == n
                    &&& call_ensures(save, (&n,), Ok::<(), String>(()))
                },
                Err(e) => {
                    &&& final(self).current() == old(self).current()
                    &&& exists|n: AppSettings|
                        normalized_settings_match(settings, n) && call_ensures(
                            save,
                            (&n,),
                            Err::<(), String>(e),
                        )
                },
            },
    {
        let normalized = AppSettings {
            close_button_behavior: settings.close_button_behavior,
            auto_action_on_complete: settings.auto_action_on_complete,
            download_dir: normalize_download_dir(settings.download_dir),
        };
        let outcome = save(&normalized);
        match outcome {
            Ok(u) => {
                assert(u == ());
            },
            Err(e) => {
                assert(normalized_settings_match(settings, normalized));
                return Err(e);
            },
        }
        let result = normalized.duplicate();
        self.state = normalized;
        Ok(result)
    }
}

} // verus!
