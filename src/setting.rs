//! The settings file of the crawler and of the web front-end.
use vstd::prelude::*;
use vstd::string::*;
use crate::text::str_eq;
use crate::user_config::UserConfig;

verus! {

/// Plugins listed on the index page (label, path), the plugin root, the interpreter, the
/// default preferences, and the paths a sandboxed plugin may read.
pub struct Setting {
    pub plugins_to_show: Vec<(String, String)>,
    pub kodi_path: String,
    pub python_command: String,
    pub default_user_config: UserConfig,
    pub allowed_path: Vec<String>,
}

impl Default for Setting {
    /// No listed plugin, `~/.kodi`, `python2`, the default preferences, no extra path.
    fn default() -> (r: Self)
        ensures
            r.plugins_to_show@.len() == 0,
            r.kodi_path@ == "~/.kodi"@,
            r.python_command@ == "python2"@,
            r.allowed_path@.len() == 0,
    {
        Setting {
            plugins_to_show: Vec::new(),
            kodi_path: "~/.kodi".to_owned(),
            python_command: "python2".to_owned(),
            default_user_config: UserConfig::default(),
            allowed_path: Vec::new(),
        }
    }
}

impl Setting {
    /// The label of the first listed plugin whose path is `path`.
    pub fn get_label_for_path(&self, path: &str) -> (r: Option<String>)
        ensures
            r matches Some(l) ==> exists|i: int|
                0 <= i < self.plugins_to_show@.len() && self.plugins_to_show@[i].1@ == path@
                    && self.plugins_to_show@[i].0@ == l@ && forall|j: int|
                    0 <= j < i ==> self.plugins_to_show@[j].1@ != path@,
            r is None ==> forall|j: int|
                0 <= j < self.plugins_to_show@.len() ==> self.plugins_to_show@[j].1@ != path@,
    {
        let mut i: usize = 0;
        while i < self.plugins_to_show.len()
            invariant
                i <= self.plugins_to_show@.len(),
                forall|j: int| 0 <= j < i ==> self.plugins_to_show@[j].1@ != path@,
            decreases self.plugins_to_show@.len() - i,
        {
            if str_eq(self.plugins_to_show[i].1.as_str(), path) {
                return Some(self.plugins_to_show[i].0.clone());
            }
            i = i + 1;
        }
        None
    }
}

} // verus!
