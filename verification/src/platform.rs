//! Where the application keeps its data, cache and configuration.
use vstd::prelude::*;

use crate::error::{MooseError, Result};
use crate::text::{chars_of, push_char, push_str, to_owned_string};

verus! {

/// `Path::join` on Unix: an absolute component replaces the path; otherwise a
/// `/` is put between the two unless the base is empty or already ends with one.
pub open spec fn path_join(base: Seq<char>, component: Seq<char>) -> Seq<char> {
    if component.len() > 0 && component[0] == '/' {
        component
    } else if base.len() == 0 {
        component
    } else if base.last() == '/' {
        base + component
    } else {
        base + seq!['/'] + component
    }
}

/// Joins a component to a path.
pub fn join_path(base: &str, component: &str) -> (out: String)
    ensures
        out@ == path_join(base@, component@),
{
    let c = chars_of(component);
    if c.len() > 0 && c[0] == '/' {
        return to_owned_string(component);
    }
    let v = chars_of(base);
    let mut out = to_owned_string(base);
    if v.len() > 0 && v[v.len() - 1] != '/' {
        push_char(&mut out, '/');
    }
    push_str(&mut out, component);
    out
}

pub struct AppPaths {
    data_dir: String,
    cache_dir: String,
    config_dir: String,
    database_path: String,
}

pub struct AppPathsView {
    pub data_dir: Seq<char>,
    pub cache_dir: Seq<char>,
    pub config_dir: Seq<char>,
    pub database_path: Seq<char>,
}

impl View for AppPaths {
    type V = AppPathsView;

    closed spec fn view(&self) -> AppPathsView {
        AppPathsView {
            data_dir: self.data_dir@,
            cache_dir: self.cache_dir@,
            config_dir: self.config_dir@,
            database_path: self.database_path@,
        }
    }
}

pub open spec fn opt_str(o: Option<&str>) -> Option<Seq<char>> {
    match o {
        Some(s) => Some(s@),
        None => None,
    }
}

/// A base directory: the variable's value where it is set, else the fallback
/// under the home directory.
pub open spec fn base_dir(var: Option<Seq<char>>, home: Seq<char>, fallback: Seq<char>) -> Seq<char> {
    match var {
        Some(v) => v,
        None => path_join(home, fallback),
    }
}

fn xdg_dir(var: Option<&str>, home: &str, fallback: &str) -> (r: String)
    ensures
        r@ == base_dir(opt_str(var), home@, fallback@),
{
    match var {
        Some(v) => to_owned_string(v),
        None => join_path(home, fallback),
    }
}

pub open spec fn database_path_for(data_dir: Seq<char>) -> Seq<char> {
    path_join(data_dir, "moose.db"@)
}

pub open spec fn installation_dir_for(data_dir: Seq<char>) -> Seq<char> {
    path_join(data_dir, "ollama_installation"@)
}

impl AppPaths {
    #[verifier::type_invariant]
    spec fn database_in_data_dir(self) -> bool {
        self.database_path@ == database_path_for(self.data_dir@)
    }

    /// The paths under the given base directories; the database lives in the
    /// data directory.
    pub fn from_base_dirs(data_dir: String, cache_dir: String, config_dir: String) -> (r: AppPaths)
        ensures
            r@.data_dir == data_dir@,
            r@.cache_dir == cache_dir@,
            r@.config_dir == config_dir@,
            r@.database_path == database_path_for(data_dir@),
    {
        let database_path = join_path(data_dir.as_str(), "moose.db");
        AppPaths { data_dir, cache_dir, config_dir, database_path }
    }

    /// The paths of an application: under `$XDG_DATA_HOME`, `$XDG_CACHE_HOME`
    /// and `$XDG_CONFIG_HOME` where they are set, else under `.local/share`,
    /// `.cache` and `.config` in the home directory, each in a directory named
    /// after the application. Without a home directory there are none.
    pub fn new(
        app_name: &str,
        home: Option<&str>,
        xdg_data_home: Option<&str>,
        xdg_cache_home: Option<&str>,
        xdg_config_home: Option<&str>,
    ) -> (r: Result<AppPaths>)
        ensures
            home is None ==> r == Err::<AppPaths, MooseError>(MooseError::MissingHomeDirectory),
            home matches Some(h) ==> r matches Ok(p) && p@.data_dir == path_join(
                base_dir(opt_str(xdg_data_home), h@, ".local/share"@),
                app_name@,
            ) && p@.cache_dir == path_join(base_dir(opt_str(xdg_cache_home), h@, ".cache"@), app_name@)
                && p@.config_dir == path_join(base_dir(opt_str(xdg_config_home), h@, ".config"@), app_name@)
                && p@.database_path == database_path_for(p@.data_dir),
    {
        let home = match home {
            Some(h) => h,
            None => return Err(MooseError::MissingHomeDirectory),
        };
        let data_root = xdg_dir(xdg_data_home, home, ".local/share");
        let cache_root = xdg_dir(xdg_cache_home, home, ".cache");
        let config_root = xdg_dir(xdg_config_home, home, ".config");
        Ok(
            AppPaths::from_base_dirs(
                join_path(data_root.as_str(), app_name),
                join_path(cache_root.as_str(), app_name),
                join_path(config_root.as_str(), app_name),
            ),
        )
    }

    pub fn data_dir(&self) -> (r: &str)
        ensures
            r@ == self@.data_dir,
    {
        self.data_dir.as_str()
    }

    pub fn cache_dir(&self) -> (r: &str)
        ensures
            r@ == self@.cache_dir,
    {
        self.cache_dir.as_str()
    }

    pub fn config_dir(&self) -> (r: &str)
        ensures
            r@ == self@.config_dir,
    {
        self.config_dir.as_str()
    }

    pub fn database_path(&self) -> (r: &str)
        ensures
            r@ == self@.database_path,
            r@ == database_path_for(self@.data_dir),
    {
        proof {
            use_type_invariant(self);
        }
        self.database_path.as_str()
    }

    pub fn ollama_installation_dir(&self) -> (r: String)
        ensures
            r@ == installation_dir_for(self@.data_dir),
    {
        join_path(self.data_dir.as_str(), "ollama_installation")
    }

    pub fn ollama_binary_path(&self) -> (r: String)
        ensures
            r@ == path_join(path_join(installation_dir_for(self@.data_dir), "bin"@), "ollama"@),
    {
        let installation = self.ollama_installation_dir();
        let bin = join_path(installation.as_str(), "bin");
        join_path(bin.as_str(), "ollama")
    }

    pub fn ollama_models_dir(&self) -> (r: String)
        ensures
            r@ == path_join(path_join(self@.data_dir, ".ollama"@), "models"@),
    {
        let hidden = join_path(self.data_dir.as_str(), ".ollama");
        join_path(hidden.as_str(), "models")
    }

    pub fn ollama_log_path(&self) -> (r: String)
        ensures
            r@ == path_join(self@.cache_dir, "ollama.log"@),
    {
        join_path(self.cache_dir.as_str(), "ollama.log")
    }

    pub fn ollama_download_cache_dir(&self) -> (r: String)
        ensures
            r@ == path_join(self@.cache_dir, "ollama-downloads"@),
    {
        join_path(self.cache_dir.as_str(), "ollama-downloads")
    }
}

} // verus!
