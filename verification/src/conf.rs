//! The server configuration (`~/.config/sshack/config.toml`).
use vstd::prelude::*;
use crate::text::clone_opt_string;
use crate::theme::{standard_theme, standard_theme_spec, Theme};

verus! {

/// The configuration the screens and the server run with.
pub struct Conf {
    pub theme: Theme,
    pub banner: String,
    pub port: u16,
    pub animation: bool,
    /// When set, registering asks for this password.
    pub password: Option<String>,
    /// When set, the about tab shows this text.
    pub about: Option<String>,
}

impl Clone for Conf {
    fn clone(&self) -> (r: Self)
        ensures
            r == *self,
    {
        Conf {
            theme: self.theme,
            banner: self.banner.clone(),
            port: self.port,
            animation: self.animation,
            password: clone_opt_string(&self.password),
            about: clone_opt_string(&self.about),
        }
    }
}

/// The configuration file's entries as written there.
pub struct ConfToml {
    /// Name of the theme file, without `.yaml`.
    pub theme: String,
    pub banner: String,
    pub port: u16,
    pub animation: Option<bool>,
    pub password: Option<String>,
    pub about: Option<String>,
}

/// The banner shown when the configuration file does not give one.
pub const DEFAULT_BANNER: &'static str = r#"
   __________ __         __  
  / __/ __/ // /__ _____/ /__
 _\ \_\ \/ _  / _ `/ __/  '_/
/___/___/_//_/\_,_/\__/_/\_\
"#;

/// The about text shown when the configuration file does not give one.
pub const DEFAULT_ABOUT: &'static str = "
This CTF was built using the SSHack ctf framework: https://github.com/d-z0n/SSHack 
                ";

/// The port served when the configuration file does not give one.
pub const DEFAULT_PORT: u16 = 1337;

impl ConfToml {
    /// The configuration the file describes, given the theme its `theme`
    /// entry names (`None` when that theme could not be loaded, which makes
    /// the whole file unusable). Animation is on unless the file turns it off.
    pub fn conf(self, theme: Option<Theme>) -> (r: Option<Conf>)
        ensures
            match r {
                None => theme is None,
                Some(c) => theme == Some(c.theme) && c.banner@ == self.banner@ && c.port == self.port
                    && c.animation == (match self.animation {
                        Some(a) => a,
                        None => true,
                    })
                    && c.password == self.password && c.about == self.about,
            },
    {
        let theme = match theme {
            Some(t) => t,
            None => return None,
        };
        Some(Conf {
            theme,
            banner: self.banner,
            port: self.port,
            animation: match self.animation {
                Some(a) => a,
                None => true,
            },
            password: self.password,
            about: self.about,
        })
    }
}

impl Conf {
    /// The configuration: the one read from the configuration file when there
    /// is one, else the defaults, with the `colors` theme when it could be
    /// loaded and the standard theme otherwise.
    pub fn get(from_file: Option<Conf>, colors_theme: Option<Theme>) -> (r: Conf)
        ensures
            from_file is Some ==> r == from_file->0,
            from_file is None ==> {
                &&& r.theme == (match colors_theme {
                    Some(t) => t,
                    None => standard_theme_spec(),
                })
                &&& r.banner@ == DEFAULT_BANNER@
                &&& r.port == DEFAULT_PORT
                &&& r.animation
                &&& r.password is None
                &&& r.about matches Some(a) && a@ == DEFAULT_ABOUT@
            },
    {
        match from_file {
            Some(c) => c,
            None => Conf {
                theme: match colors_theme {
                    Some(t) => t,
                    None => standard_theme(),
                },
                banner: DEFAULT_BANNER.to_owned(),
                port: DEFAULT_PORT,
                about: Some(DEFAULT_ABOUT.to_owned()),
                animation: true,
                password: None,
            },
        }
    }
}

} // verus!
