//! The crates whose texts are localized.

use vstd::prelude::*;

verus! {

#[verifier::external_type_specification]
#[verifier::external_body]
pub struct ExPathBuf(std::path::PathBuf);

/// A crate: its name and the path of its directory.
pub struct Crate {
    /// The name of the crate.
    pub name: String,
    /// The path of the crate's directory.
    pub path: std::path::PathBuf,
}

impl Crate {
    /// A crate with this name and path.
    pub fn new(name: &str, path: std::path::PathBuf) -> (c: Crate)
        ensures
            c.name@ == name@,
            c.path == path,
    {
        Crate { name: name.to_owned(), path }
    }
}


/// The localization settings of a crate: the locale its texts are written
/// in, the locales they are translated to, and the settings of the
/// gettext tools, when there are any. (The type of the gettext settings is
/// a parameter: it belongs to the tools that read them.)
pub struct I18nConfig<GettextConfig> {
    /// The locale of the source texts.
    pub src_locale: String,
    /// The locales the texts are translated to.
    pub locales: Vec<String>,
    /// The settings of the gettext tools.
    pub gettext_config: Option<GettextConfig>,
}

/// An error in the localization settings.
#[derive(Debug, Clone, PartialEq, Eq)]
pub enum I18nConfigError {
    /// The settings hold no gettext settings.
    NoGettextConfig,
}

impl I18nConfigError {
    /// The message of the error.
    pub fn message(&self) -> (s: String)
        ensures
            s@ == "there is no gettext config available in this i18n config"@,
    {
        match self {
            I18nConfigError::NoGettextConfig => "there is no gettext config available in this i18n config".to_owned(),
        }
    }
}

impl<GettextConfig> I18nConfig<GettextConfig> {
    /// The settings of the gettext tools, or an error where there are none.
    pub fn gettext_config(&self) -> (r: Result<&GettextConfig, I18nConfigError>)
        ensures
            self.gettext_config is None <==> r == Err::<&GettextConfig, I18nConfigError>(I18nConfigError::NoGettextConfig),
            self.gettext_config matches Some(c) ==> r == Ok::<&GettextConfig, I18nConfigError>(&c),
    {
        match &self.gettext_config {
            Some(config) => Ok(config),
            None => Err(I18nConfigError::NoGettextConfig),
        }
    }
}

} // verus!
