use std::ops::Deref;
use vstd::prelude::*;
use crate::intention::{clone_opt_text, opt_text};
use crate::text::str_eq;

verus! {

/// The version written into a new repository's configuration.
pub const CONFIG_VERSION: &'static str = "0.1.0";

/// The user recorded as author.
#[derive(Debug)]
pub struct UserConfig {
    pub name: String,
    pub email: Option<String>,
}

/// Settings for AI-assisted metadata.
#[derive(Debug)]
pub struct AIConfig {
    pub enabled: bool,
    pub provider: String,
    pub api_key: Option<String>,
    pub model: Option<String>,
}

/// A repository's configuration.
#[derive(Debug)]
pub struct Config {
    pub name: String,
    pub ai_mode: String,
    pub version: String,
    pub user: UserConfig,
    pub ai: AIConfig,
}

impl Clone for UserConfig {
    fn clone(&self) -> (r: Self)
        ensures
            r.name@ == self.name@,
            opt_text(r.email) == opt_text(self.email),
    {
        UserConfig { name: self.name.clone(), email: clone_opt_text(&self.email) }
    }
}

impl Clone for AIConfig {
    fn clone(&self) -> (r: Self)
        ensures
            r.enabled == self.enabled,
            r.provider@ == self.provider@,
            opt_text(r.api_key) == opt_text(self.api_key),
            opt_text(r.model) == opt_text(self.model),
    {
        AIConfig {
            enabled: self.enabled,
            provider: self.provider.clone(),
            api_key: clone_opt_text(&self.api_key),
            model: clone_opt_text(&self.model),
        }
    }
}

impl Config {
    /// A new configuration; the `local` AI mode disables AI and names no provider,
    /// any other mode enables AI with that mode as the provider.
    pub fn new(name: String, ai_mode: String, user_name: String) -> (r: Config)
        ensures
            r.name@ == name@,
            r.ai_mode@ == ai_mode@,
            r.version@ == CONFIG_VERSION@,
            r.user.name@ == user_name@,
            r.user.email is None,
            r.ai.enabled == (ai_mode@ != "local"@),
            r.ai.provider@ == if ai_mode@ != "local"@ {
                ai_mode@
            } else {
                "none"@
            },
            r.ai.api_key is None,
            r.ai.model is None,
    {
        let ai_enabled = !str_eq(ai_mode.deref(), "local");
        let provider = if ai_enabled {
            ai_mode.clone()
        } else {
            "none".to_owned()
        };
        Config {
            name,
            ai_mode,
            version: CONFIG_VERSION.to_owned(),
            user: UserConfig { name: user_name, email: None },
            ai: AIConfig { enabled: ai_enabled, provider, api_key: None, model: None },
        }
    }

    pub fn set_user_email(&mut self, email: String)
        ensures
            opt_text(final(self).user.email) == Some(email@),
            final(self).user.name == old(self).user.name,
            final(self).name == old(self).name,
            final(self).ai_mode == old(self).ai_mode,
            final(self).version == old(self).version,
            final(self).ai == old(self).ai,
    {
        self.user.email = Some(email);
    }

    pub fn set_ai_api_key(&mut self, api_key: String)
        ensures
            opt_text(final(self).ai.api_key) == Some(api_key@),
            final(self).ai.enabled == old(self).ai.enabled,
            final(self).ai.provider == old(self).ai.provider,
            final(self).ai.model == old(self).ai.model,
            final(self).name == old(self).name,
            final(self).ai_mode == old(self).ai_mode,
            final(self).version == old(self).version,
            final(self).user == old(self).user,
    {
        self.ai.api_key = Some(api_key);
    }

    pub fn set_ai_model(&mut self, model: String)
        ensures
            opt_text(final(self).ai.model) == Some(model@),
            final(self).ai.enabled == old(self).ai.enabled,
            final(self).ai.provider == old(self).ai.provider,
            final(self).ai.api_key == old(self).ai.api_key,
            final(self).name == old(self).name,
            final(self).ai_mode == old(self).ai_mode,
            final(self).version == old(self).version,
            final(self).user == old(self).user,
    {
        self.ai.model = Some(model);
    }

    /// AI is usable only when enabled and an API key is set.
    pub fn is_ai_enabled(&self) -> (r: bool)
        ensures
            r == (self.ai.enabled && self.ai.api_key is Some),
    {
        self.ai.enabled && self.ai.api_key.is_some()
    }
}

impl Clone for Config {
    fn clone(&self) -> (r: Self)
        ensures
            r.name@ == self.name@,
            r.ai_mode@ == self.ai_mode@,
            r.version@ == self.version@,
            r.user.name@ == self.user.name@,
            opt_text(r.user.email) == opt_text(self.user.email),
            r.ai.enabled == self.ai.enabled,
            r.ai.provider@ == self.ai.provider@,
            opt_text(r.ai.api_key) == opt_text(self.ai.api_key),
            opt_text(r.ai.model) == opt_text(self.ai.model),
    {
        Config {
            name: self.name.clone(),
            ai_mode: self.ai_mode.clone(),
            version: self.version.clone(),
            user: self.user.clone(),
            ai: self.ai.clone(),
        }
    }
}

} // verus!
