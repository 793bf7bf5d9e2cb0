//! Configuration carried by the service: the candidate label sets the
//! pipeline validates against, and the credentials of the external
//! collaborators. Loading these values from the environment is plumbing
//! that happens outside this crate.

use vstd::prelude::*;

use crate::classify::OpenAiConfig;

verus! {

/// Where the store is persisted.
#[derive(Debug)]
pub struct DatabaseConfig {
    pub file_path: String,
}

impl Clone for DatabaseConfig {
    fn clone(&self) -> (r: Self)
        ensures
            r == *self,
    {
        DatabaseConfig { file_path: self.file_path.clone() }
    }
}

/// Credentials for the external channel source and its ads endpoints.
#[derive(Debug)]
pub struct TelegramConfig {
    pub bot_token: String,
    pub ads_hash: String,
    pub ads_stel_ssid: String,
    pub ads_stel_token: String,
    pub ads_stel_owner: String,
}

impl Clone for TelegramConfig {
    fn clone(&self) -> (r: Self)
        ensures
            r == *self,
    {
        TelegramConfig {
            bot_token: self.bot_token.clone(),
            ads_hash: self.ads_hash.clone(),
            ads_stel_ssid: self.ads_stel_ssid.clone(),
            ads_stel_token: self.ads_stel_token.clone(),
            ads_stel_owner: self.ads_stel_owner.clone(),
        }
    }
}

/// The service configuration: the configured geo and category candidate
/// sets, and the external collaborators' settings.
#[derive(Debug)]
pub struct AppConfig {
    pub database: DatabaseConfig,
    pub log_level: String,
    pub geos: Vec<String>,
    pub categories: Vec<String>,
    pub telegram: TelegramConfig,
    pub openai: OpenAiConfig,
}

impl Clone for AppConfig {
    fn clone(&self) -> (r: Self)
        ensures
            r.database == self.database,
            r.log_level == self.log_level,
            r.geos@ == self.geos@,
            r.categories@ == self.categories@,
            r.telegram == self.telegram,
            r.openai == self.openai,
    {
        AppConfig {
            database: self.database.clone(),
            log_level: self.log_level.clone(),
            geos: self.geos.clone(),
            categories: self.categories.clone(),
            telegram: self.telegram.clone(),
            openai: self.openai.clone(),
        }
    }
}

} // verus!
