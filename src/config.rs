use vstd::prelude::*;

verus! {

/// Settings of one run: the chat transport and the torrent service.
pub struct Config {
    pub telegram: TelegramConfig,
    pub transmission: TransmissionConfig,
}

/// Credentials of the chat transport.
pub struct TelegramConfig {
    pub bot_token: String,
}

/// Where the torrent service listens, and how to log in to it.
pub struct TransmissionConfig {
    pub url: String,
    pub username: Option<String>,
    pub password: Option<String>,
}

} // verus!
