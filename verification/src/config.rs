//! The immutable service configuration injected into the core at startup.
//!
//! Timestamps and durations are carried as whole seconds (Unix time for
//! instants), so every rule about them is plain integer arithmetic.

use vstd::prelude::*;

verus! {

/// Strikes a requester may accumulate before link creation is denied,
/// when no other value is configured.
pub const DEFAULT_MAX_STRIKES: u16 = 30;

/// Default retention of origin records: two weeks, in seconds.
pub const DEFAULT_RETENTION_PERIOD_SECS: i64 = 1209600;

/// Settings of the token subsystem.
pub struct TokenConfig {
    /// Whether creating a link requires a valid bearer credential.
    pub creation_requires_auth: bool,
    /// The out-of-band secret that satisfies every permission check and is
    /// never stored in the token table.
    pub master_token: String,
}

pub struct TokenConfigView {
    pub creation_requires_auth: bool,
    pub master_token: Seq<char>,
}

impl View for TokenConfig {
    type V = TokenConfigView;

    open spec fn view(&self) -> TokenConfigView {
        TokenConfigView {
            creation_requires_auth: self.creation_requires_auth,
            master_token: self.master_token@,
        }
    }
}

/// Settings of origin recording and its retention job.
pub struct IpRecordingConfig {
    /// How long origin records are kept, in seconds.
    pub retention_period: i64,
    /// The cron-style schedule on which the retention job fires.
    pub retention_check_period: String,
}

pub struct IpRecordingConfigView {
    pub retention_period: int,
    pub retention_check_period: Seq<char>,
}

impl View for IpRecordingConfig {
    type V = IpRecordingConfigView;

    open spec fn view(&self) -> IpRecordingConfigView {
        IpRecordingConfigView {
            retention_period: self.retention_period as int,
            retention_check_period: self.retention_check_period@,
        }
    }
}

impl Default for IpRecordingConfig {
    /// Two weeks of retention, checked once daily at midnight.
    fn default() -> (r: IpRecordingConfig)
        ensures
            r.retention_period == DEFAULT_RETENTION_PERIOD_SECS,
            r.retention_check_period@ == "0 0 * * *"@,
    {
        IpRecordingConfig {
            retention_period: DEFAULT_RETENTION_PERIOD_SECS,
            retention_check_period: "0 0 * * *".to_owned(),
        }
    }
}

/// The whole service configuration, as the core reads it. Origin recording
/// and the token subsystem are each optional.
pub struct ServiceConfig {
    pub max_strikes: u16,
    pub ip_recording: Option<IpRecordingConfig>,
    pub token_config: Option<TokenConfig>,
}

pub struct ServiceConfigView {
    pub max_strikes: u16,
    pub ip_recording: Option<IpRecordingConfigView>,
    pub token_config: Option<TokenConfigView>,
}

impl View for ServiceConfig {
    type V = ServiceConfigView;

    open spec fn view(&self) -> ServiceConfigView {
        ServiceConfigView {
            max_strikes: self.max_strikes,
            ip_recording: match self.ip_recording {
                Some(ref c) => Some(c@),
                None => None,
            },
            token_config: match self.token_config {
                Some(ref c) => Some(c@),
                None => None,
            },
        }
    }
}

impl Default for ServiceConfig {
    /// The default configuration: thirty strikes allowed, origin recording
    /// and the token subsystem disabled.
    fn default() -> (r: ServiceConfig)
        ensures
            r.max_strikes == DEFAULT_MAX_STRIKES,
            r@.ip_recording is None,
            r@.token_config is None,
    {
        ServiceConfig { max_strikes: DEFAULT_MAX_STRIKES, ip_recording: None, token_config: None }
    }
}

/// The operational summary of the token subsystem reported by the
/// read-only configuration endpoint.
#[derive(Debug, Clone, Copy, PartialEq, Eq, Structural)]
pub struct TokenConfigInfo {
    pub link_creation_requires_auth: bool,
}

/// The token part of the configuration summary: present exactly when the
/// token subsystem is enabled.
pub fn token_config_info(config: &ServiceConfig) -> (r: Option<TokenConfigInfo>)
    ensures
        match config@.token_config {
            Some(tc) => r == Some(
                TokenConfigInfo { link_creation_requires_auth: tc.creation_requires_auth },
            ),
            None => r is None,
        },
{
    match &config.token_config {
        Some(tc) => Some(TokenConfigInfo { link_creation_requires_auth: tc.creation_requires_auth }),
        None => None,
    }
}

} // verus!
