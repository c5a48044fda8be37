//! What the push sidecar reads at startup.

use vstd::prelude::*;

verus! {

/// The push sidecar's settings.
pub struct PushConfig {
    /// Xenon's socket address, `ws://` or `wss://`
    pub xenon: String,
    /// The same string as Xenon's sidecar secret
    pub secret: String,
    /// Contact URI a push service can reach you at, `mailto:` or `https:`
    pub subject: String,
    /// Seconds a push service keeps a message for a browser that is not connected
    pub ttl: u32,
}

/// Why a read config is refused.
#[derive(Debug, Clone, Copy, PartialEq, Eq, Structural)]
pub enum PushConfigError {
    /// `secret` is unset, and must match Xenon's
    SecretUnset,
}

impl Default for PushConfig {
    fn default() -> (r: PushConfig)
        ensures
            r.xenon@ == "ws://127.0.0.1:3000/push/ws"@,
            r.secret@.len() == 0,
            r.subject@.len() == 0,
            r.ttl == 86400,
    {
        PushConfig {
            xenon: String::from_str("ws://127.0.0.1:3000/push/ws"),
            secret: String::new(),
            subject: String::new(),
            ttl: 86400,
        }
    }
}

impl PushConfig {
    /// Checks a config read from disk: the secret must be set.
    pub fn check(&self) -> (r: Result<(), PushConfigError>)
        ensures
            r == (if self.secret@.len() == 0 { Err(PushConfigError::SecretUnset) } else { Ok(()) }),
    {
        if self.secret.as_str().is_empty() {
            return Err(PushConfigError::SecretUnset);
        }
        Ok(())
    }
}

} // verus!
