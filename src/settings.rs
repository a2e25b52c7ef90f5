//! Service configuration: the identity-provider client, its connectors, and
//! the other services the application talks to.

use vstd::prelude::*;

verus! {

/// An identity-provider connector that users may choose.
#[derive(Debug, Clone, PartialEq, Eq)]
pub struct DexConnector {
    pub id: String,
    /// The connector's kind (`github`, `oidc`, ...).
    pub connector_type: String,
    /// Display name.
    pub name: String,
}

/// The OpenID-Connect client of the identity provider.
#[derive(Debug, Clone, PartialEq, Eq)]
pub struct DexSettings {
    pub client_id: String,
    pub client_secret: String,
    pub issuer_url: String,
    pub token_url: String,
    pub callback_url: String,
    pub connectors: Vec<DexConnector>,
    pub scopes: Vec<String>,
}

#[derive(Debug, Clone, PartialEq, Eq)]
pub struct OpenFGASettings {
    pub host: String,
    pub api_key: Option<String>,
    pub store_id: String,
    pub auth_model_id: String,
}

#[derive(Debug, Clone, PartialEq, Eq)]
pub struct RedisSettings {
    pub url: String,
    pub connection_timeout: Option<u64>,
    pub max_size: Option<u32>,
    pub min_idle: Option<u32>,
    pub idle_timeout: Option<u64>,
}

#[derive(Debug, Clone, PartialEq, Eq)]
pub struct TelemetrySettings {
    pub otel_exporter_otlp_protocol: String,
    pub otel_exporter_otlp_endpoint: String,
    pub otel_service_name: String,
    pub log_level: String,
    pub username: String,
    pub password: String,
    pub org_name: String,
    pub stream_name: String,
}

#[derive(Debug, Clone, PartialEq, Eq)]
pub struct ServiceSettings {
    pub environment: String,
    pub bind: String,
    pub port: u16,
}

#[derive(Debug, Clone, PartialEq, Eq)]
pub struct Pg {
    pub url: String,
}

/// All settings of the service.
#[derive(Debug, Clone, PartialEq, Eq)]
pub struct Settings {
    pub service: ServiceSettings,
    pub redis: RedisSettings,
    pub telemetry: TelemetrySettings,
    pub dex: DexSettings,
    pub postgres: Pg,
}

/// Some connector of `dex` has the identifier `id`.
pub open spec fn has_connector(dex: DexSettings, id: Seq<char>) -> bool {
    exists|i: int| 0 <= i < dex.connectors@.len() && (#[trigger] dex.connectors@[i]).id@ == id
}

impl DexSettings {
    /// Whether a connector with identifier `id` is configured.
    pub fn has_connector(&self, id: &str) -> (r: bool)
        ensures
            r == has_connector(*self, id@),
    {
        let wanted = id.to_owned();
        let mut i: usize = 0;
        while i < self.connectors.len()
            invariant
                i <= self.connectors@.len(),
                wanted@ == id@,
                forall|j: int| 0 <= j < i ==> (#[trigger] self.connectors@[j]).id@ != id@,
            decreases self.connectors@.len() - i,
        {
            if self.connectors[i].id.eq(&wanted) {
                return true;
            }
            i = i + 1;
        }
        false
    }
}

} // verus!
