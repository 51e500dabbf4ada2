//! Settings of a server.
use crate::text::{decimal, decimal_text};
use crate::validator::DefaultValidator;
use vstd::prelude::*;
use vstd::string::*;

verus! {

/// How often stale clients are looked for, in seconds.
pub const EVICTION_INTERVAL_SECS: u64 = 60;

/// Collects the settings of a server.
pub struct CloudServerBuilder<V> {
    port: u16,
    validator: V,
    cert_path: Option<String>,
    key_path: Option<String>,
    command_buffer_size: usize,
}

/// The settings as mathematics.
pub struct SettingsView<V> {
    pub port: u16,
    pub validator: V,
    pub cert_path: Option<Seq<char>>,
    pub key_path: Option<Seq<char>>,
    pub command_buffer_size: usize,
}

impl<V> SettingsView<V> {
    /// A certificate is set together with its key.
    pub open spec fn well_formed(self) -> bool {
        self.cert_path is Some <==> self.key_path is Some
    }
}

/// A path, if there is one, as a sequence of characters.
pub open spec fn path_view(path: Option<String>) -> Option<Seq<char>> {
    match path {
        Some(path) => Some(path@),
        None => None,
    }
}

impl<V> View for CloudServerBuilder<V> {
    type V = SettingsView<V>;

    closed spec fn view(&self) -> SettingsView<V> {
        SettingsView {
            port: self.port,
            validator: self.validator,
            cert_path: path_view(self.cert_path),
            key_path: path_view(self.key_path),
            command_buffer_size: self.command_buffer_size,
        }
    }
}

/// Where the server's certificate comes from.
pub enum TlsSource {
    /// From these files.
    Files { cert: String, key: String },
    /// The server makes its own, unless it did so before.
    SelfSigned,
}

/// What a server is started with.
pub struct ServerPlan<V> {
    /// Host and port to listen on.
    pub address: String,
    pub tls: TlsSource,
    pub validator: V,
}

impl CloudServerBuilder<Option<DefaultValidator>> {
    /// The settings that a server starts from. A build for debugging knows one
    /// token; any other lets nobody in until a validator is set.
    pub fn new(debug_build: bool) -> (builder: Self)
        ensures
            builder@.port == 50051,
            builder@.validator is Some <==> debug_build,
            debug_build ==> builder@.validator->0.token@ == "debug-token-123"@,
            builder@.cert_path is None,
            builder@.key_path is None,
            builder@.command_buffer_size == 100,
            builder@.well_formed(),
    {
        let validator = if debug_build {
            Some(DefaultValidator { token: "debug-token-123".to_owned() })
        } else {
            None
        };
        CloudServerBuilder {
            port: 50051,
            validator,
            cert_path: None,
            key_path: None,
            command_buffer_size: 100,
        }
    }
}

impl<V> CloudServerBuilder<V> {
    /// Sets the port to listen on.
    pub fn port(self, port: u16) -> (builder: Self)
        ensures
            builder@ == (SettingsView { port, ..self@ }),
            self@.well_formed() ==> builder@.well_formed(),
    {
        CloudServerBuilder { port, ..self }
    }

    /// Sets who decides about tokens.
    pub fn validator<W>(self, validator: W) -> (builder: CloudServerBuilder<W>)
        ensures
            builder@ == (SettingsView {
                port: self@.port,
                validator,
                cert_path: self@.cert_path,
                key_path: self@.key_path,
                command_buffer_size: self@.command_buffer_size,
            }),
            self@.well_formed() ==> builder@.well_formed(),
    {
        CloudServerBuilder {
            port: self.port,
            validator,
            cert_path: self.cert_path,
            key_path: self.key_path,
            command_buffer_size: self.command_buffer_size,
        }
    }

    /// Notes a size for the clients' streams. The number is only kept: every
    /// stream holds `COMMAND_CAPACITY` commands.
    pub fn command_buffer_size(self, size: usize) -> (builder: Self)
        ensures
            builder@ == (SettingsView { command_buffer_size: size, ..self@ }),
            self@.well_formed() ==> builder@.well_formed(),
    {
        CloudServerBuilder { command_buffer_size: size, ..self }
    }

    /// Sets the files that hold the certificate and its key.
    pub fn with_certificates(self, cert_pem_path: String, key_pem_path: String) -> (builder: Self)
        ensures
            builder@ == (SettingsView {
                cert_path: Some(cert_pem_path@),
                key_path: Some(key_pem_path@),
                ..self@
            }),
            builder@.well_formed(),
    {
        CloudServerBuilder {
            cert_path: Some(cert_pem_path),
            key_path: Some(key_pem_path),
            ..self
        }
    }

    /// What the server is started with: it listens on every interface, and
    /// takes certificates from files if both files are set.
    pub fn plan(self) -> (plan: ServerPlan<V>)
        ensures
            plan.address@ == "0.0.0.0:"@ + decimal(self@.port as nat),
            plan.validator == self@.validator,
            plan.tls is Files <==> self@.cert_path is Some && self@.key_path is Some,
            plan.tls is Files ==> plan.tls->cert@ == self@.cert_path->0 && plan.tls->key@
                == self@.key_path->0,
    {
        let address = "0.0.0.0:".to_owned().concat(decimal_text(self.port).as_str());
        let tls = match (self.cert_path, self.key_path) {
            (Some(cert), Some(key)) => TlsSource::Files { cert, key },
            _ => TlsSource::SelfSigned,
        };
        ServerPlan { address, tls, validator: self.validator }
    }
}

} // verus!
