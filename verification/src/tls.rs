//! The settings of TLS domains. Paths are texts and spans of time are
//! nanoseconds.

use crate::config_map::ConfigMap;
use crate::text::{join3, pieces_follow_the_text, split_at_char, split_text, texts};
use vstd::prelude::*;

verus! {

/// How a server offers itself over TLS.
#[derive(Debug, Clone)]
pub struct TlsDomainServer {
    /// The address:port combination on which the server will listen for client
    /// connections.
    pub bind_address: String,
    /// The path to an x509 PEM encoded private key file.
    pub pem_private_key: Option<String>,
    /// The path to an x509 PEM encoded certificate file.
    pub pem_cert: Option<String>,
    /// The path to an x509 PEM encoded CA chain file.
    pub pem_ca: Option<String>,
    /// Paths of further CA certificates, each a file or a directory of files.
    pub pem_root_certs: Vec<String>,
}

/// How a client reaches a server over TLS.
#[derive(Debug, Clone)]
pub struct TlsDomainClient {
    /// The name of this domain, unique amongst all domains.
    pub name: String,
    /// If set, use ssh to connect, start the server, and obtain a certificate.
    /// The value is "user@host:port".
    pub bootstrap_via_ssh: Option<String>,
    /// Options of the one-shot bootstrap ssh session.
    pub ssh_option: ConfigMap,
    /// The host:port pair of the remote server.
    pub remote_address: String,
    pub pem_private_key: Option<String>,
    pub pem_cert: Option<String>,
    pub pem_ca: Option<String>,
    pub pem_root_certs: Vec<String>,
    /// Do not check that the server's certificate matches its host name.
    pub accept_invalid_hostnames: bool,
    /// The host name to expect in the certificate, where it is not that of the
    /// remote address.
    pub expected_cn: Option<String>,
    /// Connect to this domain at startup.
    pub connect_automatically: bool,
    pub read_timeout: u128,
    pub write_timeout: u128,
    /// How long to wait for the TCP handshake before giving up on an address.
    pub connect_timeout: u128,
    pub local_echo_threshold_ms: Option<u64>,
    /// The path to the multiplexer's program on the remote host.
    pub remote_wezterm_path: Option<String>,
    /// Show the time since the last response when waiting for one.
    pub overlay_lag_indicator: bool,
}

/// A target for ssh: who, where.
#[derive(Debug, Clone)]
pub struct SshParameters {
    pub username: Option<String>,
    pub host_and_port: String,
}

/// A text that names no ssh target.
#[derive(Debug)]
pub struct SshParametersError {
    pub text: String,
}

impl SshParametersError {
    /// The error as it is reported.
    pub fn message(&self) -> (s: String)
        ensures
            s@ == "failed to parse ssh parameters from `"@ + self.text@ + "`"@,
    {
        join3("failed to parse ssh parameters from `", self.text.as_str(), "`")
    }
}

/// Whether `p` is what a text of the form `user@host:port` or `host:port` says.
pub open spec fn is_target(p: SshParameters, text: Seq<char>) -> bool {
    let parts = split_at_char(text, '@');
    ||| parts.len() == 1 && p.username is None && p.host_and_port@ == parts[0]
    ||| parts.len() == 2 && p.username is Some && p.username->0@ == parts[0] && p.host_and_port@
        == parts[1]
}

impl SshParameters {
    /// Reads a text of the form `user@host:port` or `host:port`.
    pub fn parse(text: &str) -> (r: Result<SshParameters, SshParametersError>)
        ensures
            match r {
                Ok(p) => is_target(p, text@),
                Err(e) => split_at_char(text@, '@').len() > 2 && e.text@ == text@,
            },
    {
        let parts = split_text(text, '@');
        assert(texts(parts@).len() == parts@.len());
        if parts.len() == 1 {
            assert(texts(parts@)[0] == parts@[0]@);
            Ok(SshParameters { username: None, host_and_port: parts[0].clone() })
        } else if parts.len() == 2 {
            assert(texts(parts@)[0] == parts@[0]@);
            assert(texts(parts@)[1] == parts@[1]@);
            Ok(
                SshParameters {
                    username: Some(parts[0].clone()),
                    host_and_port: parts[1].clone(),
                },
            )
        } else {
            Err(SshParametersError { text: text.to_owned() })
        }
    }
}

impl TlsDomainClient {
    /// The target of the bootstrap session, if there is to be one.
    pub fn ssh_parameters(&self) -> (r: Option<Result<SshParameters, SshParametersError>>)
        ensures
            match r {
                None => self.bootstrap_via_ssh is None,
                Some(Ok(p)) => self.bootstrap_via_ssh is Some && is_target(
                    p,
                    self.bootstrap_via_ssh->0@,
                ),
                Some(Err(e)) => self.bootstrap_via_ssh is Some && split_at_char(
                    self.bootstrap_via_ssh->0@,
                    '@',
                ).len() > 2 && e.text@ == self.bootstrap_via_ssh->0@,
            },
    {
        match &self.bootstrap_via_ssh {
            None => None,
            Some(text) => Some(SshParameters::parse(text.as_str())),
        }
    }
}

impl Default for TlsDomainServer {
    fn default() -> (s: TlsDomainServer)
        ensures
            s.bind_address@ == Seq::<char>::empty(),
            s.pem_private_key is None,
            s.pem_cert is None,
            s.pem_ca is None,
            s.pem_root_certs@.len() == 0,
    {
        TlsDomainServer {
            bind_address: String::new(),
            pem_private_key: None,
            pem_cert: None,
            pem_ca: None,
            pem_root_certs: Vec::new(),
        }
    }
}

impl Default for TlsDomainClient {
    fn default() -> (c: TlsDomainClient)
        ensures
            c.name@ == Seq::<char>::empty(),
            c.bootstrap_via_ssh is None,
            c.ssh_option@ == Map::<Seq<char>, Seq<char>>::empty(),
            c.ssh_option.wf(),
            c.remote_address@ == Seq::<char>::empty(),
            c.pem_private_key is None,
            c.pem_cert is None,
            c.pem_ca is None,
            c.pem_root_certs@.len() == 0,
            !c.accept_invalid_hostnames,
            c.expected_cn is None,
            !c.connect_automatically,
            c.read_timeout == 0,
            c.write_timeout == 0,
            c.connect_timeout == 0,
            c.local_echo_threshold_ms is None,
            c.remote_wezterm_path is None,
            !c.overlay_lag_indicator,
    {
        TlsDomainClient {
            name: String::new(),
            bootstrap_via_ssh: None,
            ssh_option: ConfigMap::new(),
            remote_address: String::new(),
            pem_private_key: None,
            pem_cert: None,
            pem_ca: None,
            pem_root_certs: Vec::new(),
            accept_invalid_hostnames: false,
            expected_cn: None,
            connect_automatically: false,
            read_timeout: 0,
            write_timeout: 0,
            connect_timeout: 0,
            local_echo_threshold_ms: None,
            remote_wezterm_path: None,
            overlay_lag_indicator: false,
        }
    }
}

/// A target is taken apart at its one `@`: what is ahead of it is the user and
/// what follows it the host and port; without one there is no user.
pub proof fn targets_are_taken_apart(p: SshParameters, user: Seq<char>, host: Seq<char>)
    requires
        !user.contains('@'),
        !host.contains('@'),
    ensures
        is_target(p, user.push('@') + host) <==> p.username is Some && p.username->0@ == user
            && p.host_and_port@ == host,
        is_target(p, host) <==> p.username is None && p.host_and_port@ == host,
{
    pieces_follow_the_text(user, host, '@');
    pieces_follow_the_text(host, Seq::empty(), '@');
    let parts = seq![user] + seq![host];
    assert(parts[0] == user && parts[1] == host);
}

} // verus!
