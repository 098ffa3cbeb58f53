//! Assembly of a Nucleus server from a project: which parts it serves,
//! and with which transport security.

pub mod bootstrap;
pub mod proxy;

use vstd::prelude::*;
use crate::project::NucleusProject;
use crate::project::config::{TlsConfig, TlsStrategy};

verus! {

/// Whether the admin interface asks for authentication.
#[derive(Clone, Copy, Debug, PartialEq, Eq, Structural)]
pub enum AuthMode {
    Disabled,
    Required,
}

/// How the site's front end is served.
#[derive(Clone, Debug)]
pub enum FrontendMode {
    /// Requests go to the framework's development server, started in this directory.
    Proxy(Vec<u8>),
    /// Files are served from this directory.
    Static(Vec<u8>),
}

/// A server under construction.
pub struct NucleusServer {
    pub project: NucleusProject,
    pub content_api: bool,
    pub admin: Option<AuthMode>,
    pub frontend: Option<FrontendMode>,
    pub tls: Option<TlsConfig>,
}

/// Why a TLS configuration was refused.
#[derive(Clone, Copy, Debug, PartialEq, Eq, Structural)]
pub enum TlsSetupError {
    /// The `letsencrypt` strategy needs `domain`.
    MissingDomain,
    /// The `file` strategy needs `certificate_file` and `private_key_file`.
    MissingCertificateFiles,
}

/// The error, if any, that a TLS configuration is refused with.
pub open spec fn tls_config_error(config: TlsConfig) -> Option<TlsSetupError> {
    match config.strategy {
        TlsStrategy::Letsencrypt => if config.domain is None {
            Some(TlsSetupError::MissingDomain)
        } else {
            None
        },
        TlsStrategy::File => if config.certificate_file is None || config.private_key_file is None {
            Some(TlsSetupError::MissingCertificateFiles)
        } else {
            None
        },
    }
}

/// A TLS configuration is accepted exactly when its strategy has what it
/// needs: letsencrypt a domain, file both the certificate and the private
/// key file. The fields the strategy does not use play no part.
pub proof fn lemma_tls_accepted_iff_complete(c: TlsConfig)
    ensures
        c.strategy == TlsStrategy::Letsencrypt ==> (tls_config_error(c) is None <==> c.domain is Some),
        c.strategy == TlsStrategy::File ==> (tls_config_error(c) is None <==> (c.certificate_file is Some
            && c.private_key_file is Some)),
        tls_config_error(c) matches Some(e) ==> (e == TlsSetupError::MissingDomain <==> c.strategy
            == TlsStrategy::Letsencrypt),
{
}

/// Two configurations with the same strategy, which agree on whether the
/// fields that strategy needs are present, are accepted or refused alike,
/// whatever their other fields hold.
pub proof fn lemma_tls_unused_fields_ignored(c1: TlsConfig, c2: TlsConfig)
    requires
        c1.strategy == c2.strategy,
        c1.strategy == TlsStrategy::Letsencrypt ==> (c1.domain is Some <==> c2.domain is Some),
        c1.strategy == TlsStrategy::File ==> (c1.certificate_file is Some
            <==> c2.certificate_file is Some) && (c1.private_key_file is Some
            <==> c2.private_key_file is Some),
    ensures
        tls_config_error(c1) == tls_config_error(c2),
{
}

impl TlsSetupError {
    /// The text that reports this error.
    pub fn message(&self) -> (m: String)
        ensures
            *self == TlsSetupError::MissingDomain ==> m@ == "TLS strategy 'letsencrypt' requires a domain"@,
            *self == TlsSetupError::MissingCertificateFiles ==> m@
                == "TLS strategy 'file' requires certificate_file and private_key_file"@,
    {
        match self {
            TlsSetupError::MissingDomain => "TLS strategy 'letsencrypt' requires a domain".to_owned(),
            TlsSetupError::MissingCertificateFiles => {
                "TLS strategy 'file' requires certificate_file and private_key_file".to_owned()
            },
        }
    }
}

impl NucleusServer {
    /// A server for `project` that serves nothing yet.
    pub fn new(project: NucleusProject) -> (s: Self)
        ensures
            s.project == project,
            !s.content_api,
            s.admin is None,
            s.frontend is None,
            s.tls is None,
    {
        NucleusServer { project, content_api: false, admin: None, frontend: None, tls: None }
    }

    /// The same server, also serving the content API.
    pub fn with_content_api(self) -> (s: Self)
        ensures
            s == (NucleusServer { content_api: true, ..self }),
    {
        let mut s = self;
        s.content_api = true;
        s
    }

    /// The same server, also serving the admin interface with `auth`.
    pub fn with_admin(self, auth: AuthMode) -> (s: Self)
        ensures
            s == (NucleusServer { admin: Some(auth), ..self }),
    {
        let mut s = self;
        s.admin = Some(auth);
        s
    }

    /// The same server, with the front end proxied to the development
    /// server of the framework in `frontend_dir`.
    pub fn with_proxy(self, frontend_dir: Vec<u8>) -> (s: Self)
        ensures
            s == (NucleusServer { frontend: Some(FrontendMode::Proxy(frontend_dir)), ..self }),
    {
        let mut s = self;
        s.frontend = Some(FrontendMode::Proxy(frontend_dir));
        s
    }

    /// The same server, with the front end served as files from `out_dir`.
    pub fn with_static_files(self, out_dir: Vec<u8>) -> (s: Self)
        ensures
            s == (NucleusServer { frontend: Some(FrontendMode::Static(out_dir)), ..self }),
    {
        let mut s = self;
        s.frontend = Some(FrontendMode::Static(out_dir));
        s
    }

    /// The same server, with TLS set up from `config`; refused when the
    /// strategy lacks what it needs.
    pub fn with_tls(self, config: &TlsConfig) -> (r: Result<Self, TlsSetupError>)
        ensures
            match tls_config_error(*config) {
                Some(e) => r == Err::<Self, TlsSetupError>(e),
                None => r matches Ok(s) && s == (NucleusServer { tls: Some(*config), ..self }),
            },
    {
        match config.strategy {
            TlsStrategy::Letsencrypt => {
                if config.domain.is_none() {
                    return Err(TlsSetupError::MissingDomain);
                }
            },
            TlsStrategy::File => {
                if config.certificate_file.is_none() || config.private_key_file.is_none() {
                    return Err(TlsSetupError::MissingCertificateFiles);
                }
            },
        }
        let mut s = self;
        s.tls = Some(config.clone());
        Ok(s)
    }
}

} // verus!
