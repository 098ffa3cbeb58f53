//! The server that `nucleus dev` runs.

use vstd::prelude::*;
use vstd::utf8::encode_utf8;
use crate::path::{join, join_path};
use crate::project::NucleusProject;
use crate::server::{AuthMode, FrontendMode, NucleusServer};

verus! {

/// The development server for `project`: content API on, admin interface
/// without authentication, and the front end proxied to the framework's
/// development server in `<root>/frontend`; no TLS.
pub fn dev_server(project: NucleusProject) -> (s: NucleusServer)
    ensures
        s.project == project,
        s.content_api,
        s.admin == Some(AuthMode::Disabled),
        s.frontend matches Some(FrontendMode::Proxy(d)) && d@ == join_path(project.root@, encode_utf8("frontend"@)),
        s.tls is None,
{
    let frontend = join(project.root.as_slice(), "frontend".as_bytes());
    NucleusServer::new(project).with_content_api().with_admin(AuthMode::Disabled).with_proxy(frontend)
}

} // verus!
