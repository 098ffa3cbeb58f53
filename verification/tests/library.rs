use nucleus::commands::dev_command::dev_server;
use nucleus::commands::init_command::{
    dir_name_from_lowercase, init_template_vars, project_dir_name, render, Framework,
};
use nucleus::frameworks::next::{create_next_app_args, patched_next_config};
use nucleus::path::{join, parent};
use nucleus::project::collection::is_collection_file;
use nucleus::project::config::{
    default_admin_path, default_port, AdminConfig, BuildConfig, NucleusConfig, ServeConfig,
    SiteConfig, TlsConfig, TlsStrategy,
};
use nucleus::project::{collection_sources_dir, config_file, root_search_step, NucleusProject, RootSearch};
use nucleus::server::bootstrap::{
    admin_url, dev_proxy_port, health_answer, framework_server_args, health_greeting, server_header, site_url,
    DEV_PROXY_PORT,
};
use nucleus::server::proxy::{
    accept_header_value, derive_accept_key, dev_server_addr, is_websocket_upgrade,
    names_websocket, proxy_target_uri, unavailable_answer, proxy_action, next_reply_state, ProxyAction, classify_reply_line, ws_handshake,
    ReplyLine,
};
use nucleus::server::{AuthMode, FrontendMode, NucleusServer, TlsSetupError};
use nucleus::text::{contains_str, decimal_string, replace_str, trim_str};

fn sample_config(out_dir: &str) -> NucleusConfig {
    NucleusConfig {
        site: SiteConfig { name: "My Site".to_string() },
        admin: AdminConfig { path: "/nucleus".to_string() },
        build: BuildConfig { command: "npm run build".to_string(), out_dir: out_dir.to_string() },
        serve: ServeConfig { port: 3000 },
        tls: None,
    }
}

fn text(v: Vec<u8>) -> String {
    String::from_utf8(v).unwrap()
}

fn joins(a: &str, b: &str) -> String {
    text(join(a.as_bytes(), b.as_bytes()))
}

fn parents(p: &str) -> Option<String> {
    parent(p.as_bytes()).map(text)
}

fn sample_project(root: &str) -> NucleusProject {
    NucleusProject { root: root.as_bytes().to_vec(), config: sample_config("frontend/out"), collections: Vec::new() }
}

fn tls(strategy: TlsStrategy, domain: Option<&str>, cert: Option<&str>, key: Option<&str>) -> TlsConfig {
    TlsConfig {
        enabled: true,
        strategy,
        domain: domain.map(|s| s.to_string()),
        certificate_file: cert.map(|s| s.to_string()),
        private_key_file: key.map(|s| s.to_string()),
    }
}

#[test]
fn replace_is_leftmost_and_non_overlapping() {
    assert_eq!(replace_str("aaaa", "aa", "b"), "bb");
    assert_eq!(replace_str("aaa", "aa", "b"), "ba");
    assert_eq!(replace_str("hello world", "o", "0"), "hell0 w0rld");
    assert_eq!(replace_str("nothing here", "xyz", "q"), "nothing here");
    assert_eq!(replace_str("", "a", "b"), "");
}

#[test]
fn contains_finds_occurrences() {
    assert!(contains_str("keep-alive, Upgrade", "Upgrade"));
    assert!(!contains_str("keep-alive", "upgrade"));
    assert!(contains_str("abc", ""));
}

#[test]
fn trim_removes_unicode_white_space() {
    assert_eq!(trim_str("  hello \t\n"), "hello");
    assert_eq!(trim_str("\u{3000}name\u{a0}"), "name");
    assert_eq!(trim_str("   "), "");
    assert_eq!(trim_str("a b"), "a b");
}

#[test]
fn decimal_matches_to_string() {
    for n in [0u64, 7, 10, 99, 3000, 9889, 65535, u64::MAX] {
        assert_eq!(decimal_string(n), n.to_string());
    }
}

#[test]
fn join_follows_path_push() {
    assert_eq!(joins("/srv/site", "nucleus"), "/srv/site/nucleus");
    assert_eq!(joins("/srv/site/", "nucleus"), "/srv/site/nucleus");
    assert_eq!(joins("", "nucleus"), "nucleus");
    assert_eq!(joins("/srv/site", "/var/www"), "/var/www");
    assert_eq!(joins("site", ""), "site/");
    for (b, p) in [("/a/b", "c/d"), ("/a/", "x"), ("rel", "/abs"), ("", "q"), ("a", "")] {
        let expected = std::path::Path::new(b).join(p);
        assert_eq!(joins(b, p), expected.to_string_lossy());
    }
}

#[test]
fn parent_drops_last_component() {
    assert_eq!(parents("/home/user/site"), Some("/home/user".to_string()));
    assert_eq!(parents("/home"), Some("/".to_string()));
    assert_eq!(parents("/"), None);
    assert_eq!(parents(""), None);
    assert_eq!(parents("site"), Some("".to_string()));
    assert_eq!(parents("/home/user/"), Some("/home".to_string()));
    assert_eq!(parents("/home/user//site"), Some("/home/user".to_string()));
    for p in ["/home/user/site", "/home", "/", "a/b", "a", "/a/b/", "//a", "/a//b//"] {
        let expected = std::path::Path::new(p).parent().map(|q| q.to_string_lossy().into_owned());
        assert_eq!(parents(p), expected, "{}", p);
    }
}

#[test]
fn project_directories() {
    let p = sample_project("/srv/site");
    assert_eq!(text(p.nucleus_dir()), "/srv/site/nucleus");
    assert_eq!(text(p.collections_dir()), "/srv/site/collections");
    assert_eq!(text(p.content_dir()), "/srv/site/content");
    assert_eq!(text(p.content_dir_for("posts")), "/srv/site/content/posts");
    assert_eq!(text(p.media_dir()), "/srv/site/content/media");
    assert_eq!(p.media_dir(), p.content_dir_for("media"));
    assert_eq!(text(p.frontend_dir()), "/srv/site/frontend");
    assert_eq!(text(p.db_path()), "/srv/site/nucleus/nucleus.db");
    assert_eq!(text(p.out_dir()), "/srv/site/frontend/out");
}

#[test]
fn absolute_out_dir_stands_alone() {
    let mut p = sample_project("/srv/site");
    p.config = sample_config("/var/www/html");
    assert_eq!(text(p.out_dir()), "/var/www/html");
}

#[test]
fn config_file_lies_in_nucleus_dir() {
    let p = sample_project("/srv/site");
    assert_eq!(text(config_file(b"/srv/site")), "/srv/site/nucleus/nucleus.toml");
    assert_eq!(text(config_file(b"/srv/site")), text(join(&p.nucleus_dir(), "nucleus.toml".as_bytes())));
    assert_eq!(text(collection_sources_dir(b"/srv/site")), "/srv/site/nucleus/collections");
}

#[test]
fn root_search_walks_up() {
    match root_search_step(b"/srv/site", true) {
        RootSearch::Found(d) => assert_eq!(d, b"/srv/site"),
        other => panic!("unexpected {:?}", other),
    }
    match root_search_step(b"/srv/site/frontend", false) {
        RootSearch::Ascend(d) => assert_eq!(d, b"/srv/site"),
        other => panic!("unexpected {:?}", other),
    }
    assert!(matches!(root_search_step(b"/", false), RootSearch::NotFound));
}

#[test]
fn defaults() {
    assert_eq!(default_admin_path(), "/nucleus");
    assert_eq!(default_port(), 3000);
}

#[test]
fn collection_files_are_toml() {
    assert!(is_collection_file("posts.toml"));
    assert!(is_collection_file("blog.posts.toml"));
    assert!(!is_collection_file(".toml"));
    assert!(!is_collection_file("toml"));
    assert!(!is_collection_file("posts.TOML"));
    assert!(!is_collection_file("posts.toml.bak"));
    assert!(!is_collection_file("posts."));
    for name in ["posts.toml", ".toml", "a.b.toml", "toml", "x.tomlx", "..toml"] {
        let expected = std::path::Path::new(name).extension().and_then(|e| e.to_str()) == Some("toml");
        assert_eq!(is_collection_file(name), expected, "{}", name);
    }
}

#[test]
fn server_builders_keep_other_parts() {
    let s = NucleusServer::new(sample_project("/srv/site"));
    assert!(!s.content_api && s.admin.is_none() && s.frontend.is_none() && s.tls.is_none());
    let s = s.with_content_api().with_admin(AuthMode::Required).with_static_files(b"/srv/out".to_vec());
    assert!(s.content_api);
    assert_eq!(s.admin, Some(AuthMode::Required));
    assert!(matches!(&s.frontend, Some(FrontendMode::Static(d)) if d == b"/srv/out"));
    let s = s.with_proxy(b"/srv/site/frontend".to_vec());
    assert!(matches!(&s.frontend, Some(FrontendMode::Proxy(d)) if d == b"/srv/site/frontend"));
    assert!(s.content_api);
}

#[test]
fn tls_letsencrypt_needs_domain() {
    let s = NucleusServer::new(sample_project("/srv/site"));
    let err = s.with_tls(&tls(TlsStrategy::Letsencrypt, None, Some("c.pem"), Some("k.pem"))).err();
    assert_eq!(err, Some(TlsSetupError::MissingDomain));
    assert_eq!(TlsSetupError::MissingDomain.message(), "TLS strategy 'letsencrypt' requires a domain");
    let s = NucleusServer::new(sample_project("/srv/site"));
    let ok = s.with_tls(&tls(TlsStrategy::Letsencrypt, Some("example.org"), None, None)).ok().unwrap();
    assert_eq!(ok.tls.unwrap().domain.as_deref(), Some("example.org"));
}

#[test]
fn tls_file_needs_both_files() {
    for (c, k) in [(None, Some("k.pem")), (Some("c.pem"), None), (None, None)] {
        let s = NucleusServer::new(sample_project("/srv/site"));
        let err = s.with_tls(&tls(TlsStrategy::File, Some("example.org"), c, k)).err();
        assert_eq!(err, Some(TlsSetupError::MissingCertificateFiles));
    }
    assert_eq!(
        TlsSetupError::MissingCertificateFiles.message(),
        "TLS strategy 'file' requires certificate_file and private_key_file"
    );
    let s = NucleusServer::new(sample_project("/srv/site")).with_content_api();
    let ok = s.with_tls(&tls(TlsStrategy::File, None, Some("c.pem"), Some("k.pem"))).ok().unwrap();
    assert!(ok.content_api);
    let t = ok.tls.unwrap();
    assert_eq!(t.certificate_file.as_deref(), Some("c.pem"));
    assert_eq!(t.private_key_file.as_deref(), Some("k.pem"));
}

#[test]
fn accept_key_matches_rfc_6455_example() {
    assert_eq!(derive_accept_key("dGhlIHNhbXBsZSBub25jZQ=="), "s3pPLMBiTxaQ9kYGzzhZRbK+xOo=");
    assert_eq!(accept_header_value(Some("dGhlIHNhbXBsZSBub25jZQ==")), "s3pPLMBiTxaQ9kYGzzhZRbK+xOo=");
    assert_eq!(accept_header_value(None), derive_accept_key(""));
    assert_eq!(derive_accept_key("").len(), 28);
}

#[test]
fn proxy_addresses() {
    assert_eq!(dev_server_addr(9889), "127.0.0.1:9889");
    assert_eq!(proxy_target_uri(9889, Some("/blog?page=2")), "http://127.0.0.1:9889/blog?page=2");
    assert_eq!(proxy_target_uri(9889, None), "http://127.0.0.1:9889/");
    let (status, body) = unavailable_answer();
    assert_eq!(status, 502);
    assert_eq!(body, "Dev server unavailable - is it running?");
}

#[test]
fn websocket_upgrade_detection() {
    assert!(is_websocket_upgrade(Some("WebSocket")));
    assert!(is_websocket_upgrade(Some("h2c, websocket")));
    assert!(!is_websocket_upgrade(Some("h2c")));
    assert!(!is_websocket_upgrade(None));
    assert!(names_websocket("websocket"));
    assert!(!names_websocket("WebSocket"));
}

#[test]
fn handshake_text() {
    let headers = vec![
        ("host".to_string(), Some("localhost:3000".to_string())),
        ("x-binary".to_string(), None),
        ("upgrade".to_string(), Some("websocket".to_string())),
    ];
    assert_eq!(
        ws_handshake("/_next/webpack-hmr", &headers),
        "GET /_next/webpack-hmr HTTP/1.1\r\nhost: localhost:3000\r\nupgrade: websocket\r\n\r\n"
    );
    assert_eq!(ws_handshake("/", &Vec::new()), "GET / HTTP/1.1\r\n\r\n");
}

#[test]
fn reply_lines() {
    assert_eq!(classify_reply_line(Some(2), "\r\n"), ReplyLine::HeadersDone);
    assert_eq!(classify_reply_line(Some(0), ""), ReplyLine::Closed);
    assert_eq!(classify_reply_line(None, ""), ReplyLine::Closed);
    assert_eq!(classify_reply_line(Some(20), "Upgrade: websocket\r\n"), ReplyLine::More);
}

#[test]
fn bootstrap_decisions() {
    assert_eq!(dev_proxy_port(&Some(FrontendMode::Proxy(b"f".to_vec()))), Some(DEV_PROXY_PORT));
    assert_eq!(DEV_PROXY_PORT, 9889);
    assert_eq!(dev_proxy_port(&Some(FrontendMode::Static(b"o".to_vec()))), None);
    assert_eq!(dev_proxy_port(&None), None);
    assert_eq!(framework_server_args(9889), vec!["run", "dev", "--", "--port", "9889"]);
    assert_eq!(server_header(), "nucleus-cms/1.0");
    assert_eq!(health_greeting("My Site"), "Hello My Site");
    assert_eq!(site_url(3000), "http://localhost:3000");
    assert_eq!(admin_url(3000, "/nucleus"), "http://localhost:3000/nucleus");
}

#[test]
fn dev_server_setup() {
    let s = dev_server(sample_project("/srv/site"));
    assert!(s.content_api);
    assert_eq!(s.admin, Some(AuthMode::Disabled));
    assert!(matches!(&s.frontend, Some(FrontendMode::Proxy(d)) if d == b"/srv/site/frontend"));
    assert!(s.tls.is_none());
}

#[test]
fn framework_menu() {
    assert_eq!(Framework::variants(), vec!["Next.js", "None"]);
    assert_eq!(Framework::from_index(0), Framework::Next);
    assert_eq!(Framework::from_index(1), Framework::NoFramework);
    assert_eq!(Framework::from_index(7), Framework::NoFramework);
}

#[test]
fn render_substitutes_variables() {
    let vars = init_template_vars("My Site");
    assert_eq!(vars, vec![("name".to_string(), "My Site".to_string())]);
    assert_eq!(render("[site]\nname = \"{{name}}\"\n", &vars), "[site]\nname = \"My Site\"\n");
    assert_eq!(render("{{name}} / {{name}} / {{other}}", &vars), "My Site / My Site / {{other}}");
    assert_eq!(render("plain text", &vars), "plain text");
    assert_eq!(render("{{name}}", &Vec::new()), "{{name}}");
}

#[test]
fn project_directory_names() {
    assert_eq!(project_dir_name("  My Cool Site  "), "my-cool-site");
    assert_eq!(project_dir_name("Blog"), "blog");
    assert_eq!(dir_name_from_lowercase("a b  c"), "a-b--c");
    for name in ["  Straße Café ", "ΟΔΟΣ", "x\ty"] {
        assert_eq!(project_dir_name(name), name.trim().to_lowercase().replace(" ", "-"));
        assert!(!project_dir_name(name).contains(' '));
    }
}

#[test]
fn next_app_arguments() {
    assert_eq!(
        create_next_app_args(),
        vec![
            "create-next-app@latest", "frontend", "--ts", "--tailwind", "--eslint",
            "--disable-git", "--app", "--no-src-dir", "--import-alias", "@/*", "--yes"
        ]
    );
}

#[test]
fn next_config_patch() {
    let config_text = "import type { NextConfig } from \"next\";\n\nconst nextConfig: NextConfig = {\n  /* config options here */\n};\n\nexport default nextConfig;\n";
    let patched = patched_next_config(config_text);
    assert_eq!(
        patched,
        "import type { NextConfig } from \"next\";\n\nconst nextConfig: NextConfig = {\n    // Nucleus: static export required for nucleus\n    output: \"export\",\n};\nexport default nextConfig;\n"
    );
    assert_ne!(patched, config_text);
    let custom = "const nextConfig = { reactStrictMode: true };\n";
    assert_eq!(patched_next_config(custom), custom);
}

#[test]
fn joining_twice_equals_joining_once() {
    assert_eq!(joins(&joins("/srv/site", "nucleus"), "nucleus.toml"), joins("/srv/site", "nucleus/nucleus.toml"));
    assert_eq!(joins(&joins("/srv/site/", "content"), "posts"), joins("/srv/site/", "content/posts"));
    assert_eq!(joins(&joins("", "a"), "b"), joins("", "a/b"));
}

#[test]
fn walking_up_ends_at_the_root() {
    let mut current = b"/home/user/projects/site/frontend/app".to_vec();
    let mut steps = 0;
    loop {
        match root_search_step(&current, false) {
            RootSearch::Ascend(p) => {
                assert!(p.len() < current.len());
                current = p;
            }
            RootSearch::NotFound => break,
            RootSearch::Found(_) => panic!("no marker was reported"),
        }
        steps += 1;
    }
    assert_eq!(current, b"/");
    assert_eq!(steps, 6);
}

#[test]
fn replacement_length_counts_occurrences() {
    let s = "a-b-c-d";
    let r = replace_str(s, "-", "::");
    assert_eq!(r.chars().count(), s.chars().count() + 3 * (2 - 1));
    assert_eq!(r, "a::b::c::d");
}

#[test]
fn menu_entries_name_their_framework() {
    let labels = Framework::variants();
    for (i, label) in labels.iter().enumerate() {
        let expected = if *label == "Next.js" { Framework::Next } else { Framework::NoFramework };
        assert_eq!(Framework::from_index(i), expected);
    }
}

#[test]
fn roots_need_not_be_text() {
    let root = vec![b'/', b's', b'r', b'v', b'/', 0xff, 0xfe];
    let p = NucleusProject { root: root.clone(), config: sample_config("out"), collections: Vec::new() };
    let mut expected = root.clone();
    expected.extend_from_slice(b"/nucleus/nucleus.db");
    assert_eq!(p.db_path(), expected);
    match root_search_step(&root, false) {
        RootSearch::Ascend(d) => assert_eq!(d, b"/srv"),
        other => panic!("unexpected {:?}", other),
    }
}

#[test]
fn websocket_requests_get_the_upgrade_answer() {
    match proxy_action(Some("websocket"), Some("dGhlIHNhbXBsZSBub25jZQ==")) {
        ProxyAction::Upgrade(a) => {
            assert_eq!(a.status, 101);
            assert_eq!(a.upgrade, "websocket");
            assert_eq!(a.connection, "upgrade");
            assert_eq!(a.accept, "s3pPLMBiTxaQ9kYGzzhZRbK+xOo=");
        }
        ProxyAction::Forward => panic!("a WebSocket request was forwarded"),
    }
    match proxy_action(Some("WebSocket"), None) {
        ProxyAction::Upgrade(a) => assert_eq!(a.accept, derive_accept_key("")),
        ProxyAction::Forward => panic!("a WebSocket request was forwarded"),
    }
    assert!(matches!(proxy_action(None, Some("x")), ProxyAction::Forward));
    assert!(matches!(proxy_action(Some("h2c"), None), ProxyAction::Forward));
}

#[test]
fn accept_keys_are_28_characters_ending_in_padding() {
    for key in ["", "a", "dGhlIHNhbXBsZSBub25jZQ==", "some longer key with spaces"] {
        let k = derive_accept_key(key);
        assert_eq!(k.len(), 28);
        assert!(k.ends_with('='));
    }
}

#[test]
fn reply_is_relayed_only_after_the_blank_line() {
    let reads: Vec<(Option<usize>, &str)> = vec![
        (Some(34), "HTTP/1.1 101 Switching Protocols\r\n"),
        (Some(20), "Upgrade: websocket\r\n"),
        (Some(2), "\r\n"),
        (Some(0), ""),
    ];
    let mut state = ReplyLine::More;
    let mut states = Vec::new();
    for (n, line) in &reads {
        state = next_reply_state(state, *n, line);
        states.push(state);
    }
    assert_eq!(states, vec![ReplyLine::More, ReplyLine::More, ReplyLine::HeadersDone, ReplyLine::HeadersDone]);
    let mut state = ReplyLine::More;
    for (n, line) in [(Some(5usize), "abc\r\n"), (None, ""), (Some(2), "\r\n")] {
        state = next_reply_state(state, n, line);
    }
    assert_eq!(state, ReplyLine::Closed);
}

#[test]
fn health_check_answer() {
    let (status, body) = health_answer("My Site");
    assert_eq!(status, 200);
    assert_eq!(body, "Hello My Site");
}

#[test]
fn patching_twice_equals_patching_once() {
    let texts = [
        "import type { NextConfig } from \"next\";\n\nconst nextConfig: NextConfig = {\n  /* config options here */\n};\n\nexport default nextConfig;\n",
        "const nextConfig: NextConfig = {\n  /* config options here */\n};\nconst nextConfig: NextConfig = {\n  /* config options here */\n};\n",
        "nothing to patch",
    ];
    for t in texts {
        let once = patched_next_config(t);
        assert_eq!(patched_next_config(&once), once);
    }
}
