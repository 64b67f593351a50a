use mutagui::endpoint::EndpointAddress;

// Local path tests
#[test]
fn test_parse_absolute_path() {
    let ep = EndpointAddress::parse("/home/user/project");
    assert_eq!(ep, EndpointAddress::Local("/home/user/project".to_string()));
}

#[test]
fn test_parse_relative_path() {
    let ep = EndpointAddress::parse("./relative/path");
    assert_eq!(ep, EndpointAddress::Local("./relative/path".to_string()));
}

#[test]
fn test_parse_tilde_path() {
    let ep = EndpointAddress::parse("~/projects/myapp");
    assert_eq!(ep, EndpointAddress::Local("~/projects/myapp".to_string()));
}

#[test]
fn test_parse_windows_path() {
    let ep = EndpointAddress::parse("C:\\Users\\test\\project");
    assert_eq!(
        ep,
        EndpointAddress::Local("C:\\Users\\test\\project".to_string())
    );
}

#[test]
fn test_parse_windows_path_forward_slash() {
    let ep = EndpointAddress::parse("D:/Projects/app");
    assert_eq!(ep, EndpointAddress::Local("D:/Projects/app".to_string()));
}

// SSH shorthand tests
#[test]
fn test_parse_ssh_shorthand_simple() {
    let ep = EndpointAddress::parse("myhost:/path/to/dir");
    assert_eq!(
        ep,
        EndpointAddress::Ssh {
            user: None,
            host: "myhost".to_string(),
            port: None,
            path: "/path/to/dir".to_string(),
        }
    );
}

#[test]
fn test_parse_ssh_shorthand_with_user() {
    let ep = EndpointAddress::parse("user@myhost:/path/to/dir");
    assert_eq!(
        ep,
        EndpointAddress::Ssh {
            user: Some("user".to_string()),
            host: "myhost".to_string(),
            port: None,
            path: "/path/to/dir".to_string(),
        }
    );
}

#[test]
fn test_parse_ssh_shorthand_with_tilde() {
    let ep = EndpointAddress::parse("server:~/code/project");
    assert_eq!(
        ep,
        EndpointAddress::Ssh {
            user: None,
            host: "server".to_string(),
            port: None,
            path: "~/code/project".to_string(),
        }
    );
}

// SSH URL tests
#[test]
fn test_parse_ssh_url_simple() {
    let ep = EndpointAddress::parse("ssh://myhost/path/to/dir");
    assert_eq!(
        ep,
        EndpointAddress::Ssh {
            user: None,
            host: "myhost".to_string(),
            port: None,
            path: "/path/to/dir".to_string(),
        }
    );
}

#[test]
fn test_parse_ssh_url_with_user() {
    let ep = EndpointAddress::parse("ssh://user@myhost/path/to/dir");
    assert_eq!(
        ep,
        EndpointAddress::Ssh {
            user: Some("user".to_string()),
            host: "myhost".to_string(),
            port: None,
            path: "/path/to/dir".to_string(),
        }
    );
}

#[test]
fn test_parse_ssh_url_with_port() {
    let ep = EndpointAddress::parse("ssh://myhost:2222/path/to/dir");
    assert_eq!(
        ep,
        EndpointAddress::Ssh {
            user: None,
            host: "myhost".to_string(),
            port: Some(2222),
            path: "/path/to/dir".to_string(),
        }
    );
}

#[test]
fn test_parse_ssh_url_with_user_and_port() {
    let ep = EndpointAddress::parse("ssh://admin@server:22/home/admin/project");
    assert_eq!(
        ep,
        EndpointAddress::Ssh {
            user: Some("admin".to_string()),
            host: "server".to_string(),
            port: Some(22),
            path: "/home/admin/project".to_string(),
        }
    );
}

// IPv6 tests
#[test]
fn test_parse_ipv6_localhost() {
    let ep = EndpointAddress::parse("[::1]:/path/to/dir");
    assert_eq!(
        ep,
        EndpointAddress::Ssh {
            user: None,
            host: "::1".to_string(),
            port: None,
            path: "/path/to/dir".to_string(),
        }
    );
}

#[test]
fn test_parse_ipv6_full_address() {
    let ep = EndpointAddress::parse("[2001:db8::1]:/var/data");
    assert_eq!(
        ep,
        EndpointAddress::Ssh {
            user: None,
            host: "2001:db8::1".to_string(),
            port: None,
            path: "/var/data".to_string(),
        }
    );
}

// Docker tests
#[test]
fn test_parse_docker_url() {
    let ep = EndpointAddress::parse("docker://mycontainer/app/data");
    assert_eq!(
        ep,
        EndpointAddress::Docker {
            container: "mycontainer".to_string(),
            path: "/app/data".to_string(),
        }
    );
}

#[test]
fn test_parse_docker_url_no_path() {
    let ep = EndpointAddress::parse("docker://mycontainer");
    assert_eq!(
        ep,
        EndpointAddress::Docker {
            container: "mycontainer".to_string(),
            path: "/".to_string(),
        }
    );
}

// Tilde expansion tests
#[test]
fn test_expand_tilde_local() {
    let ep = EndpointAddress::parse("~/projects/myapp");
    let expanded = ep.expand_tilde();
    if let EndpointAddress::Local(path) = expanded {
        // Should be expanded to home directory
        assert!(!path.starts_with('~'));
        assert!(path.contains("projects/myapp"));
    } else {
        panic!("Expected Local endpoint");
    }
}

#[test]
fn test_expand_tilde_just_home() {
    let ep = EndpointAddress::parse("~");
    let expanded = ep.expand_tilde();
    if let EndpointAddress::Local(path) = expanded {
        assert!(!path.starts_with('~'));
    } else {
        panic!("Expected Local endpoint");
    }
}

#[test]
fn test_expand_tilde_remote_unchanged() {
    let ep = EndpointAddress::parse("server:~/code/project");
    let expanded = ep.expand_tilde();
    // Remote paths should NOT have tilde expanded
    if let EndpointAddress::Ssh { path, .. } = expanded {
        assert!(path.starts_with('~'));
    } else {
        panic!("Expected Ssh endpoint");
    }
}

#[test]
fn test_expand_tilde_absolute_unchanged() {
    let ep = EndpointAddress::parse("/absolute/path");
    let expanded = ep.expand_tilde();
    assert_eq!(expanded, EndpointAddress::Local("/absolute/path".to_string()));
}

// Accessor tests
#[test]
fn test_path_accessor() {
    let local = EndpointAddress::parse("/home/user");
    assert_eq!(local.path(), "/home/user");

    let ssh = EndpointAddress::parse("host:/remote/path");
    assert_eq!(ssh.path(), "/remote/path");

    let docker = EndpointAddress::parse("docker://container/app");
    assert_eq!(docker.path(), "/app");
}

// Explicit-home expansion gives exact results.
#[test]
fn test_expand_tilde_from_explicit_home() {
    let ep = EndpointAddress::parse("~/projects/myapp");
    let expanded = ep.expand_tilde_from(Some("/home/user"));
    assert_eq!(
        expanded,
        EndpointAddress::Local("/home/user/projects/myapp".to_string())
    );

    let bare = EndpointAddress::parse("~");
    assert_eq!(
        bare.expand_tilde_from(Some("/home/user")),
        EndpointAddress::Local("/home/user".to_string())
    );

    let user_form = EndpointAddress::parse("~otheruser/x");
    assert_eq!(
        user_form.expand_tilde_from(Some("/home/user")),
        EndpointAddress::Local("~otheruser/x".to_string())
    );

    let no_home = EndpointAddress::parse("~/projects");
    assert_eq!(
        no_home.expand_tilde_from(None),
        EndpointAddress::Local("~/projects".to_string())
    );
}

// A port that does not parse is dropped, as `str::parse` drops it.
#[test]
fn test_parse_ssh_url_bad_port() {
    let ep = EndpointAddress::parse("ssh://myhost:70000/path");
    assert_eq!(
        ep,
        EndpointAddress::Ssh {
            user: None,
            host: "myhost".to_string(),
            port: None,
            path: "/path".to_string(),
        }
    );

    let ep = EndpointAddress::parse("ssh://myhost:2a2/path");
    assert_eq!(
        ep,
        EndpointAddress::Ssh {
            user: None,
            host: "myhost".to_string(),
            port: None,
            path: "/path".to_string(),
        }
    );
}

// An SSH URL without a path defaults to the root directory.
#[test]
fn test_parse_ssh_url_no_path() {
    let ep = EndpointAddress::parse("ssh://user@myhost");
    assert_eq!(
        ep,
        EndpointAddress::Ssh {
            user: Some("user".to_string()),
            host: "myhost".to_string(),
            port: None,
            path: "/".to_string(),
        }
    );
}
