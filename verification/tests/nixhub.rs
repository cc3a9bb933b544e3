use deplorable::nixhub::{build_program, user_agent, Nixhub};

fn nixhub(token: Option<&str>) -> Nixhub {
    Nixhub {
        repo: "owner/site".to_string(),
        reference: "master".to_string(),
        out: "/var/www/site".to_string(),
        token: token.map(|t| t.to_string()),
    }
}

#[test]
fn the_archive_of_the_reference_is_asked_for() {
    assert_eq!(nixhub(None).tarball_url(), "https://api.github.com/repos/owner/site/tarball/master");
}

#[test]
fn the_token_makes_a_header_line() {
    assert_eq!(nixhub(None).authorization_header(), None);
    assert_eq!(nixhub(Some("t0ken")).authorization_header(), Some("Authorization: token t0ken".to_string()));
}

#[test]
fn the_nix_command_builds_from_a_file() {
    assert_eq!(build_program(), "nix");
    assert_eq!(
        nixhub(None).build_arguments("https://codeload.example/src.tar.gz"),
        vec![
            "build".to_string(),
            "--out-link".to_string(),
            "/var/www/site".to_string(),
            "-f".to_string(),
            "https://codeload.example/src.tar.gz".to_string()
        ]
    );
}

#[test]
fn the_builder_has_a_name() {
    assert_eq!(user_agent(), "Nix builder");
}
