use nec::cfg::{
    get_cfg_path, load_failure, password_failure, push_path, Account, Cfg, CfgError, LoadStage,
    PasswordStep, Server,
};

fn server(host: &str, port: Option<u16>) -> Server {
    Server { host: host.to_string(), port }
}

fn account(name: &str, password: Option<&str>, pass_cmd: Option<&str>) -> Account {
    Account::new(
        name.to_string(),
        format!("{}@example.com", name),
        password.map(|s| s.to_string()),
        pass_cmd.map(|s| s.to_string()),
        None,
        server("imap.example.com", None),
        server("smtp.example.com", Some(587)),
    )
}

#[test]
fn cfg_error_keeps_its_message() {
    let e = CfgError::new("something broke");
    assert_eq!(e.message(), "something broke");
}

#[test]
fn password_failure_names_user_and_detail() {
    let e = password_failure("me@example.com", "no such file");
    assert_eq!(
        e.message(),
        "Failed to get password for user \"me@example.com\": no such file"
    );
}

#[test]
fn load_failures_name_their_stage() {
    assert_eq!(
        load_failure(LoadStage::Read, "denied").message(),
        "Could not read configuration file: denied"
    );
    assert_eq!(
        load_failure(LoadStage::Parse, "bad key").message(),
        "Could not parse configuration file: bad key"
    );
}

#[test]
fn imap_address_defaults_to_port_993() {
    let (host, port) = server("mail.example.com", None).imap_address();
    assert_eq!(host, "mail.example.com");
    assert_eq!(port, 993);
    let (_, port) = server("mail.example.com", Some(1143)).imap_address();
    assert_eq!(port, 1143);
}

#[test]
fn plain_password_comes_first() {
    let acc = account("a", Some("hunter2"), Some("pass show a"));
    match acc.get_password() {
        Ok(PasswordStep::Ready(p)) => assert_eq!(p, "hunter2"),
        _ => panic!("expected the stored password"),
    }
}

#[test]
fn pass_cmd_is_split_at_single_spaces() {
    let acc = account("a", None, Some("pass show  mail/a"));
    match acc.get_password() {
        Ok(PasswordStep::RunCommand { program, args }) => {
            assert_eq!(program, "pass");
            assert_eq!(args, vec!["show".to_string(), "".to_string(), "mail/a".to_string()]);
        }
        _ => panic!("expected a command"),
    }
}

#[test]
fn pass_cmd_without_arguments() {
    let acc = account("a", None, Some("getpw"));
    match acc.get_password() {
        Ok(PasswordStep::RunCommand { program, args }) => {
            assert_eq!(program, "getpw");
            assert!(args.is_empty());
        }
        _ => panic!("expected a command"),
    }
}

#[test]
fn no_password_is_an_error() {
    let acc = account("a", None, None);
    match acc.get_password() {
        Err(e) => assert_eq!(e.message(), "No password to authenticate with!"),
        _ => panic!("expected an error"),
    }
}

#[test]
fn password_is_first_line_trimmed() {
    let acc = account("a", None, Some("pw"));
    let p = acc.password_from_output(0, "secret \t\r\nsecond line\n", "").ok().unwrap();
    assert_eq!(p, "secret");
    let p = acc.password_from_output(0, "  lead kept", "").ok().unwrap();
    assert_eq!(p, "  lead kept");
    let p = acc.password_from_output(0, "\nnext", "").ok().unwrap();
    assert_eq!(p, "");
    let p = acc.password_from_output(0, "wide\u{3000}\u{A0}", "").ok().unwrap();
    assert_eq!(p, "wide");
}

#[test]
fn negative_status_counts_as_success() {
    let acc = account("a", None, Some("pw"));
    let p = acc.password_from_output(-1, "pw\n", "").ok().unwrap();
    assert_eq!(p, "pw");
}

#[test]
fn failing_command_reports_its_error_output() {
    let acc = account("a", None, Some("pw"));
    match acc.password_from_output(2, "ignored", "gpg: decryption failed") {
        Err(e) => assert_eq!(
            e.message(),
            "Failed to get password for user \"a@example.com\": gpg: decryption failed"
        ),
        Ok(_) => panic!("expected an error"),
    }
}

#[test]
fn accounts_are_found_by_their_key() {
    let mut cfg = Cfg::new();
    cfg.insert_account("work".to_string(), account("Work", Some("1"), None));
    cfg.insert_account("home".to_string(), account("Home", Some("2"), None));
    assert_eq!(cfg.get_account("work").unwrap().name, "Work");
    assert_eq!(cfg.get_account("home").unwrap().name, "Home");
    assert!(cfg.get_account("Work").is_none());
    assert!(cfg.get_account("other").is_none());
}

#[test]
fn insert_replaces_the_account_under_a_key() {
    let mut cfg = Cfg::new();
    cfg.insert_account("work".to_string(), account("Old", None, None));
    cfg.insert_account("work".to_string(), account("New", None, None));
    assert_eq!(cfg.get_account("work").unwrap().name, "New");
    assert_eq!(cfg.get_all_accounts().len(), 1);
}

#[test]
fn all_accounts_are_listed_once() {
    let mut cfg = Cfg::new();
    assert!(cfg.get_all_accounts().is_empty());
    cfg.insert_account("a".to_string(), account("A", None, None));
    cfg.insert_account("b".to_string(), account("B", None, None));
    cfg.insert_account("c".to_string(), account("C", None, None));
    let mut names: Vec<String> = cfg.get_all_accounts().iter().map(|a| a.name.clone()).collect();
    names.sort();
    assert_eq!(names, vec!["A", "B", "C"]);
}

#[test]
fn select_accounts_by_option() {
    let mut cfg = Cfg::new();
    cfg.insert_account("a".to_string(), account("A", None, None));
    cfg.insert_account("b".to_string(), account("B", None, None));
    let one = cfg.select_accounts(Some("b")).unwrap();
    assert_eq!(one.len(), 1);
    assert_eq!(one[0].name, "B");
    assert!(cfg.select_accounts(Some("zzz")).is_none());
    assert_eq!(cfg.select_accounts(None).unwrap().len(), 2);
}

#[test]
fn explicit_config_path_wins() {
    assert_eq!(
        get_cfg_path(Some("/etc/nec.toml".to_string()), Some("/home/u/.config".to_string())),
        Some("/etc/nec.toml".to_string())
    );
}

#[test]
fn config_path_under_config_dir() {
    assert_eq!(
        get_cfg_path(None, Some("/home/u/.config".to_string())),
        Some("/home/u/.config/tim/config.toml".to_string())
    );
    assert_eq!(
        get_cfg_path(None, Some("/home/u/.config/".to_string())),
        Some("/home/u/.config/tim/config.toml".to_string())
    );
    assert_eq!(get_cfg_path(None, None), None);
}

#[test]
fn pushing_paths() {
    assert_eq!(push_path("a", "b"), "a/b");
    assert_eq!(push_path("a/", "b"), "a/b");
    assert_eq!(push_path("", "b"), "b");
    assert_eq!(push_path("a", "/b"), "/b");
}

#[test]
fn lookup_after_insert_law_on_values() {
    let mut cfg = Cfg::new();
    cfg.insert_account("x".to_string(), account("X", None, None));
    cfg.insert_account("y".to_string(), account("Y", None, None));
    cfg.insert_account("x".to_string(), account("X2", None, None));
    assert_eq!(cfg.get_account("x").unwrap().name, "X2");
    assert_eq!(cfg.get_account("y").unwrap().name, "Y");
}

#[test]
fn account_getters_give_the_fields() {
    let acc = account("a", None, None);
    assert_eq!(acc.name(), "a");
    assert_eq!(acc.email(), "a@example.com");
    assert!(acc.signature().is_none());
    assert_eq!(acc.imap().host, "imap.example.com");
    assert_eq!(acc.smtp().port, Some(587));
}
