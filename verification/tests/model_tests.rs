use ql_provision::about::long_about;
use ql_provision::auth::{AccountData, AccountType};
use ql_provision::json::forge::{ForgeDescriptor, JsonDetails, JsonInstallProfile, JsonVersions};
use ql_provision::print::{LogType, LoggingState};
use ql_provision::request::{check_status, RequestError};

fn account(name: &str, kind: AccountType) -> AccountData {
    AccountData {
        access_token: None,
        uuid: "u".to_string(),
        username: name.to_string(),
        refresh_token: "r".to_string(),
        needs_refresh: false,
        account_type: kind,
    }
}

fn details(id: &str) -> JsonDetails {
    JsonDetails {
        id: id.to_string(),
        time: String::new(),
        releaseTime: String::new(),
        version_type: String::new(),
        mainClass: String::new(),
        inheritsFrom: None,
        logging: None,
        arguments: None,
        libraries: Vec::new(),
        minecraftArguments: None,
    }
}

#[test]
fn elyby_accounts_are_marked_in_the_user_name() {
    assert_eq!(account("steve", AccountType::Microsoft).get_username_modified(), "steve");
    assert_eq!(account("steve", AccountType::ElyBy).get_username_modified(), "steve (elyby)");
    assert_eq!(account("", AccountType::ElyBy).get_username_modified(), " (elyby)");
}

#[test]
fn account_kind_is_told() {
    assert!(account("a", AccountType::ElyBy).is_elyby());
    assert!(!account("a", AccountType::Microsoft).is_elyby());
    assert_eq!(AccountType::Microsoft.to_string(), "Microsoft");
    assert_eq!(AccountType::ElyBy.to_string(), "ElyBy");
}

#[test]
fn long_description_is_fixed() {
    assert_eq!(
        long_about(),
        "\nCubeLuncher: A simple, powerful Minecraft launcher by Dynamic Development, LLC\n\nWebsite: https://cube-launcher.netlify.app/\nGithub : \nDiscord: https://discord.gg/3QWbVheFaC\n"
    );
}

#[test]
fn promotions_are_looked_up_under_latest() {
    let p = JsonVersions {
        promos: vec![
            ("1.8.9-latest".to_string(), "11.15.1.2318".to_string()),
            ("1.8.9-recommended".to_string(), "11.15.1.1722".to_string()),
        ],
    };
    assert_eq!(p.get_forge_version("1.8.9"), Some("11.15.1.2318".to_string()));
    assert_eq!(p.get_forge_version("1.8"), None);
    assert_eq!(p.get_forge_version(""), None);
}

#[test]
fn both_descriptor_forms_give_the_descriptor() {
    assert_eq!(ForgeDescriptor::Flat(details("flat")).into_details().id, "flat");
    let profile = JsonInstallProfile { install: serde_json::Value::Bool(true), versionInfo: details("wrapped") };
    assert_eq!(ForgeDescriptor::Wrapped(profile).into_details().id, "wrapped");
}

#[test]
fn log_keeps_lines_in_order() {
    let mut log = LoggingState::create();
    assert!(log.text.is_empty());
    log.write_to_storage("[info] a\n", LogType::Info);
    log.write_to_storage("[error] b\n", LogType::Error);
    assert_eq!(log.text.len(), 2);
    assert_eq!(log.text[0].0, "[info] a\n");
    assert!(matches!(log.text[0].1, LogType::Info));
    assert_eq!(log.text[1].0, "[error] b\n");
    assert!(matches!(log.text[1].1, LogType::Error));
}

#[test]
fn only_status_404_is_not_found() {
    assert!(RequestError::DownloadError { code: 404, url: String::new() }.is_not_found());
    assert!(!RequestError::DownloadError { code: 403, url: String::new() }.is_not_found());
    assert!(!RequestError::DownloadError { code: 500, url: String::new() }.is_not_found());
    assert!(!RequestError::Transport("404".to_string()).is_not_found());
}

#[test]
fn success_statuses_pass_and_others_fail_with_their_code() {
    assert!(check_status(200, "u").is_ok());
    assert!(check_status(204, "u").is_ok());
    assert!(check_status(299, "u").is_ok());
    for code in [199u16, 300, 301, 404, 500] {
        match check_status(code, "https://x") {
            Err(RequestError::DownloadError { code: c, url }) => {
                assert_eq!(c, code);
                assert_eq!(url, "https://x");
            }
            _ => panic!("expected a failure for {code}"),
        }
    }
    assert!(check_status(404, "u").err().unwrap().is_not_found());
}
