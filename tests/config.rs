use pkbassist::config::{Config, Version};
use pkbassist::error::Error;

fn config() -> Config {
    Config::new("/conf/pkbassist.toml".to_string(), "/data/log/pkbassist.log".to_string())
}

#[test]
fn config_paths_absent_then_set() {
    let mut c = config();
    assert_eq!(c.config_file(), "/conf/pkbassist.toml");
    assert_eq!(c.log_file(), "/data/log/pkbassist.log");
    assert!(matches!(c.vault().root_path(), Err(Error::ConfigPropertyIsAbsent("vault.root"))));
    c.set("vault.root", "/vault").unwrap();
    c.set("vault.files", "/vault/Files").unwrap();
    c.set("vault.daily", "/vault/Daily").unwrap();
    c.set("vault.base", "/vault/Base").unwrap();
    c.set("vault.templates", "/vault/Templates").unwrap();
    assert_eq!(c.vault().root_path().unwrap(), "/vault");
    assert_eq!(c.vault().files_path().unwrap(), "/vault/Files");
    assert_eq!(c.vault().daily_path().unwrap(), "/vault/Daily");
    assert_eq!(c.vault().base_path().unwrap(), "/vault/Base");
    assert_eq!(c.vault().templates_path().unwrap(), "/vault/Templates");
}

#[test]
fn config_sources() {
    let mut c = config();
    assert!(matches!(c.apod().api_key(), Err(Error::ConfigPropertyIsAbsent("apod.key"))));
    c.set("apod.key", "DEMO_KEY").unwrap();
    c.set("apod.path", "/vault/APoD").unwrap();
    c.set("apod.banner", "apod.png").unwrap();
    c.set("apod.prefix", "p").unwrap();
    c.set("apod.marker", "m").unwrap();
    c.set("apod.icon", "i").unwrap();
    c.set("apod.templates.filename", "APoD {date}").unwrap();
    c.set("apod.templates.content", "apod.md").unwrap();
    c.set("apod.templates.dailyref", "ref.md").unwrap();
    assert_eq!(c.apod().api_key().unwrap(), "DEMO_KEY");
    assert_eq!(c.apod().path().unwrap(), "/vault/APoD");
    assert_eq!(c.apod().banner(), Some("apod.png"));
    assert_eq!(c.apod().prefix(), Some("p"));
    assert_eq!(c.apod().marker(), Some("m"));
    assert_eq!(c.apod().icon(), Some("i"));
    assert_eq!(c.apod().templates().filename(), "APoD {date}");
    assert_eq!(c.apod().templates().content().unwrap(), "apod.md");
    assert_eq!(c.apod().templates().dailyref().unwrap(), "ref.md");
    c.set("twir.path", "/vault/TWiR").unwrap();
    c.set("twir.banner", "b").unwrap();
    c.set("twir.prefix", "p").unwrap();
    c.set("twir.marker", "m").unwrap();
    c.set("twir.icon", "i").unwrap();
    assert_eq!(c.twir().path().unwrap(), "/vault/TWiR");
    assert_eq!(c.twir().banner(), Some("b"));
    assert_eq!(c.twir().prefix(), Some("p"));
    assert_eq!(c.twir().marker(), Some("m"));
    assert_eq!(c.twir().icon(), Some("i"));
    assert!(matches!(c.raindrop().prefix(), Err(Error::ConfigPropertyIsAbsent("raindrop.prefix"))));
    c.set("raindrop.path", "/r").unwrap();
    c.set("raindrop.prefix", "R").unwrap();
    c.set("omnivore.path", "/o").unwrap();
    c.set("omnivore.prefix", "O").unwrap();
    assert_eq!(c.raindrop().path().unwrap(), "/r");
    assert_eq!(c.raindrop().prefix().unwrap(), "R");
    assert_eq!(c.omnivore().path().unwrap(), "/o");
    assert_eq!(c.omnivore().prefix().unwrap(), "O");
}

#[test]
fn config_version_values() {
    let mut c = config();
    c.set("apod.version", "V1").unwrap();
    assert_eq!(c.apod().api_version(), Version::V1_0);
    match c.set("apod.version", "v2") {
        Err(Error::IllegalConfValue(v)) => assert_eq!(v, "v2"),
        other => panic!("unexpected {:?}", other),
    }
}

#[test]
fn config_unknown_key() {
    let mut c = config();
    match c.set("vault.rooot", "/x") {
        Err(Error::IllegalConfKey(k)) => assert_eq!(k, "vault.rooot"),
        other => panic!("unexpected {:?}", other),
    }
    assert!(c.vault().root_path().is_err());
}

#[test]
fn config_complete_fills_bookmark_path() {
    let mut read = config();
    read.set("vault.root", "/vault").unwrap();
    let c = config().complete(read).unwrap();
    assert_eq!(c.raindrop().path().unwrap(), "/vault/Base");
    let mut read = config();
    read.set("vault.root", "/vault/").unwrap();
    read.set("raindrop.path", "/elsewhere").unwrap();
    let c = config().complete(read).unwrap();
    assert_eq!(c.raindrop().path().unwrap(), "/elsewhere");
    assert!(matches!(config().complete(config()), Err(Error::VaultRootIsAbsent)));
}

#[test]
fn config_template_errors_name_their_property() {
    let mut c = config();
    assert!(matches!(c.apod().templates().content(), Err(Error::ConfigPropertyIsAbsent("apod.templates.content"))));
    assert!(matches!(c.apod().templates().dailyref(), Err(Error::ConfigPropertyIsAbsent("apod.templates.dailyref"))));
    c.set("apod.templates.content", "c.md").unwrap();
    assert_eq!(c.apod().templates().content().unwrap(), "c.md");
}
