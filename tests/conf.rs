use weld_jni::conf::Configuration;

#[test]
fn conf_get_after_set() {
    let mut c = Configuration::conf_new();
    c.conf_set("weld.threads", "4");
    assert_eq!(c.conf_get("weld.threads"), Some("4".to_string()));
}

#[test]
fn conf_absent_is_not_empty() {
    let mut c = Configuration::conf_new();
    assert_eq!(c.conf_get("weld.memory.limit"), None);
    c.conf_set("weld.optimization.passes", "");
    assert_eq!(c.conf_get("weld.optimization.passes"), Some(String::new()));
    assert_eq!(c.conf_get("weld.memory.limit"), None);
}

#[test]
fn conf_set_overwrites() {
    let mut c = Configuration::conf_new();
    c.conf_set("a", "1");
    c.conf_set("b", "2");
    c.conf_set("a", "3");
    assert_eq!(c.conf_get("a"), Some("3".to_string()));
    assert_eq!(c.conf_get("b"), Some("2".to_string()));
    assert_eq!(c.conf_get("A"), None);
}
