use msm::properties;

fn pairs(v: &[(&str, &str)]) -> Vec<(String, String)> {
    v.iter().map(|(k, x)| (k.to_string(), x.to_string())).collect()
}

const FILE: &str = "#Minecraft server properties\n\nserver-port=25570\n motd = A Server \nbroken\nlevel-name=\nlevel-name= maps/one\n";

#[test]
fn settings_are_read() {
    assert_eq!(
        properties::parse_server_properties(FILE),
        pairs(&[("server-port", "25570"), ("motd", "A Server"), ("level-name", "maps/one")])
    );
    assert_eq!(properties::parse_server_properties(""), pairs(&[]));
    assert_eq!(properties::parse_server_properties("a=b=c"), pairs(&[("a", "b=c")]));
}

#[test]
fn comments_and_order_are_kept() {
    let out = properties::write_server_properties(
        FILE,
        &pairs(&[("motd", "Hi"), ("pvp", "false")]),
    );
    assert_eq!(
        out,
        "#Minecraft server properties\n\nserver-port=25570\nmotd=Hi\nbroken\nlevel-name=\nlevel-name= maps/one\npvp=false\n"
    );
}

#[test]
fn an_empty_file_gets_the_settings() {
    assert_eq!(properties::write_server_properties("", &pairs(&[("a", "1")])), "a=1\n");
    assert_eq!(properties::set_properties(None, &pairs(&[("a", "1"), ("a", "2")])), "a=2\n");
}

#[test]
fn what_was_set_is_read_back() {
    let updates = pairs(&[("server-port", "1234"), ("new-key", "x y")]);
    let out = properties::set_properties(Some(FILE), &updates);
    let read = properties::parse_server_properties(&out);
    assert_eq!(properties::get(&read, "server-port"), Some("1234".to_string()));
    assert_eq!(properties::get(&read, "new-key"), Some("x y".to_string()));
    assert_eq!(properties::get(&read, "motd"), Some("A Server".to_string()));
    assert_eq!(properties::get(&read, "level-name"), Some("maps/one".to_string()));
    assert_eq!(properties::get(&read, "absent"), None);
    assert!(out.starts_with("#Minecraft server properties\n\nserver-port=1234\n"));
}

#[test]
fn the_level_name_is_the_first_that_is_not_empty() {
    assert_eq!(properties::read_level_name(FILE), Some("maps/one".to_string()));
    assert_eq!(properties::read_level_name("level-name=\n"), None);
    assert_eq!(properties::read_level_name("#level-name=a\n"), None);
}

#[test]
fn the_port_is_read() {
    assert_eq!(properties::read_port(FILE), Some(25570));
    assert_eq!(properties::read_port("server-port= 1 \n"), Some(1));
    assert_eq!(properties::read_port("server-port=99999\nserver-port=5\n"), None);
    assert_eq!(properties::read_port(" server-port=5\n"), None);
    assert_eq!(properties::read_port(""), None);
}
