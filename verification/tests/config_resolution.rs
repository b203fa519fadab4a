use async_demos::config_resolution::{deep_merge, resolve, ConfigSource, Inputs, Json, Resolved};

#[test]
fn config_highest_priority_source_wins() {
    let from_cli = resolve(Inputs {
        cli: Some("cli-model".to_owned()),
        env: Some("env-model".to_owned()),
        config: Some("config-model".to_owned()),
        remote: Some("remote-model".to_owned()),
        default: "default-model".to_owned(),
        ..Inputs::default()
    });
    assert_eq!(from_cli.value, "cli-model");
    assert_eq!(from_cli.source, ConfigSource::Cli);

    let pinned = resolve(Inputs {
        requirements: Some(false),
        cli: Some(true),
        env: Some(true),
        config: Some(true),
        remote: Some(true),
        default: true,
    });
    assert_eq!(pinned, Resolved { value: false, source: ConfigSource::Requirements });
}

#[test]
fn config_falls_back_to_remote_then_default() {
    let remote = resolve(Inputs { remote: Some(3u32), default: 1, ..Inputs::default() });
    assert_eq!(remote, Resolved { value: 3, source: ConfigSource::Remote });
    let fallback = resolve(Inputs { default: 9u32, ..Inputs::default() });
    assert_eq!(fallback, Resolved { value: 9, source: ConfigSource::Default });
    let env = resolve(Inputs { env: Some(5u32), config: Some(6), default: 1, ..Inputs::default() });
    assert_eq!(env.source, ConfigSource::Env);
}

fn text(s: &str) -> Json {
    Json::Text(s.to_owned())
}

fn number(s: &str) -> Json {
    Json::Number(s.to_owned())
}

fn object(members: Vec<(&str, Json)>) -> Json {
    Json::Object(
        members
            .into_iter()
            .map(|(key, value)| (key.to_owned(), value))
            .collect(),
    )
}

fn member<'a>(value: &'a Json, key: &str) -> &'a Json {
    match value {
        Json::Object(members) => &members.iter().find(|(k, _)| k == key).unwrap().1,
        _ => panic!("not an object"),
    }
}

#[test]
fn deep_merge_merges_objects_and_replaces_everything_else() {
    let mut merged = object(vec![
        (
            "sampling",
            object(vec![("temperature", number("0.2")), ("max_tokens", number("1000"))]),
        ),
        ("models", Json::Array(vec![text("base-a"), text("base-b")])),
        ("feature", Json::Bool(true)),
    ]);
    deep_merge(
        &mut merged,
        object(vec![
            ("sampling", object(vec![("max_tokens", number("2000"))])),
            ("models", Json::Array(vec![text("overlay-only")])),
            ("feature", object(vec![("mode", text("strict"))])),
        ]),
    );
    assert_eq!(*member(member(&merged, "sampling"), "temperature"), number("0.2"));
    assert_eq!(*member(member(&merged, "sampling"), "max_tokens"), number("2000"));
    assert_eq!(*member(&merged, "models"), Json::Array(vec![text("overlay-only")]));
    assert_eq!(*member(&merged, "feature"), object(vec![("mode", text("strict"))]));
}

#[test]
fn deep_merge_adds_new_keys_and_overlay_scalar_replaces_object() {
    let mut base = object(vec![("a", number("1"))]);
    deep_merge(&mut base, object(vec![("b", Json::Null)]));
    assert_eq!(base, object(vec![("a", number("1")), ("b", Json::Null)]));
    deep_merge(&mut base, text("flat"));
    assert_eq!(base, text("flat"));
    let mut scalar = Json::Bool(false);
    deep_merge(&mut scalar, object(vec![]));
    assert_eq!(scalar, object(vec![]));
}
