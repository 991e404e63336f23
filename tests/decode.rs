use ore::{decode_response, DecodeReason, Json, JsonNumber, PluginCategory};

fn s(v: &str) -> Json {
    Json::Str(v.to_string())
}

fn n(v: u64) -> Json {
    Json::Number(JsonNumber { positive: true, mantissa: v, exponent: 0 })
}

fn obj(fields: Vec<(&str, Json)>) -> Json {
    Json::Object(fields.into_iter().map(|(k, v)| (k.to_string(), v)).collect())
}

fn channel(name: &str, color: &str) -> Json {
    obj(vec![("name", s(name)), ("color", s(color))])
}

fn version() -> Json {
    obj(vec![
        ("id", n(77)),
        ("createdAt", s("2017-01-02T03:04:05Z")),
        ("name", s("1.2.0")),
        ("dependencies", Json::Array(vec![obj(vec![("pluginId", s("spongeapi")), ("version", s("5.0.0"))])])),
        ("pluginId", s("chatter")),
        ("channel", channel("Release", "#009600")),
        ("fileSize", n(40960)),
    ])
}

fn user() -> Json {
    obj(vec![
        ("userId", n(12)),
        ("name", s("alice")),
        ("roles", Json::Array(vec![s("Owner"), s("Developer")])),
        ("headRole", s("Owner")),
    ])
}

fn plugin_fields() -> Vec<(&'static str, Json)> {
    vec![
        ("pluginId", s("chatter")),
        ("createdAt", s("2016-12-01T00:00:00Z")),
        ("name", s("Chatter")),
        ("owner", s("alice")),
        ("description", s("Chat tools")),
        ("href", s("/alice/Chatter")),
        ("members", Json::Array(vec![user()])),
        ("channels", Json::Array(vec![channel("Release", "#009600"), channel("Beta", "#ffd700")])),
        ("recommended", version()),
        ("category", obj(vec![("title", s("Chat"))])),
        ("views", n(1500)),
        ("downloads", n(300)),
        ("stars", n(8)),
    ]
}

fn replace(key: &str, value: Json) -> Json {
    let mut value = Some(value);
    obj(plugin_fields()
        .into_iter()
        .map(|(k, v)| if k == key { (k, value.take().unwrap()) } else { (k, v) })
        .collect())
}

fn without(key: &str) -> Json {
    obj(plugin_fields().into_iter().filter(|(k, _)| *k != key).collect())
}

#[test]
fn single_element_decodes_verbatim() {
    let r = decode_response(&Json::Array(vec![obj(plugin_fields())])).unwrap();
    assert_eq!(r.len(), 1);
    let p = &r[0];
    assert_eq!(p.plugin_id, "chatter");
    assert_eq!(p.created_at, "2016-12-01T00:00:00Z");
    assert_eq!(p.name, "Chatter");
    assert_eq!(p.owner, "alice");
    assert_eq!(p.description, "Chat tools");
    assert_eq!(p.href, "/alice/Chatter");
    assert_eq!(p.members.len(), 1);
    assert_eq!(p.members[0].user_id, 12);
    assert_eq!(p.members[0].name, "alice");
    assert_eq!(p.members[0].roles, vec!["Owner".to_string(), "Developer".to_string()]);
    assert_eq!(p.members[0].head_role, "Owner");
    assert_eq!(p.channels.len(), 2);
    assert_eq!(p.channels[1].name, "Beta");
    assert_eq!(p.channels[1].color, "#ffd700");
    assert_eq!(p.recommended.id, 77);
    assert_eq!(p.recommended.created_at, "2017-01-02T03:04:05Z");
    assert_eq!(p.recommended.name, "1.2.0");
    assert_eq!(p.recommended.dependencies.len(), 1);
    assert_eq!(p.recommended.dependencies[0].plugin_id, "spongeapi");
    assert_eq!(p.recommended.dependencies[0].version, "5.0.0");
    assert_eq!(p.recommended.plugin_id, "chatter");
    assert_eq!(p.recommended.channel.name, "Release");
    assert_eq!(p.recommended.channel.color, "#009600");
    assert_eq!(p.recommended.file_size, 40960);
    assert_eq!(p.category, PluginCategory::Chat);
    assert_eq!(p.views, 1500);
    assert_eq!(p.downloads, 300);
    assert_eq!(p.stars, 8);
}

#[test]
fn missing_name_fails_the_batch() {
    let e = decode_response(&Json::Array(vec![without("name"), obj(plugin_fields())])).unwrap_err();
    assert_eq!(e.path, "[0].name");
    assert_eq!(e.reason, DecodeReason::Missing);
}

#[test]
fn fault_in_later_element_names_its_index() {
    let e = decode_response(&Json::Array(vec![obj(plugin_fields()), without("stars")])).unwrap_err();
    assert_eq!(e.path, "[1].stars");
    assert_eq!(e.reason, DecodeReason::Missing);
}

#[test]
fn empty_array_decodes_to_nothing() {
    assert_eq!(decode_response(&Json::Array(vec![])).unwrap().len(), 0);
}

#[test]
fn unknown_category_title_is_reported() {
    let e = decode_response(&Json::Array(vec![replace("category", obj(vec![("title", s("Cooking"))]))])).unwrap_err();
    assert_eq!(e.path, "[0].category.title");
    assert_eq!(e.reason, DecodeReason::UnknownCategoryTitle);
}

#[test]
fn nested_fault_has_full_path() {
    let bad_version = obj(vec![
        ("id", n(77)),
        ("createdAt", s("2017-01-02T03:04:05Z")),
        ("name", s("1.2.0")),
        ("dependencies", Json::Array(vec![])),
        ("pluginId", s("chatter")),
        ("channel", obj(vec![("name", s("Release")), ("color", n(5))])),
        ("fileSize", n(40960)),
    ]);
    let e = decode_response(&Json::Array(vec![replace("recommended", bad_version)])).unwrap_err();
    assert_eq!(e.path, "[0].recommended.channel.color");
    assert_eq!(e.reason, DecodeReason::WrongType);
}

#[test]
fn role_of_wrong_type_names_its_index() {
    let bad_user = obj(vec![
        ("userId", n(12)),
        ("name", s("alice")),
        ("roles", Json::Array(vec![s("Owner"), Json::Bool(true)])),
        ("headRole", s("Owner")),
    ]);
    let e = decode_response(&Json::Array(vec![replace("members", Json::Array(vec![bad_user]))])).unwrap_err();
    assert_eq!(e.path, "[0].members[0].roles[1]");
    assert_eq!(e.reason, DecodeReason::WrongType);
}

#[test]
fn counters_must_be_whole_and_in_range() {
    let neg = Json::Number(JsonNumber { positive: false, mantissa: 3, exponent: 0 });
    let e = decode_response(&Json::Array(vec![replace("views", neg)])).unwrap_err();
    assert_eq!(e.path, "[0].views");
    assert_eq!(e.reason, DecodeReason::OutOfRange);

    let big = Json::Number(JsonNumber { positive: true, mantissa: 4294967296, exponent: 0 });
    let e = decode_response(&Json::Array(vec![replace("downloads", big)])).unwrap_err();
    assert_eq!(e.reason, DecodeReason::OutOfRange);

    let frac = Json::Number(JsonNumber { positive: true, mantissa: 15, exponent: -1 });
    let e = decode_response(&Json::Array(vec![replace("stars", frac)])).unwrap_err();
    assert_eq!(e.reason, DecodeReason::OutOfRange);

    let sci = Json::Number(JsonNumber { positive: true, mantissa: 42, exponent: 3 });
    let r = decode_response(&Json::Array(vec![replace("stars", sci)])).unwrap();
    assert_eq!(r[0].stars, 42000);

    let zero = Json::Number(JsonNumber { positive: false, mantissa: 0, exponent: -2 });
    let r = decode_response(&Json::Array(vec![replace("stars", zero)])).unwrap();
    assert_eq!(r[0].stars, 0);

    let edge = Json::Number(JsonNumber { positive: true, mantissa: 4294967295, exponent: 0 });
    let r = decode_response(&Json::Array(vec![replace("views", edge)])).unwrap();
    assert_eq!(r[0].views, 4294967295);

    let over = Json::Number(JsonNumber { positive: true, mantissa: 429496730, exponent: 1 });
    let e = decode_response(&Json::Array(vec![replace("views", over)])).unwrap_err();
    assert_eq!(e.reason, DecodeReason::OutOfRange);
}

#[test]
fn wrong_shapes_are_reported() {
    let e = decode_response(&obj(vec![])).unwrap_err();
    assert_eq!(e.path, "");
    assert_eq!(e.reason, DecodeReason::WrongType);

    let e = decode_response(&Json::Array(vec![Json::Null])).unwrap_err();
    assert_eq!(e.path, "[0]");
    assert_eq!(e.reason, DecodeReason::WrongType);

    let e = decode_response(&Json::Array(vec![replace("href", n(1))])).unwrap_err();
    assert_eq!(e.path, "[0].href");
    assert_eq!(e.reason, DecodeReason::WrongType);

    let e = decode_response(&Json::Array(vec![without("recommended")])).unwrap_err();
    assert_eq!(e.path, "[0].recommended");
    assert_eq!(e.reason, DecodeReason::Missing);
}

#[test]
fn first_member_of_a_name_counts() {
    let mut fields = plugin_fields();
    fields.push(("name", s("Shadow")));
    let r = decode_response(&Json::Array(vec![obj(fields)])).unwrap();
    assert_eq!(r[0].name, "Chatter");
}
