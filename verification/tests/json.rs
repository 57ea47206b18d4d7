use agent_bridge::json::{Json, JsonObject};

#[test]
fn parse_reads_every_kind_of_value() {
    let j = Json::parse("{\"a\":null,\"b\":true,\"c\":12,\"d\":-3,\"e\":1.5,\"f\":\"x\",\"g\":[1,2]}").unwrap();
    assert!(matches!(j.get("a"), Some(Json::Null)));
    assert!(matches!(j.get("b"), Some(Json::Bool(true))));
    assert_eq!(j.get("c").unwrap().as_i64(), Some(12));
    assert_eq!(j.get("d").unwrap().as_i64(), Some(-3));
    assert_eq!(j.get("d").unwrap().as_u64(), None);
    assert!(matches!(j.get("e"), Some(Json::Float(_))));
    assert_eq!(j.get("e").unwrap().as_i64(), None);
    assert_eq!(j.get("f").unwrap().as_str(), Some("x"));
    assert_eq!(j.get("g").unwrap().at(1).unwrap().as_u64(), Some(2));
    assert!(j.get("g").unwrap().at(2).is_none());
    assert!(j.get("h").is_none());
    assert!(j.get("f").unwrap().get("a").is_none());
}

#[test]
fn parse_refuses_what_is_not_json() {
    assert!(Json::parse("{").is_none());
    assert!(Json::parse("").is_none());
}

#[test]
fn large_integers_keep_their_value() {
    let j = Json::parse("[18446744073709551615,-9223372036854775808,9223372036854775808]").unwrap();
    assert_eq!(j.at(0).unwrap().as_u64(), Some(u64::MAX));
    assert_eq!(j.at(0).unwrap().as_i64(), None);
    assert_eq!(j.at(1).unwrap().as_i64(), Some(i64::MIN));
    assert_eq!(j.at(2).unwrap().as_i64(), None);
}

#[test]
fn text_keeps_the_order_of_members() {
    let text = "{\"zeta\":1,\"alpha\":[true,null,-2.5],\"mid\":{\"b\":\"\\\"\",\"a\":0}}";
    let j = Json::parse(text).unwrap();
    assert_eq!(j.to_text(), text);
    assert_eq!(j.copy().to_text(), text);
    assert_eq!(Json::from_value(j.to_value()).to_text(), text);
}

#[test]
fn insert_replaces_in_place_or_appends() {
    let mut o = JsonObject::new();
    o.insert("a".to_string(), Json::PosInt(1));
    o.insert("b".to_string(), Json::PosInt(2));
    o.insert("a".to_string(), Json::PosInt(3));
    assert_eq!(o.len(), 2);
    assert_eq!(o.name_at(0), "a");
    assert_eq!(o.value_at(0).as_u64(), Some(3));
    assert_eq!(o.get("b").unwrap().as_u64(), Some(2));
    let mut p = JsonObject::new();
    p.insert("c".to_string(), Json::string("x"));
    p.insert("b".to_string(), Json::Null);
    o.insert_all(&p);
    assert_eq!(Json::Object(o).to_text(), "{\"a\":3,\"b\":null,\"c\":\"x\"}");
}

#[test]
fn an_optional_member_is_set_only_where_there_is_one() {
    let mut o = JsonObject::new();
    o.insert_opt("a", None);
    o.insert_opt("b", Some(Json::Bool(false)));
    assert_eq!(Json::Object(o).to_text(), "{\"b\":false}");
}

#[test]
fn numbers_survive_both_ways() {
    let text = "[0,-1,9223372036854775808,18446744073709551615,-9223372036854775808,0.5,1e300,-0.0]";
    let value: serde_json::Value = serde_json::from_str(text).unwrap();
    let j = Json::from_value(value.clone());
    assert!(matches!(j.at(0), Some(Json::PosInt(0))));
    assert!(matches!(j.at(1), Some(Json::NegInt(-1))));
    assert!(matches!(j.at(6), Some(Json::Float(_))));
    assert!(matches!(j.at(7), Some(Json::Float(_))));
    assert_eq!(j.to_value(), value);
    assert_eq!(Json::NegInt(5).to_value(), serde_json::Value::from(5));
    assert_eq!(Json::NegInt(5).as_u64(), Some(5));
}

#[test]
fn nested_values_survive_both_ways() {
    let text = "{\"a\":[{\"b\":{}},[],[[1],\"x\"]],\"\":null,\"é\":false}";
    let value: serde_json::Value = serde_json::from_str(text).unwrap();
    let j = Json::from_value(value.clone());
    assert_eq!(j.to_value(), value);
    assert_eq!(j.to_text(), text);
}
