use termway::json::{parse, Json, JsonNode};
use termway::niri::{
    check_acknowledgement, event_line, event_name, focused_output_name, output_geometries,
    output_geometry, parse_output_geometry, read_reply, request_line, snapshot, stream_end,
    unwrap_reply, NiriError,
};

fn json(source: &str) -> Json {
    parse(source).unwrap()
}

fn words(error: Option<NiriError>) -> String {
    error.unwrap().message()
}

#[test]
fn unwraps_successful_reply() {
    let reply = unwrap_reply(json(r#"{"Ok": {"Version": "26.04"}}"#)).ok().unwrap();
    assert_eq!(reply.get("Version").unwrap().as_str(), Some("26.04"));
    assert!(matches!(reply.node(), JsonNode::Object(fields) if fields.len() == 1));
}

#[test]
fn reports_niri_error() {
    assert!(unwrap_reply(json(r#"{"Err": "not allowed"}"#)).is_err());
}

#[test]
fn extracts_event_variant_name() {
    assert_eq!(event_name(&json(r#"{"WindowsChanged": {"windows": []}}"#)), "WindowsChanged");
}

#[test]
fn parses_output_geometry() {
    let output = json(
        r#"{
            "name": "eDP-1",
            "logical": {
                "x": -1920,
                "y": 0,
                "width": 2048,
                "height": 1280,
                "scale": 1.25,
                "transform": "Normal"
            }
        }"#,
    );
    let geometry = parse_output_geometry(&output).ok().unwrap();
    assert_eq!(geometry.name, "eDP-1");
    assert_eq!(geometry.x, -1920);
    assert_eq!(geometry.y, 0);
    assert_eq!(geometry.width, 2048);
    assert_eq!(geometry.height, 1280);
    assert_eq!(f64::from_bits(geometry.scale), 1.25);
    assert_eq!(geometry.transform, "Normal");
}

#[test]
fn requests_are_json_lines() {
    assert_eq!(request_line("Version"), "\"Version\"\n");
    assert_eq!(request_line("a\"b\n"), "\"a\\\"b\\n\"\n");
}

#[test]
fn replies_that_cannot_be_used_are_told_apart() {
    assert_eq!(words(read_reply("{").err()), "invalid niri reply");
    assert_eq!(words(read_reply("[1]").err()), "niri reply is not an object");
    assert_eq!(words(read_reply("{}").err()), "niri reply contains neither Ok nor Err");
    assert_eq!(
        words(read_reply(r#"{"Ok":1,"Err":"x"}"#).err()),
        "niri returned an error: \"x\""
    );
    assert_eq!(
        words(read_reply(r#"{"Err": {"b" : [1, 2.5], "a": null}}"#).err()),
        r#"niri returned an error: {"a":null,"b":[1,2.5]}"#
    );
    assert!(read_reply(r#"{"Ok": null}"#).ok().unwrap().is_null());
}

#[test]
fn event_streams_are_acknowledged() {
    assert!(check_acknowledgement(r#"{"Ok":"Handled"}"#).is_ok());
    assert_eq!(
        words(check_acknowledgement(r#"{"Ok":"Ignored"}"#).err()),
        "unexpected EventStream acknowledgement: \"Ignored\""
    );
    assert_eq!(
        words(check_acknowledgement(r#"{"Ok":{"Handled":1}}"#).err()),
        "unexpected EventStream acknowledgement: {\"Handled\":1}"
    );
    assert!(check_acknowledgement("nonsense").is_err());
    assert_eq!(event_name(&json("{}")), "unknown event");
    assert_eq!(event_name(&json("[]")), "unknown event");
    assert_eq!(event_name(&json(r#"{"B":1,"A":2}"#)), "A");
}

#[test]
fn geometry_faults_name_the_first_thing_that_is_wrong() {
    let fault = |source: &str| words(parse_output_geometry(&json(source)).err());
    assert_eq!(fault(r#"{}"#), "niri output has no string name");
    assert_eq!(fault(r#"{"name": 1}"#), "niri output has no string name");
    assert_eq!(
        fault(r#"{"name": "a"}"#),
        "niri output is disabled and has no logical geometry"
    );
    assert_eq!(
        fault(r#"{"name": "a", "logical": null}"#),
        "niri output logical x is not an i32"
    );
    assert_eq!(
        fault(r#"{"name": "a", "logical": {"x": 2147483648}}"#),
        "niri output logical x is not an i32"
    );
    assert_eq!(
        fault(r#"{"name": "a", "logical": {"x": 1, "y": 1.5}}"#),
        "niri output logical y is not an i32"
    );
    assert_eq!(
        fault(r#"{"name": "a", "logical": {"x": 1, "y": 1, "width": -1}}"#),
        "niri output logical width is not a u32"
    );
    assert_eq!(
        fault(r#"{"name": "a", "logical": {"x": 1, "y": 1, "width": 1, "height": 4294967296}}"#),
        "niri output logical height is not a u32"
    );
    assert_eq!(
        fault(r#"{"name": "a", "logical": {"x": 1, "y": 1, "width": 1, "height": 1}}"#),
        "niri output logical scale is not a number"
    );
    assert_eq!(
        fault(r#"{"name":"a","logical":{"x":1,"y":1,"width":1,"height":1,"scale":2}}"#),
        "niri output logical transform is not a string"
    );
}

#[test]
fn an_output_is_found_by_its_name() {
    let reply = json(
        r#"{"Outputs": {"DP-1": {"name": "DP-1", "logical":
            {"x":1,"y":2,"width":3,"height":4,"scale":2,"transform":"90"}}}}"#,
    );
    let geometry = output_geometry(&reply, "DP-1").ok().unwrap();
    assert_eq!((geometry.x, geometry.y, geometry.width, geometry.height), (1, 2, 3, 4));
    assert_eq!(f64::from_bits(geometry.scale), 2.0);
    assert_eq!(words(output_geometry(&reply, "DP-2").err()), "niri has no output named DP-2");
    assert_eq!(
        words(output_geometry(&json(r#"{"Outputs": []}"#), "a").err()),
        "niri Outputs response is not an object"
    );
    assert_eq!(
        words(output_geometry(&json("{}"), "a").err()),
        "expected niri Outputs response, got {}"
    );
}

#[test]
fn the_focused_output_may_be_missing() {
    let name = |source: &str| focused_output_name(&json(source));
    assert_eq!(name(r#"{"FocusedOutput": null}"#).ok(), Some(None));
    assert_eq!(
        name(r#"{"FocusedOutput": {"name": "DP-1"}}"#).ok(),
        Some(Some("DP-1".to_owned()))
    );
    assert_eq!(
        words(name(r#"{"FocusedOutput": {}}"#).err()),
        "niri FocusedOutput response has no string name"
    );
    assert!(name("{}").is_err());
}

#[test]
fn snapshots_count_and_name() {
    let version = json(r#"{"Version": "26.04"}"#);
    let outputs = json(r#"{"Outputs": {"a": {}, "b": {}}}"#);
    let windows = json(r#"{"Windows": [1, 2, 3]}"#);
    let window = |focused: &str| {
        snapshot(&version, &outputs, &windows, &json(focused)).ok().unwrap().focused_window
    };
    let summary =
        snapshot(&version, &outputs, &windows, &json(r#"{"FocusedWindow": null}"#)).ok().unwrap();
    assert_eq!(summary.version, "26.04");
    assert_eq!((summary.output_count, summary.window_count), (2, 3));
    assert_eq!(summary.focused_window, None);
    assert_eq!(
        window(r#"{"FocusedWindow": {"title": "T", "app_id": "A"}}"#),
        Some("T [A]".to_owned())
    );
    assert_eq!(window(r#"{"FocusedWindow": {"title": "T"}}"#), Some("T".to_owned()));
    assert_eq!(window(r#"{"FocusedWindow": {"app_id": "A"}}"#), Some("[A]".to_owned()));
    assert_eq!(window(r#"{"FocusedWindow": {}}"#), Some("untitled".to_owned()));
    let none = json(r#"{"FocusedWindow": null}"#);
    assert_eq!(
        words(snapshot(&json(r#"{"Version": 1}"#), &outputs, &windows, &none).err()),
        "niri Version response is not a string"
    );
    assert_eq!(
        words(snapshot(&version, &outputs, &json(r#"{"Windows": {}}"#), &none).err()),
        "niri Windows response is not an array"
    );
    assert_eq!(
        words(snapshot(&version, &json(r#"{"Outputs": 1}"#), &windows, &none).err()),
        "niri Outputs response is not an object"
    );
}

#[test]
fn lists_the_outputs_that_are_enabled() {
    let logical = r#"{"x": 1, "y": 2, "width": 3, "height": 4, "scale": 1.5, "transform": "Normal"}"#;
    let reply = json(&format!(
        r#"{{"Outputs": {{
            "A": {{"name": "A", "logical": {logical}}},
            "B": {{"name": "B", "logical": null}},
            "C": {{"name": "C"}},
            "D": {{"name": "D", "logical": {logical}}}
        }}}}"#
    ));
    let geometries = output_geometries(&reply).ok().unwrap();
    let names: Vec<&str> = geometries.iter().map(|output| output.name.as_str()).collect();
    assert_eq!(names, ["A", "D"]);
    assert_eq!(geometries[1].scale, 1.5f64.to_bits());
    let broken = json(r#"{"Outputs": {"A": {"name": "A", "logical": {"x": 0.5}}}}"#);
    assert_eq!(words(output_geometries(&broken).err()), "niri output logical x is not an i32");
    assert_eq!(
        words(output_geometries(&json(r#"{"Outputs": []}"#)).err()),
        "niri Outputs response is not an object"
    );
    assert_eq!(
        words(output_geometries(&json(r#"{"Other": [true]}"#)).err()),
        "expected niri Outputs response, got {\"Other\":[true]}"
    );
}

#[test]
fn requests_are_json_strings() {
    assert_eq!(request_line("Version"), "\"Version\"\n");
    assert_eq!(
        request_line("a\"b\\c\nd\u{1}\u{8}\u{c}\r\t\u{7f}é"),
        "\"a\\\"b\\\\c\\nd\\u0001\\b\\f\\r\\t\u{7f}é\"\n"
    );
}

#[test]
fn events_are_written_on_one_line() {
    let line = |source: &str| event_line(source);
    assert_eq!(
        line("{ \"WindowClosed\" : { \"id\": 3 } }\n").ok(),
        Some(r#"{"WindowClosed":{"id":3}}"#.to_owned())
    );
    assert_eq!(line(" [1.0, \"\\u00e9\"] ").ok(), Some("[1.0,\"é\"]".to_owned()));
    assert_eq!(words(line("{").err()), "invalid niri reply");
    assert_eq!(words(line("").err()), "invalid niri reply");
    assert_eq!(stream_end(0), "niri event stream ended after 0 events");
    assert_eq!(stream_end(12), "niri event stream ended after 12 events");
}

#[test]
fn values_know_their_text() {
    let value = json(r#"{ "name": "a", "list": [1, -2, 1e3, true, null] }"#);
    assert_eq!(value.text(), r#"{"list":[1,-2,1000.0,true,null],"name":"a"}"#);
    assert_eq!(value.get("list").unwrap().text(), "[1,-2,1000.0,true,null]");
    assert_eq!(value.into_field("name").unwrap().text(), "\"a\"");
}
