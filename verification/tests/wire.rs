use loopia::request::Request;
use loopia::text::{order_names, str_eq, NameOrder};
use loopia::wire::{Members, WireValue};

fn text(value: &str) -> WireValue {
    WireValue::String(value.to_string())
}

fn person() -> WireValue {
    let mut members = Members::new();
    members.insert("name".to_string(), text("John Doe"));
    members.insert("age".to_string(), WireValue::Int(37));
    members.insert(
        "children".to_string(),
        WireValue::Array(vec![text("Mark"), text("Jennyfer")]),
    );
    WireValue::Struct(members)
}

fn names(members: &Members) -> Vec<&str> {
    members.entries().iter().map(|member| member.0.as_str()).collect()
}

#[test]
fn members_are_found_by_name() {
    assert_eq!(Some(&text("John Doe")), person().get("name"));
    assert_eq!(Some(&WireValue::Int(37)), person().get("age"));
    assert_eq!(None, person().get("SSN"));
    assert_eq!(None, person().get("Name"));
    assert_eq!(None, person().get(""));
}

#[test]
fn only_a_struct_has_members() {
    assert_eq!(None, text("name").get("name"));
    assert_eq!(None, WireValue::Int(1).get("name"));
    assert_eq!(None, WireValue::Array(vec![person()]).get("name"));
}

#[test]
fn values_are_read_by_type() {
    assert_eq!(Some(37), WireValue::Int(37).as_i32());
    assert_eq!(None, text("37").as_i32());
    assert_eq!(Some("John Doe"), text("John Doe").as_str());
    assert_eq!(None, WireValue::Int(0).as_str());
    assert_eq!(
        Some(&vec![text("Mark"), text("Jennyfer")]),
        person().get("children").unwrap().as_array()
    );
    assert_eq!(None, person().as_array());
    assert_eq!(None, text("Mark").as_array());
}

#[test]
fn typed_members() {
    assert_eq!(Some(37), person().get_i32("age"));
    assert_eq!(None, person().get_i32("name"));
    assert_eq!(None, person().get_i32("height"));
    assert_eq!(Some("John Doe"), person().get_str("name"));
    assert_eq!(None, person().get_str("age"));
    assert_eq!(None, person().get_str("children"));
    assert_eq!(None, WireValue::Int(37).get_i32("age"));
}

#[test]
fn clone_is_equal_all_the_way_down() {
    let nested = WireValue::Array(vec![person(), WireValue::Array(vec![]), WireValue::Int(-5)]);
    assert_eq!(nested, nested.clone());
    assert_eq!(person(), person().clone());
    assert_ne!(person(), WireValue::Struct(Members::new()));
    let members = person().as_struct().unwrap().clone();
    assert_eq!(person(), WireValue::Struct(members));
}

#[test]
fn strings_compare_by_content() {
    assert!(str_eq("", ""));
    assert!(str_eq("AUTH_ERROR", "AUTH_ERROR"));
    assert!(!str_eq("AUTH_ERROR", "AUTH_ERROr"));
    assert!(!str_eq("AUTH_ERROR", "AUTH_ERROR "));
    assert!(!str_eq("", "a"));
    assert!(str_eq("b\u{e5}t", "b\u{e5}t"));
    assert!(!str_eq("b\u{e5}t", "bat"));
    assert!(!str_eq("\u{e5}", "\u{e4}"));
}

#[test]
fn request_collects_its_arguments_in_order() {
    let request = Request::new("getZoneRecords");
    assert_eq!("getZoneRecords", request.procedure());
    assert!(request.args().is_empty());
    let request = request.arg(text("a")).arg(WireValue::Int(2)).arg(text("c"));
    assert_eq!("getZoneRecords", request.procedure());
    assert_eq!(&vec![text("a"), WireValue::Int(2), text("c")], request.args());
}

#[test]
fn built_request_starts_with_the_credentials() {
    let request = Request::build(
        "addZoneRecord",
        "registrar@loopiaapi",
        "password",
        vec![text(""), person()],
    );
    assert_eq!("addZoneRecord", request.procedure());
    assert_eq!(
        &vec![
            text("registrar@loopiaapi"),
            text("password"),
            text(""),
            person(),
        ],
        request.args()
    );
    let bare = Request::build("getDomains", "u", "p", vec![]);
    assert_eq!(&vec![text("u"), text("p")], bare.args());
    assert_eq!(bare, Request::new("getDomains").arg(text("u")).arg(text("p")));
}

#[test]
fn members_are_held_in_ascending_order_of_their_names() {
    let mut members = Members::new();
    assert_eq!(0, members.len());
    for name in ["type", "rdata", "ttl", "record_id", "priority", "", "rd", "TTL"] {
        assert_eq!(None, members.insert(name.to_string(), text(name)));
    }
    assert_eq!(8, members.len());
    assert_eq!(
        vec!["", "TTL", "priority", "rd", "rdata", "record_id", "ttl", "type"],
        names(&members)
    );
    for name in ["type", "rdata", "ttl", "record_id", "priority", "", "rd", "TTL"] {
        assert_eq!(Some(&text(name)), members.get(name));
    }
    assert_eq!(None, members.get("rdat"));
    assert_eq!(None, members.get("tz"));
}

#[test]
fn a_name_holds_one_value() {
    let mut members = Members::new();
    assert_eq!(None, members.insert("ttl".to_string(), WireValue::Int(300)));
    assert_eq!(None, members.insert("type".to_string(), text("A")));
    assert_eq!(
        Some(WireValue::Int(300)),
        members.insert("ttl".to_string(), WireValue::Int(600))
    );
    assert_eq!(Some(text("A")), members.insert("type".to_string(), text("MX")));
    assert_eq!(2, members.len());
    assert_eq!(Some(&WireValue::Int(600)), members.get("ttl"));
    assert_eq!(Some(&text("MX")), members.get("type"));
    assert_eq!(vec!["ttl", "type"], names(&members));
}

#[test]
fn insertion_order_does_not_show() {
    let mut forward = Members::new();
    let mut backward = Members::new();
    let all = ["a", "b", "ab", "B", "\u{e5}", "z"];
    for name in all {
        forward.insert(name.to_string(), text(name));
    }
    for name in all.iter().rev() {
        backward.insert(name.to_string(), text(name));
    }
    assert_eq!(forward, backward);
    assert_eq!(vec!["B", "a", "ab", "b", "z", "\u{e5}"], names(&forward));
}

#[test]
fn members_follow_the_order_of_str() {
    let all = ["", "a", "A", "ab", "b", "\u{e5}", "\u{1f600}", "\u{ffff}", "zz", "z\u{0}"];
    let mut members = Members::new();
    for name in all {
        members.insert(name.to_string(), WireValue::Int(0));
    }
    let mut sorted = all.to_vec();
    sorted.sort();
    assert_eq!(sorted, names(&members));
}

#[test]
fn names_are_ordered_character_by_character() {
    assert_eq!(NameOrder::Same, order_names("", ""));
    assert_eq!(NameOrder::Same, order_names("ttl", "ttl"));
    assert_eq!(NameOrder::Before, order_names("", "a"));
    assert_eq!(NameOrder::After, order_names("a", ""));
    assert_eq!(NameOrder::Before, order_names("rdata", "record_id"));
    assert_eq!(NameOrder::After, order_names("record_id", "rdata"));
    assert_eq!(NameOrder::Before, order_names("ttl", "type"));
    assert_eq!(NameOrder::Before, order_names("tt", "ttl"));
    assert_eq!(NameOrder::After, order_names("ttl", "tt"));
    assert_eq!(NameOrder::Before, order_names("Z", "a"));
    assert_eq!(NameOrder::Before, order_names("z", "\u{e5}"));
    assert_eq!(NameOrder::Before, order_names("\u{ffff}", "\u{10000}"));
    assert_eq!(NameOrder::After, order_names("\u{1f600}", "\u{e5}"));
}
