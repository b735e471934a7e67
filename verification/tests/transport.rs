use loopia::record::ZoneRecord;
use loopia::request::Request;
use loopia::transport::{encode, frame, prepare, receive, succeeded, HttpPost, TransportError};
use loopia::wire::{Members, WireValue};

fn text(value: &str) -> WireValue {
    WireValue::String(value.to_string())
}

fn body_of(request: &Request) -> String {
    String::from_utf8(prepare("https://api.loopia.se/RPCSERV", request).body).unwrap()
}

const HEAD: &str = "<?xml version=\"1.0\" encoding=\"utf-8\"?><methodCall>";

#[test]
fn call_without_arguments_is_encoded() {
    assert_eq!(
        format!(
            "{}    <methodName>getDomains</methodName>    <params>    </params></methodCall>",
            HEAD
        ),
        body_of(&Request::new("getDomains"))
    );
}

#[test]
fn string_and_integer_arguments_are_encoded() {
    let request = Request::new("getZoneRecords")
        .arg(text("example.com"))
        .arg(WireValue::Int(-300));
    assert_eq!(
        format!(
            "{}    <methodName>getZoneRecords</methodName>    <params>        <param>\
             <value>\n<string>example.com</string>\n</value>\n        </param>        <param>\
             <value>\n<i4>-300</i4>\n</value>\n        </param>    </params></methodCall>",
            HEAD
        ),
        body_of(&request)
    );
}

#[test]
fn record_argument_is_encoded() {
    let record = ZoneRecord {
        id: None,
        data: "192.0.2.1".to_string(),
        ttl: 300,
        priority: 0,
        type_: "A".to_string(),
    };
    let request = Request::new("addZoneRecord").arg(record.into_wire());
    assert_eq!(
        format!(
            "{}    <methodName>addZoneRecord</methodName>    <params>        <param>\
             <value>\n<struct>\n\
             <member>\n<name>priority</name>\n<value>\n<i4>0</i4>\n</value>\n</member>\n\
             <member>\n<name>rdata</name>\n<value>\n<string>192.0.2.1</string>\n</value>\n</member>\n\
             <member>\n<name>ttl</name>\n<value>\n<i4>300</i4>\n</value>\n</member>\n\
             <member>\n<name>type</name>\n<value>\n<string>A</string>\n</value>\n</member>\n\
             </struct>\n</value>\n        </param>    </params></methodCall>",
            HEAD
        ),
        body_of(&request)
    );
}

#[test]
fn array_argument_is_encoded() {
    let request = Request::new("echo").arg(WireValue::Array(vec![
        WireValue::Int(1),
        WireValue::Array(vec![]),
    ]));
    assert_eq!(
        format!(
            "{}    <methodName>echo</methodName>    <params>        <param>\
             <value>\n<array>\n<data>\n\
             <value>\n<i4>1</i4>\n</value>\n\
             <value>\n<array>\n<data>\n</data>\n</array>\n</value>\n\
             </data>\n</array>\n</value>\n        </param>    </params></methodCall>",
            HEAD
        ),
        body_of(&request)
    );
}

#[test]
fn markup_in_text_is_escaped() {
    let body = body_of(&Request::new("a<b").arg(text("v=spf1 & <all>")));
    assert!(body.contains("<methodName>a&lt;b</methodName>"));
    assert!(body.contains("<string>v=spf1 &amp; &lt;all&gt;</string>"));
}

#[test]
fn same_call_gives_the_same_body() {
    let build = || {
        Request::build(
            "getZoneRecords",
            "registrar@loopiaapi",
            "password",
            vec![text(""), text("example.com"), text("@")],
        )
    };
    assert_eq!(body_of(&build()), body_of(&build()));
    assert_ne!(body_of(&build()), body_of(&build().arg(text("@"))));
}

#[test]
fn post_is_framed_for_the_endpoint() {
    let request = Request::new("getZoneRecords").arg(text("b\u{e5}t.se"));
    let post = prepare("https://api.loopia.se/RPCSERV", &request);
    assert_eq!("https://api.loopia.se/RPCSERV", post.url);
    assert_eq!(post.body.len() as u64, post.content_length);
    assert_eq!(body_of(&request).into_bytes(), post.body);
    assert!(post.content_length > "getZoneRecords".len() as u64);
}

#[test]
fn success_statuses() {
    assert!(!succeeded(0));
    assert!(!succeeded(199));
    assert!(succeeded(200));
    assert!(succeeded(204));
    assert!(succeeded(299));
    assert!(!succeeded(300));
    assert!(!succeeded(404));
    assert!(!succeeded(500));
    assert!(!succeeded(u16::MAX));
}

#[test]
fn exchange_with_a_decoded_success() {
    assert_eq!(Ok(text("OK")), receive(Some(200), Some(text("OK"))));
    assert_eq!(Ok(WireValue::Int(1)), receive(Some(299), Some(WireValue::Int(1))));
}

#[test]
fn exchange_with_a_failure_status() {
    for status in [199, 300, 301, 401, 404, 500, 503] {
        assert_eq!(
            Err(TransportError::HttpStatus),
            receive(Some(status), Some(text("OK")))
        );
        assert_eq!(Err(TransportError::HttpStatus), receive(Some(status), None));
    }
}

#[test]
fn exchange_without_a_response() {
    assert_eq!(Err(TransportError::HttpStatus), receive(None, None));
    assert_eq!(Err(TransportError::HttpStatus), receive(None, Some(text("OK"))));
}

#[test]
fn exchange_with_an_undecodable_body() {
    assert_eq!(Err(TransportError::Decode), receive(Some(200), None));
    assert_eq!(Err(TransportError::Decode), receive(Some(204), None));
}

#[test]
fn encoded_call_is_the_posted_body() {
    let request = Request::build("getZoneRecords", "user", "password", vec![text("example.com")]);
    assert_eq!(
        encode(&request),
        prepare("https://api.loopia.se/RPCSERV", &request).body
    );
    let document = String::from_utf8(encode(&request)).unwrap();
    assert!(document.starts_with(HEAD));
    assert!(document.ends_with("</methodCall>"));
    assert_eq!(3, document.matches("<param>").count());
    assert!(document.find("<string>user</string>") < document.find("<string>password</string>"));
    assert!(document.find("<string>password</string>") < document.find("<string>example.com</string>"));
}

#[test]
fn struct_members_are_encoded_in_the_order_of_their_names() {
    let mut members = Members::new();
    members.insert("b".to_string(), WireValue::Int(2));
    members.insert("a".to_string(), WireValue::Int(1));
    members.insert("b".to_string(), WireValue::Int(3));
    let document = body_of(&Request::new("echo").arg(WireValue::Struct(members)));
    assert_eq!(
        format!(
            "{}    <methodName>echo</methodName>    <params>        <param>\
             <value>\n<struct>\n\
             <member>\n<name>a</name>\n<value>\n<i4>1</i4>\n</value>\n</member>\n\
             <member>\n<name>b</name>\n<value>\n<i4>3</i4>\n</value>\n</member>\n\
             </struct>\n</value>\n        </param>    </params></methodCall>",
            HEAD
        ),
        document
    );
}

#[test]
fn given_bytes_are_framed_as_they_are() {
    let body = b"<?xml version=\"1.0\"?><methodCall/>".to_vec();
    assert_eq!(
        HttpPost {
            url: "https://api.loopia.se/RPCSERV".to_string(),
            body: body.clone(),
            content_length: 34,
        },
        frame("https://api.loopia.se/RPCSERV", body)
    );
}

#[test]
fn empty_body_has_no_length() {
    let post = frame("", Vec::new());
    assert_eq!("", post.url);
    assert!(post.body.is_empty());
    assert_eq!(0, post.content_length);
}

#[test]
fn content_length_counts_bytes() {
    let post = frame("https://api.loopia.se/RPCSERV", "b\u{e5}t".as_bytes().to_vec());
    assert_eq!(4, post.content_length);
    assert_eq!(vec![98, 195, 165, 116], post.body);
}

#[test]
fn prepared_post_is_the_framed_document() {
    let request = Request::new("getZoneRecords").arg(text("example.com"));
    assert_eq!(
        frame("https://api.loopia.se/RPCSERV", encode(&request)),
        prepare("https://api.loopia.se/RPCSERV", &request)
    );
}
