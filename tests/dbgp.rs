use debug_tui::client::Command;
use debug_tui::client::DbgpClient;
use debug_tui::dbgp::CommandResponse;
use debug_tui::dbgp::ContinuationStatus;
use debug_tui::dbgp::Message;
use debug_tui::dbgp::Property;
use debug_tui::dbgp::PropertyType;
use debug_tui::decode::decode_frame;
use debug_tui::decode::frame_payload;
use debug_tui::decode::parse_xml;
use debug_tui::decode::DbgpError;
use debug_tui::history::History;
use debug_tui::history::HistoryEntry;
use debug_tui::session::ListenInput;
use debug_tui::session::ListenStatus;
use debug_tui::text::decode_base64_text;
use debug_tui::text::parse_u32;

#[test]
fn test_parse_xml() {
    let result = parse_xml(
        r#"<?xml version="1.0" encoding="iso-8859-1"?>
            <init xmlns="urn:debugger_protocol_v1" xmlns:xdebug="https://xdebug.org/dbgp/xdebug" fileuri="file:///application/vendor/bin/codecept" language="PHP" xdebug:language_version="7.1.33-53+ubuntu22.04.1+deb.sury.org+1" protocol_version="1.0" appid="37"><engine version="2.9.8"><![CDATA[Xdebug]]></engine><author><![CDATA[Derick Rethans]]></author><url><![CDATA[https://xdebug.org]]></url><copyright><![CDATA[Copyright (c) 2002-2020 by Derick Rethans]]></copyright></init>
        "#,
    )
    .unwrap();
    match result {
        Message::Init(init) => {
            assert_eq!("file:///application/vendor/bin/codecept", init.fileuri);
        }
        _ => panic!("Did not parse"),
    }
}

#[test]
fn test_parse_get_stack() {
    let result = parse_xml(
        r#"<?xml version="1.0" encoding="iso-8859-1"?>
<response xmlns="urn:debugger_protocol_v1" xmlns:xdebug="https://xdebug.org/dbgp/xdebug" command="stack_get" transaction_id="10"><stack where="call_function" level="0" type="file" filename="file:///app/test.php" lineno="6"></stack></response>"#,
    )
    .unwrap();

    match result {
        Message::Response(r) => {
            match r.command {
                CommandResponse::StackGet(s) => {
                    assert_eq!("file:///app/test.php", s.top().filename)
                }
                _ => panic!("Could not parse get_stack"),
            };
        }
        _ => panic!("Did not parse"),
    };
}

#[test]
fn test_parse_get_multiple_stack_entries() {
    let result = parse_xml(
        r#"<?xml version="1.0" encoding="iso-8859-1"?>
<response xmlns="urn:debugger_protocol_v1" xmlns:xdebug="https://xdebug.org/dbgp/xdebug" command="stack_get" transaction_id="16"><stack where="another_function" level="0" type="file" filename="file:///home/daniel/www/dantleech/debug-tui/php/test.php" lineno="21"></stack><stack where="call_function" level="1" type="file" filename="file:///home/daniel/www/dantleech/debug-tui/php/test.php" lineno="11"></stack><stack where="{main}" level="2" type="file" filename="file:///home/daniel/www/dantleech/debug-tui/php/test.php" lineno="4"></stack></response>"#,
    )
    .unwrap();

    match result {
        Message::Response(r) => {
            match r.command {
                CommandResponse::StackGet(s) => {
                    assert_eq!(3, s.entries.len())
                }
                _ => panic!("Could not parse get_stack"),
            };
        }
        _ => panic!("Did not parse"),
    };
}

#[test]
fn test_parse_source() {
    let result = parse_xml(
        r#"<response xmlns="urn:debugger_protocol_v1" xmlns:xdebug="https://xdebug.org/dbgp/xdebug" command="source" transaction_id="11" encoding="base64"><![CDATA[PD9waHAKCmNhbGxfZnVuY3Rpb24oImhlbGxvIik7CgpmdW5jdGlvbiBjYWxsX2Z1bmN0aW9uKHN0cmluZyAkaGVsbG8pIHsKICAgIGVjaG8gJGhlbGxvOwp9Cg==]]></response>"#,
    )
    .unwrap();

    match result {
        Message::Response(r) => {
            match r.command {
                CommandResponse::Source(source) => {
                    let expected = r#"<?php

call_function("hello");

function call_function(string $hello) {
    echo $hello;
}
"#;
                    assert_eq!(expected, source)
                }
                _ => panic!("Could not parse get_stack"),
            };
        }
        _ => panic!("Did not parse"),
    };
}

struct Expected {
    name: &'static str,
    fullname: &'static str,
    classname: Option<&'static str>,
    page: Option<u32>,
    pagesize: Option<u32>,
    property_type: PropertyType,
    facet: Option<&'static str>,
    size: Option<u32>,
    children: Vec<Expected>,
    key: Option<&'static str>,
    address: Option<&'static str>,
    encoding: Option<&'static str>,
    value: Option<&'static str>,
}

fn assert_property(expected: &Expected, actual: &Property) {
    assert_eq!(expected.name, actual.name);
    assert_eq!(expected.fullname, actual.fullname);
    assert_eq!(expected.classname, actual.classname.as_deref());
    assert_eq!(expected.page, actual.page);
    assert_eq!(expected.pagesize, actual.pagesize);
    assert_eq!(expected.property_type, actual.property_type);
    assert_eq!(expected.facet, actual.facet.as_deref());
    assert_eq!(expected.size, actual.size);
    assert_eq!(expected.key, actual.key.as_deref());
    assert_eq!(expected.address, actual.address.as_deref());
    assert_eq!(expected.encoding, actual.encoding.as_deref());
    assert_eq!(expected.value, actual.value.as_deref());
    assert_eq!(expected.children.len(), actual.children.len());
    for (e, a) in expected.children.iter().zip(actual.children.iter()) {
        assert_property(e, a);
    }
}

fn leaf(
    name: &'static str,
    property_type: PropertyType,
    facet: Option<&'static str>,
    size: Option<u32>,
    encoding: Option<&'static str>,
    value: &'static str,
) -> Expected {
    Expected {
        name,
        fullname: name,
        classname: None,
        page: None,
        pagesize: None,
        property_type,
        facet,
        size,
        children: vec![],
        key: None,
        address: None,
        encoding,
        value: Some(value),
    }
}

const CONTEXT_XML: &str = r#"
            <response xmlns="urn:debugger_protocol_v1" xmlns:xdebug="https://xdebug.org/dbgp/xdebug" command="context_get" transaction_id="4" context="0">
            <property name="$bar" fullname="$bar" type="string" size="3" encoding="base64"><![CDATA[Zm9v]]></property>
            <property name="$float" fullname="$float" type="float"><![CDATA[123.4]]></property>
            <property name="$int" fullname="$int" type="int"><![CDATA[123]]></property>
            <property name="$true" fullname="$true" type="bool"><![CDATA[1]]></property>
            <property name="$this" fullname="$this" type="object" classname="Foo" children="1" numchildren="2" page="0" pagesize="32">
                <property name="true" fullname="$this-&gt;true" facet="public" type="bool"><![CDATA[1]]></property>
                <property name="bar" fullname="$this-&gt;bar" facet="public" type="string" size="3" encoding="base64"><![CDATA[Zm9v]]></property>
            </property>
            </response>"#;

#[test]
fn test_parse_context_get() {
    let result = parse_xml(CONTEXT_XML).unwrap();

    match result {
        Message::Response(r) => {
            match r.command {
                CommandResponse::ContextGet(response) => {
                    let expected = vec![
                        leaf("$bar", PropertyType::String, None, Some(3), Some("base64"), "foo"),
                        leaf("$float", PropertyType::Float, None, None, None, "123.4"),
                        leaf("$int", PropertyType::Int, None, None, None, "123"),
                        leaf("$true", PropertyType::Bool, None, None, None, "1"),
                        Expected {
                            name: "$this",
                            fullname: "$this",
                            classname: Some("Foo"),
                            page: Some(0),
                            pagesize: Some(32),
                            property_type: PropertyType::Object,
                            facet: None,
                            size: None,
                            children: vec![
                                leaf("true", PropertyType::Bool, Some("public"), None, None, "1"),
                                leaf(
                                    "bar",
                                    PropertyType::String,
                                    Some("public"),
                                    Some(3),
                                    Some("base64"),
                                    "foo",
                                ),
                            ],
                            key: None,
                            address: None,
                            encoding: None,
                            value: None,
                        },
                    ];
                    assert_eq!(expected.len(), response.properties.len());
                    for (e, a) in expected.iter().zip(response.properties.iter()) {
                        assert_property(e, a);
                    }
                }
                _ => panic!("Could not parse context_get"),
            };
        }
        _ => panic!("Did not parse"),
    };
}

#[test]
fn context_property_base64_value_decodes() {
    let xml = r#"<response command="context_get" transaction_id="4"><property name="$bar" fullname="$bar" type="string" encoding="base64"><![CDATA[Zm9v]]></property></response>"#;
    match parse_xml(xml).unwrap() {
        Message::Response(r) => match r.command {
            CommandResponse::ContextGet(c) => {
                assert_eq!(PropertyType::String, c.properties[0].property_type);
                assert_eq!(Some("foo".to_string()), c.properties[0].value);
                assert!(c.properties[0].value_is("foo"));
                assert!(!c.properties[0].value_is("Zm9v"));
                assert_eq!("string", c.properties[0].type_label());
            }
            _ => panic!("not a context"),
        },
        _ => panic!("not a response"),
    }
}

#[test]
fn source_base64_decodes_exactly() {
    let xml = r#"<response command="source" transaction_id="2" encoding="base64"><![CDATA[PD9waHAK]]></response>"#;
    match parse_xml(xml).unwrap() {
        Message::Response(r) => match r.command {
            CommandResponse::Source(s) => assert_eq!("<?php\n", s),
            _ => panic!("not a source"),
        },
        _ => panic!("not a response"),
    }
}

#[test]
fn transaction_id_is_kept() {
    let xml = r#"<response command="feature_set" transaction_id="42" feature="max_depth" success="1"></response>"#;
    match parse_xml(xml).unwrap() {
        Message::Response(r) => {
            assert_eq!("42", r.transaction_id);
            assert!(matches!(r.command, CommandResponse::Unknown));
        }
        _ => panic!("not a response"),
    }
}

#[test]
fn continuation_statuses() {
    let brk = parse_xml(r#"<response command="step_into" transaction_id="1" status="break" reason="ok"/>"#).unwrap();
    match brk {
        Message::Response(r) => match r.command {
            CommandResponse::StepInto(c) => {
                assert!(matches!(c.status, ContinuationStatus::Break));
                assert_eq!(Some("ok".to_string()), c.reason);
            }
            _ => panic!("not a step_into"),
        },
        _ => panic!("not a response"),
    }
    let stop = parse_xml(r#"<response command="run" transaction_id="2" status="stopping" reason="ok"/>"#).unwrap();
    match stop {
        Message::Response(r) => assert!(matches!(r.command, CommandResponse::Run(ref c) if matches!(c.status, ContinuationStatus::Stopping))),
        _ => panic!("not a response"),
    }
    let other = parse_xml(r#"<response command="step_out" transaction_id="3" status="starting" reason="ok"/>"#).unwrap();
    match other {
        Message::Response(r) => match r.command {
            CommandResponse::StepOut(c) => match c.status {
                ContinuationStatus::Unknown(s) => assert_eq!("starting", s),
                _ => panic!("expected unknown"),
            },
            _ => panic!("not a step_out"),
        },
        _ => panic!("not a response"),
    }
}

#[test]
fn continuation_reason_is_optional() {
    match parse_xml(r#"<response command="run" transaction_id="1" status="break"/>"#).unwrap() {
        Message::Response(r) => match r.command {
            CommandResponse::Run(c) => {
                assert!(matches!(c.status, ContinuationStatus::Break));
                assert_eq!(None, c.reason);
            }
            _ => panic!("not a run"),
        },
        _ => panic!("not a response"),
    }
    assert_eq!(Some(DbgpError::Protocol), parse_xml(r#"<response command="run" transaction_id="1" reason="ok"/>"#).err());
}

#[test]
fn malformed_payloads_are_protocol_errors() {
    assert_eq!(Some(DbgpError::Protocol), parse_xml("<response").err());
    assert_eq!(Some(DbgpError::Protocol), parse_xml("<other/>").err());
    assert_eq!(Some(DbgpError::Protocol), parse_xml(r#"<response command="run"/>"#).err());
    assert_eq!(Some(DbgpError::Protocol), parse_xml(r#"<response command="stack_get" transaction_id="1"><stack filename="a" lineno="x"/></response>"#).err());
    assert_eq!(Some(DbgpError::Protocol), parse_xml(r#"<response command="context_get" transaction_id="1"><property name="a" type="int" page="-1"/></response>"#).err());
    assert_eq!(Some(DbgpError::Protocol), parse_xml(r#"<response command="source" transaction_id="1"><![CDATA[%%%]]></response>"#).err());
    assert_eq!(Some(DbgpError::Protocol), parse_xml("<init/>").err());
}

#[test]
fn frames_are_split_at_nul_bytes() {
    let frame = b"5\0<a/>\0".to_vec();
    assert_eq!(b"<a/>".to_vec(), frame_payload(&frame).unwrap());
    let unterminated = b"5\0<a/>".to_vec();
    assert_eq!(b"<a/>".to_vec(), frame_payload(&unterminated).unwrap());
    assert_eq!(Some(DbgpError::Transport), frame_payload(&b"12".to_vec()).err());
    assert_eq!(Some(DbgpError::EmptyFrame), frame_payload(&b"0\0\0".to_vec()).err());
    assert_eq!(Some(DbgpError::EmptyFrame), frame_payload(&b"0\0".to_vec()).err());
}

#[test]
fn whole_frame_decodes_init() {
    let xml = r#"<init fileuri="file:///a.php"/>"#;
    let mut frame = format!("{}", xml.len()).into_bytes();
    frame.push(0);
    frame.extend_from_slice(xml.as_bytes());
    frame.push(0);
    match decode_frame(&frame).unwrap() {
        Message::Init(i) => assert_eq!("file:///a.php", i.fileuri),
        _ => panic!("not an init"),
    }
    let mut bad = b"2\0".to_vec();
    bad.extend_from_slice(&[0xff, 0xfe]);
    bad.push(0);
    assert_eq!(Some(DbgpError::Protocol), decode_frame(&bad).err());
}

#[test]
fn commands_carry_increasing_transaction_ids() {
    let mut client = DbgpClient::new();
    assert_eq!(b"step_into -i 0\0".to_vec(), client.command(&Command::StepInto));
    assert_eq!(b"stack_get -i 1 -n 0\0".to_vec(), client.command(&Command::StackGet));
    assert_eq!(b"context_get -i 2 -d 12\0".to_vec(), client.command(&Command::ContextGet(12)));
    assert_eq!(
        b"source -i 3 -f file:///a.php\0".to_vec(),
        client.command(&Command::Source("file:///a.php".to_string()))
    );
    assert_eq!(
        b"feature_set -i 4 -n max_depth -v 3\0".to_vec(),
        client.command(&Command::FeatureSet("max_depth".to_string(), "3".to_string()))
    );
    assert_eq!(5, client.tid);
}

#[test]
fn replies_must_match_the_command() {
    let m = parse_xml(r#"<response command="run" transaction_id="1" status="break" reason="ok"/>"#).unwrap();
    assert_eq!(Some(DbgpError::Protocol), DbgpClient::reply(&Command::StepInto, m).err());
    let m = parse_xml(r#"<response command="run" transaction_id="1" status="break" reason="ok"/>"#).unwrap();
    let body = DbgpClient::reply(&Command::Run, m).unwrap();
    assert!(matches!(DbgpClient::continuation_reply(body).unwrap().status, ContinuationStatus::Break));
    let init = parse_xml(r#"<init fileuri="file:///a.php"/>"#).unwrap();
    assert_eq!("file:///a.php", DbgpClient::connect_reply(init).unwrap().fileuri);
    let init = parse_xml(r#"<init fileuri="file:///a.php"/>"#).unwrap();
    assert_eq!(Some(DbgpError::Protocol), DbgpClient::reply(&Command::Run, init).err());
}

#[test]
fn property_types_round_trip_names() {
    for t in [
        PropertyType::Bool,
        PropertyType::Int,
        PropertyType::Float,
        PropertyType::String,
        PropertyType::Null,
        PropertyType::Array,
        PropertyType::Hash,
        PropertyType::Object,
        PropertyType::Resource,
        PropertyType::Undefined,
    ] {
        assert_eq!(t, PropertyType::from_str(t.as_str()));
    }
    assert_eq!(PropertyType::Undefined, PropertyType::from_str("mixed"));
    assert_eq!("hash", PropertyType::Hash.as_str());
}

#[test]
fn text_helpers() {
    assert_eq!(Some(4294967295), parse_u32("4294967295"));
    assert_eq!(None, parse_u32("4294967296"));
    assert_eq!(None, parse_u32(""));
    assert_eq!(None, parse_u32("1a"));
    assert_eq!(Some("foo".to_string()), decode_base64_text("Zm9v"));
    assert_eq!(None, decode_base64_text("Zm9"));
}

#[test]
fn object_type_label_uses_class_name() {
    let xml = r#"<response command="context_get" transaction_id="4"><property name="$o" type="object" classname="Foo"></property><property name="$p" type="object"></property></response>"#;
    match parse_xml(xml).unwrap() {
        Message::Response(r) => match r.command {
            CommandResponse::ContextGet(c) => {
                assert_eq!("Foo", c.properties[0].type_label());
                assert_eq!("object", c.properties[1].type_label());
                assert_eq!(None, c.properties[1].value);
            }
            _ => panic!("not a context"),
        },
        _ => panic!("not a response"),
    }
}

#[test]
fn eval_command_encodes_expression_in_base64() {
    let mut client = DbgpClient::new();
    assert_eq!(
        b"eval -i 0 -d 1 -- MSsx\0".to_vec(),
        client.command(&Command::Eval("1+1".to_string(), 1))
    );
}

#[test]
fn eval_replies_hold_properties_or_an_error() {
    let ok = parse_xml(r#"<response command="eval" transaction_id="7"><property type="int"><![CDATA[2]]></property></response>"#).unwrap();
    let body = DbgpClient::reply(&Command::Eval("1+1".to_string(), 0), ok).unwrap();
    let ev = DbgpClient::eval_reply(body).unwrap();
    assert!(ev.error.is_none());
    assert_eq!(1, ev.properties.len());
    assert_eq!("", ev.properties[0].name);
    assert_eq!(Some("2".to_string()), ev.properties[0].value);

    let err = parse_xml(r#"<response command="eval" transaction_id="8"><error code="206"><message><![CDATA[error evaluating code]]></message></error></response>"#).unwrap();
    match err {
        Message::Response(r) => match r.command {
            CommandResponse::Eval(ev) => {
                let e = ev.error.unwrap();
                assert_eq!("206", e.code);
                assert_eq!("error evaluating code", e.message);
                assert!(ev.properties.is_empty());
            }
            _ => panic!("not an eval"),
        },
        _ => panic!("not a response"),
    }
}

#[test]
fn connect_and_see_initial_file() {
    let init = parse_xml(r#"<init fileuri="file:///a.php" language="PHP"/>"#).unwrap();
    let init = DbgpClient::connect_reply(init).unwrap();
    let status = ListenStatus::Listening.next(ListenInput::Connected);
    assert_eq!(ListenStatus::Connected, status);
    let mut history = History::default();
    history.push(HistoryEntry::initial(init.fileuri.clone(), "<?php\n".to_string()));
    assert_eq!(1, history.len());
    let entry = history.current().unwrap();
    assert_eq!(1, entry.stacks.len());
    assert_eq!("file:///a.php", entry.stacks[0].source.filename);
    assert_eq!(ListenStatus::Refusing, status.next(ListenInput::Stopping));
    assert_eq!(ListenStatus::Listening, ListenStatus::Refusing.next(ListenInput::Listen));
    assert!(!ListenStatus::Refusing.accepts());
}
