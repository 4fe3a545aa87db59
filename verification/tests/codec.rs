use rust_im::backend::frame::{
    client_frame, decode_frame, decode_frame_text, encode_frame, fit_frame, frame_payload, message_frame,
};
use rust_im::backend::libs::error::ChatErrorKind;
use rust_im::backend::libs::message::{Message, MessageHead, TextReading};
use rust_im::backend::libs::usergroup::Target;
use rust_im::backend::MEG_SIZE;
use rust_im::decimal::{parse_usize, usize_to_string};

fn user(name: &str, id: usize) -> Target {
    Target::User { name: name.to_string(), id }
}

fn same_target(a: &Target, b: &Target) -> bool {
    match (a, b) {
        (Target::User { name: n1, id: i1 }, Target::User { name: n2, id: i2 }) => n1 == n2 && i1 == i2,
        _ => false,
    }
}

fn same_message(a: &Message, b: &Message) -> bool {
    a.head == b.head && same_target(&a.from, &b.from) && same_target(&a.target, &b.target) && a.msg == b.msg
}

#[test]
fn decimal_text_of_numbers() {
    assert_eq!(usize_to_string(0), "0");
    assert_eq!(usize_to_string(7), "7");
    assert_eq!(usize_to_string(3888), "3888");
    assert_eq!(usize_to_string(usize::MAX), usize::MAX.to_string());
}

#[test]
fn parse_decimal_like_std() {
    for s in ["0", "42", "+42", "", "+", "-1", "12a", "007", "18446744073709551615", "18446744073709551616", " 1"] {
        assert_eq!(parse_usize(s), s.parse::<usize>().ok(), "input {:?}", s);
    }
}

#[test]
fn decimal_round_trip() {
    for n in [0usize, 1, 9, 10, 99, 100, 123456789, usize::MAX] {
        assert_eq!(parse_usize(&usize_to_string(n)), Some(n));
    }
}

#[test]
fn head_codes() {
    let heads = [
        (MessageHead::Login, "l"),
        (MessageHead::Message, "s"),
        (MessageHead::Display, "d"),
        (MessageHead::SighUp, "n"),
        (MessageHead::UserList, "u"),
    ];
    for (h, code) in heads {
        assert_eq!(h.to_string(), code);
        assert_eq!(MessageHead::from_code(code), Some(h));
    }
    assert_eq!(MessageHead::from_code("x"), None);
    assert_eq!(MessageHead::from_code("ll"), None);
    assert_eq!(MessageHead::from_code(""), None);
    assert_eq!(MessageHead::default(), MessageHead::Display);
}

#[test]
fn error_texts() {
    assert_eq!(ChatErrorKind::UnMatchPasswd.to_string(), "UnMatchPasswd");
    assert_eq!(ChatErrorKind::EmptyUser.to_string(), "EmptyUser");
    assert_eq!(ChatErrorKind::SingUp.to_string(), "SingUp");
}

#[test]
fn target_ids_and_names() {
    let mut t = user("alice", 3);
    assert_eq!(t.get_id(), 3);
    assert_eq!(t.get_name(), "alice");
    t.set_id(9);
    assert_eq!(t.get_id(), 9);
    assert_eq!(t.get_name(), "alice");
    let mut g = Target::Group { members: vec![user("a", 1), user("b", 2)], group_name: "team".to_string(), id: 5 };
    g.set_id(6);
    assert_eq!(g.get_id(), 6);
    assert_eq!(g.get_name(), "team");
    match &g {
        Target::Group { members, .. } => assert_eq!(members.len(), 2),
        _ => panic!("still a group"),
    }
    let d = Target::default();
    assert!(same_target(&d, &user("unknow", 0)));
    let f = Target::from_id(42);
    assert!(same_target(&f, &user("unknow", 42)));
    let c = g.clone();
    assert_eq!(c.get_id(), 6);
    assert_eq!(c.get_name(), "team");
}

#[test]
fn target_record_and_json() {
    let t = user("bob", 12);
    let map = t.to_map();
    assert_eq!(map, vec![("name".to_string(), "bob".to_string()), ("id".to_string(), "12".to_string())]);
    let text = t.to_json_text();
    let parsed = json::parse(&text).unwrap();
    assert!(parsed.is_object());
    assert_eq!(parsed.len(), 2);
    assert_eq!(parsed["name"], "bob");
    assert_eq!(parsed["id"], "12");
    let back = Target::try_from_text(&text).unwrap();
    assert!(same_target(&back, &t));
}

#[test]
fn target_reading_errors() {
    assert!(Target::try_from_text("not json").is_err());
    assert!(Target::try_from_text("{\"id\":\"3\"}").is_err());
    assert!(Target::try_from_text("{\"name\":\"x\"}").is_err());
    assert!(Target::try_from_text("{\"name\":\"x\",\"id\":3}").is_err());
    assert!(Target::parse_text("{\"name\":\"x\",\"id\":\"three\"}").is_none());
    assert!(matches!(Target::parse_text("[1,2]"), Some(Err(()))));
    let ok = Target::parse_text("{\"id\":\"4\",\"name\":\"y\"}").unwrap().unwrap();
    assert!(same_target(&ok, &user("y", 4)));
    let ok = Target::try_from_members(Some("z".to_string()), Some("+8".to_string())).unwrap();
    assert!(same_target(&ok, &user("z", 8)));
    assert!(Target::try_from_members(None, Some("x".to_string())).is_err());
}

#[test]
fn message_record_and_display() {
    let m = Message::new(MessageHead::Message, user("a", 1), user("b", 2), "hi".to_string());
    let map = m.to_map();
    let keys: Vec<&str> = map.iter().map(|(k, _)| k.as_str()).collect();
    assert_eq!(keys, vec!["head", "from", "target", "msg"]);
    assert_eq!(map[0].1, "s");
    assert_eq!(map[3].1, "hi");
    assert!(same_target(&Target::try_from_text(&map[1].1).unwrap(), &user("a", 1)));
    assert_eq!(m.display_text(), "H:[s] F:[a] T:[b] M:hi");
    let d = Message::default();
    assert_eq!(d.display_text(), "H:[d] F:[unknow] T:[unknow] M:");
    assert!(m.is_between_users());
    let g = Message::new(MessageHead::Message, user("a", 1), Target::Group { members: vec![], group_name: "g".to_string(), id: 3 }, String::new());
    assert!(!g.is_between_users());
}

#[test]
fn message_text_round_trip() {
    let m = Message::new(MessageHead::SighUp, user("name \"q\" \\ é 中", 77), Target::default(), "pässword\n\t".to_string());
    let text = m.to_json_text();
    let back = Message::decode_text(&text).unwrap();
    assert!(same_message(&back, &m));
}

#[test]
fn message_reading_gives_up() {
    assert!(Message::decode_text("nope").is_none());
    assert!(Message::decode_text("{\"head\":\"x\",\"from\":\"\",\"target\":\"\",\"msg\":\"\"}").is_none());
    let from = user("a", 1).to_json_text();
    let to = user("b", 2).to_json_text();
    let mut obj = json::JsonValue::new_object();
    obj["head"] = "s".into();
    obj["from"] = from.clone().into();
    obj["target"] = to.clone().into();
    let no_msg = json::stringify(obj.clone());
    assert!(Message::decode_text(&no_msg).is_none());
    assert!(Message::try_from_members(Some("s".into()), Some(from.clone()), Some(to.clone()), None).is_err());
    obj["msg"] = "hello".into();
    let full = json::stringify(obj);
    let m = Message::decode_text(&full).unwrap();
    assert_eq!(m.msg, "hello");
    assert_eq!(m.head, MessageHead::Message);
    assert!(Message::try_from_members(None, None, None, None).is_err());
    assert!(Message::try_from_members(Some("q".into()), None, None, None).is_err());
}

#[test]
fn frames_are_padded_and_cut() {
    let f = encode_frame("abc");
    assert_eq!(f.len(), MEG_SIZE);
    assert_eq!(&f[..3], b"abc");
    assert!(f[3..].iter().all(|b| *b == 0));
    let long = "x".repeat(MEG_SIZE + 10);
    let f = encode_frame(&long);
    assert_eq!(f.len(), MEG_SIZE);
    assert!(f.iter().all(|b| *b == b'x'));
    assert_eq!(frame_payload(&[1, 2, 0, 3]), vec![1, 2]);
    assert_eq!(frame_payload(&[1, 2]), vec![1, 2]);
    assert_eq!(decode_frame_text(&encode_frame("héllo")).unwrap(), "héllo");
    assert!(decode_frame_text(&[0xff, 0xfe, 0]).is_none());
}

#[test]
fn frame_round_trip() {
    let m = Message::new(MessageHead::Message, user("a", 1), user("b", 0), "to everybody".to_string());
    let frame = message_frame(&m);
    assert_eq!(frame.len(), MEG_SIZE);
    let back = decode_frame(&frame).unwrap();
    assert!(same_message(&back, &m));
    let sent = client_frame(&m).unwrap();
    assert!(same_message(&decode_frame(&sent).unwrap(), &m));
}

#[test]
fn client_refuses_long_messages() {
    let m = Message::new(MessageHead::Message, user("a", 1), user("b", 2), "y".repeat(2000));
    assert!(client_frame(&m).is_none());
    let frame = message_frame(&m);
    assert_eq!(frame.len(), MEG_SIZE);
    assert!(decode_frame(&frame).is_none());
}

#[test]
fn reading_tells_failures_apart() {
    assert!(matches!(Message::read_text("{"), TextReading::NotJson));
    assert!(matches!(Message::read_text("{\"head\":\"s\"}"), TextReading::Invalid));
    assert!(matches!(Message::read_text("{\"head\":\"z\",\"from\":\"x\"}"), TextReading::Invalid));
    let bad_party = "{\"head\":\"s\",\"from\":\"{\\\"name\\\":\\\"a\\\",\\\"id\\\":\\\"x\\\"}\"}";
    assert!(matches!(Message::read_text(bad_party), TextReading::Unreadable));
    let not_json_party = "{\"head\":\"s\",\"from\":\"nope\"}";
    assert!(matches!(Message::read_text(not_json_party), TextReading::Unreadable));
    let m = Message::new(MessageHead::Login, user("a", 1), Target::default(), "pw".to_string());
    match Message::read_text(&m.to_json_text()) {
        TextReading::Message(back) => assert!(same_message(&back, &m)),
        _ => panic!("reads back"),
    }
}

#[test]
fn target_json_is_compact() {
    let text = user("bob", 12).to_json_text();
    assert!(text == r#"{"name":"bob","id":"12"}"# || text == r#"{"id":"12","name":"bob"}"#);
    let text = user("a\"b\n\u{1}", 3).to_json_text();
    let name = r#""name":"a\"b\n\u0001""#;
    assert!(text == format!("{{{},\"id\":\"3\"}}", name) || text == format!("{{\"id\":\"3\",{}}}", name));
}

#[test]
fn message_json_is_compact() {
    let m = Message::new(MessageHead::Message, user("a", 1), user("b", 2), "hi there".to_string());
    let text = m.to_json_text();
    assert!(text.starts_with('{') && text.ends_with('}'));
    assert!(text.contains(r#""head":"s""#));
    assert_eq!(text.matches(' ').count(), 1);
    assert!(text.contains(r#""msg":"hi there""#));
    let from = user("a", 1).to_json_text();
    let escaped_from = from.replace('"', "\\\"");
    let canonical_len = r#"{"head":"x","from":"","target":"","msg":"hi there"}"#.len()
        + 2 * escaped_from.len();
    assert_eq!(text.len(), canonical_len);
}

#[test]
fn fit_frame_boundary() {
    let exact = "z".repeat(MEG_SIZE);
    let f = fit_frame(&exact).unwrap();
    assert_eq!(f, exact.as_bytes().to_vec());
    assert!(fit_frame(&"z".repeat(MEG_SIZE + 1)).is_none());
    let wide = "é".repeat(MEG_SIZE / 2);
    assert_eq!(fit_frame(&wide).unwrap().len(), MEG_SIZE);
    assert!(fit_frame(&format!("{}a", wide)).is_none());
    let short = fit_frame("ab").unwrap();
    assert_eq!(short.len(), MEG_SIZE);
    assert_eq!(&short[..2], b"ab");
    assert!(short[2..].iter().all(|b| *b == 0));
}

#[test]
fn client_frame_limit_follows_text_length() {
    let base = Message::new(MessageHead::Message, user("a", 1), user("b", 2), String::new());
    let empty_len = base.to_json_text().len();
    let fits = Message::new(MessageHead::Message, user("a", 1), user("b", 2), "y".repeat(MEG_SIZE - empty_len));
    let sent = client_frame(&fits).unwrap();
    assert_eq!(sent.len(), MEG_SIZE);
    assert!(sent.iter().all(|b| *b != 0));
    assert!(same_message(&decode_frame(&sent).unwrap(), &fits));
    let over = Message::new(MessageHead::Message, user("a", 1), user("b", 2), "y".repeat(MEG_SIZE - empty_len + 1));
    assert!(client_frame(&over).is_none());
}
