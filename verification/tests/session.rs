use rust_im::backend::frame::{client_frame, decode_frame, message_frame};
use std::sync::mpsc;

use rust_im::backend::client::api::Client as UiClient;
use rust_im::backend::client::{request_outcome, Client};
use rust_im::backend::libs::message::{Message, MessageHead};
use rust_im::backend::libs::usergroup::Target;
use rust_im::backend::server::api::Server as ListeningServer;
use rust_im::backend::server::{error_message, keep_links, LinkAction, Server};
use rust_im::backend::libs::error::ChatErrorKind;

fn user(name: &str, id: usize) -> Target {
    Target::User { name: name.to_string(), id }
}

fn signup(name: &str, pwd: &str) -> Message {
    Message::new(MessageHead::SighUp, user(name, 0), Target::default(), pwd.to_string())
}

fn login(name: &str, id: usize, pwd: &str) -> Message {
    Message::new(MessageHead::Login, user(name, id), Target::default(), pwd.to_string())
}

fn chat(from: usize, to: usize, text: &str) -> Message {
    Message::new(MessageHead::Message, user("someone", from), user("", to), text.to_string())
}

#[test]
fn server_address() {
    let s = ListeningServer::new(3888);
    assert_eq!(s.listen_address(), "127.0.0.1:3888");
    assert_eq!(s.into_state().users(), 1);
}

#[test]
fn signup_hands_out_fresh_ids() {
    let mut s = Server::new();
    match s.sender_active(&signup("a", "pa"), 0) {
        LinkAction::Reply { keep, reply } => {
            assert_eq!(keep, Some(1));
            assert_eq!(reply.head, MessageHead::SighUp);
            assert_eq!(reply.msg, "1");
        }
        _ => panic!("a sign-up is answered"),
    }
    match s.sender_active(&signup("b", "pb"), 0) {
        LinkAction::Reply { keep, reply } => {
            assert_eq!(keep, Some(2));
            assert_eq!(reply.msg, "2");
        }
        _ => panic!("a sign-up is answered"),
    }
    assert_eq!(s.users(), 3);
}

#[test]
fn login_checks_password() {
    let mut s = Server::new();
    s.sender_active(&signup("a", "secret"), 0);
    match s.sender_active(&login("a", 1, "secret"), 4) {
        LinkAction::Reply { keep, reply } => {
            assert_eq!(keep, Some(4));
            assert_eq!(reply.head, MessageHead::Login);
            assert_eq!(reply.msg, "ok");
        }
        _ => panic!("a login is answered"),
    }
    match s.sender_active(&login("a", 1, "wrong"), 4) {
        LinkAction::Reply { keep, reply } => {
            assert_eq!(keep, None);
            assert_eq!(reply.head, MessageHead::Display);
            assert_eq!(reply.msg, "UnMatchPasswd");
        }
        _ => panic!("a login is answered"),
    }
    match s.sender_active(&login("x", 9, "secret"), 4) {
        LinkAction::Reply { keep, .. } => assert_eq!(keep, None),
        _ => panic!("a login is answered"),
    }
    assert_eq!(s.users(), 2);
    let e = error_message(ChatErrorKind::UnMatchPasswd);
    assert_eq!(e.head, MessageHead::Display);
    assert_eq!(e.msg, "UnMatchPasswd");
}

#[test]
fn other_messages_keep_the_sender() {
    let mut s = Server::new();
    assert!(matches!(s.sender_active(&chat(1, 2, "x"), 3), LinkAction::Keep(3)));
    assert!(matches!(s.on_link(&chat(1, 2, "x"), 3, true), LinkAction::Keep(3)));
}

#[test]
fn routing_of_chat_messages() {
    let s = Server::new();
    assert!(matches!(s.getter_active(&chat(1, 2, "x"), 2), LinkAction::Forward { id: 2, .. }));
    assert!(matches!(s.getter_active(&chat(1, 2, "x"), 3), LinkAction::Keep(3)));
    assert!(matches!(s.getter_active(&chat(1, 0, "x"), 3), LinkAction::Forward { id: 3, .. }));
    assert!(matches!(s.getter_active(&login("a", 1, "p"), 1), LinkAction::Keep(1)));
    match s.getter_active(&chat(1, 0, "hello"), 7) {
        LinkAction::Forward { msg, .. } => assert_eq!(msg.msg, "hello"),
        _ => panic!("forwarded"),
    }
}

#[test]
fn links_kept_after_actions() {
    assert_eq!(LinkAction::Keep(3).kept_after(false), Some(3));
    let f = LinkAction::Forward { id: 4, msg: chat(1, 4, "x") };
    assert_eq!(f.kept_after(true), Some(4));
    assert_eq!(f.kept_after(false), None);
    let r = LinkAction::Reply { keep: None, reply: Message::default() };
    assert_eq!(r.kept_after(true), None);
}

#[test]
fn client_login_and_signup_requests() {
    let (tx, rx) = mpsc::channel::<Message>();
    let mut c = Client::new(tx);
    assert!(!c.is_login());
    assert_eq!(c.user_id(), 0);
    assert_eq!(c.send_text("hi".to_string(), 2), Err("尚未登录".to_string()));
    assert_eq!(c.login("amy".to_string(), 5, "pw".to_string()), Ok(()));
    let sent = rx.try_recv().unwrap();
    assert_eq!(sent.head, MessageHead::Login);
    assert_eq!(sent.msg, "pw");
    assert_eq!(sent.from.get_id(), 5);
    assert_eq!(sent.from.get_name(), "amy");
    assert_eq!(c.user_id(), 5);
    assert!(!c.is_login());
    assert_eq!(c.sighup("amy".to_string(), "pw".to_string()), Ok(()));
    let sent = rx.try_recv().unwrap();
    assert_eq!(sent.head, MessageHead::SighUp);
    assert_eq!(c.user_id(), 0);
}

#[test]
fn client_session_follows_server_replies() {
    let (tx, rx) = mpsc::channel::<Message>();
    let mut c = Client::new(tx);
    c.sighup("bo".to_string(), "pw".to_string()).unwrap();
    let mut s = Server::new();
    let request = rx.try_recv().unwrap();
    let reply = match s.sender_active(&request, 0) {
        LinkAction::Reply { reply, .. } => reply,
        _ => panic!("answered"),
    };
    assert_eq!(c.resolve_message(reply), None);
    assert!(c.is_login());
    assert_eq!(c.user_id(), 1);
    assert_eq!(c.login("bo".to_string(), 1, "pw".to_string()), Err("不允许重复登录!".to_string()));
    assert_eq!(c.sighup("bo".to_string(), "pw".to_string()), Err("不能重复登录!".to_string()));
    assert_eq!(c.send_text("hello".to_string(), 0), Ok(()));
    let m = rx.try_recv().unwrap();
    assert_eq!(m.head, MessageHead::Message);
    assert_eq!(m.target.get_id(), 0);
    assert_eq!(m.from.get_id(), 1);
    let line = c.resolve_message(Message::new(MessageHead::Message, user("zed", 4), user("", 1), "yo".to_string()));
    assert_eq!(line, Some("[LOG][Msg]: <zed> yo".to_string()));
    let line = c.resolve_message(Message::new(MessageHead::Display, Target::default(), Target::default(), "UnMatchPasswd".to_string()));
    assert_eq!(line, Some("[WARN][Server] :UnMatchPasswd".to_string()));
    assert_eq!(c.resolve_message(Message::default()), None);
}

#[test]
fn client_reports_closed_writer() {
    let (tx, rx) = mpsc::channel::<Message>();
    drop(rx);
    let mut c = Client::new(tx);
    assert_eq!(c.login("a".to_string(), 1, "p".to_string()), Err("未能发送登录请求".to_string()));
    assert_eq!(c.sighup("a".to_string(), "p".to_string()), Err("未能发送注册请求".to_string()));
    let (tx2, rx2) = mpsc::channel::<Message>();
    let mut d = Client::new(tx2);
    d.login("a".to_string(), 1, "p".to_string()).unwrap();
    rx2.try_recv().unwrap();
    d.resolve_message(Message::new(MessageHead::Login, Target::default(), Target::default(), "ok".to_string()));
    drop(rx2);
    assert_eq!(d.send_text("x".to_string(), 0), Err("sending on a closed channel".to_string()));
    assert_eq!(request_outcome(Ok(()), "x"), Ok(()));
    assert_eq!(request_outcome(Err("e".to_string()), "x"), Err("x".to_string()));
}

#[test]
fn ui_client_warnings() {
    let (tx, rx) = mpsc::channel::<Message>();
    let mut c = UiClient::new(Client::new(tx));
    assert_eq!(c.send_message("hi".to_string(), 2), Some("[WARN][Client] :尚未登录".to_string()));
    assert_eq!(c.update_userlist(), Ok(Some("[WARN][Client] :请先登录".to_string())));
    assert_eq!(c.login("amy".to_string(), 3, "pw".to_string()), None);
    assert_eq!(rx.try_recv().unwrap().head, MessageHead::Login);
    assert_eq!(c.resolve_message(Message::new(MessageHead::Login, Target::default(), Target::default(), "ok".to_string())), None);
    assert!(c.is_login());
    assert_eq!(c.user_id(), 3);
    assert_eq!(c.sighup("amy".to_string(), "pw".to_string()), Some("[WARN][Client] :不能重复登录!".to_string()));
    assert_eq!(c.update_userlist(), Ok(None));
    assert_eq!(rx.try_recv().unwrap().head, MessageHead::UserList);
    assert_eq!(c.send_message("hey".to_string(), 0), None);
    assert_eq!(rx.try_recv().unwrap().msg, "hey");
    drop(rx);
    assert_eq!(c.update_userlist(), Err("sending on a closed channel".to_string()));
    assert_eq!(c.send_message("lost".to_string(), 0), Some("[WARN][Client] :sending on a closed channel".to_string()));
}

#[test]
fn plan_handles_each_connection() {
    let mut s = Server::new();
    let links = vec![(0usize, Some(true)), (3usize, None), (4usize, Some(false))];
    let actions = s.plan(&signup("c", "pc"), &links);
    assert_eq!(actions.len(), 3);
    match &actions[0] {
        Some(LinkAction::Reply { keep, reply }) => {
            assert_eq!(*keep, Some(1));
            assert_eq!(reply.msg, "1");
        }
        _ => panic!("the sender is answered"),
    }
    assert!(actions[1].is_none());
    assert!(matches!(actions[2], Some(LinkAction::Keep(4))));
    assert_eq!(s.users(), 2);

    let links = vec![(0usize, Some(true)), (1usize, Some(false)), (2usize, Some(false))];
    let actions = s.plan(&chat(1, 2, "psst"), &links);
    assert!(matches!(actions[0], Some(LinkAction::Keep(0))));
    assert!(matches!(actions[1], Some(LinkAction::Keep(1))));
    assert!(matches!(actions[2], Some(LinkAction::Forward { id: 2, .. })));
}

#[test]
fn relay_end_to_end() {
    let original = chat(1, 2, "über \"quoted\" 你好");
    let wire = client_frame(&original).unwrap();
    let at_server = decode_frame(&wire).unwrap();
    let s = Server::new();
    let forwarded = match s.getter_active(&at_server, 2) {
        LinkAction::Forward { msg, .. } => msg,
        _ => panic!("delivered to its target"),
    };
    let received = decode_frame(&message_frame(&forwarded)).unwrap();
    assert_eq!(received.head, MessageHead::Message);
    assert_eq!(received.msg, original.msg);
    assert_eq!(received.from.get_id(), 1);
    assert_eq!(received.from.get_name(), "someone");
    assert_eq!(received.target.get_id(), 2);
}

#[test]
fn table_after_handling() {
    let entries = vec![(0usize, "sender"), (5usize, "dead"), (2usize, "peer"), (3usize, "gone"), (7usize, "other")];
    let actions = vec![
        Some(LinkAction::Reply { keep: Some(4), reply: Message::default() }),
        None,
        Some(LinkAction::Forward { id: 2, msg: chat(1, 2, "x") }),
        Some(LinkAction::Forward { id: 3, msg: chat(1, 3, "x") }),
        Some(LinkAction::Keep(4)),
    ];
    let sent = vec![true, true, true, false, true];
    let (table, removed) = keep_links(entries, actions, sent);
    assert_eq!(removed, 1);
    assert_eq!(table.len(), 2);
    assert_eq!(table.get(&2), Some(&"peer"));
    assert_eq!(table.get(&4), Some(&"other"));
}
