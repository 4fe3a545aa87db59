//! A client's session: who it is, whether the server let it in, and the
//! requests it sends.

pub mod api;

use vstd::prelude::*;
use std::sync::mpsc::Sender;
use crate::backend::libs::message::{between_users, Message, MessageHead, MessageView};
use crate::backend::server::{delivered_to, login_reply, signup_reply};
use crate::backend::libs::usergroup::{default_target, Target, TargetView};
use crate::decimal::{law_decimal_round_trip, parse_usize, parse_usize_spec};
use crate::log::{log_with_line, log_with_line_text, warn_line, warn_line_text};

verus! {

#[verifier::external_type_specification]
#[verifier::external_body]
#[verifier::reject_recursive_types(T)]
pub struct ExSender<T>(Sender<T>);

/// The text of the error that `Sender::send` gives when the receiving side
/// is gone (the `Display` text of `std::sync::mpsc::SendError`).
pub open spec fn closed_channel_text() -> Seq<char> {
    "sending on a closed channel"@
}

/// Hands a message to the connection's writer with
/// `std::sync::mpsc::Sender::send`. Whether the send works depends on the
/// other thread, so nothing is claimed of which outcome comes. What is
/// claimed of each: on success the message is queued for the writer, and
/// the record of what was handed over gains it; on failure the message is
/// given back unqueued (`SendError` holds it) and the error's text is
/// `SendError`'s `Display` text. The profile and the login flag stay.
#[verifier::external_body]
fn channel_send(client: &mut Client, message: Message) -> (r: Result<(), String>)
    ensures
        final(client).profile == old(client).profile,
        final(client).login == old(client).login,
        r is Ok ==> final(client).sent@ == old(client).sent@.push(message@),
        r is Err ==> final(client).sent@ == old(client).sent@,
        r matches Err(e) ==> e@ == closed_channel_text(),
{
    client.sender.send(message).map_err(|e| e.to_string())
}

/// A client: its profile, the writer of its connection, whether the
/// server has let it in, and (as a record for proofs) the messages handed
/// to the writer so far.
pub struct Client {
    profile: Target,
    sender: Sender<Message>,
    login: bool,
    sent: Ghost<Seq<MessageView>>,
}

/// A client's profile, whether it is logged in, and the messages it has
/// handed to the writer, in order.
pub struct ClientView {
    pub profile: TargetView,
    pub login: bool,
    pub sent: Seq<MessageView>,
}

impl View for Client {
    type V = ClientView;

    closed spec fn view(&self) -> ClientView {
        ClientView { profile: self.profile@, login: self.login, sent: self.sent@ }
    }
}

/// The session after handing `m` to the writer: the same, with `m` added to
/// what was handed over when the send worked (`ok`).
pub open spec fn after_send(c: ClientView, m: MessageView, ok: bool) -> ClientView {
    ClientView { profile: c.profile, login: c.login, sent: if ok { c.sent.push(m) } else { c.sent } }
}

/// The profile a client takes to log in or sign up.
pub open spec fn user_profile(name: Seq<char>, id: usize) -> TargetView {
    TargetView::User { name, id }
}

/// The request to log in as `profile` with password `pwd`.
pub open spec fn login_request(profile: TargetView, pwd: Seq<char>) -> MessageView {
    MessageView { head: MessageHead::Login, from: profile, target: default_target(), msg: pwd }
}

/// The request to sign up as `profile` with password `pwd`.
pub open spec fn signup_request(profile: TargetView, pwd: Seq<char>) -> MessageView {
    MessageView { head: MessageHead::SighUp, from: profile, target: default_target(), msg: pwd }
}

/// A chat message from `profile` to user `target_id` (0: everybody).
pub open spec fn text_message(profile: TargetView, text: Seq<char>, target_id: usize) -> MessageView {
    MessageView {
        head: MessageHead::Message,
        from: profile,
        target: TargetView::User { name: Seq::empty(), id: target_id },
        msg: text,
    }
}

/// The request for the list of users.
pub open spec fn user_list_request() -> MessageView {
    MessageView { head: MessageHead::UserList, from: default_target(), target: default_target(), msg: Seq::empty() }
}

/// The client's state after the server's message `m`, and the line it
/// logs: a sign-up reply logs the client in under the id it carries, a
/// login reply logs it in, a chat message is logged as `<sender> text`,
/// a notice from the server is logged as a warning when it has text.
pub open spec fn resolve_step(c: ClientView, m: MessageView) -> (ClientView, Option<Seq<char>>) {
    match m.head {
        MessageHead::SighUp => (
            ClientView { profile: c.profile.with_id(parse_usize_spec(m.msg).unwrap()), login: true, sent: c.sent },
            None,
        ),
        MessageHead::Login => (ClientView { profile: c.profile, login: true, sent: c.sent }, None),
        MessageHead::Message => (
            c,
            Some(log_with_line_text(seq!['M', 's', 'g'], seq!['<'] + m.from.name() + seq!['>', ' '] + m.msg)),
        ),
        MessageHead::Display => (
            c,
            if m.msg.len() != 0 {
                Some(warn_line_text(seq!['S', 'e', 'r', 'v', 'e', 'r'], m.msg))
            } else {
                None
            },
        ),
        MessageHead::UserList => (c, None),
    }
}

/// What a request's outcome becomes: `Ok` when the message was handed on,
/// and the error `failure` otherwise.
pub fn request_outcome(sent: Result<(), String>, failure: &str) -> (r: Result<(), String>)
    ensures
        sent is Ok ==> r is Ok,
        sent is Err ==> (r matches Err(e) && e@ == failure@),
{
    match sent {
        Ok(_) => Ok(()),
        Err(_) => Err(String::from_str(failure)),
    }
}

impl Client {
    /// A client that writes through `sender`: unknown user, not logged in.
    pub fn new(sender: Sender<Message>) -> (c: Client)
        ensures
            c@.profile == default_target(),
            !c@.login,
            c@.sent == Seq::<MessageView>::empty(),
            c.wf(),
    {
        Client { profile: Target::default(), sender, login: false, sent: Ghost(Seq::empty()) }
    }

    /// The profile is a user's.
    pub closed spec fn wf(&self) -> bool {
        self.profile is User
    }

    /// Whether the server has let the client in.
    pub fn is_login(&self) -> (r: bool)
        ensures
            r == self@.login,
    {
        self.login
    }

    /// The client's id.
    pub fn user_id(&self) -> (r: usize)
        ensures
            r == self@.profile.id(),
    {
        self.profile.get_id()
    }

    /// The request to log in as the current profile with password `pwd`.
    pub fn login_message(&self, pwd: String) -> (m: Message)
        ensures
            m@ == login_request(self@.profile, pwd@),
            self.wf() ==> between_users(m@),
    {
        Message::new(MessageHead::Login, self.profile.clone(), Target::default(), pwd)
    }

    /// The request to sign up as the current profile with password `pwd`.
    pub fn signup_message(&self, pwd: String) -> (m: Message)
        ensures
            m@ == signup_request(self@.profile, pwd@),
            self.wf() ==> between_users(m@),
    {
        Message::new(MessageHead::SighUp, self.profile.clone(), Target::default(), pwd)
    }

    /// A chat message from the current profile to user `target_id`.
    pub fn text_message(&self, text: String, target_id: usize) -> (m: Message)
        ensures
            m@ == text_message(self@.profile, text@, target_id),
            self.wf() ==> between_users(m@),
    {
        proof {
            reveal_strlit("");
            assert(""@ =~= Seq::<char>::empty());
        }
        let target = Target::User { name: String::from_str(""), id: target_id };
        Message::new(MessageHead::Message, self.profile.clone(), target, text)
    }

    /// Hands a message to the connection's writer; the error's text when
    /// the writer is gone.
    pub fn send_message(&mut self, message: Message) -> (r: Result<(), String>)
        ensures
            final(self)@ == after_send(old(self)@, message@, r is Ok),
            r matches Err(e) ==> e@ == closed_channel_text(),
            final(self).wf() == old(self).wf(),
    {
        channel_send(self, message)
    }

    /// Asks to log in as user `uid` named `name` with password `pwd`.
    /// Refused when already logged in (nothing is handed over); otherwise
    /// the profile becomes that user and the login request goes to the
    /// writer.
    pub fn login(&mut self, name: String, uid: usize, pwd: String) -> (r: Result<(), String>)
        ensures
            old(self)@.login ==> final(self)@ == old(self)@ && (r matches Err(e) && e@ == "不允许重复登录!"@),
            !old(self)@.login ==> {
                &&& final(self)@ == after_send(
                    ClientView { profile: user_profile(name@, uid), login: false, sent: old(self)@.sent },
                    login_request(user_profile(name@, uid), pwd@),
                    r is Ok,
                )
                &&& final(self).wf()
                &&& (r is Ok || (r matches Err(e) && e@ == "未能发送登录请求"@))
            },
    {
        if !self.login {
            self.profile = Target::User { name, id: uid };
            let message = self.login_message(pwd);
            let sent = self.send_message(message);
            request_outcome(sent, "未能发送登录请求")
        } else {
            Err(String::from_str("不允许重复登录!"))
        }
    }

    /// Asks to sign up as `name` with password `pwd`. Refused when already
    /// logged in (nothing is handed over); otherwise the profile becomes
    /// user `name` with id 0 and the sign-up request goes to the writer.
    pub fn sighup(&mut self, name: String, pwd: String) -> (r: Result<(), String>)
        ensures
            old(self)@.login ==> final(self)@ == old(self)@ && (r matches Err(e) && e@ == "不能重复登录!"@),
            !old(self)@.login ==> {
                &&& final(self)@ == after_send(
                    ClientView { profile: user_profile(name@, 0), login: false, sent: old(self)@.sent },
                    signup_request(user_profile(name@, 0), pwd@),
                    r is Ok,
                )
                &&& final(self).wf()
                &&& (r is Ok || (r matches Err(e) && e@ == "未能发送注册请求"@))
            },
    {
        if !self.login {
            self.profile = Target::User { name, id: 0 };
            let message = self.signup_message(pwd);
            let sent = self.send_message(message);
            request_outcome(sent, "未能发送注册请求")
        } else {
            Err(String::from_str("不能重复登录!"))
        }
    }

    /// Sends `text` to user `target_id` (0: everybody). Refused when not
    /// logged in (nothing is handed over); otherwise the chat message goes
    /// to the writer, and the outcome is that of the send.
    pub fn send_text(&mut self, text: String, target_id: usize) -> (r: Result<(), String>)
        ensures
            final(self).wf() == old(self).wf(),
            !old(self)@.login ==> final(self)@ == old(self)@ && (r matches Err(e) && e@ == "尚未登录"@),
            old(self)@.login ==> {
                &&& final(self)@ == after_send(old(self)@, text_message(old(self)@.profile, text@, target_id), r is Ok)
                &&& (r matches Err(e) ==> e@ == closed_channel_text())
            },
    {
        if self.login {
            let message = self.text_message(text, target_id);
            self.send_message(message)
        } else {
            Err(String::from_str("尚未登录"))
        }
    }

    /// Takes in a message from the server and gives the line to log, if
    /// any. A sign-up reply must carry an id in decimal.
    pub fn resolve_message(&mut self, message: Message) -> (line: Option<String>)
        requires
            message.head == MessageHead::SighUp ==> parse_usize_spec(message.msg@) is Some,
        ensures
            (final(self)@, match line {
                Some(l) => Some(l@),
                None => None,
            }) == resolve_step(old(self)@, message@),
            final(self).wf() == old(self).wf(),
    {
        match message.head {
            MessageHead::SighUp => {
                self.login = true;
                let id = parse_usize(message.msg.as_str()).unwrap();
                self.profile.set_id(id);
                None
            },
            MessageHead::Login => {
                self.login = true;
                None
            },
            MessageHead::Message => {
                proof {
                    reveal_strlit("<");
                    reveal_strlit("> ");
                    reveal_strlit("Msg");
                }
                let mut text = String::from_str("<");
                let from = message.from.get_name();
                text.append(from.as_str());
                text.append("> ");
                text.append(message.msg.as_str());
                Some(log_with_line("Msg", text.as_str()))
            },
            MessageHead::Display => {
                if message.msg.unicode_len() != 0 {
                    proof {
                        reveal_strlit("Server");
                    }
                    Some(warn_line("Server", message.msg.as_str()))
                } else {
                    None
                }
            },
            MessageHead::UserList => None,
        }
    }
}

} // verus!

verus! {

/// The server's answer to a sign-up logs the client in under the id the
/// server registered; its answer to a login logs the client in as it is.
pub proof fn law_replies_log_in(c: ClientView, n: usize)
    ensures
        resolve_step(c, signup_reply(n)) == (ClientView { profile: c.profile.with_id(n), login: true, sent: c.sent }, None::<Seq<char>>),
        resolve_step(c, login_reply()) == (ClientView { profile: c.profile, login: true, sent: c.sent }, None::<Seq<char>>),
{
    law_decimal_round_trip(n);
}

/// Only the server's replies to a sign-up or a login change a client's
/// session.
pub proof fn law_only_replies_change_session(c: ClientView, m: MessageView)
    requires
        m.head != MessageHead::SighUp,
        m.head != MessageHead::Login,
    ensures
        resolve_step(c, m).0 == c,
{
}

/// One thing that happens to a session: a message handed to the writer
/// (with whether the send worked), or a message from the server taken in.
pub enum SessionStep {
    Send(MessageView, bool),
    Reply(MessageView),
}

/// The session after a run of steps, in order.
pub open spec fn run_session(c: ClientView, steps: Seq<SessionStep>) -> ClientView
    decreases steps.len(),
{
    if steps.len() == 0 {
        c
    } else {
        let next = match steps[0] {
            SessionStep::Send(m, ok) => after_send(c, m, ok),
            SessionStep::Reply(m) => resolve_step(c, m).0,
        };
        run_session(next, steps.drop_first())
    }
}

/// Once a client is logged in it stays logged in: handing messages to the
/// writer never touches the flag, and every message from the server keeps
/// it or sets it, whatever runs of them follow.
pub proof fn law_login_stays(c: ClientView, steps: Seq<SessionStep>)
    requires
        c.login,
    ensures
        run_session(c, steps).login,
    decreases steps.len(),
{
    if steps.len() > 0 {
        let next = match steps[0] {
            SessionStep::Send(m, ok) => after_send(c, m, ok),
            SessionStep::Reply(m) => resolve_step(c, m).0,
        };
        law_login_stays(next, steps.drop_first());
    }
}

/// A chat message a client sends is a `Message` from its own profile,
/// carrying the text unchanged, addressed to exactly the id it was given:
/// the server delivers it to that user, and to nobody else unless the id
/// is 0 (everybody).
pub proof fn law_text_message_addressed(profile: TargetView, text: Seq<char>, target_id: usize, other: usize)
    ensures
        text_message(profile, text, target_id).head == MessageHead::Message,
        text_message(profile, text, target_id).from == profile,
        text_message(profile, text, target_id).target.id() == target_id,
        text_message(profile, text, target_id).msg == text,
        delivered_to(text_message(profile, text, target_id), target_id),
        target_id != 0 && other != target_id ==> !delivered_to(text_message(profile, text, target_id), other),
{
}

/// A chat message from the server is logged as `[LOG][Msg]: <sender> text`,
/// naming its sender whoever it was addressed to, and leaves the session
/// as it was: two chat messages that differ only in their target are
/// taken in alike.
pub proof fn law_chat_line_names_sender(c: ClientView, m: MessageView, target: TargetView)
    requires
        m.head == MessageHead::Message,
    ensures
        resolve_step(c, m).0 == c,
        resolve_step(c, m).1 == Some(seq!['[', 'L', 'O', 'G', ']', '[', 'M', 's', 'g', ']', ':', ' ', '<'] + m.from.name()
            + seq!['>', ' '] + m.msg),
        resolve_step(c, MessageView { target, ..m }) == resolve_step(c, m),
{
    let line = seq!['[', 'L', 'O', 'G', ']', '[', 'M', 's', 'g', ']', ':', ' ', '<'] + m.from.name() + seq!['>', ' '] + m.msg;
    assert(resolve_step(c, m).1->0 =~= line);
}

} // verus!
