//! The client as the user interface drives it: each request's refusal or
//! failure becomes a warning line for the log.

use vstd::prelude::*;
use crate::backend::client::{
    after_send, closed_channel_text, login_request, resolve_step, signup_request, text_message, user_list_request,
    user_profile, Client as BasicClient, ClientView,
};
use crate::backend::libs::message::{Message, MessageHead};
use crate::backend::libs::usergroup::Target;
use crate::decimal::parse_usize_spec;
use crate::log::{warn_line, warn_line_text};

verus! {

/// The tag of the client's warnings.
pub open spec fn client_tag() -> Seq<char> {
    seq!['C', 'l', 'i', 'e', 'n', 't']
}

/// A client driven by the user interface.
pub struct Client {
    client: BasicClient,
}

impl View for Client {
    type V = ClientView;

    closed spec fn view(&self) -> ClientView {
        self.client@
    }
}

/// What becomes of a request's outcome: nothing when it went out, and the
/// warning `[WARN][Client] :error` otherwise.
pub fn warn_on_error(r: Result<(), String>) -> (line: Option<String>)
    ensures
        r is Ok ==> line is None,
        r matches Err(e) ==> (line matches Some(l) && l@ == warn_line_text(client_tag(), e@)),
{
    match r {
        Ok(_) => None,
        Err(e) => {
            proof {
                reveal_strlit("Client");
                assert("Client"@ =~= client_tag());
            }
            Some(warn_line("Client", e.as_str()))
        },
    }
}

/// The request for the list of users.
pub fn user_list_message() -> (m: Message)
    ensures
        m@ == user_list_request(),
{
    Message::new(MessageHead::UserList, Target::default(), Target::default(), String::new())
}

impl Client {
    /// The user interface's client around a session.
    pub fn new(client: BasicClient) -> (c: Client)
        ensures
            c@ == client@,
            c.wf() == client.wf(),
    {
        Client { client }
    }

    /// The session's profile is a user's.
    pub closed spec fn wf(&self) -> bool {
        self.client.wf()
    }

    /// Asks to sign up; gives the warning to log when that is refused or
    /// cannot be sent. When refused, nothing is handed to the writer.
    pub fn sighup(&mut self, name: String, pwd: String) -> (line: Option<String>)
        ensures
            old(self)@.login ==> final(self)@ == old(self)@ && (line matches Some(l) && l@ == warn_line_text(
                client_tag(),
                "不能重复登录!"@,
            )),
            !old(self)@.login ==> {
                &&& final(self)@ == after_send(
                    ClientView { profile: user_profile(name@, 0), login: false, sent: old(self)@.sent },
                    signup_request(user_profile(name@, 0), pwd@),
                    line is None,
                )
                &&& final(self).wf()
                &&& (line is None || (line matches Some(l) && l@ == warn_line_text(client_tag(), "未能发送注册请求"@)))
            },
    {
        let r = self.client.sighup(name, pwd);
        warn_on_error(r)
    }

    /// Asks to log in; gives the warning to log when that is refused or
    /// cannot be sent. When refused, nothing is handed to the writer.
    pub fn login(&mut self, name: String, uid: usize, pwd: String) -> (line: Option<String>)
        ensures
            old(self)@.login ==> final(self)@ == old(self)@ && (line matches Some(l) && l@ == warn_line_text(
                client_tag(),
                "不允许重复登录!"@,
            )),
            !old(self)@.login ==> {
                &&& final(self)@ == after_send(
                    ClientView { profile: user_profile(name@, uid), login: false, sent: old(self)@.sent },
                    login_request(user_profile(name@, uid), pwd@),
                    line is None,
                )
                &&& final(self).wf()
                &&& (line is None || (line matches Some(l) && l@ == warn_line_text(client_tag(), "未能发送登录请求"@)))
            },
    {
        let r = self.client.login(name, uid, pwd);
        warn_on_error(r)
    }

    /// Sends a chat message to user `target`; gives the warning to log when
    /// that is refused (nothing is handed over) or cannot be sent.
    pub fn send_message(&mut self, text: String, target: usize) -> (line: Option<String>)
        ensures
            final(self).wf() == old(self).wf(),
            !old(self)@.login ==> final(self)@ == old(self)@ && (line matches Some(l) && l@ == warn_line_text(
                client_tag(),
                "尚未登录"@,
            )),
            old(self)@.login ==> {
                &&& final(self)@ == after_send(old(self)@, text_message(old(self)@.profile, text@, target), line is None)
                &&& (line matches Some(l) ==> l@ == warn_line_text(client_tag(), closed_channel_text()))
            },
    {
        let r = self.client.send_text(text, target);
        warn_on_error(r)
    }

    /// The client's id.
    pub fn user_id(&self) -> (r: usize)
        ensures
            r == self@.profile.id(),
    {
        self.client.user_id()
    }

    /// Whether the server has let the client in.
    pub fn is_login(&self) -> (r: bool)
        ensures
            r == self@.login,
    {
        self.client.is_login()
    }

    /// Asks the server for the list of users. Not logged in: nothing is
    /// handed over, and the warning to log. Logged in: the request goes to
    /// the writer; `Err` with the writer's error when it cannot.
    pub fn update_userlist(&mut self) -> (r: Result<Option<String>, String>)
        ensures
            final(self).wf() == old(self).wf(),
            !old(self)@.login ==> final(self)@ == old(self)@ && (r matches Ok(Some(l)) && l@ == warn_line_text(
                client_tag(),
                "请先登录"@,
            )),
            old(self)@.login ==> {
                &&& final(self)@ == after_send(old(self)@, user_list_request(), r is Ok)
                &&& (r is Ok ==> r == Ok::<Option<String>, String>(None))
                &&& (r matches Err(e) ==> e@ == closed_channel_text())
            },
    {
        if self.is_login() {
            let message = user_list_message();
            match self.client.send_message(message) {
                Ok(_) => Ok(None),
                Err(e) => Err(e),
            }
        } else {
            proof {
                reveal_strlit("Client");
                assert("Client"@ =~= client_tag());
            }
            Ok(Some(warn_line("Client", "请先登录")))
        }
    }

    /// Takes in a message from the server and gives the line to log, if
    /// any. A sign-up reply must carry an id in decimal.
    pub fn resolve_message(&mut self, message: Message) -> (line: Option<String>)
        requires
            message.head == MessageHead::SighUp ==> parse_usize_spec(message.msg@) is Some,
        ensures
            (final(self)@, match line {
                Some(l) => Some(l@),
                None => None,
            }) == resolve_step(old(self)@, message@),
            final(self).wf() == old(self).wf(),
    {
        self.client.resolve_message(message)
    }
}

} // verus!
