//! The server's decisions: who may sign up and log in, and which
//! connection a message goes to.

pub mod api;

use vstd::prelude::*;
use std::collections::HashMap;
use crate::backend::libs::error::{error_text, ChatErrorKind};
use vstd::utf8::encode_utf8;
use crate::backend::MEG_SIZE;
use crate::backend::frame::{frame_bytes, frame_message, law_frame_round_trip};
use crate::backend::libs::message::{between_users, encodes_message, Message, MessageHead, MessageView};
use crate::backend::libs::usergroup::{default_target, Target};
use crate::decimal::{decimal, usize_to_string};

verus! {

/// The accounts the server knows: each user id with its password, and the
/// next id to hand out.
pub struct Server {
    user_lib: HashMap<usize, String>,
    users: usize,
}

/// The accounts as a map from id to password text, and the next id.
pub struct ServerView {
    pub passwords: Map<usize, Seq<char>>,
    pub users: usize,
}

impl View for Server {
    type V = ServerView;

    closed spec fn view(&self) -> ServerView {
        ServerView { passwords: self.user_lib@.map_values(|p: String| p@), users: self.users }
    }
}

impl ServerView {
    /// Ids start at 1 (0 addresses everybody), and every registered id is
    /// below the next one to hand out.
    pub open spec fn wf(self) -> bool {
        &&& self.users >= 1
        &&& forall|k: usize| #[trigger] self.passwords.contains_key(k) ==> 1 <= k < self.users
    }
}

/// What the server does with one connection while it handles a message.
pub enum LinkAction {
    /// Keep the connection under this id; send nothing.
    Keep(usize),
    /// Send `reply` on the connection, then keep it under `keep` (or drop
    /// it when `keep` is `None`).
    Reply { keep: Option<usize>, reply: Message },
    /// Send `msg` on the connection; keep it under `id` if that worked.
    Forward { id: usize, msg: Message },
}

pub enum LinkActionView {
    Keep(usize),
    Reply { keep: Option<usize>, reply: MessageView },
    Forward { id: usize, msg: MessageView },
}

impl View for LinkAction {
    type V = LinkActionView;

    open spec fn view(&self) -> LinkActionView {
        match self {
            LinkAction::Keep(id) => LinkActionView::Keep(*id),
            LinkAction::Reply { keep, reply } => LinkActionView::Reply { keep: *keep, reply: reply@ },
            LinkAction::Forward { id, msg } => LinkActionView::Forward { id: *id, msg: msg@ },
        }
    }
}

/// The reply to a successful login.
pub open spec fn login_reply() -> MessageView {
    MessageView { head: MessageHead::Login, from: default_target(), target: default_target(), msg: seq!['o', 'k'] }
}

/// The reply that reports an error.
pub open spec fn error_reply(e: ChatErrorKind) -> MessageView {
    MessageView { head: MessageHead::Display, from: default_target(), target: default_target(), msg: error_text(e) }
}

/// The reply to a sign-up: the new user's id in decimal.
pub open spec fn signup_reply(id: usize) -> MessageView {
    MessageView {
        head: MessageHead::SighUp,
        from: default_target(),
        target: default_target(),
        msg: decimal(id as nat),
    }
}

/// Whether the password `pwd` opens account `id`.
pub open spec fn password_matches(s: ServerView, id: usize, pwd: Seq<char>) -> bool {
    s.passwords.contains_key(id) && s.passwords[id] == pwd
}

/// What the server does with the connection that sent `m` (known under
/// `id`): a login is answered `ok` and kept when the password matches the
/// account of the sender's id, and answered with an error and dropped
/// otherwise; a sign-up registers the message's text as the password of
/// a fresh id, answers that id, and keeps the connection under it; any
/// other message leaves the connection as it is.
pub open spec fn sender_step(s: ServerView, m: MessageView, id: usize) -> (ServerView, LinkActionView) {
    match m.head {
        MessageHead::Login => {
            if password_matches(s, m.from.id(), m.msg) {
                (s, LinkActionView::Reply { keep: Some(id), reply: login_reply() })
            } else {
                (s, LinkActionView::Reply { keep: None, reply: error_reply(ChatErrorKind::UnMatchPasswd) })
            }
        },
        MessageHead::SighUp => (
            ServerView { passwords: s.passwords.insert(s.users, m.msg), users: (s.users + 1) as usize },
            LinkActionView::Reply { keep: Some(s.users), reply: signup_reply(s.users) },
        ),
        _ => (s, LinkActionView::Keep(id)),
    }
}

/// Whether a message goes to the connection of user `id`: a chat message
/// goes to its target, or to everybody when the target's id is 0.
pub open spec fn delivered_to(m: MessageView, id: usize) -> bool {
    m.head == MessageHead::Message && (m.target.id() == 0 || m.target.id() == id)
}

/// What the server does with a connection other than the sender's.
pub open spec fn getter_step(m: MessageView, id: usize) -> LinkActionView {
    if delivered_to(m, id) {
        LinkActionView::Forward { id, msg: m }
    } else {
        LinkActionView::Keep(id)
    }
}

/// Under which id a connection stays after its action, given whether the
/// send (if any) worked; `None` when it is dropped.
pub open spec fn kept_after(a: LinkActionView, sent: bool) -> Option<usize> {
    match a {
        LinkActionView::Keep(id) => Some(id),
        LinkActionView::Reply { keep, .. } => keep,
        LinkActionView::Forward { id, .. } => if sent { Some(id) } else { None },
    }
}

fn ok_text() -> (s: String)
    ensures
        s@ == seq!['o', 'k'],
{
    proof {
        reveal_strlit("ok");
        assert("ok"@ =~= seq!['o', 'k']);
    }
    String::from_str("ok")
}

/// The notice that reports an error to a client.
pub fn error_message(err: ChatErrorKind) -> (m: Message)
    ensures
        m@ == error_reply(err),
{
    Message::new(MessageHead::Display, Target::default(), Target::default(), err.to_string())
}

impl Server {
    /// No accounts yet; the first id handed out is 1.
    pub fn new() -> (s: Server)
        ensures
            s@.wf(),
            s@.passwords == Map::<usize, Seq<char>>::empty(),
            s@.users == 1,
    {
        let s = Server { user_lib: HashMap::new(), users: 1 };
        assert(s@.passwords =~= Map::<usize, Seq<char>>::empty());
        s
    }

    /// The next id to hand out.
    pub fn users(&self) -> (r: usize)
        ensures
            r == self@.users,
    {
        self.users
    }

    /// Handles the connection that sent `msg`, known under `id`.
    pub fn sender_active(&mut self, msg: &Message, id: usize) -> (a: LinkAction)
        requires
            old(self)@.wf(),
            msg.head == MessageHead::SighUp ==> old(self)@.users < usize::MAX,
        ensures
            final(self)@.wf(),
            (final(self)@, a@) == sender_step(old(self)@, msg@, id),
    {
        match msg.head {
            MessageHead::Login => {
                let from_id = msg.from.get_id();
                let matched = match self.user_lib.get(&from_id) {
                    Some(pwd) => *pwd == msg.msg,
                    None => false,
                };
                if matched {
                    let reply = Message::new(MessageHead::Login, Target::default(), Target::default(), ok_text());
                    LinkAction::Reply { keep: Some(id), reply }
                } else {
                    let reply = error_message(ChatErrorKind::UnMatchPasswd);
                    LinkAction::Reply { keep: None, reply }
                }
            },
            MessageHead::SighUp => {
                let new_id = self.users;
                self.user_lib.insert(new_id, msg.msg.clone());
                let reply = Message::new(
                    MessageHead::SighUp,
                    Target::default(),
                    Target::default(),
                    usize_to_string(new_id),
                );
                self.users = self.users + 1;
                proof {
                    assert(self@.passwords =~= old(self)@.passwords.insert(new_id, msg@.msg));
                }
                LinkAction::Reply { keep: Some(new_id), reply }
            },
            _ => LinkAction::Keep(id),
        }
    }

    /// Handles a connection other than the sender's, known under `id`.
    pub fn getter_active(&self, msg: &Message, id: usize) -> (a: LinkAction)
        ensures
            a@ == getter_step(msg@, id),
    {
        match msg.head {
            MessageHead::Message => {
                let to = msg.target.get_id();
                if to == 0 || to == id {
                    LinkAction::Forward { id, msg: msg.clone() }
                } else {
                    LinkAction::Keep(id)
                }
            },
            _ => LinkAction::Keep(id),
        }
    }

    /// Handles one connection while the server handles `msg`: the sender's
    /// own connection (`is_sender`) as `sender_active` says, any other as
    /// `getter_active` says.
    pub fn on_link(&mut self, msg: &Message, id: usize, is_sender: bool) -> (a: LinkAction)
        requires
            old(self)@.wf(),
            is_sender && msg.head == MessageHead::SighUp ==> old(self)@.users < usize::MAX,
        ensures
            final(self)@.wf(),
            is_sender ==> (final(self)@, a@) == sender_step(old(self)@, msg@, id),
            !is_sender ==> final(self)@ == old(self)@ && a@ == getter_step(msg@, id),
    {
        if is_sender {
            self.sender_active(msg, id)
        } else {
            self.getter_active(msg, id)
        }
    }
}

/// How many of the connections are alive and the sender's.
pub open spec fn sender_count(links: Seq<(usize, Option<bool>)>) -> nat
    decreases links.len(),
{
    if links.len() == 0 {
        0
    } else {
        sender_count(links.drop_last()) + if links.last().1 == Some(true) { 1nat } else { 0nat }
    }
}

/// What the server does with each connection while it handles `m`, in
/// order, and the accounts afterwards. Each connection comes with its id
/// and, when it is alive, whether it is the sender's; a connection that is
/// not alive gets no action (it is dropped), the sender's is handled as
/// `sender_step` says and any other as `getter_step` says.
pub open spec fn plan_spec(s: ServerView, m: MessageView, links: Seq<(usize, Option<bool>)>) -> (
    ServerView,
    Seq<Option<LinkActionView>>,
)
    decreases links.len(),
{
    if links.len() == 0 {
        (s, Seq::empty())
    } else {
        let (s1, acts) = plan_spec(s, m, links.drop_last());
        let (id, info) = links.last();
        match info {
            None => (s1, acts.push(None)),
            Some(true) => {
                let (s2, a) = sender_step(s1, m, id);
                (s2, acts.push(Some(a)))
            },
            Some(false) => (s1, acts.push(Some(getter_step(m, id)))),
        }
    }
}

/// The views of planned actions.
pub open spec fn actions_view(v: Seq<Option<LinkAction>>) -> Seq<Option<LinkActionView>> {
    v.map_values(
        |a: Option<LinkAction>|
            match a {
                Some(x) => Some(x@),
                None => None,
            },
    )
}

impl Server {
    /// Decides, connection by connection and in order, what happens to each
    /// while the server handles `msg` (see `plan_spec`). A sign-up needs an
    /// id for each sender connection.
    pub fn plan(&mut self, msg: &Message, links: &Vec<(usize, Option<bool>)>) -> (r: Vec<Option<LinkAction>>)
        requires
            old(self)@.wf(),
            msg.head == MessageHead::SighUp ==> old(self)@.users + sender_count(links@) <= usize::MAX,
        ensures
            final(self)@.wf(),
            (final(self)@, actions_view(r@)) == plan_spec(old(self)@, msg@, links@),
    {
        let mut r: Vec<Option<LinkAction>> = Vec::new();
        let mut i: usize = 0;
        while i < links.len()
            invariant
                i <= links@.len(),
                self@.wf(),
                msg.head == MessageHead::SighUp ==> old(self)@.users + sender_count(links@) <= usize::MAX,
                msg.head == MessageHead::SighUp ==> self@.users == old(self)@.users + sender_count(links@.take(i as int)),
                (self@, actions_view(r@)) == plan_spec(old(self)@, msg@, links@.take(i as int)),
            decreases links@.len() - i,
        {
            let (id, info) = links[i];
            proof {
                let prefix = links@.take(i + 1);
                assert(prefix.drop_last() =~= links@.take(i as int));
                assert(prefix.last() == links@[i as int]);
                lemma_sender_count_prefix(links@, i + 1);
            }
            let a = match info {
                None => None,
                Some(true) => Some(self.sender_active(msg, id)),
                Some(false) => Some(self.getter_active(msg, id)),
            };
            r.push(a);
            i = i + 1;
            proof {
                assert(actions_view(r@) =~= plan_spec(old(self)@, msg@, links@.take(i - 1)).1.push(
                    match a {
                        Some(x) => Some(x@),
                        None => None,
                    },
                ));
            }
        }
        proof {
            assert(links@.take(i as int) =~= links@);
        }
        r
    }
}

/// The table of connections after a message was handled: each connection
/// whose action keeps it is entered under the id it is kept under, in
/// order (a later one replaces an earlier one under the same id); a
/// connection without an action (not alive) or that is dropped is left
/// out.
pub open spec fn kept_links<S>(
    entries: Seq<(usize, S)>,
    actions: Seq<Option<LinkActionView>>,
    sent: Seq<bool>,
) -> Map<usize, S>
    decreases entries.len(),
{
    if entries.len() == 0 || actions.len() < entries.len() || sent.len() < entries.len() {
        Map::empty()
    } else {
        let k = entries.len() - 1;
        let before = kept_links(entries.drop_last(), actions.take(k), sent.take(k));
        match actions[k] {
            Some(a) => match kept_after(a, sent[k]) {
                Some(id) => before.insert(id, entries[k].1),
                None => before,
            },
            None => before,
        }
    }
}

/// How many connections got no action (were not alive).
pub open spec fn dead_links(actions: Seq<Option<LinkActionView>>) -> nat
    decreases actions.len(),
{
    if actions.len() == 0 {
        0
    } else {
        dead_links(actions.drop_last()) + if actions.last() is None { 1nat } else { 0nat }
    }
}

/// Whether an action is a reply, whose send must work.
pub open spec fn is_reply(a: Option<LinkActionView>) -> bool {
    match a {
        Some(LinkActionView::Reply { .. }) => true,
        _ => false,
    }
}

/// Builds the table of connections that stay after a message was handled,
/// and counts the connections left out for not being alive. `sent[i]`
/// tells whether the send of connection `i`'s action worked; a reply's
/// send must have worked.
pub fn keep_links<S>(entries: Vec<(usize, S)>, actions: Vec<Option<LinkAction>>, sent: Vec<bool>) -> (r: (
    HashMap<usize, S>,
    usize,
))
    requires
        actions@.len() == entries@.len(),
        sent@.len() == entries@.len(),
        forall|i: int| 0 <= i < actions@.len() && is_reply(#[trigger] actions_view(actions@)[i]) ==> sent@[i],
    ensures
        r.0@ == kept_links(entries@, actions_view(actions@), sent@),
        r.1 == dead_links(actions_view(actions@)),
{
    let ghost all_entries = entries@;
    let ghost all_actions = actions_view(actions@);
    let mut table: HashMap<usize, S> = HashMap::new();
    let mut removed: usize = 0;
    let mut entries = entries;
    let mut actions = actions;
    let n = entries.len();
    let mut i: usize = 0;
    while i < n
        invariant
            i <= n,
            n == all_entries.len(),
            all_actions.len() == n,
            sent@.len() == n,
            entries@ == all_entries.skip(i as int),
            actions@.len() == n - i,
            actions_view(actions@) == all_actions.skip(i as int),
            forall|j: int| 0 <= j < n && is_reply(#[trigger] all_actions[j]) ==> sent@[j],
            table@ == kept_links(all_entries.take(i as int), all_actions.take(i as int), sent@.take(i as int)),
            removed == dead_links(all_actions.take(i as int)),
            removed <= i,
        decreases n - i,
    {
        proof {
            assert(entries@.len() > 0);
            assert(actions_view(actions@)[0] == all_actions[i as int]);
        }
        let ghost before = actions@;
        let (id, link) = entries.remove(0);
        let action = actions.remove(0);
        proof {
            let k = i as int;
            assert(all_entries.take(k + 1).drop_last() =~= all_entries.take(k));
            assert(all_actions.take(k + 1).take(k) =~= all_actions.take(k));
            assert(sent@.take(k + 1).take(k) =~= sent@.take(k));
            assert(all_actions.take(k + 1).drop_last() =~= all_actions.take(k));
            assert(entries@ =~= all_entries.skip(k + 1));
            assert forall|j: int| 0 <= j < actions@.len() implies actions_view(actions@)[j] == all_actions.skip(k + 1)[j] by {
                assert(actions@[j] == before[j + 1]);
                assert(actions_view(before)[j + 1] == all_actions.skip(k)[j + 1]);
            }
            assert(actions_view(actions@) =~= all_actions.skip(k + 1));
            assert(all_entries[k] == (id, link));
        }
        match action {
            None => {
                removed = removed + 1;
            },
            Some(a) => {
                match a.kept_after(sent[i]) {
                    Some(new_id) => {
                        table.insert(new_id, link);
                    },
                    None => {},
                }
            },
        }
        i = i + 1;
    }
    proof {
        assert(all_entries.take(n as int) =~= all_entries);
        assert(all_actions.take(n as int) =~= all_actions);
        assert(sent@.take(n as int) =~= sent@);
    }
    (table, removed)
}

/// Sender connections of a prefix never outnumber those of the whole.
proof fn lemma_sender_count_prefix(links: Seq<(usize, Option<bool>)>, k: int)
    requires
        0 <= k <= links.len(),
    ensures
        sender_count(links.take(k)) <= sender_count(links),
    decreases links.len(),
{
    if k < links.len() {
        lemma_sender_count_prefix(links.drop_last(), k);
        assert(links.drop_last().take(k) =~= links.take(k));
    } else {
        assert(links.take(k) =~= links);
    }
}

impl LinkAction {
    /// Under which id the connection stays once the action is done; `sent`
    /// tells whether its send worked. A failed reply is not handled here.
    pub fn kept_after(&self, sent: bool) -> (r: Option<usize>)
        requires
            self is Reply ==> sent,
        ensures
            r == kept_after(self@, sent),
    {
        match self {
            LinkAction::Keep(id) => Some(*id),
            LinkAction::Reply { keep, .. } => *keep,
            LinkAction::Forward { id, .. } => if sent { Some(*id) } else { None },
        }
    }
}

} // verus!

verus! {

/// Handling the sender's connection keeps the accounts well formed.
pub proof fn law_sender_step_keeps_wf(s: ServerView, m: MessageView, id: usize)
    requires
        s.wf(),
        m.head == MessageHead::SighUp ==> s.users < usize::MAX,
    ensures
        sender_step(s, m, id).0.wf(),
{
}

/// Only a sign-up changes the accounts: it adds exactly one account, under
/// an id no account had, with the message's text as password.
pub proof fn law_only_signup_changes_accounts(s: ServerView, m: MessageView, id: usize)
    requires
        s.wf(),
        m.head == MessageHead::SighUp ==> s.users < usize::MAX,
    ensures
        m.head != MessageHead::SighUp ==> sender_step(s, m, id).0 == s,
        m.head == MessageHead::SighUp ==> {
            &&& !s.passwords.contains_key(s.users)
            &&& sender_step(s, m, id).0.passwords == s.passwords.insert(s.users, m.msg)
            &&& sender_step(s, m, id).0.users == s.users + 1
        },
{
}

/// After a sign-up with password `p`, the server answers the new id, and
/// a login under that id is let in exactly when its password is `p`; a
/// refused login is answered with an error and its connection dropped.
pub proof fn law_signup_then_login(
    s: ServerView,
    signup: MessageView,
    login: MessageView,
    link1: usize,
    link2: usize,
)
    requires
        s.wf(),
        s.users < usize::MAX,
        signup.head == MessageHead::SighUp,
        login.head == MessageHead::Login,
        login.from.id() == s.users,
    ensures
        sender_step(s, signup, link1).1 == (LinkActionView::Reply {
            keep: Some(s.users),
            reply: signup_reply(s.users),
        }),
        login.msg == signup.msg ==> sender_step(sender_step(s, signup, link1).0, login, link2).1 == (
        LinkActionView::Reply { keep: Some(link2), reply: login_reply() }),
        login.msg != signup.msg ==> sender_step(sender_step(s, signup, link1).0, login, link2).1 == (
        LinkActionView::Reply { keep: None, reply: error_reply(ChatErrorKind::UnMatchPasswd) }),
{
}

/// A login never changes the accounts, and is let in exactly when the
/// password matches the account of the sender's id.
pub proof fn law_login_checks_password(s: ServerView, m: MessageView, id: usize)
    requires
        m.head == MessageHead::Login,
    ensures
        sender_step(s, m, id).0 == s,
        sender_step(s, m, id).1 is Reply,
        (sender_step(s, m, id).1->keep is Some) <==> password_matches(s, m.from.id(), m.msg),
{
}

/// A chat message goes to the connection of its target, to every
/// connection when the target's id is 0, and to no other; anything else
/// that is not the sender's leaves connections as they are.
pub proof fn law_routing(m: MessageView, id: usize)
    ensures
        getter_step(m, id) is Forward <==> delivered_to(m, id),
        m.head == MessageHead::Message && m.target.id() == 0 ==> getter_step(m, id) is Forward,
        m.head == MessageHead::Message && m.target.id() != 0 && m.target.id() != id ==> getter_step(m, id)
            == LinkActionView::Keep(id),
        m.head != MessageHead::Message ==> getter_step(m, id) == LinkActionView::Keep(id),
        getter_step(m, id) matches LinkActionView::Forward { msg, .. } ==> msg == m,
{
}

} // verus!

verus! {

/// The server's replies are between users, so each has a JSON text.
pub proof fn law_replies_are_between_users(id: usize, e: ChatErrorKind)
    ensures
        between_users(login_reply()),
        between_users(signup_reply(id)),
        between_users(error_reply(e)),
{
}

/// A chat message goes through unchanged: the server reads from the
/// sender's frame the message the sender wrote, hands that same message
/// to each connection it is delivered to, and the receiver reads it back
/// from the server's frame (frames whose text fits in `MEG_SIZE` bytes).
pub proof fn law_relay(m: MessageView, sent_text: Seq<char>, forwarded_text: Seq<char>, to: usize)
    requires
        between_users(m),
        encodes_message(sent_text, m),
        encodes_message(forwarded_text, m),
        encode_utf8(sent_text).len() <= MEG_SIZE,
        encode_utf8(forwarded_text).len() <= MEG_SIZE,
        delivered_to(m, to),
    ensures
        frame_message(frame_bytes(sent_text)) == Some(m),
        getter_step(m, to) == (LinkActionView::Forward { id: to, msg: m }),
        frame_message(frame_bytes(forwarded_text)) == Some(m),
{
    law_frame_round_trip(sent_text, m);
    law_frame_round_trip(forwarded_text, m);
}

/// Whatever account the sender names, a login with that account's
/// password is answered `ok` (a `Login` message with text "ok") and its
/// connection stays under its link id; any other login is answered with
/// the wrong-password notice and its connection is dropped. The accounts
/// stay as they were either way.
pub proof fn law_login_answer(s: ServerView, m: MessageView, id: usize)
    requires
        m.head == MessageHead::Login,
    ensures
        sender_step(s, m, id).0 == s,
        password_matches(s, m.from.id(), m.msg) ==> (sender_step(s, m, id).1 matches LinkActionView::Reply {
            keep,
            reply,
        } && keep == Some(id) && reply.head == MessageHead::Login && reply.msg == seq!['o', 'k']),
        !password_matches(s, m.from.id(), m.msg) ==> (sender_step(s, m, id).1 matches LinkActionView::Reply {
            keep,
            reply,
        } && keep is None && reply.head == MessageHead::Display && reply.msg == error_text(
            ChatErrorKind::UnMatchPasswd,
        )),
{
}

/// Every account stays open to its password after any later sign-up: a
/// sign-up never touches an account that was already there, so a login
/// to it with its password is still answered `ok`.
pub proof fn law_accounts_survive_signups(s: ServerView, signup: MessageView, login: MessageView, link1: usize, link2: usize)
    requires
        s.wf(),
        signup.head == MessageHead::SighUp,
        login.head == MessageHead::Login,
        password_matches(s, login.from.id(), login.msg),
    ensures
        password_matches(sender_step(s, signup, link1).0, login.from.id(), login.msg),
        sender_step(sender_step(s, signup, link1).0, login, link2).1 matches LinkActionView::Reply { keep, reply }
            && keep == Some(link2) && reply.head == MessageHead::Login,
{
    assert(s.passwords.contains_key(login.from.id()));
    assert(login.from.id() != s.users);
}

/// A reply keeps its connection under exactly the id it names (or drops
/// it when it names none), whatever the send reported.
pub proof fn law_reply_keeps_link(keep: Option<usize>, reply: MessageView, sent: bool)
    ensures
        kept_after(LinkActionView::Reply { keep, reply }, sent) == keep,
{
}

/// In the table of connections kept after a message was handled, a
/// connection answered with a reply that keeps it under `k` stands under
/// `k`, unless a later connection is kept under `k` too.
pub proof fn law_replied_link_is_kept<S>(
    entries: Seq<(usize, S)>,
    actions: Seq<Option<LinkActionView>>,
    sent: Seq<bool>,
    i: int,
    k: usize,
)
    requires
        actions.len() == entries.len(),
        sent.len() == entries.len(),
        0 <= i < entries.len(),
        (actions[i] matches Some(LinkActionView::Reply { keep, .. }) && keep == Some(k)),
        forall|j: int| i < j < entries.len() && #[trigger] actions[j] is Some ==> kept_after(actions[j]->0, sent[j]) != Some(k),
    ensures
        kept_links(entries, actions, sent).contains_key(k),
        kept_links(entries, actions, sent)[k] == entries[i].1,
    decreases entries.len(),
{
    let n = entries.len() - 1;
    let e1 = entries.drop_last();
    let a1 = actions.take(n);
    let s1 = sent.take(n);
    if i < n {
        assert forall|j: int| i < j < e1.len() && #[trigger] a1[j] is Some implies kept_after(a1[j]->0, s1[j]) != Some(k) by {
            assert(a1[j] == actions[j] && s1[j] == sent[j]);
        }
        law_replied_link_is_kept(e1, a1, s1, i, k);
        assert(actions[n] is Some ==> kept_after(actions[n]->0, sent[n]) != Some(k));
    }
}

/// Every live connection other than the sender's is handled on its own:
/// a chat message is forwarded, unchanged, to the connection of its
/// target and to every connection when the target's id is 0; any other
/// connection is kept as it is. A connection that is not alive gets no
/// action, and there is one action for each connection.
pub proof fn law_plan_other_links(s: ServerView, m: MessageView, links: Seq<(usize, Option<bool>)>, i: int)
    requires
        0 <= i < links.len(),
    ensures
        plan_spec(s, m, links).1.len() == links.len(),
        links[i].1 is None ==> plan_spec(s, m, links).1[i] is None,
        links[i].1 == Some(false) && m.head == MessageHead::Message && (m.target.id() == 0 || m.target.id()
            == links[i].0) ==> plan_spec(s, m, links).1[i] == Some(LinkActionView::Forward { id: links[i].0, msg: m }),
        links[i].1 == Some(false) && !(m.head == MessageHead::Message && (m.target.id() == 0 || m.target.id()
            == links[i].0)) ==> plan_spec(s, m, links).1[i] == Some(LinkActionView::Keep(links[i].0)),
    decreases links.len(),
{
    lemma_plan_len(s, m, links);
    if i < links.len() - 1 {
        law_plan_other_links(s, m, links.drop_last(), i);
        assert(links.drop_last()[i] == links[i]);
    }
}

proof fn lemma_plan_len(s: ServerView, m: MessageView, links: Seq<(usize, Option<bool>)>)
    ensures
        plan_spec(s, m, links).1.len() == links.len(),
    decreases links.len(),
{
    if links.len() > 0 {
        lemma_plan_len(s, m, links.drop_last());
    }
}

} // verus!
