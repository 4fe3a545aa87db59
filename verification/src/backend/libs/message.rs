//! Messages: what travels between clients and the server.

use vstd::prelude::*;
use crate::backend::libs::fields::{field_lookup, fields_view, keys_distinct};
use crate::backend::libs::json_text::{
    compact_object, encodes_fields, escaped, escaped_weight, json_string_member, json_string_members,
    json_stringify_fields, lemma_compact_measure_congruent, lemma_compact_measure_perm, lemma_escaped_measure,
    lemma_utf8_len, measure, opt_view, utf8_weight, written_as,
};
use vstd::utf8::encode_utf8;
use crate::backend::libs::usergroup::{
    copies_members, default_target, result_view, target_fields, target_from_text, Target, TargetView,
};

verus! {

/// What a message asks for or announces.
#[derive(Debug, Clone, Copy, PartialEq, Eq, Structural)]
pub enum MessageHead {
    Login,
    Message,
    Display,
    SighUp,
    UserList,
}

/// The one-letter code of a head on the wire.
pub open spec fn head_code(h: MessageHead) -> Seq<char> {
    match h {
        MessageHead::Login => seq!['l'],
        MessageHead::Message => seq!['s'],
        MessageHead::Display => seq!['d'],
        MessageHead::SighUp => seq!['n'],
        MessageHead::UserList => seq!['u'],
    }
}

/// The head that a code stands for, if any.
pub open spec fn head_from_code(s: Seq<char>) -> Option<MessageHead> {
    if s == seq!['l'] {
        Some(MessageHead::Login)
    } else if s == seq!['d'] {
        Some(MessageHead::Display)
    } else if s == seq!['s'] {
        Some(MessageHead::Message)
    } else if s == seq!['n'] {
        Some(MessageHead::SighUp)
    } else if s == seq!['u'] {
        Some(MessageHead::UserList)
    } else {
        None
    }
}

/// A message: its head, who sends it, to whom, and its text.
#[derive(Debug)]
pub struct Message {
    pub head: MessageHead,
    pub from: Target,
    pub target: Target,
    pub msg: String,
}

/// What a message is, as text and numbers.
pub struct MessageView {
    pub head: MessageHead,
    pub from: TargetView,
    pub target: TargetView,
    pub msg: Seq<char>,
}

impl View for Message {
    type V = MessageView;

    open spec fn view(&self) -> MessageView {
        MessageView { head: self.head, from: self.from@, target: self.target@, msg: self.msg@ }
    }
}

/// Whether both parties of the message are users (only users have a
/// record on the wire).
pub open spec fn between_users(m: MessageView) -> bool {
    m.from is User && m.target is User
}

pub open spec fn head_key() -> Seq<char> {
    seq!['h', 'e', 'a', 'd']
}

pub open spec fn from_key() -> Seq<char> {
    seq!['f', 'r', 'o', 'm']
}

pub open spec fn target_key() -> Seq<char> {
    seq!['t', 'a', 'r', 'g', 'e', 't']
}

pub open spec fn msg_key() -> Seq<char> {
    seq!['m', 's', 'g']
}

/// The record of a message whose parties are written as the JSON texts
/// `from_text` and `target_text`.
pub open spec fn message_fields(
    h: MessageHead,
    from_text: Seq<char>,
    target_text: Seq<char>,
    msg: Seq<char>,
) -> Seq<(Seq<char>, Seq<char>)> {
    seq![(head_key(), head_code(h)), (from_key(), from_text), (target_key(), target_text), (msg_key(), msg)]
}

/// `text` is a JSON text of message `m`: an object whose `head` is the
/// head's code, whose `from` and `target` are JSON texts of the two
/// users, and whose `msg` is the message's text.
pub open spec fn encodes_message(text: Seq<char>, m: MessageView) -> bool {
    exists|from_text: Seq<char>, target_text: Seq<char>|
        encodes_fields(from_text, target_fields(m.from)) && encodes_fields(target_text, target_fields(m.target))
            && #[trigger] encodes_fields(text, message_fields(m.head, from_text, target_text, m.msg))
}

/// `text` is what the library writes for message `m`: the compact object
/// of its record, in some order of members, whose `from` and `target` are
/// compact objects of the two users' records, each in some order.
pub open spec fn written_message(text: Seq<char>, m: MessageView) -> bool {
    exists|from_text: Seq<char>, target_text: Seq<char>|
        written_as(from_text, target_fields(m.from)) && written_as(target_text, target_fields(m.target))
            && #[trigger] written_as(text, message_fields(m.head, from_text, target_text, m.msg))
}

/// The compact text of message `m` with every record in its own order
/// (`head`, `from`, `target`, `msg`; `name`, `id`). Every text that
/// `written_message` admits has as many UTF-8 bytes as this one.
pub open spec fn message_text(m: MessageView) -> Seq<char> {
    compact_object(
        message_fields(m.head, compact_object(target_fields(m.from)), compact_object(target_fields(m.target)), m.msg),
    )
}

/// What reading a message from its members gives: an error when a member
/// is missing or the head's code is unknown, no outcome at all (a panic)
/// when a party cannot be read as a user, and the message otherwise.
/// Members are read in the order head, from, target, msg.
pub open spec fn message_from_members(
    head: Option<Seq<char>>,
    from: Option<Seq<char>>,
    target: Option<Seq<char>>,
    msg: Option<Seq<char>>,
) -> Option<Result<MessageView, ()>> {
    match head {
        None => Some(Err(())),
        Some(h) => match head_from_code(h) {
            None => Some(Err(())),
            Some(hd) => match from {
                None => Some(Err(())),
                Some(f) => match target_from_text(f) {
                    Some(Ok(fv)) => match target {
                        None => Some(Err(())),
                        Some(t) => match target_from_text(t) {
                            Some(Ok(tv)) => match msg {
                                None => Some(Err(())),
                                Some(m) => Some(Ok(MessageView { head: hd, from: fv, target: tv, msg: m })),
                            },
                            _ => None,
                        },
                    },
                    _ => None,
                },
            },
        },
    }
}

/// The string member `key` of a JSON text, when the text is JSON.
pub open spec fn member(text: Seq<char>, key: Seq<char>) -> Option<Seq<char>> {
    match json_string_member(text, key) {
        Some(v) => v,
        None => None,
    }
}

/// The message that a receiver takes from a JSON text; `None` where the
/// receiver gives up (the text is not JSON, or the message cannot be read).
pub open spec fn message_from_text(text: Seq<char>) -> Option<MessageView> {
    match json_string_member(text, head_key()) {
        None => None,
        Some(_) => match message_from_members(
            member(text, head_key()),
            member(text, from_key()),
            member(text, target_key()),
            member(text, msg_key()),
        ) {
            Some(Ok(m)) => Some(m),
            _ => None,
        },
    }
}

/// What reading a JSON text as a message comes to.
pub enum TextReading {
    /// The text is not JSON.
    NotJson,
    /// A member is missing, or the head's code is unknown.
    Invalid,
    /// A party does not read as a user.
    Unreadable,
    /// The message.
    Message(Message),
}

pub enum TextReadingView {
    NotJson,
    Invalid,
    Unreadable,
    Message(MessageView),
}

impl View for TextReading {
    type V = TextReadingView;

    open spec fn view(&self) -> TextReadingView {
        match self {
            TextReading::NotJson => TextReadingView::NotJson,
            TextReading::Invalid => TextReadingView::Invalid,
            TextReading::Unreadable => TextReadingView::Unreadable,
            TextReading::Message(m) => TextReadingView::Message(m@),
        }
    }
}

/// What reading the JSON text `text` as a message comes to.
pub open spec fn text_reading(text: Seq<char>) -> TextReadingView {
    match json_string_member(text, head_key()) {
        None => TextReadingView::NotJson,
        Some(_) => match message_from_members(
            member(text, head_key()),
            member(text, from_key()),
            member(text, target_key()),
            member(text, msg_key()),
        ) {
            Some(Ok(m)) => TextReadingView::Message(m),
            Some(Err(_)) => TextReadingView::Invalid,
            None => TextReadingView::Unreadable,
        },
    }
}

/// The view of a result.
pub open spec fn message_result_view(r: Result<Message, ()>) -> Result<MessageView, ()> {
    match r {
        Ok(m) => Ok(m@),
        Err(_) => Err(()),
    }
}

/// The text a message is shown with: `H:[head] F:[from] T:[target] M:msg`.
pub open spec fn display_text(m: MessageView) -> Seq<char> {
    seq!['H', ':', '['] + head_code(m.head) + seq![']', ' ', 'F', ':', '['] + m.from.name()
        + seq![']', ' ', 'T', ':', '['] + m.target.name() + seq![']', ' ', 'M', ':'] + m.msg
}

fn key_str(which: usize) -> (s: &'static str)
    requires
        which < 4,
    ensures
        which == 0 ==> s@ == head_key(),
        which == 1 ==> s@ == from_key(),
        which == 2 ==> s@ == target_key(),
        which == 3 ==> s@ == msg_key(),
{
    if which == 0 {
        proof {
            reveal_strlit("head");
            assert("head"@ =~= head_key());
        }
        "head"
    } else if which == 1 {
        proof {
            reveal_strlit("from");
            assert("from"@ =~= from_key());
        }
        "from"
    } else if which == 2 {
        proof {
            reveal_strlit("target");
            assert("target"@ =~= target_key());
        }
        "target"
    } else {
        proof {
            reveal_strlit("msg");
            assert("msg"@ =~= msg_key());
        }
        "msg"
    }
}

proof fn lemma_keys_differ()
    ensures
        head_key() != from_key(),
        head_key() != target_key(),
        head_key() != msg_key(),
        from_key() != target_key(),
        from_key() != msg_key(),
        target_key() != msg_key(),
{
    assert(head_key()[0] != from_key()[0]);
    assert(head_key()[0] != target_key()[0]);
    assert(head_key()[0] != msg_key()[0]);
    assert(from_key()[0] != target_key()[0]);
    assert(from_key()[0] != msg_key()[0]);
    assert(target_key()[0] != msg_key()[0]);
}

impl MessageHead {
    /// The head's code on the wire.
    pub fn to_string(&self) -> (r: String)
        ensures
            r@ == head_code(*self),
    {
        match self {
            MessageHead::Login => {
                proof {
                    reveal_strlit("l");
                    assert("l"@ =~= head_code(*self));
                }
                String::from_str("l")
            },
            MessageHead::Message => {
                proof {
                    reveal_strlit("s");
                    assert("s"@ =~= head_code(*self));
                }
                String::from_str("s")
            },
            MessageHead::Display => {
                proof {
                    reveal_strlit("d");
                    assert("d"@ =~= head_code(*self));
                }
                String::from_str("d")
            },
            MessageHead::SighUp => {
                proof {
                    reveal_strlit("n");
                    assert("n"@ =~= head_code(*self));
                }
                String::from_str("n")
            },
            MessageHead::UserList => {
                proof {
                    reveal_strlit("u");
                    assert("u"@ =~= head_code(*self));
                }
                String::from_str("u")
            },
        }
    }

    /// The head that a code stands for, if any.
    pub fn from_code(s: &str) -> (r: Option<MessageHead>)
        ensures
            r == head_from_code(s@),
    {
        if s.unicode_len() != 1 {
            proof {
                assert(seq!['l'].len() == 1);
            }
            return None;
        }
        let c = s.get_char(0);
        let ghost one = seq![c];
        assert(s@ =~= one);
        if c == 'l' {
            Some(MessageHead::Login)
        } else if c == 'd' {
            Some(MessageHead::Display)
        } else if c == 's' {
            Some(MessageHead::Message)
        } else if c == 'n' {
            Some(MessageHead::SighUp)
        } else if c == 'u' {
            Some(MessageHead::UserList)
        } else {
            proof {
                assert(one != seq!['l'] && one != seq!['d'] && one != seq!['s'] && one != seq!['n'] && one
                    != seq!['u']) by {
                    assert(one[0] == c);
                }
            }
            None
        }
    }
}

impl Default for MessageHead {
    /// A message to be shown.
    fn default() -> (h: MessageHead)
        ensures
            h == MessageHead::Display,
    {
        MessageHead::Display
    }
}

impl Message {
    /// A message from its parts.
    pub fn new(head: MessageHead, from: Target, target: Target, msg: String) -> (m: Message)
        ensures
            m.head == head,
            m.from == from,
            m.target == target,
            m.msg == msg,
    {
        Message { head, from, target, msg }
    }

    /// The record of a message: `head` (its code), `from` and `target` (the
    /// parties' JSON texts) and `msg`. Only messages between users have one.
    pub fn to_map(&self) -> (r: Vec<(String, String)>)
        requires
            between_users(self@),
        ensures
            keys_distinct(fields_view(r@)),
            exists|from_text: Seq<char>, target_text: Seq<char>|
                encodes_fields(from_text, target_fields(self@.from)) && encodes_fields(target_text, target_fields(self@.target))
                    && written_as(from_text, target_fields(self@.from)) && written_as(target_text, target_fields(self@.target))
                    && fields_view(r@) == #[trigger] message_fields(self.head, from_text, target_text, self@.msg),
    {
        let from_text = self.from.to_json_text();
        let target_text = self.target.to_json_text();
        let mut r: Vec<(String, String)> = Vec::new();
        r.push((String::from_str(key_str(0)), self.head.to_string()));
        r.push((String::from_str(key_str(1)), from_text));
        r.push((String::from_str(key_str(2)), target_text));
        r.push((String::from_str(key_str(3)), self.msg.clone()));
        proof {
            lemma_keys_differ();
            assert(fields_view(r@) =~= message_fields(self.head, from_text@, target_text@, self@.msg));
        }
        r
    }

    /// Whether both parties are users, so that the message has a JSON text.
    pub fn is_between_users(&self) -> (r: bool)
        ensures
            r == between_users(self@),
    {
        match (&self.from, &self.target) {
            (Target::User { .. }, Target::User { .. }) => true,
            _ => false,
        }
    }

    /// The message as JSON text: the compact object of its record.
    pub fn to_json_text(&self) -> (r: String)
        requires
            between_users(self@),
        ensures
            written_message(r@, self@),
            encodes_message(r@, self@),
    {
        let fields = self.to_map();
        let r = json_stringify_fields(&fields);
        proof {
            assert(encodes_fields(r@, fields_view(fields@)));
            let (ft, tt) = choose|ft: Seq<char>, tt: Seq<char>|
                encodes_fields(ft, target_fields(self@.from)) && encodes_fields(tt, target_fields(self@.target))
                    && written_as(ft, target_fields(self@.from)) && written_as(tt, target_fields(self@.target))
                    && fields_view(fields@) == #[trigger] message_fields(self.head, ft, tt, self@.msg);
            assert(encodes_fields(r@, message_fields(self.head, ft, tt, self@.msg)));
            assert(written_as(r@, message_fields(self.head, ft, tt, self@.msg)));
        }
        r
    }

    /// The text the message is shown with.
    pub fn display_text(&self) -> (r: String)
        ensures
            r@ == display_text(self@),
    {
        proof {
            reveal_strlit("H:[");
            reveal_strlit("] F:[");
            reveal_strlit("] T:[");
            reveal_strlit("] M:");
        }
        let mut r = String::from_str("H:[");
        let code = self.head.to_string();
        r.append(code.as_str());
        r.append("] F:[");
        let from_name = self.from.get_name();
        r.append(from_name.as_str());
        r.append("] T:[");
        let target_name = self.target.get_name();
        r.append(target_name.as_str());
        r.append("] M:");
        r.append(self.msg.as_str());
        assert(r@ =~= display_text(self@));
        r
    }

    /// Reads a message from its `head`, `from`, `target` and `msg` members.
    /// Each party that is reached must read as a user.
    pub fn try_from_members(
        head: Option<String>,
        from: Option<String>,
        target: Option<String>,
        msg: Option<String>,
    ) -> (r: Result<Message, ()>)
        requires
            message_from_members(opt_view(head), opt_view(from), opt_view(target), opt_view(msg)) is Some,
        ensures
            message_from_members(opt_view(head), opt_view(from), opt_view(target), opt_view(msg))
                == Some(message_result_view(r)),
    {
        let shead = match head {
            Some(h) => h,
            None => return Err(()),
        };
        let hd = match MessageHead::from_code(shead.as_str()) {
            Some(hd) => hd,
            None => return Err(()),
        };
        let from_text = match from {
            Some(f) => f,
            None => return Err(()),
        };
        let from_target = match Target::try_from_text(from_text.as_str()) {
            Ok(t) => t,
            Err(_) => {
                proof { assert(false); }
                return Err(());
            },
        };
        let target_text = match target {
            Some(t) => t,
            None => return Err(()),
        };
        let target_target = match Target::try_from_text(target_text.as_str()) {
            Ok(t) => t,
            Err(_) => {
                proof { assert(false); }
                return Err(());
            },
        };
        let text = match msg {
            Some(m) => m,
            None => return Err(()),
        };
        Ok(Message::new(hd, from_target, target_target, text))
    }

    /// Reads the four members of a JSON text; `None` when it is not JSON.
    fn read_members(text: &str) -> (r: Option<(Option<String>, Option<String>, Option<String>, Option<String>)>)
        ensures
            match r {
                None => json_string_member(text@, head_key()) is None,
                Some((h, f, t, m)) => {
                    &&& json_string_member(text@, head_key()) == Some(opt_view(h))
                    &&& json_string_member(text@, from_key()) == Some(opt_view(f))
                    &&& json_string_member(text@, target_key()) == Some(opt_view(t))
                    &&& json_string_member(text@, msg_key()) == Some(opt_view(m))
                },
            },
    {
        let keys: Vec<&str> = vec![key_str(0), key_str(1), key_str(2), key_str(3)];
        proof {
            lemma_keys_differ();
            assert(keys@[0]@ == head_key());
            assert(keys@[1]@ == from_key());
            assert(keys@[2]@ == target_key());
            assert(keys@[3]@ == msg_key());
        }
        match json_string_members(text, &keys) {
            None => None,
            Some(mut v) => {
                let m = v.pop().unwrap();
                let t = v.pop().unwrap();
                let f = v.pop().unwrap();
                let h = v.pop().unwrap();
                Some((h, f, t, m))
            },
        }
    }

    /// Reads a message from a JSON text, telling apart the ways it can
    /// fail: the text is not JSON, a member is missing or the head's code
    /// is unknown, or a party does not read as a user.
    pub fn read_text(text: &str) -> (r: TextReading)
        ensures
            r@ == text_reading(text@),
    {
        let (h, f, t, m) = match Self::read_members(text) {
            None => return TextReading::NotJson,
            Some(members) => members,
        };
        let hd = match &h {
            None => return TextReading::Invalid,
            Some(s) => MessageHead::from_code(s.as_str()),
        };
        if hd.is_none() {
            return TextReading::Invalid;
        }
        match &f {
            None => return TextReading::Invalid,
            Some(s) => match Target::parse_text(s.as_str()) {
                Some(Ok(_)) => {},
                _ => return TextReading::Unreadable,
            },
        }
        match &t {
            None => return TextReading::Invalid,
            Some(s) => match Target::parse_text(s.as_str()) {
                Some(Ok(_)) => {},
                _ => return TextReading::Unreadable,
            },
        }
        match Self::try_from_members(h, f, t, m) {
            Ok(msg) => TextReading::Message(msg),
            Err(_) => TextReading::Invalid,
        }
    }

    /// The message that a receiver takes from a JSON text; `None` where the
    /// receiver gives up: the text is not JSON, a member is missing, the
    /// head's code is unknown, or a party does not read as a user.
    pub fn decode_text(text: &str) -> (r: Option<Message>)
        ensures
            match r {
                Some(m) => message_from_text(text@) == Some(m@),
                None => message_from_text(text@) is None,
            },
    {
        match Self::read_text(text) {
            TextReading::Message(m) => Some(m),
            _ => None,
        }
    }
}

impl Default for Message {
    /// A message to be shown, between two unknown users, with no text.
    fn default() -> (m: Message)
        ensures
            m@ == (MessageView {
                head: MessageHead::Display,
                from: default_target(),
                target: default_target(),
                msg: Seq::<char>::empty(),
            }),
    {
        Message {
            head: MessageHead::default(),
            msg: String::new(),
            from: Target::default(),
            target: Target::default(),
        }
    }
}

impl Clone for Message {
    /// The same message, group members included.
    fn clone(&self) -> (r: Message)
        ensures
            r@ == self@,
            copies_members(self.from, r.from),
            copies_members(self.target, r.target),
    {
        Message { head: self.head, from: self.from.clone(), target: self.target.clone(), msg: self.msg.clone() }
    }
}

} // verus!

verus! {

/// Every head's code reads back as that head.
pub proof fn law_head_code_round_trip(h: MessageHead)
    ensures
        head_from_code(head_code(h)) == Some(h),
{
    assert(seq!['l'] != seq!['d']) by { assert(seq!['l'][0] != seq!['d'][0]); }
    assert(seq!['l'] != seq!['s']) by { assert(seq!['l'][0] != seq!['s'][0]); }
    assert(seq!['l'] != seq!['n']) by { assert(seq!['l'][0] != seq!['n'][0]); }
    assert(seq!['l'] != seq!['u']) by { assert(seq!['l'][0] != seq!['u'][0]); }
    assert(seq!['d'] != seq!['s']) by { assert(seq!['d'][0] != seq!['s'][0]); }
    assert(seq!['d'] != seq!['n']) by { assert(seq!['d'][0] != seq!['n'][0]); }
    assert(seq!['d'] != seq!['u']) by { assert(seq!['d'][0] != seq!['u'][0]); }
    assert(seq!['s'] != seq!['n']) by { assert(seq!['s'][0] != seq!['n'][0]); }
    assert(seq!['s'] != seq!['u']) by { assert(seq!['s'][0] != seq!['u'][0]); }
    assert(seq!['n'] != seq!['u']) by { assert(seq!['n'][0] != seq!['u'][0]); }
}

/// Looking up the four keys of a message's record.
proof fn lemma_message_fields_lookup(h: MessageHead, f: Seq<char>, t: Seq<char>, m: Seq<char>)
    ensures
        field_lookup(message_fields(h, f, t, m), head_key()) == Some(head_code(h)),
        field_lookup(message_fields(h, f, t, m), from_key()) == Some(f),
        field_lookup(message_fields(h, f, t, m), target_key()) == Some(t),
        field_lookup(message_fields(h, f, t, m), msg_key()) == Some(m),
{
    lemma_keys_differ();
    let s0 = message_fields(h, f, t, m);
    let s1 = s0.drop_first();
    let s2 = s1.drop_first();
    let s3 = s2.drop_first();
    assert(s1 =~= seq![(from_key(), f), (target_key(), t), (msg_key(), m)]);
    assert(s2 =~= seq![(target_key(), t), (msg_key(), m)]);
    assert(s3 =~= seq![(msg_key(), m)]);
    assert(field_lookup(s3, msg_key()) == Some(m));
    assert(field_lookup(s2, msg_key()) == Some(m));
    assert(field_lookup(s1, msg_key()) == Some(m));
    assert(field_lookup(s2, target_key()) == Some(t));
    assert(field_lookup(s1, target_key()) == Some(t));
    assert(field_lookup(s1, from_key()) == Some(f));
}

/// A receiver reads a message back from any JSON text of it, when both
/// parties are users.
pub proof fn law_message_text_round_trip(text: Seq<char>, m: MessageView)
    requires
        between_users(m),
        encodes_message(text, m),
    ensures
        message_from_text(text) == Some(m),
{
    let (ft, tt) = choose|ft: Seq<char>, tt: Seq<char>|
        encodes_fields(ft, target_fields(m.from)) && encodes_fields(tt, target_fields(m.target))
            && #[trigger] encodes_fields(text, message_fields(m.head, ft, tt, m.msg));
    let fields = message_fields(m.head, ft, tt, m.msg);
    lemma_message_fields_lookup(m.head, ft, tt, m.msg);
    assert(json_string_member(text, head_key()) == Some(field_lookup(fields, head_key())));
    assert(json_string_member(text, from_key()) == Some(field_lookup(fields, from_key())));
    assert(json_string_member(text, target_key()) == Some(field_lookup(fields, target_key())));
    assert(json_string_member(text, msg_key()) == Some(field_lookup(fields, msg_key())));
    law_head_code_round_trip(m.head);
    crate::backend::libs::usergroup::law_target_text_round_trip(ft, m.from);
    crate::backend::libs::usergroup::law_target_text_round_trip(tt, m.target);
}

/// Every text written for a message has as many UTF-8 bytes as
/// `message_text`: the order of the members changes no length.
pub proof fn lemma_written_message_len(text: Seq<char>, m: MessageView)
    requires
        written_message(text, m),
    ensures
        encode_utf8(text).len() == encode_utf8(message_text(m)).len(),
{
    let (ft, tt) = choose|ft: Seq<char>, tt: Seq<char>|
        written_as(ft, target_fields(m.from)) && written_as(tt, target_fields(m.target))
            && #[trigger] written_as(text, message_fields(m.head, ft, tt, m.msg));
    let u = utf8_weight();
    let e = escaped_weight(u);
    let ft0 = compact_object(target_fields(m.from));
    let tt0 = compact_object(target_fields(m.target));
    let written = message_fields(m.head, ft, tt, m.msg);
    let canonical = message_fields(m.head, ft0, tt0, m.msg);
    let p = choose|p: Seq<(Seq<char>, Seq<char>)>| p.to_multiset() == written.to_multiset() && text == #[trigger] compact_object(p);
    lemma_compact_measure_perm(p, written, u);
    let pf = choose|p: Seq<(Seq<char>, Seq<char>)>|
        p.to_multiset() == target_fields(m.from).to_multiset() && ft == #[trigger] compact_object(p);
    lemma_compact_measure_perm(pf, target_fields(m.from), e);
    lemma_escaped_measure(ft, u);
    lemma_escaped_measure(ft0, u);
    let pt = choose|p: Seq<(Seq<char>, Seq<char>)>|
        p.to_multiset() == target_fields(m.target).to_multiset() && tt == #[trigger] compact_object(p);
    lemma_compact_measure_perm(pt, target_fields(m.target), e);
    lemma_escaped_measure(tt, u);
    lemma_escaped_measure(tt0, u);
    assert forall|i: int| 0 <= i < written.len() implies measure(escaped(#[trigger] written[i].1), u)
        == measure(escaped(canonical[i].1), u) by {
        if i == 1 {
            assert(written[i].1 == ft && canonical[i].1 == ft0);
        } else if i == 2 {
            assert(written[i].1 == tt && canonical[i].1 == tt0);
        }
    }
    lemma_compact_measure_congruent(written, canonical, u);
    lemma_utf8_len(text);
    lemma_utf8_len(message_text(m));
}

} // verus!
