//! The lines the program writes to its log.

pub mod expect_log;

use vstd::prelude::*;

verus! {

/// `[LOG]: msg`
pub open spec fn log_line_text(msg: Seq<char>) -> Seq<char> {
    seq!['[', 'L', 'O', 'G', ']', ':', ' '] + msg
}

/// `[LOG][tag]: msg`
pub open spec fn log_with_line_text(tag: Seq<char>, msg: Seq<char>) -> Seq<char> {
    seq!['[', 'L', 'O', 'G', ']', '['] + tag + seq![']', ':', ' '] + msg
}

/// `[ERROR][tag] :msg`
pub open spec fn error_line_text(tag: Seq<char>, msg: Seq<char>) -> Seq<char> {
    seq!['[', 'E', 'R', 'R', 'O', 'R', ']', '['] + tag + seq![']', ' ', ':'] + msg
}

/// `[WARN][tag] :msg`
pub open spec fn warn_line_text(tag: Seq<char>, msg: Seq<char>) -> Seq<char> {
    seq!['[', 'W', 'A', 'R', 'N', ']', '['] + tag + seq![']', ' ', ':'] + msg
}

/// `[DEBUD][tag] :msg`
pub open spec fn debug_line_text(tag: Seq<char>, msg: Seq<char>) -> Seq<char> {
    seq!['[', 'D', 'E', 'B', 'U', 'D', ']', '['] + tag + seq![']', ' ', ':'] + msg
}

/// The line of a plain log entry.
pub fn log_line(msg: &str) -> (r: String)
    ensures
        r@ == log_line_text(msg@),
{
    proof {
        reveal_strlit("[LOG]: ");
    }
    let mut r = String::from_str("[LOG]: ");
    r.append(msg);
    assert(r@ =~= log_line_text(msg@));
    r
}

/// The line of a log entry with a tag.
pub fn log_with_line(tag: &str, msg: &str) -> (r: String)
    ensures
        r@ == log_with_line_text(tag@, msg@),
{
    proof {
        reveal_strlit("[LOG][");
        reveal_strlit("]: ");
    }
    let mut r = String::from_str("[LOG][");
    r.append(tag);
    r.append("]: ");
    r.append(msg);
    assert(r@ =~= log_with_line_text(tag@, msg@));
    r
}

/// The line of an error.
pub fn error_line(tag: &str, msg: &str) -> (r: String)
    ensures
        r@ == error_line_text(tag@, msg@),
{
    proof {
        reveal_strlit("[ERROR][");
        reveal_strlit("] :");
    }
    let mut r = String::from_str("[ERROR][");
    r.append(tag);
    r.append("] :");
    r.append(msg);
    assert(r@ =~= error_line_text(tag@, msg@));
    r
}

/// The line of a warning.
pub fn warn_line(tag: &str, msg: &str) -> (r: String)
    ensures
        r@ == warn_line_text(tag@, msg@),
{
    proof {
        reveal_strlit("[WARN][");
        reveal_strlit("] :");
    }
    let mut r = String::from_str("[WARN][");
    r.append(tag);
    r.append("] :");
    r.append(msg);
    assert(r@ =~= warn_line_text(tag@, msg@));
    r
}

/// The line of a debugging note.
pub fn debug_line(tag: &str, msg: &str) -> (r: String)
    ensures
        r@ == debug_line_text(tag@, msg@),
{
    proof {
        reveal_strlit("[DEBUD][");
        reveal_strlit("] :");
    }
    let mut r = String::from_str("[DEBUD][");
    r.append(tag);
    r.append("] :");
    r.append(msg);
    assert(r@ =~= debug_line_text(tag@, msg@));
    r
}

/// What a text has to log: itself, and only when it is not empty.
pub fn text_log_message(text: &String) -> (r: (String, bool))
    ensures
        r.0@ == text@,
        r.1 == (text@.len() != 0),
{
    (text.clone(), text.unicode_len() != 0)
}

/// What a result has to log: its error, and only when it is one.
pub fn result_log_message<T>(r: &Result<T, String>) -> (out: (String, bool))
    ensures
        match r {
            Ok(_) => out.0@ == Seq::<char>::empty() && !out.1,
            Err(e) => out.0@ == e@ && out.1,
        },
{
    match r {
        Ok(_) => (String::new(), false),
        Err(e) => (e.clone(), true),
    }
}

} // verus!
