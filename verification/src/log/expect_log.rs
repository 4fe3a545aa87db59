//! Taking the value out of a result that must hold one.

use vstd::prelude::*;

verus! {

/// `[ERROR]: text`
pub open spec fn expect_line_text(text: Seq<char>) -> Seq<char> {
    seq!['[', 'E', 'R', 'R', 'O', 'R', ']', ':', ' '] + text
}

/// `[ERROR][with]: text`
pub open spec fn expect_with_line_text(text: Seq<char>, with: Seq<char>) -> Seq<char> {
    seq!['[', 'E', 'R', 'R', 'O', 'R', ']', '['] + with + seq![']', ':', ' '] + text
}

/// The line logged before the program stops on a missing value.
pub fn expect_line(text: &str) -> (r: String)
    ensures
        r@ == expect_line_text(text@),
{
    proof {
        reveal_strlit("[ERROR]: ");
    }
    let mut r = String::from_str("[ERROR]: ");
    r.append(text);
    assert(r@ =~= expect_line_text(text@));
    r
}

/// The line, with a tag, logged before the program stops on a missing value.
pub fn expect_with_line(text: &str, with: &str) -> (r: String)
    ensures
        r@ == expect_with_line_text(text@, with@),
{
    proof {
        reveal_strlit("[ERROR][");
        reveal_strlit("]: ");
    }
    let mut r = String::from_str("[ERROR][");
    r.append(with);
    r.append("]: ");
    r.append(text);
    assert(r@ =~= expect_with_line_text(text@, with@));
    r
}

/// A result whose value is taken out; the program stops (after logging
/// `expect_line(text)`) where there is none, so callers hold a value.
pub trait ExpectLog<T>: Sized {
    /// Whether there is a value.
    spec fn holds_value(&self) -> bool;

    /// The value, where there is one.
    spec fn value(&self) -> T;

    fn log_expect(self, text: &str) -> (r: T)
        requires
            self.holds_value(),
        ensures
            r == self.value(),
    ;

    fn log_expect_with(self, text: &str, with: &str) -> (r: T)
        requires
            self.holds_value(),
        ensures
            r == self.value(),
    ;
}

impl<T, E> ExpectLog<T> for Result<T, E> {
    open spec fn holds_value(&self) -> bool {
        self is Ok
    }

    open spec fn value(&self) -> T {
        self->Ok_0
    }

    fn log_expect(self, text: &str) -> (r: T) {
        self.ok().unwrap()
    }

    fn log_expect_with(self, text: &str, with: &str) -> (r: T) {
        self.ok().unwrap()
    }
}

} // verus!
