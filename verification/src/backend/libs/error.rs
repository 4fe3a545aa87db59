//! Errors that the server reports to a client.

use vstd::prelude::*;

verus! {

/// Why the server refused a request.
#[derive(Debug, Clone, Copy, PartialEq, Eq, Structural)]
pub enum ChatErrorKind {
    UnMatchPasswd,
    EmptyUser,
    SingUp,
}

/// The text of an error: the variant's name.
pub open spec fn error_text(e: ChatErrorKind) -> Seq<char> {
    match e {
        ChatErrorKind::UnMatchPasswd => seq!['U', 'n', 'M', 'a', 't', 'c', 'h', 'P', 'a', 's', 's', 'w', 'd'],
        ChatErrorKind::EmptyUser => seq!['E', 'm', 'p', 't', 'y', 'U', 's', 'e', 'r'],
        ChatErrorKind::SingUp => seq!['S', 'i', 'n', 'g', 'U', 'p'],
    }
}

impl ChatErrorKind {
    /// The text of the error, as it is shown to the user.
    pub fn to_string(&self) -> (r: String)
        ensures
            r@ == error_text(*self),
    {
        match self {
            ChatErrorKind::UnMatchPasswd => {
                proof {
                    reveal_strlit("UnMatchPasswd");
                    assert("UnMatchPasswd"@ =~= error_text(*self));
                }
                String::from_str("UnMatchPasswd")
            },
            ChatErrorKind::EmptyUser => {
                proof {
                    reveal_strlit("EmptyUser");
                    assert("EmptyUser"@ =~= error_text(*self));
                }
                String::from_str("EmptyUser")
            },
            ChatErrorKind::SingUp => {
                proof {
                    reveal_strlit("SingUp");
                    assert("SingUp"@ =~= error_text(*self));
                }
                String::from_str("SingUp")
            },
        }
    }
}

} // verus!
