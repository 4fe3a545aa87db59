//! What the windows compute: where a scrolled list stands, and the
//! conversations shown for each party.

pub mod login;

use vstd::prelude::*;
use std::collections::HashMap;

verus! {

/// Height of one row of a list, in pixels.
pub const ROW_HEIGHT: i32 = 40;

/// Height of a list's window, in pixels.
pub const LIST_HEIGHT: i32 = 450;

/// Where a list whose top is at `y` and that holds `children` rows goes
/// after a scroll event: scrolling up moves it down by 20 pixels as long
/// as that keeps its top at or above the window's top, and puts it at 0
/// otherwise; scrolling down keeps a list that fits the window at 0, puts
/// a list whose end would rise above the window's bottom so that its end
/// meets the bottom, and moves it by 20 pixels otherwise. An event that
/// is neither puts the list at 0; one that is both counts as down.
pub open spec fn scroll_spec(y: int, up: bool, down: bool, children: int) -> int {
    let flex_y = y + 20;
    let all = children * 40;
    let after_up = if up && flex_y <= 0 { flex_y } else { 0 };
    if down {
        if all < 450 {
            after_up
        } else if all + flex_y < 450 {
            450 - all
        } else {
            flex_y
        }
    } else {
        after_up
    }
}

/// Where a list goes after a scroll event (see `scroll_spec`).
pub fn scroll_offset(y: i32, up: bool, down: bool, children: i32) -> (r: i32)
    requires
        y + 20 <= i32::MAX,
        0 <= children,
        down ==> children * 40 <= i32::MAX,
        down && children * 40 >= 450 && y + 20 > 0 ==> children * 40 + y + 20 <= i32::MAX,
    ensures
        r as int == scroll_spec(y as int, up, down, children as int),
{
    let flex_y = y + 20;
    let mut new_y: i32 = 0;
    if up {
        if flex_y <= 0 {
            new_y = flex_y;
        }
    }
    if down {
        let flex_ally = children * ROW_HEIGHT;
        if flex_ally < LIST_HEIGHT {
        } else if flex_ally + flex_y < LIST_HEIGHT {
            new_y = LIST_HEIGHT - flex_ally;
        } else {
            new_y = flex_y;
        }
    }
    new_y
}

/// The conversations with each party: for each party's id, its lines in
/// order, each marked with whether this user wrote it.
pub struct MessageTable {
    table: HashMap<usize, Vec<(bool, String)>>,
}

/// A conversation as marked texts.
pub open spec fn conversation_view(v: Seq<(bool, String)>) -> Seq<(bool, Seq<char>)> {
    v.map_values(|e: (bool, String)| (e.0, e.1@))
}

impl View for MessageTable {
    type V = Map<usize, Seq<(bool, Seq<char>)>>;

    closed spec fn view(&self) -> Map<usize, Seq<(bool, Seq<char>)>> {
        self.table@.map_values(|v: Vec<(bool, String)>| conversation_view(v@))
    }
}

impl MessageTable {
    /// No conversation yet.
    pub fn new() -> (t: MessageTable)
        ensures
            t@ == Map::<usize, Seq<(bool, Seq<char>)>>::empty(),
    {
        let t = MessageTable { table: HashMap::new() };
        assert(t@ =~= Map::<usize, Seq<(bool, Seq<char>)>>::empty());
        t
    }

    /// Adds a line to the conversation with `peer` (`by_self`: written by
    /// this user); the first line starts the conversation.
    pub fn record(&mut self, peer: usize, by_self: bool, text: String)
        ensures
            final(self)@ == old(self)@.insert(
                peer,
                if old(self)@.contains_key(peer) {
                    old(self)@[peer].push((by_self, text@))
                } else {
                    seq![(by_self, text@)]
                },
            ),
    {
        let ghost before = self.table@;
        let mut lines = match self.table.remove(&peer) {
            Some(v) => v,
            None => Vec::new(),
        };
        lines.push((by_self, text));
        proof {
            assert(conversation_view(lines@) =~= if old(self)@.contains_key(peer) {
                old(self)@[peer].push((by_self, text@))
            } else {
                seq![(by_self, text@)]
            });
        }
        self.table.insert(peer, lines);
        proof {
            assert(self@ =~= old(self)@.insert(
                peer,
                if old(self)@.contains_key(peer) {
                    old(self)@[peer].push((by_self, text@))
                } else {
                    seq![(by_self, text@)]
                },
            ));
        }
    }

    /// The conversation with `peer`, if there is one.
    pub fn conversation(&self, peer: usize) -> (r: Option<&Vec<(bool, String)>>)
        ensures
            r is Some <==> self@.contains_key(peer),
            r matches Some(v) ==> conversation_view(v@) == self@[peer],
    {
        self.table.get(&peer)
    }
}

} // verus!
