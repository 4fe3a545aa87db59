//! Users and groups: who sends a message and to whom it goes.

use vstd::prelude::*;
use crate::backend::libs::fields::{field_lookup, fields_view, keys_distinct, two_fields};
use crate::backend::libs::json_text::{
    encodes_fields, json_string_member, json_string_members, json_stringify_fields, opt_view, written_as,
};
use crate::decimal::{decimal, parse_usize, parse_usize_spec, usize_to_string};

verus! {

/// A party of a conversation: a single user, or a group of parties.
#[derive(Debug)]
pub enum Target {
    User { name: String, id: usize },
    Group { members: Vec<Target>, group_name: String, id: usize },
}

/// What a party is, as text and numbers (a group's members are not part
/// of it).
pub enum TargetView {
    User { name: Seq<char>, id: usize },
    Group { group_name: Seq<char>, id: usize },
}

impl View for Target {
    type V = TargetView;

    open spec fn view(&self) -> TargetView {
        match self {
            Target::User { name, id } => TargetView::User { name: name@, id: *id },
            Target::Group { group_name, id, .. } => TargetView::Group { group_name: group_name@, id: *id },
        }
    }
}

impl TargetView {
    /// The party's id.
    pub open spec fn id(self) -> usize {
        match self {
            TargetView::User { id, .. } => id,
            TargetView::Group { id, .. } => id,
        }
    }

    /// The user's name or the group's name.
    pub open spec fn name(self) -> Seq<char> {
        match self {
            TargetView::User { name, .. } => name,
            TargetView::Group { group_name, .. } => group_name,
        }
    }

    /// The same party under another id.
    pub open spec fn with_id(self, new_id: usize) -> TargetView {
        match self {
            TargetView::User { name, .. } => TargetView::User { name, id: new_id },
            TargetView::Group { group_name, .. } => TargetView::Group { group_name, id: new_id },
        }
    }
}

/// The name a party has before it is known.
pub open spec fn unknown_name() -> Seq<char> {
    seq!['u', 'n', 'k', 'n', 'o', 'w']
}

/// The party that stands for "nobody in particular": user `unknow` with id 0.
pub open spec fn default_target() -> TargetView {
    TargetView::User { name: unknown_name(), id: 0 }
}

/// The key of a user's name in its JSON record.
pub open spec fn name_key() -> Seq<char> {
    seq!['n', 'a', 'm', 'e']
}

/// The key of a user's id in its JSON record.
pub open spec fn id_key() -> Seq<char> {
    seq!['i', 'd']
}

/// The record of a user: its name, and its id in decimal.
pub open spec fn target_fields(t: TargetView) -> Seq<(Seq<char>, Seq<char>)> {
    two_fields(name_key(), t.name(), id_key(), decimal(t.id() as nat))
}

/// What reading a user from its `name` and `id` members gives: an error
/// when one is missing, no outcome at all (a panic) when the id is not a
/// `usize` in decimal, and the user otherwise.
pub open spec fn target_from_members(name: Option<Seq<char>>, id: Option<Seq<char>>) -> Option<Result<TargetView, ()>> {
    match name {
        None => Some(Err(())),
        Some(n) => match id {
            None => Some(Err(())),
            Some(i) => match parse_usize_spec(i) {
                None => None,
                Some(v) => Some(Ok(TargetView::User { name: n, id: v })),
            },
        },
    }
}

/// What reading a user from a JSON text gives: an error when the text is
/// not JSON, and otherwise what its `name` and `id` members give.
pub open spec fn target_from_text(text: Seq<char>) -> Option<Result<TargetView, ()>> {
    match json_string_member(text, name_key()) {
        None => Some(Err(())),
        Some(name) => target_from_members(
            name,
            match json_string_member(text, id_key()) {
                Some(i) => i,
                None => None,
            },
        ),
    }
}

/// `copy` is a group exactly when `t` is, with members that are, one by
/// one, the same parties as those of `t`.
pub open spec fn copies_members(t: Target, copy: Target) -> bool {
    (t is Group) == (copy is Group) && (t is Group ==> {
        let a = t->Group_members@;
        let b = copy->Group_members@;
        &&& a.len() == b.len()
        &&& forall|j: int| 0 <= j < a.len() ==> (#[trigger] b[j])@ == a[j]@
    })
}

/// The view of a result.
pub open spec fn result_view(r: Result<Target, ()>) -> Result<TargetView, ()> {
    match r {
        Ok(t) => Ok(t@),
        Err(_) => Err(()),
    }
}

fn name_key_str() -> (s: &'static str)
    ensures
        s@ == name_key(),
{
    proof { reveal_strlit("name"); }
    "name"
}

fn id_key_str() -> (s: &'static str)
    ensures
        s@ == id_key(),
{
    proof { reveal_strlit("id"); }
    "id"
}

impl Target {
    /// Gives the party a new id; its kind, its name and a group's members
    /// stay.
    pub fn set_id(&mut self, new_id: usize)
        ensures
            final(self)@ == old(self)@.with_id(new_id),
            (*old(self)) is Group ==> (*final(self)) is Group && (*final(self))->Group_members == (*old(self))->Group_members,
    {
        match self {
            Target::User { id, .. } => {
                *id = new_id;
            },
            Target::Group { id, .. } => {
                *id = new_id;
            },
        }
    }

    /// The party's id.
    pub fn get_id(&self) -> (r: usize)
        ensures
            r == self@.id(),
    {
        match self {
            Target::User { id, .. } => *id,
            Target::Group { id, .. } => *id,
        }
    }

    /// The user's name or the group's name.
    pub fn get_name(&self) -> (r: String)
        ensures
            r@ == self@.name(),
    {
        match self {
            Target::User { name, .. } => name.clone(),
            Target::Group { group_name, .. } => group_name.clone(),
        }
    }

    /// User `unknow` with the given id.
    pub fn from_id(id: usize) -> (t: Target)
        ensures
            t@ == default_target().with_id(id),
    {
        let mut t = Target::default();
        t.set_id(id);
        t
    }

    /// The record of a user: `name` and `id` (in decimal). Only users have
    /// one; for a group the record is not written.
    pub fn to_map(&self) -> (r: Vec<(String, String)>)
        requires
            self is User,
        ensures
            fields_view(r@) == target_fields(self@),
            keys_distinct(fields_view(r@)),
    {
        match self {
            Target::User { name, id } => {
                let mut r: Vec<(String, String)> = Vec::new();
                r.push((String::from_str(name_key_str()), name.clone()));
                r.push((String::from_str(id_key_str()), usize_to_string(*id)));
                assert(fields_view(r@) =~= target_fields(self@));
                proof {
                    assert(name_key() != id_key()) by {
                        assert(name_key().len() != id_key().len());
                    }
                }
                r
            },
            Target::Group { .. } => {
                proof { assert(false); }
                Vec::new()
            },
        }
    }

    /// The user as JSON text: the compact object of its record.
    pub fn to_json_text(&self) -> (r: String)
        requires
            self is User,
        ensures
            written_as(r@, target_fields(self@)),
            encodes_fields(r@, target_fields(self@)),
    {
        let fields = self.to_map();
        json_stringify_fields(&fields)
    }

    /// Reads a user from its `name` and `id` members. The id must read as a
    /// `usize` when both are there.
    pub fn try_from_members(name: Option<String>, id: Option<String>) -> (r: Result<Target, ()>)
        requires
            target_from_members(opt_view(name), opt_view(id)) is Some,
        ensures
            target_from_members(opt_view(name), opt_view(id)) == Some(result_view(r)),
    {
        match name {
            None => Err(()),
            Some(n) => match id {
                None => Err(()),
                Some(i) => match parse_usize(i.as_str()) {
                    Some(v) => Ok(Target::User { name: n, id: v }),
                    None => {
                        proof { assert(false); }
                        Err(())
                    },
                },
            },
        }
    }

    /// Reads the `name` and `id` members of a JSON text; `None` when the
    /// text is not JSON.
    fn read_members(text: &str) -> (r: Option<(Option<String>, Option<String>)>)
        ensures
            match r {
                None => json_string_member(text@, name_key()) is None,
                Some((n, i)) => json_string_member(text@, name_key()) == Some(opt_view(n))
                    && json_string_member(text@, id_key()) == Some(opt_view(i)),
            },
    {
        let keys: Vec<&str> = vec![name_key_str(), id_key_str()];
        proof {
            assert(name_key().len() != id_key().len());
            assert(keys@[0]@ == name_key());
            assert(keys@[1]@ == id_key());
        }
        match json_string_members(text, &keys) {
            None => None,
            Some(mut v) => {
                let i = v.pop().unwrap();
                let n = v.pop().unwrap();
                Some((n, i))
            },
        }
    }

    /// Reads a user from JSON text: an error when the text is not JSON or
    /// a member is missing. The id must read as a `usize` when it is there.
    pub fn try_from_text(text: &str) -> (r: Result<Target, ()>)
        requires
            target_from_text(text@) is Some,
        ensures
            target_from_text(text@) == Some(result_view(r)),
    {
        match Self::read_members(text) {
            None => Err(()),
            Some((n, i)) => Self::try_from_members(n, i),
        }
    }

    /// Reads a user from JSON text, as `try_from_text` does; `None` where
    /// that would find an id that is not a `usize`.
    pub fn parse_text(text: &str) -> (r: Option<Result<Target, ()>>)
        ensures
            r is None <==> target_from_text(text@) is None,
            r matches Some(res) ==> target_from_text(text@) == Some(result_view(res)),
    {
        match Self::read_members(text) {
            None => Some(Err(())),
            Some((n, i)) => {
                let bad = match (&n, &i) {
                    (Some(_), Some(s)) => parse_usize(s.as_str()).is_none(),
                    _ => false,
                };
                if bad {
                    None
                } else {
                    Some(Self::try_from_members(n, i))
                }
            },
        }
    }
}

impl Default for Target {
    /// User `unknow` with id 0.
    fn default() -> (t: Target)
        ensures
            t@ == default_target(),
    {
        proof {
            reveal_strlit("unknow");
            assert("unknow"@ =~= unknown_name());
        }
        Target::User { name: String::from_str("unknow"), id: 0 }
    }
}

impl Target {
    /// A copy of the party; a group's members are copied one by one.
    fn duplicate(&self) -> (r: Target)
        ensures
            r@ == self@,
            copies_members(*self, r),
        decreases self,
    {
        match self {
            Target::User { name, id } => Target::User { name: name.clone(), id: *id },
            Target::Group { members, group_name, id } => {
                let mut copies: Vec<Target> = Vec::new();
                let mut i: usize = 0;
                while i < members.len()
                    invariant
                        i <= members.len(),
                        copies@.len() == i,
                        forall|j: int| 0 <= j < i ==> (#[trigger] copies@[j])@ == members@[j]@,
                        (*self) is Group,
                        *members == (*self)->Group_members,
                    decreases members.len() - i,
                {
                    proof {
                        vstd::std_specs::vec::axiom_vec_index_decreases(*members, i as int);
                        assert(decreases_to!(*self => (*self)->Group_members));
                        assert(decreases_to!(*self => members[i as int]));
                    }
                    copies.push(members[i].duplicate());
                    i = i + 1;
                }
                Target::Group { members: copies, group_name: group_name.clone(), id: *id }
            },
        }
    }
}

impl Clone for Target {
    /// The same party (a group's members are copied one by one).
    fn clone(&self) -> (r: Target)
        ensures
            r@ == self@,
            copies_members(*self, r),
    {
        self.duplicate()
    }
}

} // verus!

verus! {

/// Looking up the two keys of a user's record.
proof fn lemma_target_fields_lookup(t: TargetView)
    ensures
        field_lookup(target_fields(t), name_key()) == Some(t.name()),
        field_lookup(target_fields(t), id_key()) == Some(decimal(t.id() as nat)),
{
    let f = target_fields(t);
    assert(name_key() != id_key()) by {
        assert(name_key().len() != id_key().len());
    }
    assert(f.drop_first() =~= seq![(id_key(), decimal(t.id() as nat))]);
    assert(field_lookup(f.drop_first(), id_key()) == Some(decimal(t.id() as nat)));
}

/// Reading a user back from a JSON text of its record gives the same user.
pub proof fn law_target_text_round_trip(text: Seq<char>, t: TargetView)
    requires
        t is User,
        encodes_fields(text, target_fields(t)),
    ensures
        target_from_text(text) == Some(Ok::<TargetView, ()>(t)),
{
    lemma_target_fields_lookup(t);
    assert(json_string_member(text, name_key()) == Some(field_lookup(target_fields(t), name_key())));
    assert(json_string_member(text, id_key()) == Some(field_lookup(target_fields(t), id_key())));
    crate::decimal::law_decimal_round_trip(t.id());
}

} // verus!

verus! {

/// Giving a party an id: reading the id back gives it, the name stays, and
/// only the last id given counts.
pub proof fn law_set_id(t: TargetView, a: usize, b: usize)
    ensures
        t.with_id(a).id() == a,
        t.with_id(a).name() == t.name(),
        t.with_id(a).with_id(b) == t.with_id(b),
        t.with_id(t.id()) == t,
        (t.with_id(a) is User) == (t is User),
{
}

} // verus!
