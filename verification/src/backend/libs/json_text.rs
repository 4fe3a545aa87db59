//! The JSON text of flat records, through the `json` crate.

use vstd::prelude::*;
use vstd::utf8::{encode_scalar, encode_utf8};
use crate::backend::libs::fields::{fields_view, field_lookup, keys_distinct};

verus! {

/// What `json::parse` gives for member `key` of the text `text`: `None`
/// when it rejects the text; `Some(None)` when the parsed value is not an
/// object or has no member `key`; `Some(Some(None))` when the member is
/// not a string; `Some(Some(Some(s)))` when it is the string `s`.
pub uninterp spec fn json_member(text: Seq<char>, key: Seq<char>) -> Option<Option<Option<Seq<char>>>>;

/// What `value[key].take_string()` gives after `json::parse(text)`:
/// `None` when the text is not JSON, the string when member `key` is one,
/// and `Some(None)` otherwise.
pub open spec fn json_string_member(text: Seq<char>, key: Seq<char>) -> Option<Option<Seq<char>>> {
    match json_member(text, key) {
        None => None,
        Some(Some(Some(s))) => Some(Some(s)),
        Some(_) => Some(None),
    }
}

/// The member that a record has under `key`: its string, or none.
pub open spec fn record_member(fields: Seq<(Seq<char>, Seq<char>)>, key: Seq<char>) -> Option<Option<Seq<char>>> {
    match field_lookup(fields, key) {
        Some(v) => Some(Some(v)),
        None => None,
    }
}

/// `text` is a JSON object whose members are exactly the pairs of
/// `fields`, each a string, and it holds no NUL character.
pub open spec fn encodes_fields(text: Seq<char>, fields: Seq<(Seq<char>, Seq<char>)>) -> bool {
    &&& forall|k: Seq<char>| #[trigger] json_member(text, k) == Some(record_member(fields, k))
    &&& forall|i: int| 0 <= i < text.len() ==> #[trigger] text[i] != '\0'
}

/// The text view of an optional string.
pub open spec fn opt_view(o: Option<String>) -> Option<Seq<char>> {
    match o {
        Some(s) => Some(s@),
        None => None,
    }
}

/// Writes the record as a JSON object with `json::stringify`, going
/// through a `HashMap<String, String>`. What is claimed:
/// - the text is the compact object of the record's pairs in some order
///   (`stringify` dumps with `DumpGenerator`, which writes `{`, the members
///   as `"key":"value"` separated by `,`, and `}`, with no whitespace, and
///   escapes each string as `escape_char` says); the order is the map's
///   iteration order, which the hasher's seed decides, so it is left open;
/// - `json::parse` reads the text back as an object whose members are
///   exactly the record's pairs, each a string (`parse` undoes the escapes);
/// - the text holds no NUL character (every control character is escaped).
#[verifier::external_body]
pub(crate) fn json_stringify_fields(fields: &Vec<(String, String)>) -> (text: String)
    requires
        keys_distinct(fields_view(fields@)),
    ensures
        written_as(text@, fields_view(fields@)),
        forall|k: Seq<char>| #[trigger] json_member(text@, k) == Some(record_member(fields_view(fields@), k)),
        forall|i: int| 0 <= i < text@.len() ==> #[trigger] text@[i] != '\0',
{
    let map: std::collections::HashMap<String, String> = fields.iter().cloned().collect();
    json::stringify(map)
}

/// Parses `text` with `json::parse` and reads each key with
/// `value[key].take_string()`. What is claimed: the result is `None`
/// exactly when the parse fails, and otherwise holds, key by key, what
/// `json_string_member` names.
#[verifier::external_body]
pub(crate) fn json_string_members(text: &str, keys: &Vec<&str>) -> (r: Option<Vec<Option<String>>>)
    requires
        forall|i: int, j: int| 0 <= i < keys@.len() && 0 <= j < keys@.len() && i != j ==> keys@[i]@ != keys@[j]@,
    ensures
        r is None ==> forall|i: int| 0 <= i < keys@.len() ==> json_member(text@, #[trigger] keys@[i]@) is None,
        r matches Some(v) ==> {
            &&& v@.len() == keys@.len()
            &&& forall|i: int| 0 <= i < keys@.len() ==> match json_member(text@, #[trigger] keys@[i]@) {
                None => false,
                Some(Some(Some(s))) => v@[i] matches Some(t) && t@ == s,
                Some(_) => v@[i] is None,
            }
        },
{
    match json::parse(text) {
        Ok(mut value) => Some(keys.iter().map(|k| value[*k].take_string()).collect()),
        Err(_) => None,
    }
}

} // verus!

verus! {

/// A lower-case hexadecimal digit.
pub open spec fn hex_digit(d: nat) -> char {
    if d < 10 {
        ((d + 48) as u32) as char
    } else {
        ((d + 87) as u32) as char
    }
}

/// How `json::stringify` writes one character inside a string: quote and
/// backslash behind a backslash, the control characters with a short
/// escape where JSON has one and as `\u00xx` otherwise, any other
/// character as it is.
pub open spec fn escape_char(c: char) -> Seq<char> {
    if c == '"' {
        seq!['\\', '"']
    } else if c == '\\' {
        seq!['\\', '\\']
    } else if c == '\u{8}' {
        seq!['\\', 'b']
    } else if c == '\t' {
        seq!['\\', 't']
    } else if c == '\n' {
        seq!['\\', 'n']
    } else if c == '\u{c}' {
        seq!['\\', 'f']
    } else if c == '\r' {
        seq!['\\', 'r']
    } else if (c as u32) < 32 {
        seq!['\\', 'u', '0', '0', hex_digit(((c as u32) / 16) as nat), hex_digit(((c as u32) % 16) as nat)]
    } else {
        seq![c]
    }
}

/// A string's characters as `json::stringify` writes them.
pub open spec fn escaped(s: Seq<char>) -> Seq<char>
    decreases s.len(),
{
    if s.len() == 0 {
        Seq::empty()
    } else {
        escape_char(s[0]) + escaped(s.drop_first())
    }
}

/// A string as a JSON string literal.
pub open spec fn quoted(s: Seq<char>) -> Seq<char> {
    seq!['"'] + escaped(s) + seq!['"']
}

/// One member of a compact JSON object: `"key":"value"`.
pub open spec fn member_text(e: (Seq<char>, Seq<char>)) -> Seq<char> {
    quoted(e.0) + seq![':'] + quoted(e.1)
}

/// The members of a compact JSON object, separated by commas.
pub open spec fn members_text(p: Seq<(Seq<char>, Seq<char>)>) -> Seq<char>
    decreases p.len(),
{
    if p.len() == 0 {
        Seq::empty()
    } else if p.len() == 1 {
        member_text(p[0])
    } else {
        member_text(p[0]) + seq![','] + members_text(p.drop_first())
    }
}

/// The compact JSON object of the pairs `p`, in that order, with no
/// whitespace: what `json::stringify` writes.
pub open spec fn compact_object(p: Seq<(Seq<char>, Seq<char>)>) -> Seq<char> {
    seq!['{'] + members_text(p) + seq!['}']
}

/// `text` is what `json::stringify` writes for the record `fields`: the
/// compact object of its pairs in some order.
pub open spec fn written_as(text: Seq<char>, fields: Seq<(Seq<char>, Seq<char>)>) -> bool {
    exists|p: Seq<(Seq<char>, Seq<char>)>| p.to_multiset() == fields.to_multiset() && text == #[trigger] compact_object(p)
}

/// The sum of a weight over the characters of a text.
pub open spec fn measure(s: Seq<char>, w: spec_fn(char) -> nat) -> nat
    decreases s.len(),
{
    if s.len() == 0 {
        0
    } else {
        w(s[0]) + measure(s.drop_first(), w)
    }
}

/// The number of UTF-8 bytes of a character.
pub open spec fn utf8_weight() -> spec_fn(char) -> nat {
    |c: char| encode_scalar(c as u32).len()
}

/// The sum of a weight over the texts of the members of `p`.
pub open spec fn members_measure(p: Seq<(Seq<char>, Seq<char>)>, w: spec_fn(char) -> nat) -> nat
    decreases p.len(),
{
    if p.len() == 0 {
        0
    } else {
        measure(member_text(p[0]), w) + members_measure(p.drop_first(), w)
    }
}

proof fn lemma_measure_concat(a: Seq<char>, b: Seq<char>, w: spec_fn(char) -> nat)
    ensures
        measure(a + b, w) == measure(a, w) + measure(b, w),
    decreases a.len(),
{
    if a.len() == 0 {
        assert(a + b =~= b);
    } else {
        assert((a + b).drop_first() =~= a.drop_first() + b);
        lemma_measure_concat(a.drop_first(), b, w);
    }
}

/// The UTF-8 length of a text is its measure under the UTF-8 weight.
pub proof fn lemma_utf8_len(s: Seq<char>)
    ensures
        encode_utf8(s).len() == measure(s, utf8_weight()),
    decreases s.len(),
{
    if s.len() > 0 {
        lemma_utf8_len(s.drop_first());
    }
}

proof fn lemma_members_measure(p: Seq<(Seq<char>, Seq<char>)>, w: spec_fn(char) -> nat)
    ensures
        measure(members_text(p), w) == members_measure(p, w) + if p.len() > 0 {
            ((p.len() - 1) * w(',')) as nat
        } else {
            0nat
        },
    decreases p.len(),
{
    if p.len() == 1 {
        assert(p.drop_first().len() == 0);
    } else if p.len() > 1 {
        lemma_members_measure(p.drop_first(), w);
        lemma_measure_concat(member_text(p[0]) + seq![','], members_text(p.drop_first()), w);
        lemma_measure_concat(member_text(p[0]), seq![','], w);
        let comma: Seq<char> = seq![','];
        assert(comma.drop_first() =~= Seq::<char>::empty());
        assert(measure(Seq::<char>::empty(), w) == 0);
        assert(measure(comma, w) == w(','));
        assert(((p.len() - 1) * w(',')) as nat == w(',') + ((p.len() - 2) * w(',')) as nat) by (nonlinear_arith)
            requires
                p.len() > 1,
        ;
    }
}

proof fn lemma_members_measure_concat(a: Seq<(Seq<char>, Seq<char>)>, b: Seq<(Seq<char>, Seq<char>)>, w: spec_fn(char) -> nat)
    ensures
        members_measure(a + b, w) == members_measure(a, w) + members_measure(b, w),
    decreases a.len(),
{
    if a.len() == 0 {
        assert(a + b =~= b);
    } else {
        assert((a + b).drop_first() =~= a.drop_first() + b);
        lemma_members_measure_concat(a.drop_first(), b, w);
    }
}

proof fn lemma_members_measure_remove(q: Seq<(Seq<char>, Seq<char>)>, j: int, w: spec_fn(char) -> nat)
    requires
        0 <= j < q.len(),
    ensures
        members_measure(q, w) == measure(member_text(q[j]), w) + members_measure(q.remove(j), w),
{
    let a = q.take(j);
    let b = q.skip(j + 1);
    assert(q =~= a + (seq![q[j]] + b));
    assert(q.remove(j) =~= a + b);
    lemma_members_measure_concat(a, seq![q[j]] + b, w);
    lemma_members_measure_concat(a, b, w);
    assert((seq![q[j]] + b).drop_first() =~= b);
}

/// Reordering the members of an object keeps the sum of their measures.
proof fn lemma_members_measure_perm(p: Seq<(Seq<char>, Seq<char>)>, q: Seq<(Seq<char>, Seq<char>)>, w: spec_fn(char) -> nat)
    requires
        p.to_multiset() == q.to_multiset(),
    ensures
        members_measure(p, w) == members_measure(q, w),
        p.len() == q.len(),
    decreases p.len(),
{
    broadcast use vstd::seq_lib::group_to_multiset_ensures;

    if p.len() == 0 {
        assert(q.to_multiset().len() == 0);
    } else {
        let x = p[0];
        assert(p.contains(x));
        assert(p.to_multiset().count(x) > 0);
        assert(q.contains(x));
        let j = choose|j: int| 0 <= j < q.len() && q[j] == x;
        assert(p.remove(0) =~= p.drop_first());
        assert(p.remove(0).to_multiset() == p.to_multiset().remove(x));
        assert(q.remove(j).to_multiset() == q.to_multiset().remove(x));
        lemma_members_measure_perm(p.drop_first(), q.remove(j), w);
        lemma_members_measure_remove(q, j, w);
    }
}

/// All orders of a record's pairs give objects of the same measure.
pub proof fn lemma_compact_measure_perm(
    p: Seq<(Seq<char>, Seq<char>)>,
    q: Seq<(Seq<char>, Seq<char>)>,
    w: spec_fn(char) -> nat,
)
    requires
        p.to_multiset() == q.to_multiset(),
    ensures
        measure(compact_object(p), w) == measure(compact_object(q), w),
{
    lemma_members_measure_perm(p, q, w);
    lemma_members_measure(p, w);
    lemma_members_measure(q, w);
    lemma_measure_concat(seq!['{'] + members_text(p), seq!['}'], w);
    lemma_measure_concat(seq!['{'], members_text(p), w);
    lemma_measure_concat(seq!['{'] + members_text(q), seq!['}'], w);
    lemma_measure_concat(seq!['{'], members_text(q), w);
}

/// The weight of a character's escape under the weight `w`.
pub open spec fn escaped_weight(w: spec_fn(char) -> nat) -> spec_fn(char) -> nat {
    |c: char| measure(escape_char(c), w)
}

/// The measure of an escaped text is the measure of each character's escape.
pub proof fn lemma_escaped_measure(s: Seq<char>, w: spec_fn(char) -> nat)
    ensures
        measure(escaped(s), w) == measure(s, escaped_weight(w)),
    decreases s.len(),
{
    if s.len() > 0 {
        lemma_escaped_measure(s.drop_first(), w);
        lemma_measure_concat(escape_char(s[0]), escaped(s.drop_first()), w);
    }
}


proof fn lemma_member_measure_congruent(a: (Seq<char>, Seq<char>), b: (Seq<char>, Seq<char>), w: spec_fn(char) -> nat)
    requires
        a.0 == b.0,
        measure(escaped(a.1), w) == measure(escaped(b.1), w),
    ensures
        measure(member_text(a), w) == measure(member_text(b), w),
{
    let q: Seq<char> = seq!['"'];
    lemma_measure_concat(q + escaped(a.1), q, w);
    lemma_measure_concat(q, escaped(a.1), w);
    lemma_measure_concat(q + escaped(b.1), q, w);
    lemma_measure_concat(q, escaped(b.1), w);
    lemma_measure_concat(quoted(a.0) + seq![':'], quoted(a.1), w);
    lemma_measure_concat(quoted(b.0) + seq![':'], quoted(b.1), w);
}

proof fn lemma_members_measure_congruent(p: Seq<(Seq<char>, Seq<char>)>, q: Seq<(Seq<char>, Seq<char>)>, w: spec_fn(char) -> nat)
    requires
        p.len() == q.len(),
        forall|i: int| 0 <= i < p.len() ==> #[trigger] p[i].0 == q[i].0,
        forall|i: int| 0 <= i < p.len() ==> measure(escaped(#[trigger] p[i].1), w) == measure(escaped(q[i].1), w),
    ensures
        members_measure(p, w) == members_measure(q, w),
    decreases p.len(),
{
    if p.len() > 0 {
        assert(p[0].0 == q[0].0);
        assert(measure(escaped(p[0].1), w) == measure(escaped(q[0].1), w));
        lemma_member_measure_congruent(p[0], q[0], w);
        let p1 = p.drop_first();
        let q1 = q.drop_first();
        assert forall|i: int| 0 <= i < p1.len() implies #[trigger] p1[i].0 == q1[i].0 by {
            assert(p[i + 1].0 == q[i + 1].0);
        }
        assert forall|i: int| 0 <= i < p1.len() implies measure(escaped(#[trigger] p1[i].1), w) == measure(escaped(q1[i].1), w) by {
            assert(measure(escaped(p[i + 1].1), w) == measure(escaped(q[i + 1].1), w));
        }
        lemma_members_measure_congruent(p1, q1, w);
    }
}

/// Two records with the same keys, in the same order, whose values have
/// escapes of the same measure give compact objects of the same measure.
pub proof fn lemma_compact_measure_congruent(p: Seq<(Seq<char>, Seq<char>)>, q: Seq<(Seq<char>, Seq<char>)>, w: spec_fn(char) -> nat)
    requires
        p.len() == q.len(),
        forall|i: int| 0 <= i < p.len() ==> #[trigger] p[i].0 == q[i].0,
        forall|i: int| 0 <= i < p.len() ==> measure(escaped(#[trigger] p[i].1), w) == measure(escaped(q[i].1), w),
    ensures
        measure(compact_object(p), w) == measure(compact_object(q), w),
{
    lemma_members_measure_congruent(p, q, w);
    lemma_members_measure(p, w);
    lemma_members_measure(q, w);
    lemma_measure_concat(seq!['{'] + members_text(p), seq!['}'], w);
    lemma_measure_concat(seq!['{'], members_text(p), w);
    lemma_measure_concat(seq!['{'] + members_text(q), seq!['}'], w);
    lemma_measure_concat(seq!['{'], members_text(q), w);
}

} // verus!
