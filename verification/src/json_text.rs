use vstd::prelude::*;
use vstd::string::*;

verus! {

/// A text as a JSON string literal: what `quote` writes for it.
pub uninterp spec fn json_quoted(text: Seq<char>) -> Seq<char>;

/// Whether a text reads as one JSON value: what `parses` answers for it.
pub uninterp spec fn json_well_formed(text: Seq<char>) -> bool;

/// Writes a text as a JSON string literal with `serde_json::to_string`.
///
/// Trusted: the call succeeds for every string slice (it writes into memory,
/// and a string needs no key), and what it returns depends on the text alone.
#[verifier::external_body]
pub(crate) fn quote(text: &str) -> (quoted: String)
    ensures
        quoted@ == json_quoted(text@),
{
    match serde_json::to_string(text) {
        Ok(quoted) => quoted,
        Err(_) => String::new(),
    }
}

/// Asks `serde_json::from_str` whether a text parses as a `serde_json::Value`.
///
/// Trusted: the answer depends on the text alone.
#[verifier::external_body]
pub(crate) fn parses(text: &str) -> (ok: bool)
    ensures
        ok == json_well_formed(text@),
{
    serde_json::from_str::<serde_json::Value>(text).is_ok()
}

/// One member of a JSON object: its name as plain text, its value as JSON
/// text.
pub type Member = (Seq<char>, Seq<char>);

/// A member as it stands in an object: the quoted name, a colon, the value.
pub open spec fn member_text(m: Member) -> Seq<char> {
    json_quoted(m.0) + seq![':'] + m.1
}

/// The first `n` members, separated by commas.
pub open spec fn members_text(members: Seq<Member>, n: nat) -> Seq<char>
    decreases n,
{
    if n == 0 || n > members.len() {
        Seq::empty()
    } else if n == 1 {
        member_text(members[0])
    } else {
        members_text(members, (n - 1) as nat) + seq![','] + member_text(members[n - 1])
    }
}

/// A JSON object with the given members in the given order, without white
/// space.
pub open spec fn object_text(members: Seq<Member>) -> Seq<char> {
    seq!['{'] + members_text(members, members.len()) + seq!['}']
}

/// The members that `names` and `values` make up, pair by pair.
pub open spec fn zip_members(names: Seq<String>, values: Seq<String>) -> Seq<Member> {
    Seq::new(names.len(), |i: int| (names[i]@, values[i]@))
}

/// Writes a JSON object whose members have the given names and, as values,
/// the given JSON texts.
pub fn json_object(names: &Vec<String>, values: &Vec<String>) -> (text: String)
    requires
        names.len() == values.len(),
    ensures
        text@ == object_text(zip_members(names@, values@)),
{
    let ghost members = zip_members(names@, values@);
    let mut text = String::from_str("{");
    proof {
        reveal_strlit("{");
        reveal_strlit("}");
        reveal_strlit(":");
        reveal_strlit(",");
        assert(text@ =~= seq!['{'] + members_text(members, 0));
    }
    let mut n: usize = 0;
    while n < names.len()
        invariant
            n <= names.len(),
            names.len() == values.len(),
            members == zip_members(names@, values@),
            text@ == seq!['{'] + members_text(members, n as nat),
            ":"@ == seq![':'],
            ","@ == seq![','],
        decreases names.len() - n,
    {
        let quoted = quote(names[n].as_str());
        if n > 0 {
            text.append(",");
        }
        text.append(quoted.as_str());
        text.append(":");
        text.append(values[n].as_str());
        proof {
            assert(members[n as int] == (names@[n as int]@, values@[n as int]@));
            assert(text@ =~= seq!['{'] + members_text(members, (n + 1) as nat));
        }
        n += 1;
    }
    text.append("}");
    text
}

} // verus!
