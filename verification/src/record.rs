//! Reading a flat record of texts from the members of a JSON object.
//!
//! A record has two fields. Its members are read in order: a member with the
//! name of a field sets that field, a later one replaces an earlier one, and
//! a member with any other name ends the reading.

use crate::json::members_view;
use crate::text::same_text;
use vstd::prelude::*;
use vstd::string::*;

verus! {

/// Why a list of members is not the record that was asked for.
#[derive(Debug)]
pub enum FieldFault {
    /// A member has a name that the record does not know.
    Unknown(String),
    /// The record lacks a field that it must have.
    Missing(&'static str),
}

/// What a `FieldFault` holds, as plain text.
pub enum FieldFaultView {
    /// A member has a name that the record does not know.
    Unknown(Seq<char>),
    /// The record lacks a field that it must have.
    Missing(Seq<char>),
}

impl View for FieldFault {
    type V = FieldFaultView;

    open spec fn view(&self) -> FieldFaultView {
        match self {
            FieldFault::Unknown(name) => FieldFaultView::Unknown(name@),
            FieldFault::Missing(name) => FieldFaultView::Missing(name@),
        }
    }
}

/// The text that an optional `String` holds.
pub open spec fn option_text(o: Option<String>) -> Option<Seq<char>> {
    match o {
        Some(s) => Some(s@),
        None => None,
    }
}

/// The two fields `first` and `second` as `members` set them, or the name of
/// the first member that is neither.
pub open spec fn read_fields(
    members: Seq<(Seq<char>, Seq<char>)>,
    first: Seq<char>,
    second: Seq<char>,
) -> Result<(Option<Seq<char>>, Option<Seq<char>>), Seq<char>>
    decreases members.len(),
{
    if members.len() == 0 {
        Ok((None, None))
    } else {
        match read_fields(members.drop_last(), first, second) {
            Err(name) => Err(name),
            Ok(fields) => {
                let member = members.last();
                if member.0 == first {
                    Ok((Some(member.1), fields.1))
                } else if member.0 == second {
                    Ok((fields.0, Some(member.1)))
                } else {
                    Err(member.0)
                }
            },
        }
    }
}

/// A record whose members all have known names has no unknown field, and a
/// field of it is set exactly if some member has its name.
pub proof fn lemma_read_fields_known(
    members: Seq<(Seq<char>, Seq<char>)>,
    first: Seq<char>,
    second: Seq<char>,
)
    requires
        first != second,
    ensures
        read_fields(members, first, second) is Ok <==> (forall|i: int|
            0 <= i < members.len() ==> (#[trigger] members[i]).0 == first || members[i].0
                == second),
        read_fields(members, first, second) matches Ok(fields) ==> {
            &&& fields.0 is Some <==> exists|i: int|
                0 <= i < members.len() && (#[trigger] members[i]).0 == first
            &&& fields.1 is Some <==> exists|i: int|
                0 <= i < members.len() && (#[trigger] members[i]).0 == second
        },
    decreases members.len(),
{
    if members.len() > 0 {
        let head = members.drop_last();
        lemma_read_fields_known(head, first, second);
        let last = members.len() - 1;
        assert(forall|i: int| 0 <= i < head.len() ==> head[i] == members[i]);
        match read_fields(head, first, second) {
            Err(_) => {
                let bad = choose|i: int|
                    0 <= i < head.len() && !((#[trigger] head[i]).0 == first || head[i].0
                        == second);
                assert(members[bad] == head[bad]);
            },
            Ok(fields) => {
                assert forall|i: int| 0 <= i < head.len() implies (#[trigger] members[i]).0
                    == first || members[i].0 == second by {
                    assert(head[i] == members[i]);
                }
                if fields.0 is Some {
                    let at = choose|i: int| 0 <= i < head.len() && (#[trigger] head[i]).0 == first;
                    assert(members[at].0 == first);
                }
                if fields.1 is Some {
                    let at = choose|i: int|
                        0 <= i < head.len() && (#[trigger] head[i]).0 == second;
                    assert(members[at].0 == second);
                }
                if members[last].0 == first {
                    assert(members[last].0 == first);
                }
                if members[last].0 == second {
                    assert(members[last].0 == second);
                }
            },
        }
    }
}

/// Reads the fields `first` and `second` from `members`.
pub fn read_text_fields(members: &Vec<(String, String)>, first: &str, second: &str) -> (r: Result<
    (Option<String>, Option<String>),
    String,
>)
    ensures
        match r {
            Ok(fields) => read_fields(members_view(members@), first@, second@) matches Ok(read)
                && read == (option_text(fields.0), option_text(fields.1)),
            Err(name) => read_fields(members_view(members@), first@, second@) matches Err(unknown)
                && unknown == name@,
        },
{
    let ghost all = members_view(members@);
    let mut a: Option<String> = None;
    let mut b: Option<String> = None;
    let mut i: usize = 0;
    assert(all.take(0).len() == 0);
    while i < members.len()
        invariant
            i <= members.len(),
            all == members_view(members@),
            read_fields(all.take(i as int), first@, second@) matches Ok(read) && read == (
                option_text(a),
                option_text(b),
            ),
        decreases members.len() - i,
    {
        let member = &members[i];
        proof {
            let next = all.take(i + 1);
            assert(next.drop_last() =~= all.take(i as int));
            assert(next.last() == (member.0@, member.1@));
        }
        if same_text(member.0.as_str(), first) {
            a = Some(member.1.clone());
        } else if same_text(member.0.as_str(), second) {
            b = Some(member.1.clone());
        } else {
            proof {
                lemma_read_fields_stays_unknown(all, first@, second@, i + 1);
            }
            return Err(member.0.clone());
        }
        i += 1;
    }
    assert(all.take(i as int) =~= all);
    Ok((a, b))
}

/// Once a member with an unknown name was read, the members after it change
/// nothing.
pub proof fn lemma_read_fields_stays_unknown(
    members: Seq<(Seq<char>, Seq<char>)>,
    first: Seq<char>,
    second: Seq<char>,
    n: int,
)
    requires
        0 <= n <= members.len(),
        read_fields(members.take(n), first, second) is Err,
    ensures
        read_fields(members, first, second) == read_fields(members.take(n), first, second),
    decreases members.len() - n,
{
    if n < members.len() {
        let next = members.take(n + 1);
        assert(next.drop_last() =~= members.take(n));
        lemma_read_fields_stays_unknown(members, first, second, n + 1);
    } else {
        assert(members.take(n) =~= members);
    }
}

} // verus!
