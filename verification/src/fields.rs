//! Objects and lists in JSON text, part by part
//!
//! A configuration says which members of an object it knows. Each of them may stand there once;
//! what stands under any other name is passed over, whatever it holds. So the text is taken
//! apart first, and only the parts that are known are read as JSON values.

use vstd::prelude::*;
use vstd::string::*;

use crate::error::concat3;
use crate::json::{front_of, json_of, opt_json, opt_member, parse, read_front, Json, JsonView, Members};
use crate::text::{lemma_run_len, lemma_run_len_is, run_len, same, slice, to_chars};

verus! {

/// White space between the parts of a JSON text.
pub open spec fn is_blank(c: char) -> bool {
    c == ' ' || c == '\n' || c == '\t' || c == '\r'
}

/// The class of white space between the parts.
pub open spec fn blank() -> spec_fn(char) -> bool {
    |c: char| is_blank(c)
}

/// The first character that is no white space, and the text behind it.
pub open spec fn mark_of(text: Seq<char>) -> Option<(char, Seq<char>)> {
    let n = run_len(text, blank()) as int;
    if n >= text.len() {
        None
    } else {
        Some((text[n], text.skip(n + 1)))
    }
}

fn next_mark(text: &str) -> (r: Option<(char, String)>)
    ensures
        match r {
            None => mark_of(text@) is None,
            Some((c, rest)) => mark_of(text@) == Some((c, rest@)),
        },
{
    let v = to_chars(text);
    let mut i: usize = 0;
    while i < v.len() && (v[i] == ' ' || v[i] == '\n' || v[i] == '\t' || v[i] == '\r')
        invariant
            i <= v@.len(),
            forall|j: int| 0 <= j < i ==> is_blank(#[trigger] v@[j]),
        decreases v.len() - i,
    {
        i = i + 1;
    }
    proof {
        lemma_run_len_is(v@, blank(), i as nat);
    }
    if i == v.len() {
        return None;
    }
    let rest = slice(&v, i + 1, v.len());
    assert(rest@ =~= text@.skip(i + 1));
    Some((v[i], rest))
}

/// The first value in a text, as text, and the text behind it.
pub open spec fn value_of(text: Seq<char>) -> Result<(Seq<char>, Seq<char>), Seq<char>> {
    match front_of(text) {
        None => Err("EOF while parsing a value"@),
        Some(Err(e)) => Err(e),
        Some(Ok(front)) => Ok((front, text.skip(front.len() as int))),
    }
}

fn next_value(text: &str) -> (r: Result<(String, String), String>)
    ensures
        match r {
            Ok((front, rest)) => {
                &&& value_of(text@) == Ok::<(Seq<char>, Seq<char>), Seq<char>>((front@, rest@))
                &&& rest@.len() < text@.len()
            },
            Err(e) => value_of(text@) == Err::<(Seq<char>, Seq<char>), Seq<char>>(e@),
        },
{
    match read_front(text) {
        None => Err(String::from_str("EOF while parsing a value")),
        Some(Err(e)) => Err(e),
        Some(Ok((front, rest))) => {
            assert(text@.skip(front@.len() as int) =~= rest@);
            Ok((front, rest))
        },
    }
}

/// The next part of an object, its name and its value, or of a list, a value without a name;
/// all as text, with the text behind it.
pub open spec fn part_of(text: Seq<char>, named: bool) -> Result<((Seq<char>, Seq<char>), Seq<char>), Seq<char>> {
    match value_of(text) {
        Err(e) => Err(e),
        Ok((first, rest)) => if !named {
            Ok(((Seq::empty(), first), rest))
        } else {
            match mark_of(rest) {
                Some((':', behind)) => match value_of(behind) {
                    Err(e) => Err(e),
                    Ok((value, rest)) => Ok(((first, value), rest)),
                },
                _ => Err("expected `:`"@),
            }
        },
    }
}

fn next_part(text: &str, named: bool) -> (r: Result<((String, String), String), String>)
    ensures
        match r {
            Ok((p, rest)) => {
                &&& part_of(text@, named) == Ok::<((Seq<char>, Seq<char>), Seq<char>), Seq<char>>(
                    ((p.0@, p.1@), rest@),
                )
                &&& rest@.len() < text@.len()
            },
            Err(e) => part_of(text@, named) == Err::<((Seq<char>, Seq<char>), Seq<char>), Seq<char>>(e@),
        },
{
    let (first, rest) = match next_value(text) {
        Err(e) => {
            return Err(e);
        },
        Ok(p) => p,
    };
    if !named {
        let none = String::new();
        assert(none@ =~= Seq::<char>::empty());
        return Ok(((none, first), rest));
    }
    match next_mark(rest.as_str()) {
        Some((':', behind)) => {
            proof {
                lemma_run_len(rest@, blank());
            }
            match next_value(behind.as_str()) {
                Err(e) => Err(e),
                Ok((value, rest)) => Ok(((first, value), rest)),
            }
        },
        _ => Err(String::from_str("expected `:`")),
    }
}

/// A name and a value, as text.
pub type PartView = (Seq<char>, Seq<char>);

/// The parts up to the closing bracket, behind those that are `done`. `text` begins with a part.
pub open spec fn parts_from(text: Seq<char>, named: bool, done: Seq<PartView>) -> Result<Seq<PartView>, Seq<char>>
    decreases text.len(),
{
    match part_of(text, named) {
        Err(e) => Err(e),
        Ok((p, rest)) => match mark_of(rest) {
            Some((c, behind)) => if c == ',' {
                if behind.len() < text.len() {
                    parts_from(behind, named, done.push(p))
                } else {
                    Err("EOF while parsing a value"@)
                }
            } else if c == closing(named) {
                ended(behind, done.push(p))
            } else {
                Err("expected `,` or the end"@)
            },
            None => Err("EOF while parsing"@),
        },
    }
}

/// The bracket behind the last part.
pub open spec fn closing(named: bool) -> char {
    if named {
        '}'
    } else {
        ']'
    }
}

/// The parts, if nothing follows the closing bracket.
pub open spec fn ended(behind: Seq<char>, parts: Seq<PartView>) -> Result<Seq<PartView>, Seq<char>> {
    if mark_of(behind) is None {
        Ok(parts)
    } else {
        Err("trailing characters"@)
    }
}

/// The parts of the object, if `named`, or the list that a text is.
pub open spec fn parts_of(text: Seq<char>, named: bool) -> Result<Seq<PartView>, Seq<char>> {
    match mark_of(text) {
        Some((c, behind)) => if c == opening(named) {
            match mark_of(behind) {
                Some((d, rest)) if d == closing(named) => ended(rest, Seq::empty()),
                _ => parts_from(behind, named, Seq::empty()),
            }
        } else {
            Err("invalid type"@)
        },
        None => Err("EOF while parsing a value"@),
    }
}

/// The bracket before the first part.
pub open spec fn opening(named: bool) -> char {
    if named {
        '{'
    } else {
        '['
    }
}

/// Whether a text is an object, if `named`, or a list, going by its first character.
pub open spec fn opens(text: Seq<char>, named: bool) -> bool {
    mark_of(text) matches Some((c, _)) && c == opening(named)
}

/// Parts by view.
pub open spec fn parts_view(parts: Seq<(String, String)>) -> Seq<PartView> {
    parts.map_values(|p: (String, String)| (p.0@, p.1@))
}

fn no_trailing(behind: &str, parts: Vec<(String, String)>) -> (r: Result<Vec<(String, String)>, String>)
    ensures
        match r {
            Ok(p) => ended(behind@, parts_view(parts@)) == Ok::<Seq<PartView>, Seq<char>>(parts_view(p@)),
            Err(e) => ended(behind@, parts_view(parts@)) == Err::<Seq<PartView>, Seq<char>>(e@),
        },
{
    if next_mark(behind).is_none() {
        Ok(parts)
    } else {
        Err(String::from_str("trailing characters"))
    }
}

/// Whether a text is an object, if `named`, or a list, going by its first character.
pub fn opens_with(text: &str, named: bool) -> (r: bool)
    ensures
        r == opens(text@, named),
{
    match next_mark(text) {
        Some((c, _)) => c == (if named {
            '{'
        } else {
            '['
        }),
        None => false,
    }
}

/// Takes the object, if `named`, or the list that a text is apart.
pub fn read_parts(text: &str, named: bool) -> (r: Result<Vec<(String, String)>, String>)
    ensures
        match r {
            Ok(p) => parts_of(text@, named) == Ok::<Seq<PartView>, Seq<char>>(parts_view(p@)),
            Err(e) => parts_of(text@, named) == Err::<Seq<PartView>, Seq<char>>(e@),
        },
{
    let close = if named {
        '}'
    } else {
        ']'
    };
    let mut parts: Vec<(String, String)> = Vec::new();
    assert(parts_view(parts@) =~= Seq::<PartView>::empty());
    let mut left: String = match next_mark(text) {
        None => {
            return Err(String::from_str("EOF while parsing a value"));
        },
        Some((c, behind)) => {
            if c != (if named {
                '{'
            } else {
                '['
            }) {
                return Err(String::from_str("invalid type"));
            }
            match next_mark(behind.as_str()) {
                Some((d, rest)) => {
                    if d == close {
                        return no_trailing(rest.as_str(), parts);
                    }
                },
                None => {},
            }
            behind
        },
    };
    let ghost whole = parts_from(left@, named, Seq::empty());
    loop
        invariant
            close == closing(named),
            parts_from(left@, named, parts_view(parts@)) == whole,
            parts_of(text@, named) == whole,
        decreases left@.len(),
    {
        let (p, rest) = match next_part(left.as_str(), named) {
            Err(e) => {
                return Err(e);
            },
            Ok(p) => p,
        };
        proof {
            lemma_run_len(rest@, blank());
        }
        let ghost before = parts@;
        let mark = next_mark(rest.as_str());
        parts.push(p);
        assert(parts_view(parts@) =~= parts_view(before).push((p.0@, p.1@)));
        match mark {
            None => {
                return Err(String::from_str("EOF while parsing"));
            },
            Some((c, behind)) => {
                if c == ',' {
                    left = behind;
                } else if c == close {
                    return no_trailing(behind.as_str(), parts);
                } else {
                    return Err(String::from_str("expected `,` or the end"));
                }
            },
        }
    }
}

/// The parts of an object with their names read.
pub open spec fn named_parts(parts: Seq<PartView>) -> Result<Seq<PartView>, Seq<char>>
    decreases parts.len(),
{
    if parts.len() == 0 {
        Ok(Seq::empty())
    } else {
        match named_parts(parts.drop_last()) {
            Err(e) => Err(e),
            Ok(front) => match json_of(parts.last().0) {
                Err(e) => Err(e),
                Ok(JsonView::Text(name)) => Ok(front.push((name, parts.last().1))),
                Ok(_) => Err("key must be a string"@),
            },
        }
    }
}

/// A list whose beginning fails, fails with it.
proof fn lemma_failure_stays(parts: Seq<PartView>, n: int)
    requires
        0 <= n <= parts.len(),
        named_parts(parts.take(n)) is Err,
    ensures
        named_parts(parts) == named_parts(parts.take(n)),
    decreases parts.len() - n,
{
    if n < parts.len() {
        assert(parts.take(n + 1).drop_last() =~= parts.take(n));
        lemma_failure_stays(parts, n + 1);
    } else {
        assert(parts.take(n) =~= parts);
    }
}

/// The members of the object that a text is: each name, and its value as text.
pub open spec fn members_of(text: Seq<char>) -> Result<Seq<PartView>, Seq<char>> {
    match parts_of(text, true) {
        Err(e) => Err(e),
        Ok(parts) => named_parts(parts),
    }
}

/// Reads the members of the object that a text is, with their values as text.
pub fn read_members(text: &str) -> (r: Result<Vec<(String, String)>, String>)
    ensures
        match r {
            Ok(p) => members_of(text@) == Ok::<Seq<PartView>, Seq<char>>(parts_view(p@)),
            Err(e) => members_of(text@) == Err::<Seq<PartView>, Seq<char>>(e@),
        },
{
    let parts = match read_parts(text, true) {
        Err(e) => {
            return Err(e);
        },
        Ok(parts) => parts,
    };
    let ghost all = parts_view(parts@);
    let mut members: Vec<(String, String)> = Vec::new();
    assert(parts_view(members@) =~= Seq::<PartView>::empty());
    let mut i: usize = 0;
    while i < parts.len()
        invariant
            i <= parts@.len(),
            all == parts_view(parts@),
            named_parts(all.take(i as int)) == Ok::<Seq<PartView>, Seq<char>>(parts_view(members@)),
            members_of(text@) == named_parts(all),
        decreases parts.len() - i,
    {
        assert(all.take(i + 1).drop_last() =~= all.take(i as int));
        assert(all.take(i + 1).last() == (parts@[i as int].0@, parts@[i as int].1@));
        let fault = match parse(parts[i].0.as_str()) {
            Err(e) => Some(e),
            Ok(Json::Text(name)) => {
                let ghost before = members@;
                members.push((name, parts[i].1.clone()));
                assert(parts_view(members@) =~= parts_view(before).push((name@, parts@[i as int].1@)));
                None
            },
            Ok(_) => Some(String::from_str("key must be a string")),
        };
        match fault {
            Some(e) => {
                proof {
                    lemma_failure_stays(all, i + 1);
                }
                return Err(e);
            },
            None => {},
        }
        i = i + 1;
    }
    assert(all.take(i as int) =~= all);
    Ok(members)
}

/// How often a name occurs.
pub open spec fn times(members: Seq<PartView>, name: Seq<char>) -> nat
    decreases members.len(),
{
    if members.len() == 0 {
        0
    } else {
        times(members.drop_last(), name) + if members.last().0 == name {
            1nat
        } else {
            0
        }
    }
}

/// The value of the last member with a name.
pub open spec fn last_of(members: Seq<PartView>, name: Seq<char>) -> Option<Seq<char>>
    decreases members.len(),
{
    if members.len() == 0 {
        None
    } else if members.last().0 == name {
        Some(members.last().1)
    } else {
        last_of(members.drop_last(), name)
    }
}

/// The value of the one member with a name, if there is one, as text. It is an error that the
/// name occurs twice.
pub open spec fn sole_of(members: Seq<PartView>, name: Seq<char>) -> Result<Option<Seq<char>>, Seq<char>> {
    if times(members, name) > 1 {
        Err("duplicate field `"@ + name + "`"@)
    } else {
        Ok(last_of(members, name))
    }
}

proof fn lemma_times_grow(members: Seq<PartView>, name: Seq<char>, n: int)
    requires
        0 <= n <= members.len(),
    ensures
        times(members.take(n), name) <= times(members, name),
    decreases members.len() - n,
{
    if n < members.len() {
        assert(members.take(n + 1).drop_last() =~= members.take(n));
        lemma_times_grow(members, name, n + 1);
    } else {
        assert(members.take(n) =~= members);
    }
}

/// The value of the one member with a name.
pub fn sole(members: &Vec<(String, String)>, name: &str) -> (r: Result<Option<String>, String>)
    ensures
        match r {
            Ok(None) => sole_of(parts_view(members@), name@) == Ok::<Option<Seq<char>>, Seq<char>>(None),
            Ok(Some(v)) => sole_of(parts_view(members@), name@) == Ok::<Option<Seq<char>>, Seq<char>>(Some(v@)),
            Err(e) => sole_of(parts_view(members@), name@) == Err::<Option<Seq<char>>, Seq<char>>(e@),
        },
{
    let ghost all = parts_view(members@);
    let mut found: Option<String> = None;
    let mut i: usize = 0;
    while i < members.len()
        invariant
            i <= members@.len(),
            all == parts_view(members@),
            times(all.take(i as int), name@) == if found is Some {
                1nat
            } else {
                0
            },
            match found {
                None => last_of(all.take(i as int), name@) is None,
                Some(v) => last_of(all.take(i as int), name@) == Some(v@),
            },
        decreases members.len() - i,
    {
        assert(all.take(i + 1).drop_last() =~= all.take(i as int));
        assert(all.take(i + 1).last() == (members@[i as int].0@, members@[i as int].1@));
        if same(members[i].0.as_str(), name) {
            if found.is_some() {
                proof {
                    lemma_times_grow(all, name@, i + 1);
                }
                return Err(concat3("duplicate field `", name, "`"));
            }
            found = Some(members[i].1.clone());
        }
        i = i + 1;
    }
    assert(all.take(i as int) =~= all);
    Ok(found)
}

/// The one member with a name, read as a JSON value.
pub open spec fn field_of(members: Seq<PartView>, name: Seq<char>) -> Result<Option<JsonView>, Seq<char>> {
    match sole_of(members, name) {
        Err(e) => Err(e),
        Ok(None) => Ok(None),
        Ok(Some(value)) => match json_of(value) {
            Err(e) => Err(e),
            Ok(json) => Ok(Some(json)),
        },
    }
}

/// Reads the one member with a name.
pub fn read_field(members: &Vec<(String, String)>, name: &str) -> (r: Result<Option<Json>, String>)
    ensures
        match r {
            Ok(v) => field_of(parts_view(members@), name@) == Ok::<Option<JsonView>, Seq<char>>(opt_json(v)),
            Err(e) => field_of(parts_view(members@), name@) == Err::<Option<JsonView>, Seq<char>>(e@),
        },
{
    match sole(members, name) {
        Err(e) => Err(e),
        Ok(None) => Ok(None),
        Ok(Some(value)) => match parse(value.as_str()) {
            Err(e) => Err(e),
            Ok(json) => Ok(Some(json)),
        },
    }
}

/// What a text holds for a structure with two fields: of an object, these two members; anything
/// else as it is.
pub open spec fn pair_of(text: Seq<char>, one: Seq<char>, other: Seq<char>) -> Result<JsonView, Seq<char>> {
    if opens(text, true) {
        match members_of(text) {
            Err(e) => Err(e),
            Ok(members) => match (field_of(members, one), field_of(members, other)) {
                (Err(e), _) => Err(e),
                (_, Err(e)) => Err(e),
                (Ok(a), Ok(b)) => Ok(JsonView::Object(opt_member(one, a) + opt_member(other, b))),
            },
        }
    } else {
        json_of(text)
    }
}

/// Reads what a text holds for a structure with two fields.
pub fn read_pair(text: &str, one: &str, other: &str) -> (r: Result<Json, String>)
    ensures
        match r {
            Ok(j) => pair_of(text@, one@, other@) == Ok::<JsonView, Seq<char>>(j@),
            Err(e) => pair_of(text@, one@, other@) == Err::<JsonView, Seq<char>>(e@),
        },
{
    if !opens_with(text, true) {
        return parse(text);
    }
    let members = match read_members(text) {
        Err(e) => {
            return Err(e);
        },
        Ok(members) => members,
    };
    let a = match read_field(&members, one) {
        Err(e) => {
            return Err(e);
        },
        Ok(a) => a,
    };
    let b = match read_field(&members, other) {
        Err(e) => {
            return Err(e);
        },
        Ok(b) => b,
    };
    let mut object = Members::new();
    object.put_opt(one, a);
    object.put_opt(other, b);
    assert(object@ =~= opt_member(one@, opt_json(a)) + opt_member(other@, opt_json(b)));
    Ok(object.finish())
}

/// A field that occurs twice is an error, however often other names occur.
pub proof fn law_repeated_field_is_refused(members: Seq<PartView>, name: Seq<char>, i: int, j: int)
    requires
        0 <= i < j < members.len(),
        members[i].0 == name,
        members[j].0 == name,
    ensures
        sole_of(members, name) is Err,
        field_of(members, name) is Err,
{
    lemma_times_grow(members, name, j + 1);
    assert(members.take(j + 1).drop_last() =~= members.take(j));
    lemma_occurs(members.take(j), name, i);
}

proof fn lemma_occurs(members: Seq<PartView>, name: Seq<char>, i: int)
    requires
        0 <= i < members.len(),
        members[i].0 == name,
    ensures
        times(members, name) >= 1,
    decreases members.len(),
{
    if i < members.len() - 1 {
        lemma_occurs(members.drop_last(), name, i);
    }
}

/// A name has a value where it occurs, and nowhere else.
pub proof fn lemma_last_occurs(members: Seq<PartView>, name: Seq<char>)
    ensures
        last_of(members, name) is Some <==> times(members, name) > 0,
    decreases members.len(),
{
    if members.len() > 0 {
        lemma_last_occurs(members.drop_last(), name);
    }
}

/// A member under another name does not matter, whatever it holds.
pub proof fn law_other_members_are_passed_over(members: Seq<PartView>, name: Seq<char>, i: int)
    requires
        0 <= i < members.len(),
        members[i].0 != name,
    ensures
        field_of(members.remove(i), name) == field_of(members, name),
{
    lemma_without(members, name, i);
}

proof fn lemma_without(members: Seq<PartView>, name: Seq<char>, i: int)
    requires
        0 <= i < members.len(),
        members[i].0 != name,
    ensures
        times(members.remove(i), name) == times(members, name),
        last_of(members.remove(i), name) == last_of(members, name),
    decreases members.len(),
{
    if i < members.len() - 1 {
        lemma_without(members.drop_last(), name, i);
        assert(members.remove(i).drop_last() =~= members.drop_last().remove(i));
        assert(members.remove(i).last() == members.last());
    } else {
        assert(members.remove(i) =~= members.drop_last());
    }
}

} // verus!
