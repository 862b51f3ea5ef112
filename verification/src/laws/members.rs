//! The members of JSON objects, one by one, and what is read from them.
use vstd::prelude::*;

use crate::json::{
    flag_in, items_in, named, number_in, raw_text, text_in, version_in, Member, Value,
};
use crate::tidy::{law_tidy_lines_stay, tidy};

verus! {

/// Whether the member at a position is the first with a name.
pub open spec fn first_called(members: Seq<Member>, name: Seq<char>, at: int) -> bool {
    &&& 0 <= at < members.len()
    &&& members[at].name@ == name
    &&& forall|j: int| 0 <= j < at ==> (#[trigger] members[j]).name@ != name
}

/// Whether a value is an object with this member.
pub open spec fn holds(object: Value, name: Seq<char>, value: Value) -> bool {
    object matches Value::Object(members) && exists|at: int|
        #[trigger] first_called(members@, name, at) && members@[at].value == value
}

/// Whether a value is an object with this text as a member.
pub open spec fn holds_text(object: Value, name: Seq<char>, text: Seq<char>) -> bool {
    object matches Value::Object(members) && exists|at: int|
        #[trigger] first_called(members@, name, at) && (members@[at].value matches Value::Text(held)
            && held@ == text)
}

/// Whether a value is an object with this list as a member.
pub open spec fn holds_list(object: Value, name: Seq<char>, items: Seq<Value>) -> bool {
    object matches Value::Object(members) && exists|at: int|
        #[trigger] first_called(members@, name, at) && (members@[at].value matches Value::Array(
            held,
        ) && held@ == items)
}

/// Whether a value has no member with a name.
pub open spec fn lacks(object: Value, name: Seq<char>) -> bool {
    object matches Value::Object(members) ==> forall|j: int|
        0 <= j < members@.len() ==> (#[trigger] members@[j]).name@ != name
}

proof fn lemma_named(members: Seq<Member>, name: Seq<char>, at: int)
    requires
        first_called(members, name, at),
    ensures
        named(members, name) == Some(&members[at].value),
    decreases members.len(),
{
    if at > 0 {
        let rest = members.drop_first();
        assert(members[0].name@ != name);
        assert forall|j: int| 0 <= j < at - 1 implies (#[trigger] rest[j]).name@ != name by {
            assert(rest[j] == members[j + 1]);
        }
        lemma_named(rest, name, at - 1);
    }
}

proof fn lemma_not_named(members: Seq<Member>, name: Seq<char>)
    requires
        forall|j: int| 0 <= j < members.len() ==> (#[trigger] members[j]).name@ != name,
    ensures
        named(members, name) is None,
    decreases members.len(),
{
    if members.len() > 0 {
        let rest = members.drop_first();
        assert(members[0].name@ != name);
        assert forall|j: int| 0 <= j < rest.len() implies (#[trigger] rest[j]).name@ != name by {
            assert(rest[j] == members[j + 1]);
        }
        lemma_not_named(rest, name);
    }
}

/// A member is found by its whole name, wherever it stands in its object; of
/// several with one name the first is found.
pub proof fn law_members_are_found(object: Value, name: Seq<char>, value: Value)
    requires
        holds(object, name, value),
    ensures
        object.field(name) == Some(&value),
{
    if let Value::Object(members) = object {
        let at = choose|at: int| first_called(members@, name, at) && members@[at].value == value;
        lemma_named(members@, name, at);
    }
}

/// What is no member is not found.
pub proof fn law_missing_members_are_not_found(object: Value, name: Seq<char>)
    requires
        lacks(object, name),
    ensures
        object.field(name) is None,
{
    if let Value::Object(members) = object {
        lemma_not_named(members@, name);
    }
}

/// A text is read as it stands.
pub proof fn law_texts_are_found(object: Value, name: Seq<char>, text: Seq<char>)
    requires
        holds_text(object, name, text),
    ensures
        raw_text(object.field(name)) == Some(text),
        object.field(name) is Some,
{
    if let Value::Object(members) = object {
        let at = choose|at: int|
            first_called(members@, name, at) && (members@[at].value matches Value::Text(held)
                && held@ == text);
        lemma_named(members@, name, at);
    }
}

/// A clean line within its limit is read as it stands.
pub proof fn law_clean_lines_are_read(object: Value, name: Seq<char>, text: Seq<char>, maximum: nat)
    requires
        holds_text(object, name, text),
        tidy(text),
        text.len() <= maximum,
    ensures
        text_in(object.field(name), maximum) == text,
{
    law_texts_are_found(object, name, text);
    law_tidy_lines_stay(text, maximum);
}

/// A list is read with all its items in order.
pub proof fn law_lists_are_read(object: Value, name: Seq<char>, items: Seq<Value>)
    requires
        holds_list(object, name, items),
    ensures
        items_in(object.field(name)) == items,
{
    if let Value::Object(members) = object {
        let at = choose|at: int|
            first_called(members@, name, at) && (members@[at].value matches Value::Array(held)
                && held@ == items);
        lemma_named(members@, name, at);
    }
}

/// A member that is not there, or is of another type, reads as nothing.
pub proof fn law_missing_members_read_as_nothing(object: Value, name: Seq<char>, maximum: nat)
    requires
        lacks(object, name),
    ensures
        text_in(object.field(name), maximum).len() == 0,
        raw_text(object.field(name)) is None,
        items_in(object.field(name)).len() == 0,
        number_in(object.field(name)) == 0,
        version_in(object.field(name)) == 0,
        !flag_in(object.field(name)),
{
    law_missing_members_are_not_found(object, name);
}

/// A number is read as it stands; a negative one as zero. A version is no
/// larger than 32 bits hold.
pub proof fn law_numbers_are_read(object: Value, name: Seq<char>, number: i64)
    requires
        holds(object, name, Value::Number(number)),
    ensures
        0 <= number <= usize::MAX ==> number_in(object.field(name)) == number,
        number < 0 ==> number_in(object.field(name)) == 0,
        0 <= number <= u32::MAX ==> version_in(object.field(name)) == number,
        number < 0 ==> version_in(object.field(name)) == 0,
        u32::MAX < number <= usize::MAX ==> version_in(object.field(name)) == u32::MAX,
{
    law_members_are_found(object, name, Value::Number(number));
}

/// A truth value is read as it stands.
pub proof fn law_flags_are_read(object: Value, name: Seq<char>, flag: bool)
    requires
        holds(object, name, Value::Bool(flag)),
    ensures
        flag_in(object.field(name)) == flag,
{
    law_members_are_found(object, name, Value::Bool(flag));
}

} // verus!
