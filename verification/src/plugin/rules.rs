//! How a check reports: nothing when the value is accepted, else the message of the first rule
//! that it breaks.

use crate::text::{concat3, concat5, same, trim, trimmed};
use vstd::prelude::*;

verus! {

/// The message of a refused check.
pub open spec fn problem(r: Result<(), String>) -> Option<Seq<char>> {
    match r {
        Ok(_) => None,
        Err(message) => Some(message@),
    }
}

/// The first of two problems.
pub open spec fn earlier(a: Option<Seq<char>>, b: Option<Seq<char>>) -> Option<Seq<char>> {
    if a is Some {
        a
    } else {
        b
    }
}

/// The first problem of a list.
pub open spec fn first_of(problems: Seq<Option<Seq<char>>>) -> Option<Seq<char>>
    decreases problems.len(),
{
    if problems.len() == 0 {
        None
    } else {
        earlier(first_of(problems.drop_last()), problems.last())
    }
}

/// The list extended by one more element.
pub proof fn lemma_first_of_step(problems: Seq<Option<Seq<char>>>, i: int)
    requires
        0 <= i < problems.len(),
    ensures
        first_of(problems.take(i + 1)) == earlier(first_of(problems.take(i)), problems[i]),
{
    assert(problems.take(i + 1).drop_last() == problems.take(i));
}

/// A problem found at `i` with none before it is the problem of the list.
pub proof fn lemma_first_of_found(problems: Seq<Option<Seq<char>>>, i: int)
    requires
        0 <= i < problems.len(),
        first_of(problems.take(i)) is None,
        problems[i] is Some,
    ensures
        first_of(problems) == problems[i],
{
    lemma_first_of_step(problems, i);
    lemma_first_of_kept(problems, i + 1);
}

proof fn lemma_first_of_kept(problems: Seq<Option<Seq<char>>>, n: int)
    requires
        0 <= n <= problems.len(),
        first_of(problems.take(n)) is Some,
    ensures
        first_of(problems) == first_of(problems.take(n)),
    decreases problems.len() - n,
{
    if n < problems.len() {
        lemma_first_of_step(problems, n);
        lemma_first_of_kept(problems, n + 1);
    } else {
        assert(problems.take(n) == problems);
    }
}

/// A definition that can be checked by itself.
pub trait Checked {
    spec fn problem_of(&self) -> Option<Seq<char>>;

    fn check(&self) -> (r: Result<(), String>)
        ensures
            problem(r) == self.problem_of(),
    ;
}

pub open spec fn problems_of<T: Checked>(items: Seq<T>) -> Seq<Option<Seq<char>>> {
    Seq::new(items.len(), |i: int| items[i].problem_of())
}

/// Checks a list of definitions in order.
pub fn check_all<T: Checked>(items: &Vec<T>) -> (r: Result<(), String>)
    ensures
        problem(r) == first_of(problems_of(items@)),
{
    let ghost problems = problems_of(items@);
    let mut i: usize = 0;
    while i < items.len()
        invariant
            i <= items.len(),
            problems == problems_of(items@),
            first_of(problems.take(i as int)) is None,
        decreases items.len() - i,
    {
        match items[i].check() {
            Err(message) => {
                proof {
                    lemma_first_of_found(problems, i as int);
                }
                return Err(message);
            },
            Ok(()) => {
                proof {
                    lemma_first_of_step(problems, i as int);
                }
            },
        }
        i = i + 1;
    }
    assert(problems.take(i as int) == problems);
    Ok(())
}

pub open spec fn str_views(list: Seq<&str>) -> Seq<Seq<char>> {
    Seq::new(list.len(), |i: int| list[i]@)
}

/// The problem of a word that must be one of the given words.
pub open spec fn one_of_problem(
    field: Seq<char>,
    value: Seq<char>,
    allowed: Seq<Seq<char>>,
) -> Option<Seq<char>> {
    if allowed.contains(value) {
        None
    } else {
        Some(
            "Plugin manifest field \""@ + field + "\" has unsupported value \""@ + value + "\""@,
        )
    }
}

/// Whether the list holds the word.
pub fn is_one_of(value: &str, allowed: &[&str]) -> (r: bool)
    ensures
        r == str_views(allowed@).contains(value@),
{
    let mut i: usize = 0;
    while i < allowed.len()
        invariant
            i <= allowed.len(),
            forall|j: int| 0 <= j < i ==> allowed@[j]@ != value@,
        decreases allowed.len() - i,
    {
        if same(allowed[i], value) {
            assert(str_views(allowed@)[i as int] == value@);
            return true;
        }
        i = i + 1;
    }
    assert forall|j: int| 0 <= j < str_views(allowed@).len() implies str_views(allowed@)[j]
        != value@ by {
        assert(allowed@[j]@ != value@);
    }
    false
}

pub fn validate_one_of(field: &str, value: &str, allowed: &[&str]) -> (r: Result<(), String>)
    ensures
        problem(r) == one_of_problem(field@, value@, str_views(allowed@)),
{
    if is_one_of(value, allowed) {
        return Ok(());
    }
    Err(
        concat5(
            "Plugin manifest field \"",
            field,
            "\" has unsupported value \"",
            value,
            "\"",
        ),
    )
}

/// Checks each word of a list.
pub fn validate_each_of(field: &str, values: &Vec<String>, allowed: &[&str]) -> (r: Result<(), String>)
    ensures
        problem(r) == each_of_problem(field@, values@, str_views(allowed@)),
{
    let ghost problems = each_problems(field@, values@, str_views(allowed@));
    let mut i: usize = 0;
    while i < values.len()
        invariant
            i <= values.len(),
            problems == each_problems(field@, values@, str_views(allowed@)),
            first_of(problems.take(i as int)) is None,
        decreases values.len() - i,
    {
        match validate_one_of(field, values[i].as_str(), allowed) {
            Err(message) => {
                proof {
                    lemma_first_of_found(problems, i as int);
                }
                return Err(message);
            },
            Ok(()) => {
                proof {
                    lemma_first_of_step(problems, i as int);
                }
            },
        }
        i = i + 1;
    }
    assert(problems.take(i as int) == problems);
    Ok(())
}

pub open spec fn each_problems(
    field: Seq<char>,
    values: Seq<String>,
    allowed: Seq<Seq<char>>,
) -> Seq<Option<Seq<char>>> {
    Seq::new(values.len(), |i: int| one_of_problem(field, values[i]@, allowed))
}

pub open spec fn each_of_problem(
    field: Seq<char>,
    values: Seq<String>,
    allowed: Seq<Seq<char>>,
) -> Option<Seq<char>> {
    first_of(each_problems(field, values, allowed))
}

/// The problem of a text field: it may not be blank.
pub open spec fn text_field_problem(field: Seq<char>, value: Seq<char>) -> Option<Seq<char>> {
    if trimmed(value).len() == 0 {
        Some("Plugin manifest field \""@ + field + "\" cannot be empty"@)
    } else {
        None
    }
}

pub fn validate_manifest_text_field(field: &str, value: &str) -> (r: Result<(), String>)
    ensures
        problem(r) == text_field_problem(field@, value@),
{
    if trim(value).is_empty() {
        return Err(concat3("Plugin manifest field \"", field, "\" cannot be empty"));
    }
    Ok(())
}

/// The first problem of a list is told, and none where there is none.
pub proof fn law_the_first_problem_is_told(problems: Seq<Option<Seq<char>>>, at: int)
    requires
        0 <= at <= problems.len(),
        forall|i: int| 0 <= i < at ==> (#[trigger] problems[i]) is None,
    ensures
        at < problems.len() && problems[at] is Some ==> first_of(problems) == problems[at],
        at == problems.len() ==> first_of(problems) is None,
    decreases problems.len(),
{
    if problems.len() > 0 {
        let front = problems.drop_last();
        if at == problems.len() {
            assert(problems[at - 1] is None);
            law_the_first_problem_is_told(front, at - 1);
        } else if at == problems.len() - 1 {
            law_the_first_problem_is_told(front, at);
        } else {
            assert(front[at] == problems[at]);
            law_the_first_problem_is_told(front, at);
        }
    }
}

/// A word is accepted exactly where it is one of those that are allowed, and a text exactly where
/// it is not blank; what is refused is told with its field.
pub proof fn law_fields_are_checked(
    field: Seq<char>,
    value: Seq<char>,
    allowed: Seq<Seq<char>>,
    i: int,
)
    ensures
        0 <= i < allowed.len() && allowed[i] == value ==> one_of_problem(field, value, allowed)
            is None,
        (forall|k: int| 0 <= k < allowed.len() ==> #[trigger] allowed[k] != value)
            ==> one_of_problem(field, value, allowed) == Some(
            "Plugin manifest field \""@ + field + "\" has unsupported value \""@ + value + "\""@,
        ),
        trimmed(value).len() > 0 ==> text_field_problem(field, value) is None,
        trimmed(value).len() == 0 ==> text_field_problem(field, value) == Some(
            "Plugin manifest field \""@ + field + "\" cannot be empty"@,
        ),
{
}

/// Of two problems the first is told.
pub proof fn law_the_earlier_problem_is_told(a: Option<Seq<char>>, b: Option<Seq<char>>)
    ensures
        a is Some ==> earlier(a, b) == a,
        a is None ==> earlier(a, b) == b,
{
}

/// Where there is a problem one is told.
pub proof fn law_a_problem_is_not_missed(problems: Seq<Option<Seq<char>>>, at: int)
    requires
        0 <= at < problems.len(),
        problems[at] is Some,
    ensures
        first_of(problems) is Some,
    decreases problems.len(),
{
    if at < problems.len() - 1 {
        assert(problems.drop_last()[at] == problems[at]);
        law_a_problem_is_not_missed(problems.drop_last(), at);
    }
}

} // verus!
