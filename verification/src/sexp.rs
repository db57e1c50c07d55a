//! S-expressions and their CIL text.
use vstd::prelude::*;

use crate::text::{
    join, joined, lemma_joined_concat, lemma_joined_grows, lemma_part_is_in_joined, texts,
};

verus! {

/// An s-expression: a word, or a list of s-expressions.
#[derive(Debug)]
pub enum Sexp {
    Atom(String),
    List(Vec<Sexp>),
}

/// The CIL text of an s-expression. A word stands as it is, a list in brackets with one space
/// between any two of its items.
pub open spec fn cil(sexp: Sexp) -> Seq<char>
    decreases sexp,
{
    match sexp {
        Sexp::Atom(word) => word@,
        Sexp::List(items) => "("@ + joined(cil_lines(items@), " "@) + ")"@,
    }
}

/// The CIL texts of several s-expressions, one for each.
pub open spec fn cil_lines(sexps: Seq<Sexp>) -> Seq<Seq<char>>
    decreases sexps,
{
    Seq::new(
        sexps.len(),
        |i: int|
            if 0 <= i < sexps.len() {
                cil(sexps[i])
            } else {
                Seq::empty()
            },
    )
}

/// The CIL text of a policy: each of its s-expressions on a line of its own.
pub open spec fn cil_policy(sexps: Seq<Sexp>) -> Seq<char> {
    joined(cil_lines(sexps), "\n"@)
}

/// Writes an s-expression as CIL.
pub fn display_cil(sexp: &Sexp) -> (text: String)
    ensures
        text@ == cil(*sexp),
    decreases sexp,
{
    match sexp {
        Sexp::Atom(word) => word.clone(),
        Sexp::List(items) => {
            let mut parts: Vec<String> = Vec::new();
            for i in 0..items.len()
                invariant
                    sexp is List,
                    sexp->List_0 == items,
                    parts@.len() == i,
                    forall|j: int| 0 <= j < i ==> #[trigger] parts@[j]@ == cil(items@[j]),
            {
                assert(decreases_to!(sexp->List_0@ => sexp->List_0@[i as int]));
                parts.push(display_cil(&items[i]));
            }
            assert(texts(parts@) =~= cil_lines(items@));
            let mut text = "(".to_string();
            text.append(join(&parts, " ").as_str());
            text.append(")");
            text
        },
    }
}

/// Writes a policy as CIL, one s-expression on each line.
pub fn generate_cil(sexps: &Vec<Sexp>) -> (text: String)
    ensures
        text@ == cil_policy(sexps@),
{
    let mut lines: Vec<String> = Vec::new();
    for i in 0..sexps.len()
        invariant
            lines@.len() == i,
            forall|j: int| 0 <= j < i ==> #[trigger] lines@[j]@ == cil(sexps@[j]),
    {
        lines.push(display_cil(&sexps[i]));
    }
    assert(texts(lines@) =~= cil_lines(sexps@));
    join(&lines, "\n")
}

/// The CIL of a word is the word.
pub proof fn lemma_cil_of_word(word: String)
    ensures
        cil(Sexp::Atom(word)) == word@,
{
}

/// The CIL of a list of no items is a pair of brackets, and that of a list of one item is the CIL
/// of the item in brackets.
pub proof fn lemma_cil_of_short_list(items: Vec<Sexp>)
    ensures
        items@.len() == 0 ==> cil(Sexp::List(items)) == "("@ + ")"@,
        items@.len() == 1 ==> cil(Sexp::List(items)) == "("@ + cil(items@[0]) + ")"@,
{
    if items@.len() == 0 {
        assert("("@ + joined(cil_lines(items@), " "@) + ")"@ =~= "("@ + ")"@);
    }
    if items@.len() == 1 {
        assert(cil_lines(items@)[0] == cil(items@[0]));
    }
}

/// The CIL of two lists put together: what stands in the brackets of the first, a space, and what
/// stands in the brackets of the second, in one pair of brackets.
pub proof fn lemma_cil_of_long_list(
    first: Vec<Sexp>,
    second: Vec<Sexp>,
    both: Vec<Sexp>,
    first_text: Seq<char>,
    second_text: Seq<char>,
)
    requires
        first@.len() > 0,
        second@.len() > 0,
        both@ == first@ + second@,
        cil(Sexp::List(first)) == "("@ + first_text + ")"@,
        cil(Sexp::List(second)) == "("@ + second_text + ")"@,
    ensures
        cil(Sexp::List(both)) == "("@ + first_text + " "@ + second_text + ")"@,
{
    lemma_in_brackets(joined(cil_lines(first@), " "@), first_text);
    lemma_in_brackets(joined(cil_lines(second@), " "@), second_text);
    assert(cil_lines(both@) =~= cil_lines(first@) + cil_lines(second@));
    lemma_joined_concat(cil_lines(first@), cil_lines(second@), " "@);
    assert("("@ + (first_text + " "@ + second_text) + ")"@ =~= "("@ + first_text + " "@
        + second_text + ")"@);
}

/// Two texts that are the same in brackets are the same.
proof fn lemma_in_brackets(one: Seq<char>, other: Seq<char>)
    requires
        "("@ + one + ")"@ == "("@ + other + ")"@,
    ensures
        one == other,
{
    reveal_strlit("(");
    reveal_strlit(")");
    let text = "("@ + one + ")"@;
    assert(text.len() == one.len() + 2);
    assert(text.len() == other.len() + 2);
    assert(text.subrange(1, text.len() - 1) =~= one);
    assert(("("@ + other + ")"@).subrange(1, text.len() - 1) =~= other);
}

/// The CIL of every item of a list is in the CIL of the list.
pub proof fn lemma_item_is_in_list(items: Vec<Sexp>, i: int) -> (start: int)
    requires
        0 <= i < items@.len(),
    ensures
        0 <= start,
        start + cil(items@[i]).len() <= cil(Sexp::List(items)).len(),
        cil(Sexp::List(items)).subrange(start, start + cil(items@[i]).len()) == cil(items@[i]),
{
    reveal_strlit("(");
    let parts = cil_lines(items@);
    let inner = joined(parts, " "@);
    let start = lemma_part_is_in_joined(parts, " "@, i);
    let item = cil(items@[i]);
    assert(parts[i] == item);
    assert(cil(Sexp::List(items)).subrange(start + 1, start + 1 + item.len()) =~= inner.subrange(
        start,
        start + item.len(),
    ));
    start + 1
}

/// The CIL of a policy of no s-expressions is empty, that of a single one is its own, and each
/// further one stands behind a line break.
pub proof fn lemma_cil_of_growing_policy(sexps: Seq<Sexp>, sexp: Sexp)
    ensures
        cil_policy(Seq::empty()) == Seq::<char>::empty(),
        cil_policy(seq![sexp]) == cil(sexp),
        sexps.len() > 0 ==> cil_policy(sexps.push(sexp)) == cil_policy(sexps) + "\n"@ + cil(sexp),
{
    lemma_joined_grows(cil_lines(sexps), cil(sexp), "\n"@);
    assert(cil_lines(Seq::empty()) =~= Seq::empty());
    assert(cil_lines(seq![sexp]) =~= seq![cil(sexp)]);
    assert(cil_lines(sexps.push(sexp)) =~= cil_lines(sexps).push(cil(sexp)));
}

/// The CIL of every s-expression of a policy is in the CIL of the policy.
pub proof fn lemma_sexp_is_in_policy(sexps: Seq<Sexp>, i: int) -> (start: int)
    requires
        0 <= i < sexps.len(),
    ensures
        0 <= start,
        start + cil(sexps[i]).len() <= cil_policy(sexps).len(),
        cil_policy(sexps).subrange(start, start + cil(sexps[i]).len()) == cil(sexps[i]),
{
    assert(cil_lines(sexps)[i] == cil(sexps[i]));
    lemma_part_is_in_joined(cil_lines(sexps), "\n"@, i)
}

} // verus!
