//! Texts: sequences of characters, lists of them, and how they are joined.
use vstd::prelude::*;

verus! {

/// The texts that a list of strings holds.
pub open spec fn texts(list: Seq<String>) -> Seq<Seq<char>> {
    list.map_values(|s: String| s@)
}

/// The texts in `parts`, one after the other, with `sep` between any two neighbours.
pub open spec fn joined(parts: Seq<Seq<char>>, sep: Seq<char>) -> Seq<char>
    decreases parts.len(),
{
    if parts.len() == 0 {
        Seq::empty()
    } else if parts.len() == 1 {
        parts[0]
    } else {
        joined(parts.drop_last(), sep) + sep + parts.last()
    }
}

/// Joining two lists that both hold something joins their joined texts.
pub proof fn lemma_joined_concat(left: Seq<Seq<char>>, right: Seq<Seq<char>>, sep: Seq<char>)
    requires
        left.len() > 0,
        right.len() > 0,
    ensures
        joined(left + right, sep) == joined(left, sep) + sep + joined(right, sep),
    decreases right.len(),
{
    let both = left + right;
    assert(both.last() == right.last());
    if right.len() == 1 {
        assert(both.drop_last() =~= left);
    } else {
        assert(both.drop_last() =~= left + right.drop_last());
        lemma_joined_concat(left, right.drop_last(), sep);
    }
}

/// A list of strings holds one text for each string, at the place of the string.
pub proof fn lemma_texts(list: Seq<String>)
    ensures
        texts(list).len() == list.len(),
        forall|i: int| 0 <= i < list.len() ==> #[trigger] texts(list)[i] == list[i]@,
{
}

/// What joining does to a list that grows: nothing joined is nothing, a single text stands as it
/// is, and any further text follows behind a separator.
pub proof fn lemma_joined_grows(list: Seq<Seq<char>>, text: Seq<char>, sep: Seq<char>)
    ensures
        joined(Seq::empty(), sep) == Seq::<char>::empty(),
        joined(seq![text], sep) == text,
        list.len() > 0 ==> joined(list.push(text), sep) == joined(list, sep) + sep + text,
{
    assert(list.push(text).drop_last() =~= list);
    assert(list.push(text).last() == text);
}

/// Every text that is joined is in the result, from some place on.
pub proof fn lemma_part_is_in_joined(parts: Seq<Seq<char>>, sep: Seq<char>, i: int) -> (start: int)
    requires
        0 <= i < parts.len(),
    ensures
        0 <= start,
        start + parts[i].len() <= joined(parts, sep).len(),
        joined(parts, sep).subrange(start, start + parts[i].len()) == parts[i],
    decreases parts.len(),
{
    let all = joined(parts, sep);
    if parts.len() == 1 {
        assert(all.subrange(0, parts[i].len() as int) =~= parts[i]);
        0
    } else if i == parts.len() - 1 {
        let start = all.len() - parts[i].len();
        assert(all.subrange(start, start + parts[i].len()) =~= parts[i]);
        start
    } else {
        let fewer = parts.drop_last();
        let start = lemma_part_is_in_joined(fewer, sep, i);
        let before = joined(fewer, sep);
        assert(all.subrange(start, start + parts[i].len()) =~= before.subrange(
            start,
            start + parts[i].len(),
        ));
        start
    }
}

/// The texts in a list with one more text behind the others.
pub proof fn lemma_push_to_set(list: Seq<Seq<char>>, text: Seq<char>)
    ensures
        list.push(text).to_set() == list.to_set().insert(text),
{
    let more = list.push(text);
    assert forall|t: Seq<char>| more.contains(t) == (list.contains(t) || t == text) by {
        if list.contains(t) {
            assert(more[list.index_of(t)] == t);
        }
        assert(more[list.len() as int] == text);
    }
    assert(more.to_set() =~= list.to_set().insert(text));
}

/// Joins the strings in `parts` with `sep` between any two neighbours.
pub fn join(parts: &Vec<String>, sep: &str) -> (text: String)
    ensures
        text@ == joined(texts(parts@), sep@),
{
    let mut text = String::new();
    let ghost all = texts(parts@);
    for i in 0..parts.len()
        invariant
            all == texts(parts@),
            text@ == joined(all.take(i as int), sep@),
    {
        proof {
            assert(all.take(i + 1).drop_last() =~= all.take(i as int));
            assert(all.take(i + 1).last() == parts@[i as int]@);
        }
        if i > 0 {
            text.append(sep);
        }
        text.append(parts[i].as_str());
    }
    assert(all.take(parts@.len() as int) =~= all);
    text
}

/// Whether `text` is one of the strings in `list`.
pub fn contains_text(list: &Vec<String>, text: &String) -> (found: bool)
    ensures
        found == texts(list@).contains(text@),
{
    for i in 0..list.len()
        invariant
            forall|j: int| 0 <= j < i ==> texts(list@)[j] != text@,
    {
        if list[i] == *text {
            assert(texts(list@)[i as int] == text@);
            return true;
        }
    }
    false
}

/// A copy of a list of strings, text by text.
pub fn copy_texts(list: &Vec<String>) -> (copy: Vec<String>)
    ensures
        copy@ == list@,
{
    let mut copy: Vec<String> = Vec::new();
    for i in 0..list.len()
        invariant
            copy@ == list@.take(i as int),
    {
        copy.push(list[i].clone());
        assert(list@.take(i + 1) =~= list@.take(i as int).push(list@[i as int]));
    }
    assert(list@.take(list@.len() as int) =~= list@);
    copy
}

} // verus!
