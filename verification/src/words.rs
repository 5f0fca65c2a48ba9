use vstd::prelude::*;
use vstd::string::*;

verus! {

/// `String::push` appends the character to the end of the string and leaves
/// the characters before it as they were.
pub assume_specification[ String::push ](s: &mut String, c: char)
    ensures
        final(s)@ == old(s)@.push(c),
;

/// The entries of a newline-delimited text: the runs of characters between
/// its newlines. A text without a newline is one entry; a text that ends in a
/// newline ends in an empty entry.
pub open spec fn entries(text: Seq<char>) -> Seq<Seq<char>>
    decreases text.len(),
{
    if text.len() == 0 {
        seq![Seq::empty()]
    } else {
        let before = entries(text.drop_last());
        if text.last() == '\n' {
            before.push(Seq::empty())
        } else {
            before.drop_last().push(before.last().push(text.last()))
        }
    }
}

/// The entries, in their order, that are `columns` characters long.
pub open spec fn of_length(list: Seq<Seq<char>>, columns: nat) -> Seq<Seq<char>>
    decreases list.len(),
{
    if list.len() == 0 {
        list
    } else {
        let earlier = of_length(list.drop_last(), columns);
        if list.last().len() == columns {
            earlier.push(list.last())
        } else {
            earlier
        }
    }
}

/// The word list that a text holds for a board of `columns` columns.
pub open spec fn load_words_spec(text: Seq<char>, columns: nat) -> Seq<Seq<char>> {
    of_length(entries(text), columns)
}

/// The words of a list as sequences of characters.
pub open spec fn words_view(words: Seq<String>) -> Seq<Seq<char>> {
    Seq::new(words.len(), |i: int| words[i]@)
}

/// A text always has at least one entry, none of its entries holds a
/// newline, and joining them with newlines gives the text back.
pub proof fn lemma_entries(text: Seq<char>)
    ensures
        entries(text).len() >= 1,
        forall|i: int, j: int|
            0 <= i < entries(text).len() && 0 <= j < entries(text)[i].len() ==> entries(
                text,
            )[i][j] != '\n',
        joined(entries(text)) == text,
    decreases text.len(),
{
    if text.len() > 0 {
        let init = text.drop_last();
        lemma_entries(init);
        let before = entries(init);
        if text.last() == '\n' {
            let now = before.push(Seq::empty());
            assert(now.drop_last() == before);
            assert(joined(now) == joined(before).push('\n') + Seq::<char>::empty());
            assert(init.push('\n') == text);
        } else {
            let grown = before.last().push(text.last());
            let now = before.drop_last().push(grown);
            assert(now.drop_last() == before.drop_last());
            assert(now.last() == grown);
            if before.len() == 1 {
                assert(joined(before) == before.last());
                assert(joined(now) == grown);
            } else {
                assert(joined(before) == joined(before.drop_last()).push('\n') + before.last());
                assert(joined(now) == joined(before.drop_last()).push('\n') + grown);
                assert(joined(before.drop_last()).push('\n') + grown == (joined(
                    before.drop_last(),
                ).push('\n') + before.last()).push(text.last()));
            }
            assert(init.push(text.last()) == text);
        }
    } else {
        let only = seq![Seq::<char>::empty()];
        assert(joined(only) == only.last());
    }
}

/// The entries of a list written one after the other with a newline between
/// each two.
pub open spec fn joined(list: Seq<Seq<char>>) -> Seq<char>
    decreases list.len(),
{
    if list.len() == 0 {
        Seq::empty()
    } else if list.len() == 1 {
        list.last()
    } else {
        joined(list.drop_last()).push('\n') + list.last()
    }
}

/// Every word that is kept is an entry of the list and has the asked length.
pub proof fn lemma_of_length(list: Seq<Seq<char>>, columns: nat)
    ensures
        forall|i: int|
            0 <= i < of_length(list, columns).len() ==> (#[trigger] of_length(
                list,
                columns,
            )[i]).len() == columns && list.contains(of_length(list, columns)[i]),
        forall|j: int|
            0 <= j < list.len() && (#[trigger] list[j]).len() == columns ==> of_length(
                list,
                columns,
            ).contains(list[j]),
    decreases list.len(),
{
    if list.len() > 0 {
        let init = list.drop_last();
        lemma_of_length(init, columns);
        let earlier = of_length(init, columns);
        let kept = of_length(list, columns);
        assert forall|i: int| 0 <= i < kept.len() implies (#[trigger] kept[i]).len() == columns
            && list.contains(kept[i]) by {
            if i < earlier.len() {
                assert(init.contains(earlier[i]));
                let j = choose|j: int| 0 <= j < init.len() && init[j] == earlier[i];
                assert(list[j] == earlier[i]);
            } else {
                assert(list[list.len() - 1] == kept[i]);
            }
        }
        assert forall|j: int| 0 <= j < list.len() && (#[trigger] list[j]).len()
            == columns implies kept.contains(list[j]) by {
            if j < init.len() {
                assert(init[j] == list[j]);
                assert(earlier.contains(init[j]));
                let i = choose|i: int| 0 <= i < earlier.len() && earlier[i] == init[j];
                assert(kept[i] == list[j]);
            } else {
                assert(kept[kept.len() - 1] == list[j]);
            }
        }
    }
}

/// Reads a word list from a newline-delimited text: the entries that are
/// `columns` characters long, in their order.
pub fn load_words(contents: &str, columns: usize) -> (words: Vec<String>)
    ensures
        words_view(words@) == load_words_spec(contents@, columns as nat),
{
    let total = contents.unicode_len();
    let mut words: Vec<String> = Vec::new();
    let mut entry = String::new();
    let mut length: usize = 0;
    proof {
        assert(contents@.take(0) == Seq::<char>::empty());
        assert(entries(contents@.take(0)).drop_last() == Seq::<Seq<char>>::empty());
        assert(words_view(words@) == Seq::<Seq<char>>::empty());
    }
    for c in it: contents.chars()
        invariant
            it.seq() == contents@,
            total == contents@.len(),
            entries(contents@.take(it.index())).len() >= 1,
            entry@ == entries(contents@.take(it.index())).last(),
            length == entry@.len(),
            length <= it.index(),
            words_view(words@) == of_length(
                entries(contents@.take(it.index())).drop_last(),
                columns as nat,
            ),
    {
        let ghost i = it.index();
        let ghost before = entries(contents@.take(i));
        let ghost kept = words@;
        proof {
            let next = contents@.take(i + 1);
            assert(next.drop_last() == contents@.take(i));
            assert(next.last() == c);
        }
        if c == '\n' {
            proof {
                assert(before.push(Seq::empty()).drop_last() == before);
                assert(before.drop_last().push(before.last()) == before);
            }
            if length == columns {
                words.push(entry);
                assert(words_view(words@) == words_view(kept).push(entry@));
            }
            entry = String::new();
            length = 0;
        } else {
            entry.push(c);
            length = length + 1;
            proof {
                let now = before.drop_last().push(before.last().push(c));
                assert(now.drop_last() == before.drop_last());
            }
        }
    }
    proof {
        assert(contents@.take(contents@.len() as int) == contents@);
        let all = entries(contents@);
        assert(all.drop_last().push(all.last()) == all);
    }
    let ghost kept = words@;
    if length == columns {
        words.push(entry);
        assert(words_view(words@) == words_view(kept).push(entry@));
    }
    words
}

/// Whether the list holds `word`.
pub fn contains_word(words: &Vec<String>, word: &String) -> (found: bool)
    ensures
        found == words_view(words@).contains(word@),
{
    let mut i: usize = 0;
    while i < words.len()
        invariant
            i <= words.len(),
            forall|j: int| 0 <= j < i ==> words_view(words@)[j] != word@,
        decreases words.len() - i,
    {
        if words[i] == *word {
            assert(words_view(words@)[i as int] == word@);
            return true;
        }
        i = i + 1;
    }
    false
}

} // verus!
