//! The package inventory: the names that the package manager prints, one to
//! a line, when asked for the installed packages by name only.

use vstd::prelude::*;
use vstd::utf8::{decode_utf8, valid_utf8};
use crate::text::{contents, decode, lines, split_lines};

verus! {

/// The lines that can be read as text: those before the first one that is
/// not UTF-8.
pub open spec fn readable(list: Seq<Seq<u8>>) -> Seq<Seq<u8>>
    decreases list.len(),
{
    if list.len() == 0 || !valid_utf8(list[0]) {
        Seq::empty()
    } else {
        seq![list[0]] + readable(list.drop_first())
    }
}

/// The names that a list of lines holds: the empty lines left out, the
/// others as text, in the order of the list.
pub open spec fn names_in(list: Seq<Seq<u8>>) -> Seq<Seq<char>> {
    list.filter(|line: Seq<u8>| line.len() > 0).map_values(|line: Seq<u8>| decode_utf8(line))
}

/// The inventory that the package manager's output stands for: the names in
/// its readable lines.
pub open spec fn package_names(output: Seq<u8>) -> Seq<Seq<char>> {
    names_in(readable(lines(output)))
}

/// One more line adds its text to the names if it holds a byte, and nothing
/// otherwise.
pub proof fn lemma_names_in_push(list: Seq<Seq<u8>>, line: Seq<u8>)
    ensures
        names_in(list.push(line)) == if line.len() > 0 {
            names_in(list).push(decode_utf8(line))
        } else {
            names_in(list)
        },
{
    let longer = list.push(line);
    assert(longer.drop_last() =~= list);
    assert(longer.last() == line);
    reveal_with_fuel(Seq::filter, 2);
    if line.len() > 0 {
        assert(names_in(longer) =~= names_in(list).push(decode_utf8(line)));
    }
}

/// The readable lines of a list are its first `n`, where those are all
/// UTF-8 and the one after them, if there is one, is not.
pub proof fn lemma_readable_prefix(list: Seq<Seq<u8>>, n: int)
    requires
        0 <= n <= list.len(),
        forall|i: int| 0 <= i < n ==> valid_utf8(#[trigger] list[i]),
        n < list.len() ==> !valid_utf8(list[n]),
    ensures
        readable(list) == list.take(n),
    decreases list.len(),
{
    if n == 0 {
        assert(list.take(0) =~= Seq::<Seq<u8>>::empty());
    } else {
        let rest = list.drop_first();
        assert forall|i: int| 0 <= i < n - 1 implies valid_utf8(#[trigger] rest[i]) by {
            assert(rest[i] == list[i + 1]);
        }
        lemma_readable_prefix(rest, n - 1);
        assert(list.take(n) =~= seq![list[0]] + rest.take(n - 1));
    }
}

/// Reads the inventory out of what the package manager printed.
pub fn packages(output: &[u8]) -> (names: Vec<String>)
    ensures
        names.deep_view() == package_names(output@),
{
    let list = split_lines(output);
    let ghost all = lines(output@);
    let mut names: Vec<String> = Vec::new();
    let mut at: usize = 0;
    assert(all.take(0) =~= Seq::<Seq<u8>>::empty());
    assert(names.deep_view() =~= names_in(all.take(0)));
    while at < list.len()
        invariant
            at <= list.len(),
            all == lines(output@),
            contents(list@) == all,
            forall|i: int| 0 <= i < at ==> valid_utf8(#[trigger] all[i]),
            names.deep_view() == names_in(all.take(at as int)),
        decreases list.len() - at,
    {
        let line = list[at];
        assert(line@ == all[at as int]);
        proof {
            lemma_names_in_push(all.take(at as int), line@);
            assert(all.take(at + 1) =~= all.take(at as int).push(line@));
        }
        match decode(line) {
            None => {
                proof {
                    lemma_readable_prefix(all, at as int);
                }
                return names;
            },
            Some(name) => {
                if line.len() > 0 {
                    let ghost before = names.deep_view();
                    names.push(name);
                    assert(names.deep_view() =~= before.push(decode_utf8(line@)));
                }
            },
        }
        at += 1;
    }
    proof {
        lemma_readable_prefix(all, at as int);
        assert(all.take(at as int) =~= all);
    }
    names
}

/// The places of a list that `at` picks are exactly those of its lines that
/// hold a byte, each once and in rising order.
pub open spec fn picks_non_empty(list: Seq<Seq<u8>>, at: Seq<int>) -> bool {
    &&& forall|i: int| 0 <= i < at.len() ==> 0 <= #[trigger] at[i] < list.len()
    &&& forall|i: int| 0 <= i < at.len() ==> list[#[trigger] at[i]].len() > 0
    &&& forall|i: int, j: int| 0 <= i < j < at.len() ==> #[trigger] at[i] < #[trigger] at[j]
    &&& forall|k: int| 0 <= k < list.len() && (#[trigger] list[k]).len() > 0 ==> at.contains(k)
}

/// Every readable line is UTF-8.
pub proof fn lemma_readable_is_text(list: Seq<Seq<u8>>)
    ensures
        forall|i: int| 0 <= i < readable(list).len() ==> valid_utf8(#[trigger] readable(list)[i]),
    decreases list.len(),
{
    if list.len() != 0 && valid_utf8(list[0]) {
        let rest = readable(list.drop_first());
        lemma_readable_is_text(list.drop_first());
        assert forall|i: int| 0 <= i < readable(list).len() implies valid_utf8(
            #[trigger] readable(list)[i],
        ) by {
            if i > 0 {
                assert(readable(list)[i] == rest[i - 1]);
            }
        }
    }
}

/// The names in a list are its lines that hold a byte, none left out and
/// none moved: the result names the places they were taken from.
pub proof fn lemma_names_in_order(list: Seq<Seq<u8>>) -> (at: Seq<int>)
    ensures
        picks_non_empty(list, at),
        names_in(list).len() == at.len(),
        forall|i: int| 0 <= i < at.len() ==> names_in(list)[i] == decode_utf8(list[#[trigger] at[i]]),
    decreases list.len(),
{
    if list.len() == 0 {
        assert(names_in(list) =~= Seq::<Seq<char>>::empty());
        Seq::empty()
    } else {
        let front = list.drop_last();
        let last = list.last();
        let before = lemma_names_in_order(front);
        assert(list =~= front.push(last));
        lemma_names_in_push(front, last);
        let at = if last.len() > 0 {
            before.push(list.len() - 1)
        } else {
            before
        };
        assert forall|k: int| 0 <= k < list.len() && (#[trigger] list[k]).len() > 0 implies at.contains(
            k,
        ) by {
            if k < front.len() {
                assert(front[k] == list[k]);
                let i = choose|i: int| 0 <= i < before.len() && before[i] == k;
                assert(at[i] == k);
            } else {
                assert(at[at.len() - 1] == k);
            }
        }
        assert forall|i: int| 0 <= i < at.len() implies names_in(list)[i] == decode_utf8(
            list[#[trigger] at[i]],
        ) by {
            if i < before.len() {
                assert(at[i] == before[i]);
                assert(list[before[i]] == front[before[i]]);
            }
        }
        at
    }
}

/// No name of the inventory is empty, and the names are the non-empty
/// readable lines of the output in the order in which they were printed.
pub proof fn lemma_package_names(output: Seq<u8>) -> (at: Seq<int>)
    ensures
        forall|i: int|
            0 <= i < package_names(output).len() ==> (#[trigger] package_names(output)[i]).len()
                > 0,
        picks_non_empty(readable(lines(output)), at),
        package_names(output).len() == at.len(),
        forall|i: int|
            0 <= i < at.len() ==> package_names(output)[i] == decode_utf8(
                readable(lines(output))[#[trigger] at[i]],
            ),
{
    let list = readable(lines(output));
    let at = lemma_names_in_order(list);
    lemma_readable_is_text(lines(output));
    assert forall|i: int| 0 <= i < package_names(output).len() implies (
    #[trigger] package_names(output)[i]).len() > 0 by {
        let line = list[at[i]];
        assert(valid_utf8(line) && line.len() > 0);
        assert(decode_utf8(line).len() > 0);
    }
    at
}

/// Where every line of the output is text, nothing is cut short: the names
/// are all the non-empty lines of the output, in the order in which they
/// were printed, and the empty lines are gone.
pub proof fn lemma_package_names_of_text(output: Seq<u8>) -> (at: Seq<int>)
    requires
        forall|i: int| 0 <= i < lines(output).len() ==> valid_utf8(#[trigger] lines(output)[i]),
    ensures
        forall|i: int|
            0 <= i < package_names(output).len() ==> (#[trigger] package_names(output)[i]).len()
                > 0,
        picks_non_empty(lines(output), at),
        package_names(output).len() == at.len(),
        forall|i: int|
            0 <= i < at.len() ==> package_names(output)[i] == decode_utf8(
                lines(output)[#[trigger] at[i]],
            ),
{
    let all = lines(output);
    lemma_readable_prefix(all, all.len() as int);
    assert(all.take(all.len() as int) =~= all);
    lemma_package_names(output)
}

} // verus!
