//! Laws about lines of plain words.
//!
//! A character is *plain* when the tokenizer gives it no meaning: it is not
//! whitespace, not a quote, not a backslash and not a redirection operator.
//! For input made of plain characters and whitespace the tokenizer is
//! ordinary field splitting, and splitting is all that happens
//! ([`lemma_tokenize_plain`]). From that follows the round trip: re-joining
//! the tokens of a line with single spaces and tokenizing again gives the
//! same tokens back, provided every token is made of plain characters
//! ([`lemma_retokenize_idempotent`]).

use crate::cmd::spec_join_spaces;
use crate::parse::{
    is_shell_ws, spec_init, spec_run, spec_step, spec_tokenize, FdMerge, Fsm, LexErr, LexSpec,
    RedirectionFsm, RedirectionMode, StreamSpec, TokensSpec,
};
use vstd::prelude::*;

verus! {

/// A character the tokenizer treats as an ordinary word character.
pub open spec fn is_plain(c: char) -> bool {
    &&& !is_shell_ws(c)
    &&& c != '\''
    &&& c != '"'
    &&& c != '\\'
    &&& c != '>'
    &&& c != '&'
}

/// Every character of the sequence is plain.
pub open spec fn all_plain(s: Seq<char>) -> bool {
    forall|j: int| 0 <= j < s.len() ==> is_plain(#[trigger] s[j])
}

/// Every character of the sequence is plain or whitespace.
pub open spec fn plain_or_ws(s: Seq<char>) -> bool {
    forall|j: int| 0 <= j < s.len() ==> is_plain(#[trigger] s[j]) || is_shell_ws(s[j])
}

/// The words completed while field-splitting `rest` with `item` already
/// accumulated: a word ends at each whitespace character, empty words are
/// dropped.
pub open spec fn words_done(item: Seq<char>, rest: Seq<char>) -> Seq<Seq<char>>
    decreases rest.len(),
{
    if rest.len() == 0 {
        Seq::empty()
    } else if is_shell_ws(rest[0]) {
        (if item.len() > 0 {
            seq![item]
        } else {
            Seq::<Seq<char>>::empty()
        }) + words_done(Seq::empty(), rest.drop_first())
    } else {
        words_done(item.push(rest[0]), rest.drop_first())
    }
}

/// The word still open after field-splitting `rest` with `item` already
/// accumulated.
pub open spec fn word_tail(item: Seq<char>, rest: Seq<char>) -> Seq<char>
    decreases rest.len(),
{
    if rest.len() == 0 {
        item
    } else if is_shell_ws(rest[0]) {
        word_tail(Seq::empty(), rest.drop_first())
    } else {
        word_tail(item.push(rest[0]), rest.drop_first())
    }
}

/// The whitespace-split words of a sequence: maximal non-whitespace runs.
pub open spec fn split_words(s: Seq<char>) -> Seq<Seq<char>> {
    words_done(Seq::empty(), s) + (if word_tail(Seq::empty(), s).len() > 0 {
        seq![word_tail(Seq::empty(), s)]
    } else {
        Seq::<Seq<char>>::empty()
    })
}

/// Splitting a run without whitespace completes no word and extends the
/// open one.
proof fn lemma_plain_word(item: Seq<char>, w: Seq<char>)
    requires
        all_plain(w),
    ensures
        words_done(item, w) == Seq::<Seq<char>>::empty(),
        word_tail(item, w) == item + w,
    decreases w.len(),
{
    if w.len() == 0 {
        assert(item + w =~= item);
    } else {
        assert(is_plain(w[0]));
        lemma_plain_word(item.push(w[0]), w.drop_first());
        assert(item.push(w[0]) + w.drop_first() =~= item + w);
    }
}

/// Field splitting cuts at concatenations.
proof fn lemma_words_append(item: Seq<char>, a: Seq<char>, b: Seq<char>)
    ensures
        words_done(item, a + b) == words_done(item, a) + words_done(word_tail(item, a), b),
        word_tail(item, a + b) == word_tail(word_tail(item, a), b),
    decreases a.len(),
{
    if a.len() == 0 {
        assert(a + b =~= b);
        assert(words_done(item, a) + words_done(word_tail(item, a), b) =~= words_done(item, b));
    } else {
        assert((a + b)[0] == a[0]);
        assert((a + b).drop_first() =~= a.drop_first() + b);
        if is_shell_ws(a[0]) {
            lemma_words_append(Seq::empty(), a.drop_first(), b);
            assert(words_done(item, a + b) =~= words_done(item, a) + words_done(
                word_tail(item, a),
                b,
            ));
        } else {
            lemma_words_append(item.push(a[0]), a.drop_first(), b);
        }
    }
}

/// On plain and whitespace characters the tokenizer only field-splits: it
/// stays unquoted, touches no redirection, and its word lists follow
/// [`words_done`] and [`word_tail`].
proof fn lemma_plain_run(s: LexSpec, input: Seq<char>, i: int)
    requires
        0 <= i <= input.len(),
        forall|j: int|
            i <= j < input.len() ==> is_plain(#[trigger] input[j]) || is_shell_ws(input[j]),
        s.state == Fsm::Unquoted,
        s.sel == RedirectionFsm::Inactive,
    ensures
        spec_run(s, input, i) == Ok::<LexSpec, LexErr>(
            LexSpec {
                items: s.items + words_done(s.item, input.subrange(i, input.len() as int)),
                item: word_tail(s.item, input.subrange(i, input.len() as int)),
                sel: RedirectionFsm::Inactive,
                out: s.out,
                err: s.err,
                merge: s.merge,
                state: Fsm::Unquoted,
            },
        ),
    decreases input.len() - i,
{
    let rest = input.subrange(i, input.len() as int);
    if i == input.len() {
        assert(s.items + words_done(s.item, rest) =~= s.items);
        assert((LexSpec {
            items: s.items + words_done(s.item, rest),
            item: word_tail(s.item, rest),
            sel: RedirectionFsm::Inactive,
            out: s.out,
            err: s.err,
            merge: s.merge,
            state: Fsm::Unquoted,
        }) =~= s);
    } else {
        let c = input[i];
        assert(c == rest[0]);
        assert(rest.drop_first() =~= input.subrange(i + 1, input.len() as int));
        let rest1 = input.subrange(i + 1, input.len() as int);
        if is_shell_ws(c) {
            let s1 = crate::parse::spec_ws_flush(s);
            assert(spec_step(s, input, i) == Ok::<(LexSpec, int), LexErr>((s1, 1)));
            assert(s1.state == Fsm::Unquoted && s1.sel == RedirectionFsm::Inactive);
            lemma_plain_run(s1, input, i + 1);
            assert(spec_run(s, input, i) == spec_run(s1, input, i + 1));
            assert(s1.item =~= Seq::<char>::empty());
            if s.item.len() > 0 {
                assert(s1.items =~= s.items.push(s.item));
                assert(words_done(s.item, rest) == seq![s.item] + words_done(
                    Seq::empty(),
                    rest1,
                ));
                assert(s.items + words_done(s.item, rest) =~= s1.items + words_done(
                    Seq::empty(),
                    rest1,
                ));
            } else {
                assert(s.items + words_done(s.item, rest) =~= s1.items + words_done(
                    Seq::empty(),
                    rest1,
                ));
            }
            assert(word_tail(s.item, rest) == word_tail(s1.item, rest1));
            assert(s1.items + words_done(s1.item, rest1) == s.items + words_done(s.item, rest));
        } else {
            assert(is_plain(c));
            let s1 = LexSpec { item: s.item.push(c), ..s };
            assert(spec_step(s, input, i) == Ok::<(LexSpec, int), LexErr>((s1, 1)));
            lemma_plain_run(s1, input, i + 1);
            assert(spec_run(s, input, i) == spec_run(s1, input, i + 1));
            assert(words_done(s.item, rest) == words_done(s1.item, rest1));
            assert(word_tail(s.item, rest) == word_tail(s1.item, rest1));
        }
    }
}

/// A line of plain words and whitespace tokenizes to exactly its
/// whitespace-split words: runs of whitespace collapse to one separator,
/// every word survives unchanged, and no redirection is produced.
pub proof fn lemma_tokenize_plain(input: Seq<char>)
    requires
        plain_or_ws(input),
    ensures
        spec_tokenize(input) == Ok::<TokensSpec, LexErr>(
            TokensSpec {
                items: split_words(input),
                out: StreamSpec { mode: RedirectionMode::Off, targets: Seq::empty() },
                err: StreamSpec { mode: RedirectionMode::Off, targets: Seq::empty() },
                merge: FdMerge::Off,
            },
        ),
{
    lemma_plain_run(spec_init(), input, 0);
    let rest = input.subrange(0, input.len() as int);
    assert(rest =~= input);
    let end = spec_run(spec_init(), input, 0)->Ok_0;
    assert(end.items =~= words_done(Seq::empty(), input));
    if end.item.len() > 0 {
        assert(crate::parse::spec_push_word(end).items =~= split_words(input));
    } else {
        assert(end.items =~= split_words(input));
    }
}

/// Joining plain words with spaces yields only plain and whitespace
/// characters.
proof fn lemma_join_plain_ws(items: Seq<Seq<char>>)
    requires
        forall|k: int| 0 <= k < items.len() ==> all_plain(#[trigger] items[k]),
    ensures
        plain_or_ws(spec_join_spaces(items)),
    decreases items.len(),
{
    if items.len() == 0 {
    } else if items.len() == 1 {
        assert(all_plain(items[0]));
        assert(forall|j: int|
            0 <= j < items[0].len() ==> is_plain(#[trigger] spec_join_spaces(items)[j]));
    } else {
        let pre = items.drop_last();
        lemma_join_plain_ws(pre);
        let a = spec_join_spaces(pre);
        let joined = a + seq![' '] + items.last();
        assert(all_plain(items.last()));
        assert forall|j: int| 0 <= j < joined.len() implies is_plain(#[trigger] joined[j])
            || is_shell_ws(joined[j]) by {
            if j < a.len() {
                assert(joined[j] == a[j]);
            } else if j == a.len() {
                assert(joined[j] == ' ');
            } else {
                assert(joined[j] == items.last()[j - a.len() - 1]);
            }
        }
    }
}

/// Splitting the space-join of non-empty plain words recovers the words.
proof fn lemma_join_split(items: Seq<Seq<char>>)
    requires
        items.len() > 0,
        forall|k: int| 0 <= k < items.len() ==> #[trigger] items[k].len() > 0,
        forall|k: int| 0 <= k < items.len() ==> all_plain(#[trigger] items[k]),
    ensures
        words_done(Seq::empty(), spec_join_spaces(items)) == items.drop_last(),
        word_tail(Seq::empty(), spec_join_spaces(items)) == items.last(),
    decreases items.len(),
{
    if items.len() == 1 {
        lemma_plain_word(Seq::empty(), items[0]);
        assert(Seq::<char>::empty() + items[0] =~= items[0]);
        assert(words_done(Seq::empty(), spec_join_spaces(items)) =~= items.drop_last());
    } else {
        let pre = items.drop_last();
        let a = spec_join_spaces(pre);
        let b = seq![' '] + items.last();
        assert(spec_join_spaces(items) =~= a + b);
        lemma_join_split(pre);
        lemma_words_append(Seq::empty(), a, b);
        assert(b[0] == ' ' && is_shell_ws(b[0]));
        assert(b.drop_first() =~= items.last());
        lemma_plain_word(Seq::empty(), items.last());
        assert(Seq::<char>::empty() + items.last() =~= items.last());
        assert(words_done(pre.last(), b) =~= seq![pre.last()]);
        assert(words_done(Seq::empty(), a + b) =~= pre.drop_last() + seq![pre.last()]);
        assert(pre.drop_last() + seq![pre.last()] =~= pre);
        assert(pre =~= items.drop_last());
        assert(word_tail(Seq::empty(), a + b) == word_tail(pre.last(), b));
        assert(word_tail(pre.last(), b) == items.last());
    }
}

/// Tokenizing the space-join of non-empty plain words gives exactly those
/// words, and no redirection.
pub proof fn lemma_rejoin_plain(items: Seq<Seq<char>>)
    requires
        forall|k: int| 0 <= k < items.len() ==> #[trigger] items[k].len() > 0,
        forall|k: int| 0 <= k < items.len() ==> all_plain(#[trigger] items[k]),
    ensures
        spec_tokenize(spec_join_spaces(items)) == Ok::<TokensSpec, LexErr>(
            TokensSpec {
                items: items,
                out: StreamSpec { mode: RedirectionMode::Off, targets: Seq::empty() },
                err: StreamSpec { mode: RedirectionMode::Off, targets: Seq::empty() },
                merge: FdMerge::Off,
            },
        ),
{
    lemma_join_plain_ws(items);
    lemma_tokenize_plain(spec_join_spaces(items));
    if items.len() == 0 {
        assert(split_words(spec_join_spaces(items)) =~= items);
    } else {
        lemma_join_split(items);
        assert(split_words(spec_join_spaces(items)) =~= items.drop_last() + seq![items.last()]);
        assert(items.drop_last() + seq![items.last()] =~= items);
    }
}

/// Each step of the tokenizer files only non-empty words.
proof fn lemma_run_nonempty(s: LexSpec, input: Seq<char>, i: int)
    requires
        forall|k: int| 0 <= k < s.items.len() ==> #[trigger] s.items[k].len() > 0,
        spec_run(s, input, i) is Ok,
    ensures
        forall|k: int|
            0 <= k < spec_run(s, input, i)->Ok_0.items.len()
                ==> #[trigger] spec_run(s, input, i)->Ok_0.items[k].len() > 0,
    decreases input.len() - i,
{
    if i < 0 || i >= input.len() {
    } else {
        let step = spec_step(s, input, i);
        match step {
            Ok((s1, n)) => {
                assert(s1.items == s.items || (s1.items == s.items.push(s.item) && s.item.len()
                    > 0));
                let j = if i + 1 <= i + n <= input.len() {
                    i + n
                } else {
                    i + 1
                };
                lemma_run_nonempty(s1, input, j);
            }
            Err(e) => {}
        }
    }
}

/// Every token a successful tokenize yields is non-empty.
pub proof fn lemma_tokens_nonempty(input: Seq<char>)
    requires
        spec_tokenize(input) is Ok,
    ensures
        forall|k: int|
            0 <= k < spec_tokenize(input)->Ok_0.items.len()
                ==> #[trigger] spec_tokenize(input)->Ok_0.items[k].len() > 0,
{
    lemma_run_nonempty(spec_init(), input, 0);
}

/// Tokenizing, re-joining the tokens with single spaces, and tokenizing the
/// joined line again yields the same tokens, in the same order — for lines
/// whose tokens hold only plain characters, so that re-joining loses no
/// quoting.
pub proof fn lemma_retokenize_idempotent(input: Seq<char>)
    requires
        spec_tokenize(input) is Ok,
        forall|k: int|
            0 <= k < spec_tokenize(input)->Ok_0.items.len()
                ==> all_plain(#[trigger] spec_tokenize(input)->Ok_0.items[k]),
    ensures
        spec_tokenize(spec_join_spaces(spec_tokenize(input)->Ok_0.items)) is Ok,
        spec_tokenize(spec_join_spaces(spec_tokenize(input)->Ok_0.items))->Ok_0.items
            == spec_tokenize(input)->Ok_0.items,
{
    lemma_tokens_nonempty(input);
    lemma_rejoin_plain(spec_tokenize(input)->Ok_0.items);
}

} // verus!
