//! What is known of each word of a language, and how it changes.

use vstd::prelude::*;
use crate::model::{Method, WordInfo, WordInfoView};
use crate::str_map::StrMap;
use crate::lines::{lines_of, text_lines};
use crate::time::{current_time, Timestamp};

verus! {

/// The knowledge given to a word first met at `now` with `rating` by `method`.
pub open spec fn first_knowledge(rating: i8, method: Method, now: Timestamp) -> WordInfoView {
    WordInfoView { rating, method, history: seq![(now, method, rating)] }
}

/// The texts of the first `n` lines, or of all of them when there are fewer.
pub open spec fn leading_texts(lines: Seq<String>, n: nat) -> Seq<Seq<char>> {
    lines.take(if n <= lines.len() { n as int } else { lines.len() as int }).map_values(
        |s: String| s@,
    )
}

/// The words of `after` are those of `before` that were not known by frequency, and the
/// words of `list`; each word of `list` is known with rating 5 by frequency as of `now`,
/// and every other word keeps what was known of it.
pub open spec fn frequency_list_applied(
    before: Map<Seq<char>, WordInfo>,
    after: Map<Seq<char>, WordInfo>,
    list: Seq<Seq<char>>,
    now: Timestamp,
) -> bool {
    &&& forall|k: Seq<char>| #[trigger]
        after.dom().contains(k) == (list.contains(k) || (before.dom().contains(k)
            && before[k].method != Method::FromFrequency))
    &&& forall|k: Seq<char>| #[trigger]
        list.contains(k) ==> after[k]@ == first_knowledge(5, Method::FromFrequency, now)
    &&& forall|k: Seq<char>| #[trigger]
        after.dom().contains(k) && !list.contains(k) ==> after[k] == before[k]
}

/// Forgets the words known by frequency, then marks each of the first `words_known` lines
/// of a frequency list as a word known with rating 5 by frequency as of `now`.
pub fn apply_frequency_list(
    words: &mut StrMap<WordInfo>,
    lines: &Vec<String>,
    words_known: usize,
    now: Timestamp,
)
    ensures
        frequency_list_applied(old(words)@, final(words)@, leading_texts(lines@, words_known as nat), now),
{
    let keep = |w: &WordInfo| -> (r: bool)
        ensures
            r == (w.method != Method::FromFrequency),
        { w.method != Method::FromFrequency };
    words.retain(keep);
    let ghost kept = words@;
    let n: usize = if words_known <= lines.len() {
        words_known
    } else {
        lines.len()
    };
    let ghost list = leading_texts(lines@, words_known as nat);
    let mut i: usize = 0;
    while i < n
        invariant
            n <= lines@.len(),
            list == lines@.take(n as int).map_values(|s: String| s@),
            0 <= i <= n,
            forall|k: Seq<char>| #[trigger]
                kept.dom().contains(k) ==> old(words)@.dom().contains(k)
                    && old(words)@[k].method != Method::FromFrequency && kept[k] == old(words)@[k],
            forall|k: Seq<char>| #[trigger]
                old(words)@.dom().contains(k) && old(words)@[k].method != Method::FromFrequency
                    ==> kept.dom().contains(k),
            forall|k: Seq<char>| #[trigger]
                words@.dom().contains(k) == (list.take(i as int).contains(k) || kept.dom().contains(k)),
            forall|k: Seq<char>| #[trigger]
                list.take(i as int).contains(k) ==> words@[k]@ == first_knowledge(5, Method::FromFrequency, now),
            forall|k: Seq<char>| #[trigger]
                words@.dom().contains(k) && !list.take(i as int).contains(k) ==> words@[k] == kept[k],
        decreases n - i,
    {
        let word = lines[i].clone();
        let ghost w = word@;
        let ghost prev = words@;
        words.insert(word, WordInfo::first_rated(5, Method::FromFrequency, now));
        proof {
            assert(list[i as int] == w);
            assert(list.take(i + 1) =~= list.take(i as int).push(w));
            assert forall|k: Seq<char>| #[trigger] list.take(i + 1).contains(k) implies words@[k]@
                == first_knowledge(5, Method::FromFrequency, now) by {
                if k != w {
                    let j = list.take(i + 1).index_of(k);
                    assert(list.take(i as int)[j] == k);
                    assert(list.take(i as int).contains(k));
                    assert(prev[k]@ == first_knowledge(5, Method::FromFrequency, now));
                }
            }
            assert forall|k: Seq<char>| #[trigger] words@.dom().contains(k) == (list.take(i + 1).contains(k)
                || kept.dom().contains(k)) by {
                if k != w && list.take(i + 1).contains(k) {
                    let j = list.take(i + 1).index_of(k);
                    assert(list.take(i as int)[j] == k);
                    assert(list.take(i as int).contains(k));
                }
                if list.take(i as int).contains(k) {
                    let j = list.take(i as int).index_of(k);
                    assert(list.take(i + 1)[j] == k);
                }
                if k == w {
                    assert(list.take(i + 1)[i as int] == w);
                }
                assert(prev.dom().contains(k) == (list.take(i as int).contains(k) || kept.dom().contains(k)));
            }
            assert forall|k: Seq<char>| #[trigger] words@.dom().contains(k) && !list.take(i + 1).contains(k)
                implies words@[k] == kept[k] by {
                if list.take(i as int).contains(k) {
                    let j = list.take(i as int).index_of(k);
                    assert(list.take(i + 1)[j] == k);
                }
                if k == w {
                    assert(list.take(i + 1)[i as int] == w);
                }
                assert(k != w);
                assert(prev.dom().contains(k));
                assert(words@[k] == prev[k]);
            }
        }
        i = i + 1;
    }
    proof {
        assert(list.take(n as int) =~= list);
    }
}

/// Applies the frequency list held in `contents`, one word per line, marking its first
/// `words_known` words as known by frequency as of the current time. When the clock cannot
/// be read, nothing changes and `false` comes back.
pub fn update_words_known(words: &mut StrMap<WordInfo>, contents: &str, words_known: usize) -> (applied: bool)
    ensures
        !applied ==> *final(words) == *old(words),
        applied ==> exists|now: Timestamp| #![trigger now.is_valid()]
            now.is_valid() && frequency_list_applied(
                old(words)@,
                final(words)@,
                lines_of(contents@).take(
                    if words_known <= lines_of(contents@).len() {
                        words_known as int
                    } else {
                        lines_of(contents@).len() as int
                    },
                ),
                now,
            ),
{
    let now = match current_time() {
        Some(t) => t,
        None => return false,
    };
    let lines = text_lines(contents);
    apply_frequency_list(words, &lines, words_known, now);
    proof {
        let n = if words_known <= lines@.len() { words_known as int } else { lines@.len() as int };
        assert(lines@.take(n).map_values(|s: String| s@) =~= lines_of(contents@).take(n));
        assert(now.is_valid());
    }
    true
}

/// Looking up `lemma` in `before` gave `rating` and left `after`: a known word gives its
/// rating and changes nothing; a word not met before gives 0 and is recorded as seen with
/// rating 0 as of `now`.
pub open spec fn rating_looked_up(
    before: Map<Seq<char>, WordInfo>,
    after: Map<Seq<char>, WordInfo>,
    lemma: Seq<char>,
    now: Timestamp,
    rating: i8,
) -> bool {
    &&& before.dom().contains(lemma) ==> {
        &&& rating == before[lemma].rating
        &&& after == before
    }
    &&& !before.dom().contains(lemma) ==> {
        &&& rating == 0
        &&& after == before.insert(lemma, after[lemma])
        &&& after[lemma]@ == first_knowledge(0, Method::FromSeen, now)
    }
}

/// The rating of `lemma`; a word not met before is recorded as seen with rating 0 as of `now`.
pub fn rating_or_seen(words: &mut StrMap<WordInfo>, lemma: String, now: Timestamp) -> (rating: i8)
    ensures
        rating_looked_up(old(words)@, final(words)@, lemma@, now, rating),
{
    let key = lemma.clone();
    words.insert_if_absent(lemma, WordInfo::first_rated(0, Method::FromSeen, now));
    match words.get(&key) {
        Some(info) => info.rating,
        None => 0,
    }
}

/// The knowledge of a word after it is rated `rating` by `method` at `now`.
pub open spec fn rerated(before: WordInfo, rating: i8, method: Method, now: Timestamp) -> WordInfoView {
    WordInfoView { rating, method, history: before.history@.push((now, method, rating)) }
}

/// `after` is `before` with the known `word` rated `rating` by `method` at `now`, the change
/// added to its history.
pub open spec fn rating_recorded(
    before: Map<Seq<char>, WordInfo>,
    after: Map<Seq<char>, WordInfo>,
    word: Seq<char>,
    rating: i8,
    method: Method,
    now: Timestamp,
) -> bool {
    &&& before.dom().contains(word)
    &&& after == before.insert(word, after[word])
    &&& after[word]@ == rerated(before[word], rating, method, now)
}

/// Records that `word`, already known, is now rated `rating`: by Anki when the rating may
/// still change with Anki, else as specified by the user.
pub fn record_rating(
    words: &mut StrMap<WordInfo>,
    word: &String,
    rating: i8,
    modifiable: bool,
    now: Timestamp,
)
    requires
        old(words)@.dom().contains(word@),
    ensures
        rating_recorded(
            old(words)@,
            final(words)@,
            word@,
            rating,
            if modifiable { Method::FromAnki } else { Method::Specified },
            now,
        ),
{
    let method = if modifiable {
        Method::FromAnki
    } else {
        Method::Specified
    };
    let change = |info: WordInfo| -> (r: WordInfo)
        ensures
            r@ == rerated(info, rating, method, now),
        {
            let mut info = info;
            info.history.push((now, method, rating));
            info.rating = rating;
            info.method = method;
            info
        };
    words.modify(word, change);
}

} // verus!
