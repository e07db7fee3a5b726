//! Greedy line wrapping over whitespace-separated words.

use vstd::prelude::*;

verus! {

use vstd::string::StringExecFns;
use vstd::string::StrSliceExecFns;

/// ASCII whitespace, the separators the splitter recognizes.
pub open spec fn is_space(c: char) -> bool {
    c == ' ' || c == '\t' || c == '\n' || c == '\r'
}

/// The longest run of non-space characters at the front of `s`.
pub open spec fn leading_word(s: Seq<char>) -> Seq<char>
    decreases s.len(),
{
    if s.len() == 0 || is_space(s.first()) {
        Seq::empty()
    } else {
        seq![s.first()] + leading_word(s.drop_first())
    }
}

/// `s` split into its whitespace-separated words, in order.
pub open spec fn words_of(s: Seq<char>) -> Seq<Seq<char>>
    decreases s.len(),
    via words_of_decreases
{
    if s.len() == 0 {
        Seq::empty()
    } else if is_space(s.first()) {
        words_of(s.drop_first())
    } else {
        seq![leading_word(s)] + words_of(s.skip(leading_word(s).len() as int))
    }
}

#[via_fn]
proof fn words_of_decreases(s: Seq<char>) {
    if s.len() > 0 && !is_space(s.first()) {
        lemma_leading_word_len(s);
    }
}

/// The splitter's fold over a word list: each word joins the pending line
/// behind one space; a line that has grown past `line_length` characters is
/// emitted and the pending line starts over.  Yields the emitted lines and
/// whatever is still pending.
pub open spec fn wrap_words(words: Seq<Seq<char>>, line_length: int) -> (Seq<Seq<char>>, Seq<char>)
    decreases words.len(),
{
    if words.len() == 0 {
        (Seq::empty(), Seq::empty())
    } else {
        let (lines, buf) = wrap_words(words.drop_last(), line_length);
        let buf1 = buf + seq![' '] + words.last();
        if buf1.len() > line_length {
            (lines.push(buf1), Seq::empty())
        } else {
            (lines, buf1)
        }
    }
}

/// What `split_str` returns: the emitted lines, plus the pending line when
/// one is left over.
pub open spec fn wrapped_lines(s: Seq<char>, line_length: int) -> Seq<Seq<char>> {
    let (lines, buf) = wrap_words(words_of(s), line_length);
    if buf.len() > 0 {
        lines.push(buf)
    } else {
        lines
    }
}

/// The front word is never longer than the text it came from.
proof fn lemma_leading_word_len(s: Seq<char>)
    ensures
        leading_word(s).len() <= s.len(),
        s.len() > 0 && !is_space(s.first()) ==> leading_word(s).len() >= 1,
    decreases s.len(),
{
    if s.len() > 0 && !is_space(s.first()) {
        lemma_leading_word_len(s.drop_first());
    }
}

/// The characters of the front word are the text's own first characters.
proof fn lemma_leading_word_chars(s: Seq<char>)
    ensures
        forall|i: int| 0 <= i < leading_word(s).len() ==> #[trigger] leading_word(s)[i] == s[i],
        leading_word(s).len() < s.len() ==> is_space(s[leading_word(s).len() as int]),
        leading_word(s).len() <= s.len(),
    decreases s.len(),
{
    lemma_leading_word_len(s);
    if s.len() > 0 && !is_space(s.first()) {
        lemma_leading_word_chars(s.drop_first());
        assert forall|i: int|
            0 <= i < leading_word(s).len() implies #[trigger] leading_word(s)[i] == s[i] by {
            if i > 0 {
                assert(leading_word(s.drop_first())[i - 1] == s.drop_first()[i - 1]);
            }
        }
    }
}

/// Splits `s` into lines of whitespace-separated words, each line closed
/// off once it has grown past `line_length` characters; every line keeps
/// the single space the fold writes ahead of each word.
pub fn split_str(s: &str, line_length: usize) -> (result: Vec<String>)
    requires
        s@.len() < usize::MAX,
    ensures
        result@.len() == wrapped_lines(s@, line_length as int).len(),
        forall|i: int|
            0 <= i < result@.len() ==> #[trigger] result@[i]@ == wrapped_lines(
                s@,
                line_length as int,
            )[i],
{
    let n = s.unicode_len();
    let mut result: Vec<String> = Vec::new();
    let mut buf = String::new();
    let mut i: usize = 0;
    proof {
        assert(s@.skip(0) =~= s@);
        assert(words_of(s@).take(0) =~= Seq::<Seq<char>>::empty());
    }
    let ghost total_words = words_of(s@);
    let mut word_count: usize = 0;
    while i < n
        invariant
            i <= n,
            n == s@.len(),
            n < usize::MAX,
            word_count <= i,
            words_of(s@.skip(i as int)) =~= total_words.skip(word_count as int),
            total_words == words_of(s@),
            word_count <= total_words.len(),
            (wrap_words(total_words.take(word_count as int), line_length as int).0.len()
                == result@.len()),
            forall|k: int|
                0 <= k < result@.len() ==> #[trigger] result@[k]@ == wrap_words(
                    total_words.take(word_count as int),
                    line_length as int,
                ).0[k],
            buf@ == wrap_words(total_words.take(word_count as int), line_length as int).1,
        decreases n - i,
    {
        let c = s.get_char(i);
        if c == ' ' || c == '\t' || c == '\n' || c == '\r' {
            proof {
                assert(s@.skip(i as int).first() == s@[i as int]);
                assert(s@.skip(i as int).drop_first() =~= s@.skip(i + 1));
            }
            i = i + 1;
        } else {
            // scan the word that starts here
            let start = i;
            let mut j = i;
            while j < n
                invariant
                    start <= j <= n,
                    n == s@.len(),
                    forall|k: int| start <= k < j ==> !is_space(#[trigger] s@[k]),
                ensures
                    start <= j <= n,
                    forall|k: int| start <= k < j ==> !is_space(#[trigger] s@[k]),
                    j == n || is_space(s@[j as int]),
                decreases n - j,
            {
                let c2 = s.get_char(j);
                if c2 == ' ' || c2 == '\t' || c2 == '\n' || c2 == '\r' {
                    break ;
                }
                j = j + 1;
            }
            proof {
                let rest = s@.skip(i as int);
                lemma_leading_word_chars(rest);
                assert forall|k: int|
                    0 <= k < j - i implies !is_space(#[trigger] rest[k]) by {
                    assert(rest[k] == s@[i + k]);
                }
                assert(leading_word(rest).len() == j - i) by {
                    lemma_word_extent(rest, j - i);
                }
                assert(leading_word(rest) =~= s@.subrange(i as int, j as int));
                assert(words_of(rest) == seq![leading_word(rest)] + words_of(
                    rest.skip(leading_word(rest).len() as int),
                ));
                assert(rest.skip(j - i) =~= s@.skip(j as int));
                assert(total_words.skip(word_count as int).first() == s@.subrange(
                    i as int,
                    j as int,
                ));
                assert(total_words[word_count as int] == s@.subrange(i as int, j as int));
                assert(total_words.skip(word_count as int).drop_first() =~= total_words.skip(
                    word_count + 1,
                ));
                assert(total_words.take(word_count + 1).drop_last() =~= total_words.take(
                    word_count as int,
                ));
                assert(total_words.take(word_count + 1).last() == total_words[word_count as int]);
            }
            let word = s.substring_char(start, j);
            proof {
                reveal_strlit(" ");
            }
            buf.append(" ");
            buf.append(word);
            if buf.unicode_len() > line_length {
                result.push(buf);
                buf = String::new();
            }
            i = j;
            word_count = word_count + 1;
        }
    }
    proof {
        assert(s@.skip(n as int) =~= Seq::<char>::empty());
        assert(total_words.take(word_count as int) =~= total_words);
    }
    if buf.unicode_len() > 0 {
        result.push(buf);
    }
    result
}

/// A run of `k` non-space characters closed off by the end of the text or a
/// space is exactly the front word.
proof fn lemma_word_extent(s: Seq<char>, k: int)
    requires
        0 <= k <= s.len(),
        forall|i: int| 0 <= i < k ==> !is_space(#[trigger] s[i]),
        k == s.len() || is_space(s[k]),
    ensures
        leading_word(s).len() == k,
    decreases s.len(),
{
    if k == 0 {
    } else {
        assert(!is_space(s.first()));
        assert forall|i: int| 0 <= i < k - 1 implies !is_space(#[trigger] s.drop_first()[i]) by {
            assert(s.drop_first()[i] == s[i + 1]);
        }
        if k < s.len() {
            assert(s.drop_first()[k - 1] == s[k]);
        }
        lemma_word_extent(s.drop_first(), k - 1);
    }
}

} // verus!
