use vstd::prelude::*;

verus! {

/// Number of words drawn for each generated line of expected text.
pub const LINE_LEN: usize = 10;

/// A word is non-empty and contains no space; only such words keep their
/// boundaries visible once they are joined into a line.
pub open spec fn wf_word(w: Seq<char>) -> bool {
    w.len() > 0 && forall|i: int| 0 <= i < w.len() ==> w[i] != ' '
}

/// A corpus is a non-empty collection of well-formed words.
pub open spec fn wf_corpus(corpus: Seq<Seq<char>>) -> bool {
    corpus.len() > 0 && forall|i: int| 0 <= i < corpus.len() ==> wf_word(#[trigger] corpus[i])
}

/// The abstract contents of an executable corpus: each word as a sequence
/// of characters.
pub open spec fn word_views(corpus: Seq<Vec<char>>) -> Seq<Seq<char>> {
    corpus.map_values(|w: Vec<char>| w@)
}

/// The words of `ws` joined with single spaces between them.
pub open spec fn joined(ws: Seq<Seq<char>>) -> Seq<char>
    decreases ws.len(),
{
    if ws.len() == 0 {
        Seq::empty()
    } else if ws.len() == 1 {
        ws[0]
    } else {
        joined(ws.drop_last()) + seq![' '] + ws.last()
    }
}

/// `s` is the single-space join of exactly `n` words drawn from `corpus`.
pub open spec fn line_from(s: Seq<char>, corpus: Seq<Seq<char>>, n: nat) -> bool {
    exists|ws: Seq<Seq<char>>|
        ws.len() == n && (forall|j: int|
            0 <= j < ws.len() ==> corpus.contains(#[trigger] ws[j])) && s == #[trigger] joined(ws)
}

/// Number of space characters in `s`.
pub open spec fn space_count(s: Seq<char>) -> nat
    decreases s.len(),
{
    if s.len() == 0 {
        0
    } else {
        space_count(s.drop_last()) + if s.last() == ' ' {
            1nat
        } else {
            0nat
        }
    }
}

/// No two adjacent characters of `s` are both spaces.
pub open spec fn no_double_space(s: Seq<char>) -> bool {
    forall|i: int| 0 <= i && i + 1 < s.len() ==> ((#[trigger] s[i]) == ' ' ==> s[i + 1] != ' ')
}

/// Joining after appending one word extends the join by a separating space
/// and the word (or is the word itself when nothing was joined yet).
proof fn lemma_joined_push(ws: Seq<Seq<char>>, w: Seq<char>)
    ensures
        joined(ws.push(w)) == if ws.len() == 0 {
            w
        } else {
            joined(ws) + seq![' '] + w
        },
{
    let p = ws.push(w);
    if ws.len() == 0 {
        assert(p[0] == w);
    } else {
        assert(p.drop_last() =~= ws);
        assert(p.last() == w);
    }
}

/// Concatenation adds space counts.
proof fn lemma_space_count_concat(a: Seq<char>, b: Seq<char>)
    ensures
        space_count(a + b) == space_count(a) + space_count(b),
    decreases b.len(),
{
    if b.len() == 0 {
        assert(a + b =~= a);
    } else {
        assert((a + b).drop_last() =~= a + b.drop_last());
        assert((a + b).last() == b.last());
        lemma_space_count_concat(a, b.drop_last());
    }
}

/// A sequence without spaces has space count zero.
proof fn lemma_space_count_no_space(w: Seq<char>)
    requires
        forall|i: int| 0 <= i < w.len() ==> w[i] != ' ',
    ensures
        space_count(w) == 0,
    decreases w.len(),
{
    if w.len() > 0 {
        assert(forall|i: int| 0 <= i < w.drop_last().len() ==> w.drop_last()[i] != ' ');
        lemma_space_count_no_space(w.drop_last());
    }
}

/// Every word drawn from a well-formed corpus is itself well formed.
proof fn lemma_contained_words_wf(corpus: Seq<Seq<char>>, ws: Seq<Seq<char>>)
    requires
        wf_corpus(corpus),
        forall|j: int| 0 <= j < ws.len() ==> corpus.contains(#[trigger] ws[j]),
    ensures
        forall|j: int| 0 <= j < ws.len() ==> wf_word(#[trigger] ws[j]),
{
    assert forall|j: int| 0 <= j < ws.len() implies wf_word(#[trigger] ws[j]) by {
        let k = choose|k: int| 0 <= k < corpus.len() && corpus[k] == ws[j];
        assert(wf_word(corpus[k]));
    }
}

/// The join of one or more well-formed words has exactly that many words:
/// it is non-empty, starts and ends with a non-space, never holds two
/// adjacent spaces, and holds one space fewer than it holds words.
pub proof fn lemma_joined_shape(ws: Seq<Seq<char>>)
    requires
        ws.len() > 0,
        forall|j: int| 0 <= j < ws.len() ==> wf_word(#[trigger] ws[j]),
    ensures
        joined(ws).len() > 0,
        joined(ws)[0] != ' ',
        joined(ws)[joined(ws).len() - 1] != ' ',
        no_double_space(joined(ws)),
        space_count(joined(ws)) == ws.len() - 1,
    decreases ws.len(),
{
    let j = joined(ws);
    if ws.len() == 1 {
        assert(j == ws[0]);
        lemma_space_count_no_space(j);
        assert(wf_word(ws[0]));
    } else {
        let a = joined(ws.drop_last());
        let w = ws.last();
        assert(forall|k: int|
            0 <= k < ws.drop_last().len() ==> wf_word(#[trigger] ws.drop_last()[k]));
        lemma_joined_shape(ws.drop_last());
        assert(j == a + seq![' '] + w);
        lemma_space_count_concat(a + seq![' '], w);
        lemma_space_count_concat(a, seq![' ']);
        lemma_space_count_no_space(w);
        assert(seq![' '].drop_last() =~= Seq::<char>::empty());
        assert(space_count(Seq::<char>::empty()) == 0);
        assert(seq![' '].last() == ' ');
        assert(space_count(seq![' ']) == 1);
        assert(j.len() == a.len() + 1 + w.len());
        assert(j[0] == a[0]);
        assert(j[j.len() - 1] == w[w.len() - 1]);
        assert(w[w.len() - 1] != ' ');
        assert forall|i: int|
            0 <= i && i + 1 < j.len() && (#[trigger] j[i]) == ' ' implies j[i + 1] != ' ' by {
            if i + 1 < a.len() {
                assert(j[i] == a[i]);
                assert(j[i + 1] == a[i + 1]);
            } else if i + 1 == a.len() {
                assert(j[i] == a[i]);
                assert(a[a.len() - 1] != ' ');
            } else if i == a.len() {
                assert(j[i + 1] == w[0]);
                assert(w[0] != ' ');
            } else {
                assert(j[i] == w[i - a.len() - 1]);
                assert(w[i - a.len() - 1] != ' ');
            }
        }
    }
}

/// Relies on rand::random of the rand crate: a value drawn from the thread's
/// generator. Nothing is promised of the result beyond its type.
pub assume_specification<T>[ rand::random::<T> ]() -> (r: T)
    where
        rand::distributions::Standard: rand::distributions::Distribution<T>,
;

/// One word chosen from the corpus; which one depends on the random draw.
pub fn next_word(corpus: &Vec<Vec<char>>) -> (w: &Vec<char>)
    requires
        corpus@.len() > 0,
    ensures
        word_views(corpus@).contains(w@),
{
    let r: usize = rand::random::<usize>();
    let idx: usize = r % corpus.len();
    let w = &corpus[idx];
    proof {
        assert(word_views(corpus@)[idx as int] == w@);
    }
    w
}

/// One freshly generated line: `LINE_LEN` corpus words joined with single
/// spaces, with no leading or trailing space and no two adjacent spaces.
pub fn next_line(corpus: &Vec<Vec<char>>) -> (r: Vec<char>)
    requires
        corpus@.len() > 0,
        wf_corpus(word_views(corpus@)),
    ensures
        line_from(r@, word_views(corpus@), LINE_LEN as nat),
        r@.len() > 0,
        r@[0] != ' ',
        r@[r@.len() - 1] != ' ',
        no_double_space(r@),
        space_count(r@) == (LINE_LEN - 1) as nat,
{
    let mut r: Vec<char> = Vec::new();
    let ghost mut ws: Seq<Seq<char>> = Seq::empty();
    let mut k: usize = 0;
    while k < LINE_LEN
        invariant
            k <= LINE_LEN,
            ws.len() == k,
            forall|j: int| 0 <= j < ws.len() ==> word_views(corpus@).contains(#[trigger] ws[j]),
            r@ == joined(ws),
            corpus@.len() > 0,
            wf_corpus(word_views(corpus@)),
        decreases LINE_LEN - k,
    {
        let w = next_word(corpus);
        if k > 0 {
            r.push(' ');
        }
        let ghost r_mid = r@;
        let mut i: usize = 0;
        while i < w.len()
            invariant
                i <= w@.len(),
                r@ == r_mid + w@.subrange(0, i as int),
            decreases w@.len() - i,
        {
            let c = w[i];
            r.push(c);
            proof {
                assert(r_mid + w@.subrange(0, i as int + 1) =~= (r_mid + w@.subrange(
                    0,
                    i as int,
                )).push(w@[i as int]));
            }
            i = i + 1;
        }
        proof {
            assert(w@.subrange(0, w@.len() as int) =~= w@);
            lemma_joined_push(ws, w@);
            if k == 0 {
                assert(r_mid =~= Seq::<char>::empty());
                assert(r@ =~= w@);
            } else {
                assert(r_mid =~= joined(ws) + seq![' ']);
                assert(r@ =~= joined(ws) + seq![' '] + w@);
            }
            ws = ws.push(w@);
        }
        k = k + 1;
    }
    proof {
        assert(line_from(r@, word_views(corpus@), LINE_LEN as nat));
        lemma_contained_words_wf(word_views(corpus@), ws);
        lemma_joined_shape(ws);
    }
    r
}

} // verus!
