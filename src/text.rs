//! Word-level text normalization and Jaccard similarity between two texts.

use vstd::prelude::*;
use vstd::string::*;

verus! {

/// What `str::to_lowercase` makes of a text.
pub uninterp spec fn lower_of(s: Seq<char>) -> Seq<char>;

/// Whether `char::is_whitespace` holds of a character.
pub uninterp spec fn is_space(c: char) -> bool;

/// Whether `char::is_alphanumeric` holds of a character.
pub uninterp spec fn is_alnum(c: char) -> bool;

/// Relies on `str::to_lowercase`: the Unicode lowercase mapping of each
/// character, which depends on the text alone.
#[verifier::external_body]
pub(crate) fn lowercase(s: &str) -> (r: String)
    ensures
        r@ == lower_of(s@),
        s@.len() == 0 ==> r@.len() == 0,
{
    s.to_lowercase()
}

/// Relies on `char::is_whitespace`: the Unicode `White_Space` property.
#[verifier::external_body]
fn char_is_whitespace(c: char) -> (r: bool)
    ensures
        r == is_space(c),
{
    c.is_whitespace()
}

/// Relies on `char::is_alphanumeric`: the Unicode `Alphabetic` or `Numeric`
/// property.
#[verifier::external_body]
fn char_is_alphanumeric(c: char) -> (r: bool)
    ensures
        r == is_alnum(c),
{
    c.is_alphanumeric()
}

/// Closes the word being read: it is kept only if it has at least two
/// characters.
pub open spec fn end_word(words: Seq<Seq<char>>, cur: Seq<char>) -> Seq<Seq<char>> {
    if cur.len() > 1 {
        words.push(cur)
    } else {
        words
    }
}

/// Reading `s` left to right: the words finished so far and the word being
/// read. Whitespace ends a word, alphanumeric characters extend it, and every
/// other character is dropped.
pub open spec fn scan_words(s: Seq<char>) -> (Seq<Seq<char>>, Seq<char>)
    decreases s.len(),
{
    if s.len() == 0 {
        (Seq::empty(), Seq::empty())
    } else {
        let prev = scan_words(s.drop_last());
        let c = s.last();
        if is_space(c) {
            (end_word(prev.0, prev.1), Seq::empty())
        } else if is_alnum(c) {
            (prev.0, prev.1.push(c))
        } else {
            (prev.0, prev.1)
        }
    }
}

/// The words of `s`: its whitespace-separated tokens stripped of
/// non-alphanumeric characters, without those left shorter than two
/// characters.
pub open spec fn words_in(s: Seq<char>) -> Seq<Seq<char>> {
    end_word(scan_words(s).0, scan_words(s).1)
}

/// The words of a text after lowercasing it.
pub open spec fn normalized_words(text: Seq<char>) -> Seq<Seq<char>> {
    words_in(lower_of(text))
}

/// The set of distinct normalized words of a text.
pub open spec fn word_set(text: Seq<char>) -> Set<Seq<char>> {
    normalized_words(text).to_set()
}

/// The Jaccard index of two word sets as (shared, total): the sizes of their
/// intersection and union, or (1, 1) when both are empty.
pub open spec fn jaccard(a: Set<Seq<char>>, b: Set<Seq<char>>) -> (nat, nat) {
    if a.len() == 0 && b.len() == 0 {
        (1, 1)
    } else {
        (a.intersect(b).len(), a.union(b).len())
    }
}

/// The views of a sequence of strings.
pub open spec fn views(v: Seq<String>) -> Seq<Seq<char>> {
    v.map_values(|s: String| s@)
}

/// The similarity of two texts as the exact ratio `shared / total`.
#[derive(Clone, Copy, Debug, PartialEq, Eq)]
pub struct Similarity {
    pub shared: u128,
    pub total: u128,
}

impl Similarity {
    /// Whether this ratio is strictly above `num / den`.
    pub open spec fn exceeds(self, num: nat, den: nat) -> bool {
        self.shared * den > num * self.total
    }

    /// Whether this ratio is strictly above `num / den`.
    pub fn is_above(&self, num: u32, den: u32) -> (r: bool)
        requires
            self.shared <= self.total <= 2 * usize::MAX,
        ensures
            r == self.exceeds(num as nat, den as nat),
    {
        assert(self.shared * den <= 2 * usize::MAX * u32::MAX) by (nonlinear_arith)
            requires
                self.shared <= 2 * usize::MAX,
                den <= u32::MAX,
        ;
        assert(num * self.total <= 2 * usize::MAX * u32::MAX) by (nonlinear_arith)
            requires
                self.total <= 2 * usize::MAX,
                num <= u32::MAX,
        ;
        self.shared * (den as u128) > (num as u128) * self.total
    }
}

/// Splits a text into lowercase words: whitespace-separated tokens with every
/// non-alphanumeric character removed, dropping tokens left with fewer than
/// two characters.
pub fn normalize_text_to_words(text: &str) -> (r: Vec<String>)
    ensures
        views(r@) == normalized_words(text@),
        text@.len() == 0 ==> r@.len() == 0,
{
    let lowered = lowercase(text);
    let s = lowered.as_str();
    let n = s.unicode_len();
    let mut words: Vec<String> = Vec::new();
    let mut cur = String::new();
    let mut i: usize = 0;
    while i < n
        invariant
            n == s@.len(),
            s@ == lower_of(text@),
            0 <= i <= n,
            views(words@) == scan_words(s@.take(i as int)).0,
            cur@ == scan_words(s@.take(i as int)).1,
        decreases n - i,
    {
        let c = s.get_char(i);
        let ghost before = s@.take(i as int);
        assert(s@.take(i as int + 1).drop_last() =~= before);
        if char_is_whitespace(c) {
            if cur.unicode_len() > 1 {
                let ghost w = words@;
                words.push(cur);
                assert(views(words@) =~= views(w).push(scan_words(before).1));
            }
            cur = String::new();
        } else if char_is_alphanumeric(c) {
            let piece = s.substring_char(i, i + 1);
            assert(piece@ =~= seq![c]);
            cur.append(piece);
        }
        i = i + 1;
        assert(cur@ =~= scan_words(s@.take(i as int)).1);
    }
    assert(s@.take(n as int) =~= s@);
    if cur.unicode_len() > 1 {
        let ghost w = words@;
        words.push(cur);
        assert(views(words@) =~= views(w).push(scan_words(s@).1));
    }
    words
}

/// The similarity of two texts: the Jaccard index of their word sets.
pub open spec fn similarity_of(t1: Seq<char>, t2: Seq<char>) -> (nat, nat) {
    jaccard(word_set(t1), word_set(t2))
}

fn contains_word(ws: &Vec<String>, w: &String) -> (r: bool)
    ensures
        r == views(ws@).contains(w@),
{
    let mut i: usize = 0;
    while i < ws.len()
        invariant
            0 <= i <= ws@.len(),
            forall|j: int| 0 <= j < i ==> ws@[j]@ != w@,
        decreases ws@.len() - i,
    {
        if ws[i] == *w {
            assert(views(ws@)[i as int] == w@);
            return true;
        }
        i = i + 1;
    }
    assert forall|j: int| 0 <= j < views(ws@).len() implies views(ws@)[j] != w@ by {
        assert(views(ws@)[j] == ws@[j]@);
    }
    false
}

fn distinct_words(ws: &Vec<String>) -> (r: Vec<String>)
    ensures
        views(r@).no_duplicates(),
        views(r@).to_set() == views(ws@).to_set(),
{
    let mut r: Vec<String> = Vec::new();
    let mut i: usize = 0;
    while i < ws.len()
        invariant
            0 <= i <= ws@.len(),
            views(r@).no_duplicates(),
            views(r@).to_set() == views(ws@).take(i as int).to_set(),
        decreases ws@.len() - i,
    {
        let w = &ws[i];
        let ghost prev = views(r@);
        assert(views(ws@).take(i as int + 1) =~= views(ws@).take(i as int).push(w@));
        proof {
            views(ws@).take(i as int).lemma_push_to_set_commute(w@);
            prev.lemma_push_to_set_commute(w@);
        }
        if !contains_word(&r, w) {
            r.push(w.clone());
            assert(views(r@) =~= prev.push(w@));
        } else {
            assert(prev.to_set().contains(w@));
            assert(prev.to_set().insert(w@) =~= prev.to_set());
        }
        i = i + 1;
    }
    assert(views(ws@).take(ws@.len() as int) =~= views(ws@));
    r
}

/// Jaccard similarity of the normalized word sets of two texts, as an exact
/// ratio: 1 when neither has a word, 0 when exactly one has none.
pub fn text_similarity(text1: &str, text2: &str) -> (r: Similarity)
    ensures
        (r.shared as nat, r.total as nat) == similarity_of(text1@, text2@),
        r.total > 0,
        r.shared <= r.total <= 2 * usize::MAX,
        text1@.len() == 0 && text2@.len() == 0 ==> r.shared == 1 && r.total == 1,
{
    let w1 = normalize_text_to_words(text1);
    let w2 = normalize_text_to_words(text2);
    let u1 = distinct_words(&w1);
    let u2 = distinct_words(&w2);
    let ghost a = word_set(text1@);
    let ghost b = word_set(text2@);
    proof {
        views(u1@).unique_seq_to_set();
        views(u2@).unique_seq_to_set();
        if text1@.len() == 0 {
            assert(views(w1@).to_set() =~= Set::empty());
        }
        if text2@.len() == 0 {
            assert(views(w2@).to_set() =~= Set::empty());
        }
    }
    if u1.len() == 0 && u2.len() == 0 {
        return Similarity { shared: 1, total: 1 };
    }
    let mut shared: usize = 0;
    let mut i: usize = 0;
    let ghost mut common: Seq<Seq<char>> = Seq::empty();
    while i < u1.len()
        invariant
            0 <= i <= u1@.len(),
            views(u1@).no_duplicates(),
            views(u2@).to_set() == b,
            common.no_duplicates(),
            common.to_set() == views(u1@).take(i as int).to_set().intersect(b),
            shared == common.len(),
            shared <= i,
        decreases u1@.len() - i,
    {
        let ghost x = views(u1@)[i as int];
        let ghost seen = views(u1@).take(i as int);
        assert(views(u1@).take(i as int + 1) =~= seen.push(x));
        proof {
            seen.lemma_push_to_set_commute(x);
        }
        assert(!seen.contains(x)) by {
            if seen.contains(x) {
                let j = choose|j: int| 0 <= j < seen.len() && seen[j] == x;
                assert(views(u1@)[j] == views(u1@)[i as int]);
            }
        }
        if contains_word(&u2, &u1[i]) {
            proof {
                assert(!common.contains(x)) by {
                    if common.contains(x) {
                        assert(common.to_set().contains(x));
                    }
                }
                common.lemma_push_to_set_commute(x);
                assert(common.push(x).to_set() =~= seen.push(x).to_set().intersect(b));
                common = common.push(x);
            }
            shared = shared + 1;
        } else {
            assert(!b.contains(x));
            assert(common.to_set() =~= seen.push(x).to_set().intersect(b));
        }
        i = i + 1;
    }
    proof {
        assert(views(u1@).take(u1@.len() as int) =~= views(u1@));
        common.unique_seq_to_set();
        vstd::set_lib::lemma_set_intersect_union_lens(a, b);
        assert(a + b == a.union(b));
        assert(common.to_set() == a.intersect(b));
        vstd::set_lib::lemma_len_subset(a.intersect(b), b);
    }
    Similarity { shared: shared as u128, total: u1.len() as u128 + u2.len() as u128 - shared as u128 }
}

/// Every word kept by the scan has at least two characters, all of them
/// alphanumeric.
proof fn lemma_scan_words_shape(s: Seq<char>)
    ensures
        forall|i: int| 0 <= i < scan_words(s).0.len() ==> is_word(#[trigger] scan_words(s).0[i]),
        forall|j: int| 0 <= j < scan_words(s).1.len() ==> is_alnum(#[trigger] scan_words(s).1[j]),
    decreases s.len(),
{
    if s.len() > 0 {
        lemma_scan_words_shape(s.drop_last());
        let prev = scan_words(s.drop_last());
        if is_space(s.last()) && prev.1.len() > 1 {
            assert(is_word(prev.1));
        }
    }
}

/// A word as the normalization keeps it: two or more alphanumeric characters.
pub open spec fn is_word(w: Seq<char>) -> bool {
    &&& w.len() > 1
    &&& forall|j: int| 0 <= j < w.len() ==> is_alnum(#[trigger] w[j])
}

/// Laws of text similarity: it is symmetric; a text is fully similar to
/// itself; two texts without words are fully similar (the empty text among
/// them); a text with words shares nothing with one without; texts with the
/// same lowercase form are alike to every other text; and a word set holds
/// only words of two or more alphanumeric characters, so single characters
/// and punctuation never count.
pub proof fn lemma_similarity_laws(a: Seq<char>, b: Seq<char>, a2: Seq<char>)
    ensures
        similarity_of(a, b) == similarity_of(b, a),
        similarity_of(a, a).0 == similarity_of(a, a).1,
        similarity_of(a, a).1 > 0,
        word_set(a).len() == 0 && word_set(b).len() == 0 ==> similarity_of(a, b) == (1nat, 1nat),
        word_set(a).len() > 0 && word_set(b).len() == 0 ==> similarity_of(a, b).0 == 0
            && similarity_of(a, b).1 > 0,
        lower_of(a) == lower_of(a2) ==> similarity_of(a, b) == similarity_of(a2, b),
        forall|w: Seq<char>| word_set(a).contains(w) ==> is_word(w),
{
    let sa = word_set(a);
    let sb = word_set(b);
    normalized_words(a).lemma_cardinality_of_set();
    normalized_words(b).lemma_cardinality_of_set();
    assert(sa.intersect(sb) =~= sb.intersect(sa));
    assert(sa.union(sb) =~= sb.union(sa));
    assert(sa.intersect(sa) =~= sa);
    assert(sa.union(sa) =~= sa);
    if sa.len() != 0 {
        vstd::set_lib::lemma_len_subset(sa, sa.union(sb));
    }
    if sa.len() > 0 && sb.len() == 0 {
        assert(sb =~= Set::empty()) by {
            sb.lemma_len0_is_empty();
        }
        assert(sa.intersect(sb) =~= Set::empty());
    }
    // shape of the words
    lemma_scan_words_shape(lower_of(a));
    assert forall|w: Seq<char>| word_set(a).contains(w) implies is_word(w) by {
        let ws = normalized_words(a);
        let i = choose|i: int| 0 <= i < ws.len() && ws[i] == w;
        let sc = scan_words(lower_of(a));
        if i < sc.0.len() {
            assert(is_word(sc.0[i]));
        }
    }
}

} // verus!
