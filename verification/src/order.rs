//! The order of a listing: directories before files, and within each group
//! names in ascending order with upper and lower case taken as the same.

use vstd::prelude::*;
use vstd::string::*;

verus! {

/// The lower-case form of a text, as `str::to_lowercase` of the standard
/// library gives it. Its value is that of the Unicode tables; this library
/// states nothing about it beyond its being a function of the text.
pub uninterp spec fn lowercase(text: Seq<char>) -> Seq<char>;

/// `str::to_lowercase` of the standard library. Trusted: the result is
/// the lower-case form of the argument, and depends on nothing else.
pub assume_specification[ str::to_lowercase ](text: &str) -> (lowered: String)
    ensures
        lowered@ == lowercase(text@),
;

/// What an entry is ordered by.
#[derive(Clone, Debug, PartialEq, Eq)]
pub struct SortKey {
    /// Whether the entry is a directory.
    pub is_dir: bool,
    /// The characters of the entry's name in lower case.
    pub folded: Vec<char>,
}

/// A sort key as a mathematical value.
pub struct KeyView {
    pub is_dir: bool,
    pub folded: Seq<char>,
}

impl View for SortKey {
    type V = KeyView;

    open spec fn view(&self) -> KeyView {
        KeyView { is_dir: self.is_dir, folded: self.folded@ }
    }
}

/// Strict lexicographic order on texts: the first character in which two
/// texts differ decides, and a text comes before each of its proper
/// extensions.
pub open spec fn lex_before(a: Seq<char>, b: Seq<char>) -> bool
    decreases a.len(),
{
    if b.len() == 0 {
        false
    } else if a.len() == 0 {
        true
    } else if a[0] != b[0] {
        a[0] < b[0]
    } else {
        lex_before(a.drop_first(), b.drop_first())
    }
}

/// `a` must stand before `b`: a directory before a file, and, of two
/// directories or two files, the one whose lower-case name is smaller.
pub open spec fn key_before(a: KeyView, b: KeyView) -> bool {
    if a.is_dir != b.is_dir {
        a.is_dir
    } else {
        lex_before(a.folded, b.folded)
    }
}

/// Neither key must stand before the other.
pub open spec fn key_tie(a: KeyView, b: KeyView) -> bool {
    !key_before(a, b) && !key_before(b, a)
}

/// No text comes before itself.
pub proof fn lemma_lex_irreflexive(a: Seq<char>)
    ensures
        !lex_before(a, a),
    decreases a.len(),
{
    if a.len() > 0 {
        lemma_lex_irreflexive(a.drop_first());
    }
}

/// Of two texts at most one comes before the other.
pub proof fn lemma_lex_asymmetric(a: Seq<char>, b: Seq<char>)
    ensures
        !(lex_before(a, b) && lex_before(b, a)),
    decreases a.len(),
{
    if a.len() > 0 && b.len() > 0 && a[0] == b[0] {
        lemma_lex_asymmetric(a.drop_first(), b.drop_first());
    }
}

/// What comes before a text comes before everything after that text.
pub proof fn lemma_lex_transitive(a: Seq<char>, b: Seq<char>, c: Seq<char>)
    requires
        lex_before(a, b),
        lex_before(b, c),
    ensures
        lex_before(a, c),
    decreases a.len(),
{
    if a.len() > 0 && a[0] == b[0] && b[0] == c[0] {
        lemma_lex_transitive(a.drop_first(), b.drop_first(), c.drop_first());
    }
}

/// Two different texts are always ordered.
pub proof fn lemma_lex_total(a: Seq<char>, b: Seq<char>)
    ensures
        lex_before(a, b) || lex_before(b, a) || a == b,
    decreases a.len(),
{
    if a.len() > 0 && b.len() > 0 && a[0] == b[0] {
        lemma_lex_total(a.drop_first(), b.drop_first());
        if a.drop_first() == b.drop_first() {
            assert(a =~= seq![a[0]] + a.drop_first());
            assert(b =~= seq![b[0]] + b.drop_first());
        }
    } else if a.len() == 0 && b.len() == 0 {
        assert(a =~= b);
    }
}

/// The texts agree in their first `k` characters, and there `a` ends while
/// `b` goes on, or `a` has the smaller character.
pub open spec fn decides_at(a: Seq<char>, b: Seq<char>, k: int) -> bool {
    &&& 0 <= k <= a.len()
    &&& k < b.len()
    &&& forall|i: int| 0 <= i < k ==> a[i] == b[i]
    &&& (k == a.len() || a[k] < b[k])
}

/// One text comes before another exactly when, at the first place where
/// they do not agree, it has ended or has the smaller character.
pub proof fn lemma_lex_before_is_first_difference(a: Seq<char>, b: Seq<char>)
    ensures
        lex_before(a, b) <==> exists|k: int| decides_at(a, b, k),
    decreases a.len(),
{
    if b.len() == 0 {
    } else if a.len() == 0 {
        assert(decides_at(a, b, 0));
    } else if a[0] != b[0] {
        if a[0] < b[0] {
            assert(decides_at(a, b, 0));
        } else {
            assert forall|k: int| !decides_at(a, b, k) by {
                if decides_at(a, b, k) && k > 0 {
                    assert(a[0] == b[0]);
                }
            }
        }
    } else {
        let a1 = a.drop_first();
        let b1 = b.drop_first();
        lemma_lex_before_is_first_difference(a1, b1);
        if lex_before(a1, b1) {
            let k1 = choose|k: int| decides_at(a1, b1, k);
            assert forall|i: int| 0 <= i < k1 + 1 implies a[i] == b[i] by {
                if i > 0 {
                    assert(a1[i - 1] == b1[i - 1]);
                }
            }
            assert(decides_at(a, b, k1 + 1));
        } else {
            assert forall|k: int| !decides_at(a, b, k) by {
                if decides_at(a, b, k) {
                    assert forall|i: int| 0 <= i < k - 1 implies a1[i] == b1[i] by {
                        assert(a[i + 1] == b[i + 1]);
                    }
                    assert(decides_at(a1, b1, k - 1));
                }
            }
        }
    }
}

/// The order of keys is strict: no key before itself, no two keys each
/// before the other.
pub proof fn lemma_key_before_strict(a: KeyView, b: KeyView)
    ensures
        !key_before(a, a),
        !(key_before(a, b) && key_before(b, a)),
{
    lemma_lex_irreflexive(a.folded);
    lemma_lex_asymmetric(a.folded, b.folded);
}

/// The order of keys is transitive.
pub proof fn lemma_key_before_transitive(a: KeyView, b: KeyView, c: KeyView)
    requires
        key_before(a, b),
        key_before(b, c),
    ensures
        key_before(a, c),
{
    if a.is_dir == b.is_dir && b.is_dir == c.is_dir {
        lemma_lex_transitive(a.folded, b.folded, c.folded);
    }
}

/// Two keys tie exactly when they are the same key: both directories or
/// both files, with the same lower-case name.
pub proof fn lemma_key_tie_is_equality(a: KeyView, b: KeyView)
    ensures
        key_tie(a, b) <==> a == b,
{
    lemma_lex_total(a.folded, b.folded);
    lemma_lex_irreflexive(a.folded);
}

/// Whether `a` comes before `b` in strict lexicographic order.
pub fn lex_precedes(a: &Vec<char>, b: &Vec<char>) -> (r: bool)
    ensures
        r == lex_before(a@, b@),
{
    let mut i: usize = 0;
    assert(a@.skip(0) =~= a@ && b@.skip(0) =~= b@);
    while i < a.len() && i < b.len()
        invariant
            i <= a.len(),
            i <= b.len(),
            lex_before(a@, b@) == lex_before(a@.skip(i as int), b@.skip(i as int)),
        decreases a.len() - i,
    {
        let x = a[i];
        let y = b[i];
        proof {
            assert(a@.skip(i as int).drop_first() =~= a@.skip(i as int + 1));
            assert(b@.skip(i as int).drop_first() =~= b@.skip(i as int + 1));
        }
        if x != y {
            return x < y;
        }
        i += 1;
    }
    i < b.len()
}

/// Whether `a` must stand before `b` in a listing.
pub fn key_precedes(a: &SortKey, b: &SortKey) -> (r: bool)
    ensures
        r == key_before(a@, b@),
{
    if a.is_dir != b.is_dir {
        a.is_dir
    } else {
        lex_precedes(&a.folded, &b.folded)
    }
}

/// The key of an entry with the given name.
pub fn sort_key(name: &str, is_dir: bool) -> (key: SortKey)
    ensures
        key@ == (KeyView { is_dir, folded: lowercase(name@) }),
{
    let lowered = name.to_lowercase();
    let mut folded: Vec<char> = Vec::new();
    let chars = lowered.as_str().chars();
    for c in it: chars
        invariant
            it.seq() == lowered@,
            folded@ == it.history(),
    {
        folded.push(c);
    }
    assert(folded@ =~= lowered@);
    SortKey { is_dir, folded }
}

} // verus!
