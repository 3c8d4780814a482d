//! The set of credentials that open the upload route.
//!
//! Tokens are configured as one comma-separated text. They are opaque
//! strings compared by exact equality; the set is built once at start-up and
//! only read afterwards.

use vstd::prelude::*;
use crate::text::{chars_of, string_of};

verus! {

/// `s[i..j]` is one field of the `sep`-separated text `s`: it starts at the
/// beginning of the text or right after a separator, ends at the end of the
/// text or right before a separator, and holds no separator itself.
pub open spec fn is_field(s: Seq<char>, sep: char, i: int, j: int) -> bool {
    &&& 0 <= i <= j <= s.len()
    &&& (i == 0 || s[i - 1] == sep)
    &&& (j == s.len() || s[j] == sep)
    &&& forall|k: int| i <= k < j ==> s[k] != sep
}

/// The tokens that a configuration text stands for: its comma-separated
/// fields. An empty text configures no token at all, so that every request
/// is refused; in a non-empty text an empty field is a token like any other.
pub open spec fn configured_tokens(config: Seq<char>) -> Set<Seq<char>> {
    Set::new(
        |t: Seq<char>|
            config.len() > 0 && exists|i: int, j: int|
                #[trigger] is_field(config, ',', i, j) && t == config.subrange(i, j),
    )
}

/// The texts that a list of strings holds.
spec fn texts(items: Seq<String>) -> Set<Seq<char>> {
    Set::new(|t: Seq<char>| exists|i: int| 0 <= i < items.len() && items[i]@ == t)
}

/// No text occurs twice in the list.
spec fn distinct(items: Seq<String>) -> bool {
    forall|i: int, j: int| 0 <= i < j < items.len() ==> items[i]@ != items[j]@
}

/// Whether `token` is among `items`.
fn holds(items: &Vec<String>, token: &str) -> (r: bool)
    ensures
        r == texts(items@).contains(token@),
{
    let wanted = token.to_owned();
    let mut i: usize = 0;
    while i < items.len()
        invariant
            i <= items.len(),
            wanted@ == token@,
            forall|k: int| 0 <= k < i ==> items@[k]@ != token@,
        decreases items.len() - i,
    {
        if items[i] == wanted {
            return true;
        }
        i += 1;
    }
    false
}

/// Appends `token` unless the list holds it already.
fn add_distinct(items: &mut Vec<String>, token: String)
    requires
        distinct(old(items)@),
    ensures
        distinct(final(items)@),
        texts(final(items)@) == texts(old(items)@).insert(token@),
{
    if holds(items, token.as_str()) {
        assert(texts(items@) =~= texts(items@).insert(token@));
    } else {
        let ghost before = items@;
        items.push(token);
        proof {
            lemma_texts_push(before, token);
        }
    }
}

/// Appending a string adds its text to the texts held.
proof fn lemma_texts_push(items: Seq<String>, last: String)
    ensures
        texts(items.push(last)) == texts(items).insert(last@),
{
    let longer = items.push(last);
    assert forall|t: Seq<char>| texts(longer).contains(t) <==> texts(items).insert(
        last@,
    ).contains(t) by {
        if texts(items).contains(t) {
            let i = choose|i: int| 0 <= i < items.len() && items[i]@ == t;
            assert(longer[i]@ == t);
        }
        if t == last@ {
            assert(longer[items.len() as int]@ == t);
        }
    }
    assert(texts(longer) =~= texts(items).insert(last@));
}

/// A list of distinct strings holds as many texts as it has items.
proof fn lemma_cardinality(items: Seq<String>)
    requires
        distinct(items),
    ensures
        texts(items).finite(),
        texts(items).len() == items.len(),
    decreases items.len(),
{
    if items.len() == 0 {
        assert(texts(items) =~= Set::<Seq<char>>::empty());
    } else {
        let front = items.drop_last();
        lemma_cardinality(front);
        assert(!texts(front).contains(items.last()@)) by {
            if texts(front).contains(items.last()@) {
                let i = choose|i: int| 0 <= i < front.len() && front[i]@ == items.last()@;
                assert(items[i]@ == items[items.len() - 1]@);
            }
        }
        lemma_texts_push(front, items.last());
        assert(front.push(items.last()) =~= items);
    }
}

/// A set of tokens. It is built once, from the configuration, and only read
/// afterwards.
#[derive(Debug)]
pub struct TokenSet {
    items: Vec<String>,
}

impl TokenSet {
    /// No token is held twice.
    #[verifier::type_invariant]
    closed spec fn well_formed(&self) -> bool {
        distinct(self.items@)
    }

    /// The tokens as a mathematical set of texts.
    pub closed spec fn view(&self) -> Set<Seq<char>> {
        texts(self.items@)
    }

    /// The set without any token: it refuses every credential.
    pub fn new() -> (r: TokenSet)
        ensures
            r@ == Set::<Seq<char>>::empty(),
    {
        let r = TokenSet { items: Vec::new() };
        assert(r@ =~= Set::<Seq<char>>::empty());
        r
    }

    /// Whether `token` is in the set, by exact equality of the texts.
    pub fn contains(&self, token: &str) -> (r: bool)
        ensures
            r == self@.contains(token@),
    {
        holds(&self.items, token)
    }

    /// How many tokens the set holds.
    pub fn len(&self) -> (r: usize)
        ensures
            self@.finite(),
            r == self@.len(),
    {
        proof {
            use_type_invariant(self);
            lemma_cardinality(self.items@);
        }
        self.items.len()
    }

    /// Whether the set holds no token.
    pub fn is_empty(&self) -> (r: bool)
        ensures
            r == (self@ == Set::<Seq<char>>::empty()),
    {
        proof {
            if self.items@.len() > 0 {
                assert(self@.contains(self.items@[0]@));
            } else {
                assert(self@ =~= Set::<Seq<char>>::empty());
            }
        }
        self.items.len() == 0
    }
}

/// A field that ends inside another field, or at its end, is that field.
proof fn lemma_same_field(s: Seq<char>, sep: char, i: int, j: int, a: int, b: int)
    requires
        is_field(s, sep, i, j),
        is_field(s, sep, a, b),
        i <= b <= j,
    ensures
        a == i,
        b == j,
{
    if b < j {
        assert(s[b] == sep);
    }
    if a < i {
        assert(s[i - 1] == sep);
    }
    if a > i {
        assert(s[a - 1] == sep);
    }
}

/// Reads the token configuration: the comma-separated fields of `config`,
/// or no token where `config` is empty.
pub fn get_tokens(config: &str) -> (r: TokenSet)
    ensures
        r@ == configured_tokens(config@),
{
    let chars = chars_of(config);
    let mut tokens: Vec<String> = Vec::new();
    if chars.len() == 0 {
        let none = TokenSet { items: tokens };
        assert(none@ =~= configured_tokens(config@));
        return none;
    }
    // `tokens` holds the fields that end before `start`; the field that
    // starts at `start` is still open at `i`.
    let mut start: usize = 0;
    let mut i: usize = 0;
    while i < chars.len()
        invariant
            chars@ == config@,
            distinct(tokens@),
            start <= i <= chars.len(),
            start == 0 || chars@[start - 1] == ',',
            forall|k: int| start <= k < i ==> chars@[k] != ',',
            forall|t: Seq<char>|
                texts(tokens@).contains(t) <==> exists|a: int, b: int|
                    #[trigger] is_field(chars@, ',', a, b) && b < start && t == chars@.subrange(
                        a,
                        b,
                    ),
        decreases chars.len() - i,
    {
        if chars[i] == ',' {
            let field = string_of(&chars, start, i);
            let ghost closed = texts(tokens@);
            add_distinct(&mut tokens, field);
            proof {
                let (s, e) = (start as int, i as int);
                assert(is_field(chars@, ',', s, e));
                assert forall|t: Seq<char>| texts(tokens@).contains(t) implies exists|
                    a: int,
                    b: int,
                |
                    #[trigger] is_field(chars@, ',', a, b) && b < e + 1 && t == chars@.subrange(
                        a,
                        b,
                    ) by {
                    if !closed.contains(t) {
                        assert(is_field(chars@, ',', s, e) && t == chars@.subrange(s, e));
                    }
                }
                assert forall|a: int, b: int|
                    #[trigger] is_field(chars@, ',', a, b) && b < e + 1 implies texts(
                    tokens@,
                ).contains(chars@.subrange(a, b)) by {
                    if b >= s {
                        lemma_same_field(chars@, ',', s, e, a, b);
                    } else {
                        assert(closed.contains(chars@.subrange(a, b)));
                    }
                }
            }
            start = i + 1;
        }
        i += 1;
    }
    let field = string_of(&chars, start, i);
    let ghost closed = texts(tokens@);
    add_distinct(&mut tokens, field);
    proof {
        let (s, e) = (start as int, i as int);
        assert(is_field(chars@, ',', s, e));
        assert forall|t: Seq<char>| texts(tokens@).contains(t) implies configured_tokens(
            config@,
        ).contains(t) by {
            if !closed.contains(t) {
                assert(is_field(chars@, ',', s, e) && t == chars@.subrange(s, e));
            }
        }
        assert forall|t: Seq<char>| configured_tokens(config@).contains(t) implies texts(
            tokens@,
        ).contains(t) by {
            let (a, b) = choose|a: int, b: int|
                #[trigger] is_field(chars@, ',', a, b) && t == chars@.subrange(a, b);
            if b >= s {
                lemma_same_field(chars@, ',', s, e, a, b);
            } else {
                assert(closed.contains(t));
            }
        }
        assert(texts(tokens@) =~= configured_tokens(config@));
    }
    TokenSet { items: tokens }
}

} // verus!
