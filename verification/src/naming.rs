//! Names of stored files.
//!
//! An upload is stored as `<base>.<extension>`: a base of ten random
//! lower-case letters and digits, a dot, and the extension of the name the
//! client gave, in ASCII lower case. The extension is what follows the last
//! dot of that name; a name without a dot has the empty extension, which
//! leaves the stored name ending in its dot.
//!
//! Names are not checked against what is already stored. With 36^10
//! possible bases a clash is unlikely, but an upload that draws a name in
//! use replaces the file that had it.

use vstd::prelude::*;
use rand::distributions::{Alphanumeric, DistString};
use crate::text::{
    chars_of, is_alphanumeric, is_lower_alphanumeric, lemma_ascii_lower, lower, to_ascii_lowercase,
};

verus! {

/// How many random characters a stored name starts with.
pub const BASE_LENGTH: usize = 10;

/// Calls `Alphanumeric.sample_string` of `rand` on the thread-local
/// generator. The string it returns has `len` characters, each drawn from
/// `A`–`Z`, `a`–`z`, `0`–`9`; which ones is up to the generator, so nothing
/// else is known of it and two calls need not agree. The call panics if
/// the generator cannot be seeded from the operating system.
#[verifier::external_body]
fn sample_alphanumeric(len: usize) -> (r: String)
    ensures
        r@.len() == len,
        forall|i: int| 0 <= i < r@.len() ==> is_alphanumeric(#[trigger] r@[i]),
{
    Alphanumeric.sample_string(&mut rand::thread_rng(), len)
}

/// A random text fit to become the base of a stored name: ten ASCII
/// letters and digits.
pub open spec fn is_base(base: Seq<char>) -> bool {
    &&& base.len() == BASE_LENGTH
    &&& forall|i: int| 0 <= i < base.len() ==> is_alphanumeric(#[trigger] base[i])
}

/// Draws the random part of a stored name.
pub fn generate_file_name() -> (r: String)
    ensures
        is_base(r@),
{
    sample_alphanumeric(BASE_LENGTH)
}

/// The position of the last dot in `name`, or `-1` if it has none.
pub open spec fn last_dot(name: Seq<char>) -> int
    decreases name.len(),
{
    if name.len() == 0 {
        -1
    } else if name.last() == '.' {
        name.len() - 1
    } else {
        last_dot(name.drop_last())
    }
}

/// The extension of a file name: what follows its last dot, or the empty
/// text if it has no dot.
pub open spec fn extension(name: Seq<char>) -> Seq<char> {
    let dot = last_dot(name);
    if dot < 0 {
        Seq::empty()
    } else {
        name.skip(dot + 1)
    }
}

/// `last_dot` finds a dot after which no other dot follows, and answers
/// `-1` only for a name without any dot.
pub proof fn lemma_last_dot(name: Seq<char>)
    ensures
        -1 <= last_dot(name) < name.len(),
        last_dot(name) >= 0 ==> name[last_dot(name)] == '.',
        forall|k: int| last_dot(name) < k < name.len() ==> name[k] != '.',
    decreases name.len(),
{
    if name.len() > 0 && name.last() != '.' {
        let front = name.drop_last();
        lemma_last_dot(front);
        assert forall|k: int| last_dot(name) < k < name.len() implies name[k] != '.' by {
            if k < front.len() {
                assert(front[k] != '.');
            }
        }
    }
}

/// An extension holds no dot, and a name with a dot is the part before its
/// last dot, the dot, and the extension.
pub proof fn lemma_extension(name: Seq<char>)
    ensures
        forall|k: int| 0 <= k < extension(name).len() ==> extension(name)[k] != '.',
        last_dot(name) >= 0 ==> name == name.take(last_dot(name)) + seq!['.'] + extension(name),
        last_dot(name) < 0 ==> extension(name).len() == 0,
{
    lemma_last_dot(name);
}

/// Appending a dot and a text without dots to any prefix gives a name whose
/// extension is that text.
pub proof fn lemma_extension_of_suffix(prefix: Seq<char>, ext: Seq<char>)
    requires
        forall|k: int| 0 <= k < ext.len() ==> ext[k] != '.',
    ensures
        last_dot(prefix + seq!['.'] + ext) == prefix.len(),
        extension(prefix + seq!['.'] + ext) == ext,
    decreases ext.len(),
{
    let name = prefix + seq!['.'] + ext;
    if ext.len() > 0 {
        assert(name.drop_last() =~= prefix + seq!['.'] + ext.drop_last());
        lemma_extension_of_suffix(prefix, ext.drop_last());
    }
}

/// The extension of `name`: what follows its last dot, empty if `name` has
/// no dot or ends in one.
pub fn extension_of(name: &str) -> (r: &str)
    ensures
        r@ == extension(name@),
{
    let chars = chars_of(name);
    let mut dot: Option<usize> = None;
    let mut i: usize = 0;
    while i < chars.len()
        invariant
            i <= chars.len(),
            chars@ == name@,
            match dot {
                Some(d) => d == last_dot(chars@.take(i as int)),
                None => last_dot(chars@.take(i as int)) == -1,
            },
        decreases chars.len() - i,
    {
        assert(chars@.take(i + 1).drop_last() =~= chars@.take(i as int));
        if chars[i] == '.' {
            dot = Some(i);
        }
        i += 1;
    }
    proof {
        assert(chars@.take(i as int) =~= name@);
        lemma_last_dot(name@);
    }
    match dot {
        Some(d) => name.substring_char(d + 1, chars.len()),
        None => name.substring_char(0, 0),
    }
}

/// The name under which a file called `original` by its client is stored
/// when `base` was drawn for it: base, dot and extension, in ASCII lower
/// case.
pub open spec fn storage_name(base: Seq<char>, original: Seq<char>) -> Seq<char> {
    lower(base + seq!['.'] + extension(original))
}

/// What every stored name of a file called `original` looks like: ten
/// lower-case letters and digits, a dot, and the extension of `original` in
/// lower case.
pub open spec fn is_storage_name(name: Seq<char>, original: Seq<char>) -> bool {
    &&& name.len() == BASE_LENGTH + 1 + extension(original).len()
    &&& forall|i: int| 0 <= i < BASE_LENGTH ==> is_lower_alphanumeric(#[trigger] name[i])
    &&& name[BASE_LENGTH as int] == '.'
    &&& name.skip(BASE_LENGTH + 1) == lower(extension(original))
}

/// Whatever base is drawn, the name put together from it has the shape of
/// a stored name.
pub proof fn lemma_storage_name(base: Seq<char>, original: Seq<char>)
    requires
        is_base(base),
    ensures
        is_storage_name(storage_name(base, original), original),
{
    let ext = extension(original);
    let name = storage_name(base, original);
    assert forall|i: int| 0 <= i < BASE_LENGTH implies is_lower_alphanumeric(
        #[trigger] name[i],
    ) by {
        lemma_ascii_lower(base[i]);
    }
    assert(name.skip(BASE_LENGTH + 1) =~= lower(ext));
}

/// The extension of a stored name is the extension of the client's file
/// name in lower case: the dot after the base is the last one.
pub proof fn lemma_stored_extension(name: Seq<char>, original: Seq<char>)
    requires
        is_storage_name(name, original),
    ensures
        last_dot(name) == BASE_LENGTH,
        extension(name) == lower(extension(original)),
{
    let ext = extension(original);
    lemma_extension(original);
    assert forall|k: int| 0 <= k < lower(ext).len() implies lower(ext)[k] != '.' by {
        lemma_ascii_lower(ext[k]);
    }
    let base = name.take(BASE_LENGTH as int);
    assert(name =~= base + seq!['.'] + name.skip(BASE_LENGTH + 1));
    lemma_extension_of_suffix(base, lower(ext));
}

/// Puts a stored name together from a base and the client's file name.
pub fn name_with_base(base: &str, original: &str) -> (r: String)
    ensures
        r@ == storage_name(base@, original@),
{
    let mut name = String::from_str(base);
    name.append(".");
    name.append(extension_of(original));
    proof {
        reveal_strlit(".");
    }
    to_ascii_lowercase(name.as_str())
}

/// Draws a fresh stored name for a file that its client calls `original`.
pub fn new_storage_name(original: &str) -> (r: String)
    ensures
        is_storage_name(r@, original@),
        extension(r@) == lower(extension(original@)),
{
    let base = generate_file_name();
    proof {
        lemma_storage_name(base@, original@);
        lemma_stored_extension(storage_name(base@, original@), original@);
    }
    name_with_base(base.as_str(), original)
}

} // verus!
