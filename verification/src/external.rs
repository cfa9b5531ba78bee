//! Calls into std and outside crates whose results the library relies on.

use bevy_platform::hash::FixedState;
use shlex::Shlex;
use std::hash::BuildHasher;
use trie_rs::{Trie, TrieBuilder};
use vstd::prelude::*;
use vstd::utf8::encode_utf8;

use crate::text::{join_words, string_views};

verus! {

/// The Unicode lowercase mapping of a string, as `str::to_lowercase` computes it.
pub uninterp spec fn lowercase(s: Seq<char>) -> Seq<char>;

/// The ASCII lowercase form of a character: `A` to `Z` become `a` to `z`, others stay.
pub open spec fn ascii_lower(c: char) -> char {
    if 'A' <= c && c <= 'Z' {
        ((c as u32) + 32) as char
    } else {
        c
    }
}

/// Every character of `s` is ASCII.
pub open spec fn all_ascii(s: Seq<char>) -> bool {
    forall|i: int| 0 <= i < s.len() ==> (s[i] as u32) < 128
}

/// Calls `str::to_lowercase`; the result is the lowercase mapping named by `lowercase`. On an
/// ASCII string that mapping lowers `A` to `Z` and leaves every other character as it is
/// (no other ASCII character has a Unicode lowercase mapping).
#[verifier::external_body]
pub(crate) fn to_lowercase(s: &str) -> (r: String)
    ensures
        r@ == lowercase(s@),
        all_ascii(s@) ==> r@ == s@.map_values(|c: char| ascii_lower(c)),
{
    s.to_lowercase()
}

/// The words of a line split with POSIX shell syntax, as `shlex::Shlex` yields them (quotes and
/// backslash escapes resolved; words after a syntax error are not yielded).
pub uninterp spec fn shell_words(line: Seq<char>) -> Seq<Seq<char>>;

/// A character that the shell lexer copies into a word as it is: not a blank (space, tab,
/// newline), quote, backslash or comment sign.
pub open spec fn plain_shell_char(c: char) -> bool {
    c != ' ' && c != '\t' && c != '\n' && c != '"' && c != '\'' && c != '\\' && c != '#'
}

/// A non-empty word of plain characters only.
pub open spec fn plain_shell_word(w: Seq<char>) -> bool {
    w.len() > 0 && forall|i: int| 0 <= i < w.len() ==> plain_shell_char(w[i])
}

/// Calls `shlex::Shlex::new(line)` and collects every word it yields; the result is named by
/// `shell_words`. A line that is plain words joined by single spaces splits into those words:
/// the lexer ends a word at a space and copies every plain character.
#[verifier::external_body]
pub(crate) fn split_shell_words(line: &str) -> (words: Vec<String>)
    ensures
        string_views(words@) == shell_words(line@),
        forall|ws: Seq<Seq<char>>|
            ws.len() > 0 && (forall|k: int| 0 <= k < ws.len() ==> plain_shell_word(#[trigger] ws[k]))
                && line@ == #[trigger] join_words(ws, seq![' ']) ==> string_views(words@) == ws,
{
    Shlex::new(line).collect()
}

/// Calls `FixedState::with_seed(42).hash_one(buf)` (foldhash, through `bevy_platform`). The value
/// is the same for equal buffers within one build on one platform, but foldhash does not promise
/// it across platforms or versions, so nothing is stated of it.
#[verifier::external_body]
pub(crate) fn buffer_hash(buf: &String) -> u64 {
    FixedState::with_seed(42).hash_one(buf)
}

#[verifier::external_type_specification]
#[verifier::external_body]
#[verifier::reject_recursive_types(Label)]
pub struct ExTrieBuilder<Label>(TrieBuilder<Label>);

#[verifier::external_type_specification]
#[verifier::external_body]
#[verifier::reject_recursive_types(Label)]
pub struct ExTrie<Label>(Trie<Label>);

/// The byte strings that have been pushed into a `trie_rs::TrieBuilder`.
pub uninterp spec fn trie_builder_words(builder: TrieBuilder<u8>) -> Set<Seq<u8>>;

/// The byte strings that a `trie_rs::Trie` holds.
pub uninterp spec fn trie_words(trie: Trie<u8>) -> Set<Seq<u8>>;

/// Calls `TrieBuilder::new`, which starts with no words.
#[verifier::external_body]
pub(crate) fn new_trie_builder() -> (builder: TrieBuilder<u8>)
    ensures
        trie_builder_words(builder) == Set::<Seq<u8>>::empty(),
{
    TrieBuilder::new()
}

/// Calls `TrieBuilder::push` with the UTF-8 bytes of `word`, which adds them to the words.
/// The builder panics on an empty word, which `requires` leaves out.
#[verifier::external_body]
pub(crate) fn trie_builder_push(builder: &mut TrieBuilder<u8>, word: &str)
    requires
        word@.len() > 0,
    ensures
        trie_builder_words(*final(builder)) == trie_builder_words(*old(builder)).insert(
            encode_utf8(word@),
        ),
{
    builder.push(word)
}

/// Calls `TrieBuilder::build`; the trie holds the words that were pushed.
#[verifier::external_body]
pub(crate) fn trie_builder_build(builder: TrieBuilder<u8>) -> (trie: Trie<u8>)
    ensures
        trie_words(trie) == trie_builder_words(builder),
{
    builder.build()
}

} // verus!
