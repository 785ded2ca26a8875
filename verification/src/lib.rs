//! Part-of-speech driven text play for Japanese sentences.
//!
//! A morphological analyzer cuts a sentence into morphemes and annotates each
//! with a list of detail strings. This crate takes that raw output as plain
//! values, classifies every morpheme ([`tokenizer`]), and rewrites the
//! sentence from the classified stream ([`api`]): `parrot` echoes the last
//! content word, `masquerade` hides the words of chosen parts of speech.
//!
//! The analyzer itself stays outside: the crate never calls it and needs no
//! dictionary. Contracts are stated over the views of the types involved,
//! with `Seq<char>` for text, so that lengths count characters and not bytes.

pub mod api;
pub mod tokenizer;
