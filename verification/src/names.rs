//! The names of sites that are made of a generated name and a fixed word.

use crate::rng::SiteRng;
use vstd::prelude::*;
use vstd::string::StringExecFns;

verus! {

/// How a name is made up.
#[derive(Clone, Copy, PartialEq, Eq, Structural, Debug)]
pub enum NameStyle {
    Town,
    Arabic,
    Savannah,
    Danari,
    Terracotta,
    Haniwa,
}

/// The words that a haniwa site can be called by.
pub open spec fn haniwa_words() -> Seq<&'static str> {
    seq![
        "Catacombs",
        "Crypt",
        "Tomb",
        "Gravemound",
        "Tunnels",
        "Vault",
        "Chambers",
        "Halls",
        "Tumulus",
        "Barrow",
    ]
}

/// The words that a terracotta site can be called by.
pub open spec fn terracotta_words() -> Seq<&'static str> {
    seq![
        "Tombs",
        "Necropolis",
        "Ruins",
        "Mausoleum",
        "Cemetery",
        "Burial Grounds",
        "Remains",
        "Temples",
    ]
}

/// The name of a haniwa site: the generated name and one of the words.
pub fn haniwa_name(rng: &mut SiteRng, generated: &str) -> (r: String)
    ensures
        0 <= old(rng).choice(10) < 10,
        r@ == generated@ + " "@ + haniwa_words()[old(rng).choice(10)]@,
        *final(rng) == old(rng).after_choice(10),
{
    let words: Vec<&'static str> = vec![
        "Catacombs",
        "Crypt",
        "Tomb",
        "Gravemound",
        "Tunnels",
        "Vault",
        "Chambers",
        "Halls",
        "Tumulus",
        "Barrow",
    ];
    assert(words@ =~= haniwa_words());
    let word = match rng.pick(&words) {
        Some(word) => word,
        None => "",
    };
    generated.to_owned().concat(" ").concat(word)
}

/// The name of a terracotta site: one of the words, behind the generated name, or before it with
/// "of" between them.
pub fn terracotta_name(rng: &mut SiteRng, generated: &str) -> (r: String)
    ensures
        0 <= old(rng).choice(8) < 8,
        ({
            let word = terracotta_words()[old(rng).choice(8)]@;
            r@ == if old(rng).after_choice(8).range_value(0, 2) == 0 {
                generated@ + " "@ + word
            } else {
                word + " of "@ + generated@
            }
        }),
        *final(rng) == old(rng).after_choice(8).after_range(0, 2),
{
    let words: Vec<&'static str> = vec![
        "Tombs",
        "Necropolis",
        "Ruins",
        "Mausoleum",
        "Cemetery",
        "Burial Grounds",
        "Remains",
        "Temples",
    ];
    assert(words@ =~= terracotta_words());
    let word = match rng.pick(&words) {
        Some(word) => word,
        None => "",
    };
    if rng.next_range(0, 2) == 0 {
        generated.to_owned().concat(" ").concat(word)
    } else {
        word.to_owned().concat(" of ").concat(generated)
    }
}

/// The name of a bridge.
pub fn bridge_name(generated: &str) -> (r: String)
    ensures
        r@ == "Bridge of "@ + generated@,
{
    "Bridge of ".to_owned().concat(generated)
}

} // verus!
