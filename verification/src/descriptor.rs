//! Descriptions of portfolio legs.
//!
//! A leg is described by its kind and its inputs, set apart by colons:
//! `std:odds:win rate`, `pm:price:probability`,
//! `stock:entry:target:stop:win rate`, `arb:odds1:odds2`, or
//! `marb:odds1,odds2,...`. The kind may be written in upper or lower case.
//! This module tells the kind and takes the description apart; the inputs
//! are left as text.

use crate::cli::texts;
use crate::text::{lowercased, same_text, trimmed};
use crate::types::PortfolioLegSource;
use vstd::prelude::*;

verus! {

/// Why a description cannot be taken apart.
#[derive(Clone, Copy, Debug, PartialEq, Eq, Structural)]
pub enum DescriptorError {
    /// A bet at odds takes two inputs.
    Standard,
    /// A prediction-market contract takes two inputs.
    Polymarket,
    /// A stock trade takes four inputs.
    Stock,
    /// A two-way arbitrage takes two inputs.
    Arbitrage,
    /// A multi-way arbitrage takes one list of odds.
    MultiArbitrage,
    /// The kind is none of those known.
    Unsupported,
}

/// A description taken apart.
pub struct Descriptor {
    /// The kind of position described.
    pub source: PortfolioLegSource,
    /// Its inputs, in their order; for a multi-way arbitrage, the odds of the
    /// list, each without the blanks around it.
    pub fields: Vec<String>,
}

/// The pieces of `text` between the occurrences of `separator`: one more
/// piece than there are separators, each free of them.
pub open spec fn split(text: Seq<char>, separator: char) -> Seq<Seq<char>>
    decreases text.len(),
{
    if text.len() == 0 {
        seq![Seq::<char>::empty()]
    } else {
        let before = split(text.drop_last(), separator);
        if text.last() == separator {
            before.push(Seq::<char>::empty())
        } else {
            before.drop_last().push(before.last().push(text.last()))
        }
    }
}

/// The inputs of a list of odds: its pieces between commas, each without the
/// blanks around it.
pub open spec fn listed(list: Seq<char>) -> Seq<Seq<char>> {
    split(list, ',').map_values(|piece: Seq<char>| trimmed(piece))
}

/// What a description of `parts` pieces whose inputs are `inputs` in number
/// holds for a position of kind `source`.
pub open spec fn inputs_of(
    parts: Seq<Seq<char>>,
    inputs: nat,
    source: PortfolioLegSource,
    error: DescriptorError,
) -> Result<(PortfolioLegSource, Seq<Seq<char>>), DescriptorError> {
    if parts.len() == inputs + 1 {
        Ok((source, parts.drop_first()))
    } else {
        Err(error)
    }
}

/// The kind and the inputs that `token` describes.
pub open spec fn described(token: Seq<char>) -> Result<
    (PortfolioLegSource, Seq<Seq<char>>),
    DescriptorError,
> {
    let parts = split(token, ':');
    let kind = lowercased(parts[0]);
    if kind == "std"@ || kind == "standard"@ {
        inputs_of(parts, 2, PortfolioLegSource::Standard, DescriptorError::Standard)
    } else if kind == "pm"@ || kind == "polymarket"@ {
        inputs_of(parts, 2, PortfolioLegSource::Polymarket, DescriptorError::Polymarket)
    } else if kind == "stock"@ || kind == "stk"@ {
        inputs_of(parts, 4, PortfolioLegSource::Stock, DescriptorError::Stock)
    } else if kind == "arb"@ {
        inputs_of(parts, 2, PortfolioLegSource::Arbitrage2, DescriptorError::Arbitrage)
    } else if kind == "marb"@ {
        if parts.len() == 2 {
            Ok((PortfolioLegSource::ArbitrageN, listed(parts[1])))
        } else {
            Err(DescriptorError::MultiArbitrage)
        }
    } else {
        Err(DescriptorError::Unsupported)
    }
}

/// Whether `descriptor` holds what `described` says.
pub open spec fn holds(
    descriptor: Result<Descriptor, DescriptorError>,
    described: Result<(PortfolioLegSource, Seq<Seq<char>>), DescriptorError>,
) -> bool {
    match described {
        Ok((source, fields)) => descriptor is Ok && descriptor->Ok_0.source == source && texts(
            descriptor->Ok_0.fields@,
        ) == fields,
        Err(error) => descriptor == Err::<Descriptor, DescriptorError>(error),
    }
}

/// The pieces of `text` between the occurrences of `separator`.
pub fn split_text(text: &str, separator: char) -> (pieces: Vec<String>)
    ensures
        texts(pieces@) == split(text@, separator),
        pieces@.len() >= 1,
{
    let mut pieces: Vec<String> = Vec::new();
    let mut piece = String::new();
    assert(texts(pieces@).push(piece@) =~= split(text@.take(0), separator));
    for ch in it: text.chars()
        invariant
            it.seq() == text@,
            texts(pieces@).push(piece@) == split(text@.take(it.index() as int), separator),
    {
        let ghost seen = text@.take(it.index() as int);
        let ghost more = text@.take(it.index() + 1);
        let ghost done = texts(pieces@);
        let ghost open = piece@;
        proof {
            assert(more.drop_last() =~= seen);
            assert(more.last() == ch);
            assert(done.push(open).drop_last() =~= done);
            assert(done.push(open).last() == open);
        }
        if ch == separator {
            pieces.push(piece);
            piece = String::new();
            assert(texts(pieces@) =~= done.push(open));
        } else {
            piece.push(ch);
        }
    }
    assert(text@.take(text@.len() as int) =~= text@);
    let ghost done = texts(pieces@);
    let ghost open = piece@;
    pieces.push(piece);
    assert(texts(pieces@) =~= done.push(open));
    pieces
}

/// The pieces from the second on.
fn inputs(parts: &Vec<String>) -> (fields: Vec<String>)
    requires
        parts@.len() >= 1,
    ensures
        texts(fields@) == texts(parts@).drop_first(),
{
    let mut fields: Vec<String> = Vec::new();
    let mut i: usize = 1;
    while i < parts.len()
        invariant
            1 <= i <= parts.len(),
            texts(fields@) == texts(parts@).subrange(1, i as int),
        decreases parts.len() - i,
    {
        let ghost before = texts(fields@);
        fields.push(parts[i].clone());
        assert(texts(fields@) =~= before.push(parts@[i as int]@));
        assert(texts(parts@).subrange(1, i + 1) =~= texts(parts@).subrange(1, i as int).push(
            parts@[i as int]@,
        ));
        i = i + 1;
    }
    assert(texts(parts@).subrange(1, parts@.len() as int) =~= texts(parts@).drop_first());
    fields
}

/// The inputs of a list of odds.
fn list_inputs(list: &str) -> (fields: Vec<String>)
    ensures
        texts(fields@) == listed(list@),
{
    let pieces = split_text(list, ',');
    let mut fields: Vec<String> = Vec::new();
    let mut i: usize = 0;
    while i < pieces.len()
        invariant
            i <= pieces.len(),
            texts(pieces@) == split(list@, ','),
            texts(fields@) == listed(list@).take(i as int),
        decreases pieces.len() - i,
    {
        let ghost before = texts(fields@);
        assert(texts(pieces@)[i as int] == pieces@[i as int]@);
        let bare = pieces[i].as_str().trim();
        fields.push(bare.to_owned());
        assert(texts(fields@) =~= before.push(bare@));
        assert(listed(list@).take(i + 1) =~= listed(list@).take(i as int).push(bare@));
        i = i + 1;
    }
    assert(listed(list@).take(pieces@.len() as int) =~= listed(list@));
    fields
}

fn fixed_inputs(
    parts: &Vec<String>,
    count: usize,
    source: PortfolioLegSource,
    error: DescriptorError,
) -> (descriptor: Result<Descriptor, DescriptorError>)
    requires
        parts@.len() >= 1,
        count <= 4,
    ensures
        holds(descriptor, inputs_of(texts(parts@), count as nat, source, error)),
{
    if parts.len() == count + 1 {
        Ok(Descriptor { source, fields: inputs(parts) })
    } else {
        Err(error)
    }
}

/// Takes the description of a leg apart: its kind, and its inputs as text.
pub fn read_descriptor(token: &str) -> (descriptor: Result<Descriptor, DescriptorError>)
    ensures
        holds(descriptor, described(token@)),
{
    let parts = split_text(token, ':');
    assert(texts(parts@)[0] == parts@[0]@);
    let kind = parts[0].as_str().to_lowercase();
    let kind = kind.as_str();
    if same_text(kind, "std") || same_text(kind, "standard") {
        fixed_inputs(&parts, 2, PortfolioLegSource::Standard, DescriptorError::Standard)
    } else if same_text(kind, "pm") || same_text(kind, "polymarket") {
        fixed_inputs(&parts, 2, PortfolioLegSource::Polymarket, DescriptorError::Polymarket)
    } else if same_text(kind, "stock") || same_text(kind, "stk") {
        fixed_inputs(&parts, 4, PortfolioLegSource::Stock, DescriptorError::Stock)
    } else if same_text(kind, "arb") {
        fixed_inputs(&parts, 2, PortfolioLegSource::Arbitrage2, DescriptorError::Arbitrage)
    } else if same_text(kind, "marb") {
        if parts.len() == 2 {
            assert(texts(parts@)[1] == parts@[1]@);
            Ok(
                Descriptor {
                    source: PortfolioLegSource::ArbitrageN,
                    fields: list_inputs(parts[1].as_str()),
                },
            )
        } else {
            Err(DescriptorError::MultiArbitrage)
        }
    } else {
        Err(DescriptorError::Unsupported)
    }
}

} // verus!
