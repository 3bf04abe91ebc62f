//! Consumes one token as a number within an inclusive range.

use vstd::prelude::*;
use crate::command::args::{Arg, ArgValue, ConsumedArgs};
use crate::command::tokenizer::token_views;
use crate::command::{CommandError, ExecutorFailure, ParseFailure};
use crate::number::{decimal_text, is_numeral, lemma_decimal_text_reads_back, parse_i32, signed_value, NumberError};

verus! {

/// Parses a decimal `i32` and checks it against optional inclusive bounds.
#[derive(Clone, Copy, Debug, PartialEq, Eq)]
pub struct BoundedNumArgumentConsumer {
    pub min_inclusive: Option<i32>,
    pub max_inclusive: Option<i32>,
}

impl BoundedNumArgumentConsumer {
    /// The least value accepted.
    pub open spec fn lower(self) -> int {
        match self.min_inclusive {
            Some(min) => min as int,
            None => i32::MIN as int,
        }
    }

    /// The greatest value accepted.
    pub open spec fn upper(self) -> int {
        match self.max_inclusive {
            Some(max) => max as int,
            None => i32::MAX as int,
        }
    }

    /// What the consumer makes of one token.
    pub open spec fn parse(self, token: Seq<char>) -> Result<i32, ParseFailure> {
        if !is_numeral(token) {
            Err(ParseFailure::NotANumber)
        } else if self.lower() <= signed_value(token) <= self.upper() {
            Ok(signed_value(token) as i32)
        } else {
            Err(ParseFailure::OutOfRange)
        }
    }

    /// What the consumer makes of the token at `cursor`; it uses exactly one.
    pub open spec fn consume(self, tokens: Seq<Seq<char>>, cursor: int) -> Result<(i32, int), ParseFailure> {
        if 0 <= cursor < tokens.len() {
            match self.parse(tokens[cursor]) {
                Ok(value) => Ok((value, cursor + 1)),
                Err(failure) => Err(failure),
            }
        } else {
            Err(ParseFailure::NotANumber)
        }
    }

    /// A consumer that accepts every `i32`.
    pub fn new() -> (consumer: BoundedNumArgumentConsumer)
        ensures
            consumer.min_inclusive is None,
            consumer.max_inclusive is None,
    {
        BoundedNumArgumentConsumer { min_inclusive: None, max_inclusive: None }
    }

    /// The same consumer with `min` as its least accepted value.
    pub fn min(self, min: i32) -> (consumer: BoundedNumArgumentConsumer)
        ensures
            consumer.min_inclusive == Some(min),
            consumer.max_inclusive == self.max_inclusive,
    {
        BoundedNumArgumentConsumer { min_inclusive: Some(min), max_inclusive: self.max_inclusive }
    }

    /// The same consumer with `max` as its greatest accepted value.
    pub fn max(self, max: i32) -> (consumer: BoundedNumArgumentConsumer)
        ensures
            consumer.min_inclusive == self.min_inclusive,
            consumer.max_inclusive == Some(max),
    {
        BoundedNumArgumentConsumer { min_inclusive: self.min_inclusive, max_inclusive: Some(max) }
    }

    /// Parses one token: a numeral within the bounds is returned as it is
    /// written, a numeral outside them is out of range, anything else is not a
    /// number.
    pub fn parse_token(&self, token: &Vec<char>) -> (parsed: Result<i32, ParseFailure>)
        ensures
            parsed == self.parse(token@),
    {
        match parse_i32(token) {
            Err(NumberError::NotANumeral) => Err(ParseFailure::NotANumber),
            Err(NumberError::OutOfRange) => Err(ParseFailure::OutOfRange),
            Ok(value) => {
                let above = match self.min_inclusive {
                    Some(min) => value >= min,
                    None => true,
                };
                let below = match self.max_inclusive {
                    Some(max) => value <= max,
                    None => true,
                };
                if above && below {
                    Ok(value)
                } else {
                    Err(ParseFailure::OutOfRange)
                }
            },
        }
    }

    /// Parses the token at `cursor` and moves the cursor behind it.
    pub fn try_consume(&self, tokens: &Vec<Vec<char>>, cursor: usize) -> (parsed: Result<
        (i32, usize),
        ParseFailure,
    >)
        ensures
            match self.consume(token_views(tokens@), cursor as int) {
                Ok((value, next)) => parsed == Ok::<(i32, usize), ParseFailure>((value, next as usize)) && next
                    <= usize::MAX,
                Err(failure) => parsed == Err::<(i32, usize), ParseFailure>(failure),
            },
    {
        if cursor >= tokens.len() {
            return Err(ParseFailure::NotANumber);
        }
        match self.parse_token(&tokens[cursor]) {
            Ok(value) => Ok((value, cursor + 1)),
            Err(failure) => Err(failure),
        }
    }

    /// The number that an executor finds under `name`; a missing argument or
    /// one of another type is a failure of the executor.
    pub fn find_arg(args: &ConsumedArgs, name: &str) -> (found: Result<i32, CommandError>)
        ensures
            match found {
                Ok(value) => args@.contains_key(name@) && args@[name@] == ArgValue::Num(value),
                Err(error) => error == CommandError::ExecutorFailure(ExecutorFailure::InvalidConsumption) && !(
                args@.contains_key(name@) && args@[name@] is Num),
            },
    {
        match args.get(name) {
            Some(Arg::Num(value)) => Ok(*value),
            _ => Err(CommandError::ExecutorFailure(ExecutorFailure::InvalidConsumption)),
        }
    }
}

/// A numeral within the bounds is returned as the number it denotes, a
/// numeral outside them is out of range, and any other token is not a number.
pub proof fn lemma_parse_by_cases(consumer: BoundedNumArgumentConsumer, token: Seq<char>)
    ensures
        is_numeral(token) && consumer.lower() <= signed_value(token) <= consumer.upper() ==> consumer.parse(token)
            == Ok::<i32, ParseFailure>(signed_value(token) as i32),
        is_numeral(token) && !(consumer.lower() <= signed_value(token) <= consumer.upper()) ==> consumer.parse(
            token,
        ) == Err::<i32, ParseFailure>(ParseFailure::OutOfRange),
        !is_numeral(token) ==> consumer.parse(token) == Err::<i32, ParseFailure>(ParseFailure::NotANumber),
{
}

/// Every number, written in decimal, comes back unchanged where it lies
/// within the bounds, and is out of range where it does not.
pub proof fn lemma_number_comes_back_unchanged(consumer: BoundedNumArgumentConsumer, n: i32)
    ensures
        consumer.lower() <= n <= consumer.upper() ==> consumer.parse(decimal_text(n as int)) == Ok::<
            i32,
            ParseFailure,
        >(n),
        !(consumer.lower() <= n <= consumer.upper()) ==> consumer.parse(decimal_text(n as int)) == Err::<
            i32,
            ParseFailure,
        >(ParseFailure::OutOfRange),
{
    lemma_decimal_text_reads_back(n);
}

} // verus!
