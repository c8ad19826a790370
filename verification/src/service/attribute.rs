//! The attribute line: something that holds of a service between two stops.

use crate::text::{
    at_char, has_char, number_field_at, rest_from, scan_number_field, scan_text_field,
    text_field_at, to_chars, CharClass, ParseError, Terminator,
};
use crate::views::{lemma_seq_view_empty, lemma_seq_view_push, seq_view};
use vstd::prelude::*;

verus! {

/// An attribute of a service: its code, the stops between which it holds
/// (counted from 1, over the stops that are no passages), and its footnote.
#[derive(Debug, PartialEq)]
pub struct Attribute {
    pub code: String,
    pub first_stop: u32,
    pub last_stop: u32,
    pub footnote: u32,
}

/// An [`Attribute`] as plain values.
pub struct AttributeView {
    pub code: Seq<char>,
    pub first_stop: u32,
    pub last_stop: u32,
    pub footnote: u32,
}

impl View for Attribute {
    type V = AttributeView;

    open spec fn view(&self) -> AttributeView {
        AttributeView {
            code: self.code@,
            first_stop: self.first_stop,
            last_stop: self.last_stop,
            footnote: self.footnote,
        }
    }
}

impl Clone for Attribute {
    fn clone(&self) -> (r: Self)
        ensures
            r@ == self@,
    {
        Attribute {
            code: self.code.clone(),
            first_stop: self.first_stop,
            last_stop: self.last_stop,
            footnote: self.footnote,
        }
    }
}

/// A copy of a list of attributes.
pub fn clone_attributes(v: &Vec<Attribute>) -> (r: Vec<Attribute>)
    ensures
        seq_view(r@) == seq_view(v@),
{
    let mut out: Vec<Attribute> = Vec::new();
    let mut k: usize = 0;
    proof {
        lemma_seq_view_empty::<Attribute>();
        assert(v@.subrange(0, 0) =~= Seq::<Attribute>::empty());
    }
    while k < v.len()
        invariant
            k <= v.len(),
            seq_view(out@) == seq_view(v@.subrange(0, k as int)),
        decreases v.len() - k,
    {
        let a = v[k].clone();
        proof {
            lemma_seq_view_push(out@, a);
            lemma_seq_view_push(v@.subrange(0, k as int), v@[k as int]);
            assert(v@.subrange(0, k + 1) =~= v@.subrange(0, k as int).push(v@[k as int]));
        }
        out.push(a);
        k += 1;
    }
    assert(v@.subrange(0, v@.len() as int) =~= v@);
    out
}

/// The attribute line at position `i` and the position after it: `*`, the
/// code, trimmed, the first and the last stop, and the footnote.
pub open spec fn attribute_at(s: Seq<char>, i: int) -> Option<(AttributeView, int)> {
    let code = text_field_at(s, i + 1, CharClass::NotComma, Terminator::Comma);
    let first = number_field_at(s, code.unwrap().1, CharClass::Digit, Terminator::Comma);
    let last = number_field_at(s, first.unwrap().1, CharClass::Digit, Terminator::Comma);
    let footnote = number_field_at(s, last.unwrap().1, CharClass::Digit, Terminator::LineEnd);
    if has_char(s, i, '*') && code.is_some() && first.is_some() && last.is_some()
        && footnote.is_some() {
        Some(
            (
                AttributeView {
                    code: code.unwrap().0,
                    first_stop: first.unwrap().0,
                    last_stop: last.unwrap().0,
                    footnote: footnote.unwrap().0,
                },
                footnote.unwrap().1,
            ),
        )
    } else {
        None
    }
}

/// The attribute lines from position `i` on, as many as follow one another,
/// and the position after the last of them.
pub open spec fn attributes_at(s: Seq<char>, i: int) -> (Seq<AttributeView>, int)
    decreases s.len() - i,
{
    match attribute_at(s, i) {
        Some((a, n)) => if i < n <= s.len() {
            (seq![a] + attributes_at(s, n).0, attributes_at(s, n).1)
        } else {
            (Seq::empty(), i)
        },
        None => (Seq::empty(), i),
    }
}

/// Reads the attribute line at position `i`.
pub fn parse_attribute(s: &Vec<char>, i: usize) -> (r: Option<(Attribute, usize)>)
    requires
        i <= s.len(),
    ensures
        match attribute_at(s@, i as int) {
            Some((v, n)) => r matches Some((x, m)) && x@ == v && m == n && i < n <= s.len(),
            None => r.is_none(),
        },
{
    if !at_char(s, i, '*') {
        return None;
    }
    let (code, n1) = match scan_text_field(s, i + 1, CharClass::NotComma, Terminator::Comma) {
        Some(f) => f,
        None => {
            return None;
        },
    };
    let (first_stop, n2) = match scan_number_field(s, n1, CharClass::Digit, Terminator::Comma) {
        Some(f) => f,
        None => {
            return None;
        },
    };
    let (last_stop, n3) = match scan_number_field(s, n2, CharClass::Digit, Terminator::Comma) {
        Some(f) => f,
        None => {
            return None;
        },
    };
    let (footnote, n4) = match scan_number_field(s, n3, CharClass::Digit, Terminator::LineEnd) {
        Some(f) => f,
        None => {
            return None;
        },
    };
    Some((Attribute { code, first_stop, last_stop, footnote }, n4))
}

/// Reads attribute lines from position `i` on, until one does not parse.
pub fn parse_attributes(s: &Vec<char>, i: usize) -> (r: (Vec<Attribute>, usize))
    requires
        i <= s.len(),
    ensures
        seq_view(r.0@) == attributes_at(s@, i as int).0,
        r.1 == attributes_at(s@, i as int).1,
        i <= r.1 <= s.len(),
{
    let mut out: Vec<Attribute> = Vec::new();
    let mut pos: usize = i;
    proof {
        lemma_seq_view_empty::<Attribute>();
        assert(Seq::<AttributeView>::empty() + attributes_at(s@, i as int).0 =~= attributes_at(
            s@,
            i as int,
        ).0);
    }
    loop
        invariant
            i <= pos <= s.len(),
            attributes_at(s@, i as int).0 == seq_view(out@) + attributes_at(s@, pos as int).0,
            attributes_at(s@, i as int).1 == attributes_at(s@, pos as int).1,
        decreases s.len() - pos,
    {
        match parse_attribute(s, pos) {
            Some((a, n)) => {
                proof {
                    lemma_seq_view_push(out@, a);
                    assert(seq_view(out@).push(a@) + attributes_at(s@, n as int).0 =~= seq_view(
                        out@,
                    ) + (seq![a@] + attributes_at(s@, n as int).0));
                }
                out.push(a);
                pos = n;
            },
            None => {
                proof {
                    assert(seq_view(out@) + Seq::<AttributeView>::empty() =~= seq_view(out@));
                }
                return (out, pos);
            },
        }
    }
}

/// Reads an attribute line from the start of `input` and returns it with
/// the rest of the input.
pub fn attribute<'a>(input: &'a str) -> (r: Result<(&'a str, Attribute), ParseError>)
    ensures
        match attribute_at(input@, 0) {
            Some((v, n)) => r matches Ok((rest, x)) && x@ == v && 0 < n <= input@.len()
                && rest@ == input@.subrange(n, input@.len() as int),
            None => r.is_err(),
        },
{
    let chars = to_chars(input);
    match parse_attribute(&chars, 0) {
        Some((v, n)) => Ok((rest_from(input, n, chars.len()), v)),
        None => Err(ParseError),
    }
}

} // verus!
