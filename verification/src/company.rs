//! The carriers of the feed: the company file and its records.

use crate::identification::{
    identification_at, parse_identification, DeliveryIdentified, IdentificationView,
};
use crate::text::{
    decimal_text, field_at, is_space, lemma_number_reads_back, lemma_run_ends_at, number_in,
    parse_number, rest_from, scan_field, spec_is_eol, to_chars, trimmed, trimmed_string,
    CharClass, ParseError, Terminator,
};
use crate::views::{lemma_seq_view_empty, lemma_seq_view_push, seq_view};
use vstd::prelude::*;

verus! {

/// A carrier: its number, its short code and its name.
#[derive(Debug, PartialEq)]
pub struct Company {
    pub id: u32,
    pub code: String,
    pub name: String,
}

/// A [`Company`] as plain values.
pub struct CompanyView {
    pub id: u32,
    pub code: Seq<char>,
    pub name: Seq<char>,
}

impl View for Company {
    type V = CompanyView;

    open spec fn view(&self) -> CompanyView {
        CompanyView { id: self.id, code: self.code@, name: self.name@ }
    }
}

impl Clone for Company {
    fn clone(&self) -> (r: Self)
        ensures
            r@ == self@,
    {
        Company { id: self.id, code: self.code.clone(), name: self.name.clone() }
    }
}

/// The company file: its header and its carriers.
pub type Companies = DeliveryIdentified<Vec<Company>>;

/// The position of the first company with the number `id`, from `from` on.
pub open spec fn company_index(data: Seq<Company>, id: u32, from: int) -> Option<int>
    decreases data.len() - from,
{
    if 0 <= from < data.len() {
        if data[from].id == id {
            Some(from)
        } else {
            company_index(data, id, from + 1)
        }
    } else {
        None
    }
}

impl Companies {
    /// The first company with the number `id`, if there is one.
    pub fn get_by_id(&self, id: u32) -> (r: Option<&Company>)
        ensures
            match company_index(self.data@, id, 0) {
                Some(k) => r == Some(&self.data@[k]),
                None => r.is_none(),
            },
            r matches Some(c) ==> c.id == id,
            r.is_none() ==> forall|k: int| 0 <= k < self.data@.len() ==> self.data@[k].id != id,
    {
        let mut k: usize = 0;
        while k < self.data.len()
            invariant
                k <= self.data.len(),
                company_index(self.data@, id, 0) == company_index(self.data@, id, k as int),
                forall|j: int| 0 <= j < k ==> self.data@[j].id != id,
            decreases self.data.len() - k,
        {
            if self.data[k].id == id {
                return Some(&self.data[k]);
            }
            k += 1;
        }
        None
    }
}

/// The company line at position `i` and the position after it: the number,
/// the code and the name, each closed by a comma, and whatever follows up
/// to the end of the line. Code and name are trimmed.
pub open spec fn company_at(s: Seq<char>, i: int) -> Option<(CompanyView, int)> {
    let id = field_at(s, i, CharClass::NotComma, Terminator::Comma);
    let code = field_at(s, id.unwrap().1, CharClass::NotComma, Terminator::Comma);
    let name = field_at(s, code.unwrap().1, CharClass::NotComma, Terminator::Comma);
    let tail = field_at(s, name.unwrap().1, CharClass::NotEol, Terminator::LineEnd);
    if id.is_some() && number_in(s, i, id.unwrap().0).is_some() && code.is_some()
        && name.is_some() && tail.is_some() {
        Some(
            (
                CompanyView {
                    id: number_in(s, i, id.unwrap().0).unwrap(),
                    code: trimmed(s, id.unwrap().1, code.unwrap().0),
                    name: trimmed(s, code.unwrap().1, name.unwrap().0),
                },
                tail.unwrap().1,
            ),
        )
    } else {
        None
    }
}

/// The company lines from position `i` on, as many as follow one another,
/// and the position after the last of them.
pub open spec fn companies_at(s: Seq<char>, i: int) -> (Seq<CompanyView>, int)
    decreases s.len() - i,
{
    match company_at(s, i) {
        Some((c, n)) => if i < n <= s.len() {
            (seq![c] + companies_at(s, n).0, companies_at(s, n).1)
        } else {
            (Seq::empty(), i)
        },
        None => (Seq::empty(), i),
    }
}

/// The company file at the start of `s`: the header line, then company
/// lines, and the position after the last of them.
pub open spec fn company_file_at(s: Seq<char>) -> Option<
    (IdentificationView, Seq<CompanyView>, int),
> {
    match identification_at(s, 0) {
        Some((id, n)) => Some((id, companies_at(s, n).0, companies_at(s, n).1)),
        None => None,
    }
}

/// Reads the company line at position `i`.
pub fn parse_company(s: &Vec<char>, i: usize) -> (r: Option<(Company, usize)>)
    requires
        i <= s.len(),
    ensures
        match company_at(s@, i as int) {
            Some((v, n)) => r matches Some((c, m)) && c@ == v && m == n && i < n <= s.len(),
            None => r.is_none(),
        },
{
    let (e1, n1) = match scan_field(s, i, CharClass::NotComma, Terminator::Comma) {
        Some(f) => f,
        None => {
            return None;
        },
    };
    let id = match parse_number(s, i, e1) {
        Some(v) => v,
        None => {
            return None;
        },
    };
    let (e2, n2) = match scan_field(s, n1, CharClass::NotComma, Terminator::Comma) {
        Some(f) => f,
        None => {
            return None;
        },
    };
    let (e3, n3) = match scan_field(s, n2, CharClass::NotComma, Terminator::Comma) {
        Some(f) => f,
        None => {
            return None;
        },
    };
    let (_e4, n4) = match scan_field(s, n3, CharClass::NotEol, Terminator::LineEnd) {
        Some(f) => f,
        None => {
            return None;
        },
    };
    Some((Company { id, code: trimmed_string(s, n1, e2), name: trimmed_string(s, n2, e3) }, n4))
}

/// Reads company lines from position `i` on, until one does not parse.
pub fn parse_companies(s: &Vec<char>, i: usize) -> (r: (Vec<Company>, usize))
    requires
        i <= s.len(),
    ensures
        seq_view(r.0@) == companies_at(s@, i as int).0,
        r.1 == companies_at(s@, i as int).1,
        i <= r.1 <= s.len(),
{
    let mut out: Vec<Company> = Vec::new();
    let mut pos: usize = i;
    proof {
        lemma_seq_view_empty::<Company>();
        assert(Seq::<CompanyView>::empty() + companies_at(s@, i as int).0 =~= companies_at(
            s@,
            i as int,
        ).0);
    }
    loop
        invariant
            i <= pos <= s.len(),
            companies_at(s@, i as int).0 == seq_view(out@) + companies_at(s@, pos as int).0,
            companies_at(s@, i as int).1 == companies_at(s@, pos as int).1,
        decreases s.len() - pos,
    {
        match parse_company(s, pos) {
            Some((c, n)) => {
                proof {
                    lemma_seq_view_push(out@, c);
                    assert(seq_view(out@).push(c@) + companies_at(s@, n as int).0 =~= seq_view(
                        out@,
                    ) + (seq![c@] + companies_at(s@, n as int).0));
                }
                out.push(c);
                pos = n;
            },
            None => {
                proof {
                    assert(seq_view(out@) + Seq::<CompanyView>::empty() =~= seq_view(out@));
                }
                return (out, pos);
            },
        }
    }
}

/// Reads a company line from the start of `input` and returns it with the
/// rest of the input.
pub fn company<'a>(input: &'a str) -> (r: Result<(&'a str, Company), ParseError>)
    ensures
        match company_at(input@, 0) {
            Some((v, n)) => r matches Ok((rest, c)) && c@ == v && 0 < n <= input@.len()
                && rest@ == input@.subrange(n, input@.len() as int),
            None => r.is_err(),
        },
{
    let chars = to_chars(input);
    match parse_company(&chars, 0) {
        Some((c, n)) => Ok((rest_from(input, n, chars.len()), c)),
        None => Err(ParseError),
    }
}

/// Reads a company file: the header line, then company lines as long as
/// they parse. Returns what was read with the rest of the input. Fails
/// where the header line does not parse.
pub fn company_file<'a>(input: &'a str) -> (r: Result<(&'a str, Companies), ParseError>)
    ensures
        match company_file_at(input@) {
            Some((id, data, n)) => r matches Ok((rest, file)) && 0 <= n <= input@.len()
                && file.identification@ == id
                && file.identification.wf() && seq_view(file.data@) == data && rest@
                == input@.subrange(n, input@.len() as int),
            None => r.is_err(),
        },
{
    let chars = to_chars(input);
    match parse_identification(&chars, 0) {
        Some((identification, n)) => {
            let (data, end) = parse_companies(&chars, n);
            Ok((rest_from(input, end, chars.len()), DeliveryIdentified { identification, data }))
        },
        None => Err(ParseError),
    }
}

/// The line that writes a company: its number in decimal digits, its code
/// and its name, each with a comma after it, then `tail` and the end of the
/// line.
pub open spec fn company_line(c: CompanyView, tail: Seq<char>) -> Seq<char> {
    decimal_text(c.id as nat) + seq![','] + c.code + seq![','] + c.name + seq![','] + tail
        + seq!['\r', '\n']
}

/// Whether a text is read back as it is from a field that a comma closes:
/// it holds no comma, and no white space at its two ends.
pub open spec fn is_plain_field(t: Seq<char>) -> bool {
    &&& forall|k: int| 0 <= k < t.len() ==> #[trigger] t[k] != ','
    &&& t.len() > 0 ==> !is_space(t[0]) && !is_space(t[t.len() - 1])
}

/// A company that is written as a line is read back from it as it was, and
/// the whole line is taken: so no two companies are written as the same
/// line.
pub proof fn lemma_company_round_trip(c: CompanyView, tail: Seq<char>)
    requires
        is_plain_field(c.code),
        is_plain_field(c.name),
        forall|k: int| 0 <= k < tail.len() ==> !spec_is_eol(#[trigger] tail[k]),
    ensures
        company_at(company_line(c, tail), 0) == Some(
            (c, company_line(c, tail).len() as int),
        ),
{
    let s = company_line(c, tail);
    let digits = decimal_text(c.id as nat);
    let e1 = digits.len() as int;
    let n1 = e1 + 1;
    let e2 = n1 + c.code.len();
    let n2 = e2 + 1;
    let e3 = n2 + c.name.len();
    let n3 = e3 + 1;
    let e4 = n3 + tail.len();
    assert(s.len() == e4 + 2);
    assert(s.subrange(0, e1) =~= digits);
    assert(s.subrange(n1, e2) =~= c.code);
    assert(s.subrange(n2, e3) =~= c.name);
    assert(s.subrange(n3, e4) =~= tail);
    assert(s[e1] == ',' && s[e2] == ',' && s[e3] == ',');
    assert(s[e4] == '\r' && s[e4 + 1] == '\n');
    lemma_number_reads_back(s, 0, e1, c.id);
    assert forall|k: int| 0 <= k < e1 implies CharClass::NotComma.holds(#[trigger] s[k]) by {
        assert(CharClass::Digit.holds(s[k]));
    }
    lemma_run_ends_at(s, 0, e1, CharClass::NotComma);
    assert forall|k: int| n1 <= k < e2 implies CharClass::NotComma.holds(#[trigger] s[k]) by {
        assert(s[k] == s.subrange(n1, e2)[k - n1]);
    }
    lemma_run_ends_at(s, n1, e2, CharClass::NotComma);
    assert forall|k: int| n2 <= k < e3 implies CharClass::NotComma.holds(#[trigger] s[k]) by {
        assert(s[k] == s.subrange(n2, e3)[k - n2]);
    }
    lemma_run_ends_at(s, n2, e3, CharClass::NotComma);
    assert forall|k: int| n3 <= k < e4 implies CharClass::NotEol.holds(#[trigger] s[k]) by {
        assert(s[k] == s.subrange(n3, e4)[k - n3]);
    }
    lemma_run_ends_at(s, n3, e4, CharClass::NotEol);
    assert(field_at(s, 0, CharClass::NotComma, Terminator::Comma) == Some((e1, n1)));
    assert(field_at(s, n1, CharClass::NotComma, Terminator::Comma) == Some((e2, n2)));
    assert(field_at(s, n2, CharClass::NotComma, Terminator::Comma) == Some((e3, n3)));
    assert(field_at(s, n3, CharClass::NotEol, Terminator::LineEnd) == Some((e4, e4 + 2)));
    if c.code.len() > 0 {
        assert(s[n1] == s.subrange(n1, e2)[0]);
        assert(s[e2 - 1] == s.subrange(n1, e2)[e2 - 1 - n1]);
    }
    if c.name.len() > 0 {
        assert(s[n2] == s.subrange(n2, e3)[0]);
        assert(s[e3 - 1] == s.subrange(n2, e3)[e3 - 1 - n2]);
    }
    assert(trimmed(s, n1, e2) == c.code);
    assert(trimmed(s, n2, e3) == c.name);
}

} // verus!
