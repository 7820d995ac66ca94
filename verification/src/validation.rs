//! Validation errors and the character rules that inputs are checked against.

use crate::text::chars_of;
use vstd::prelude::*;

verus! {

/// One failed rule: a code naming the rule and a human readable message.
#[derive(Debug)]
pub struct ValidationError {
    pub code: String,
    pub message: String,
}

/// The rules that failed, in the order they were checked.
#[derive(Debug)]
pub struct ValidationErrors {
    pub errors: Vec<ValidationError>,
}

impl ValidationErrors {
    /// The codes of the failed rules, in order.
    pub open spec fn codes(&self) -> Seq<Seq<char>> {
        self.errors@.map_values(|e: ValidationError| e.code@)
    }

    /// The messages of the failed rules, in order.
    pub open spec fn messages(&self) -> Seq<Seq<char>> {
        self.errors@.map_values(|e: ValidationError| e.message@)
    }

    pub fn new() -> (res: Self)
        ensures
            res.codes() == Seq::<Seq<char>>::empty(),
            res.messages() == Seq::<Seq<char>>::empty(),
    {
        let res = ValidationErrors { errors: Vec::new() };
        assert(res.codes() =~= Seq::<Seq<char>>::empty());
        assert(res.messages() =~= Seq::<Seq<char>>::empty());
        res
    }

    /// Record a failed rule.
    pub fn add(&mut self, code: &str, message: &str)
        ensures
            final(self).codes() == old(self).codes().push(code@),
            final(self).messages() == old(self).messages().push(message@),
    {
        let ghost before = self.codes();
        let ghost before_m = self.messages();
        self.errors.push(ValidationError { code: code.to_owned(), message: message.to_owned() });
        assert(self.codes() =~= before.push(code@));
        assert(self.messages() =~= before_m.push(message@));
    }

    /// Record the failed rules of `other` after these.
    pub fn append(&mut self, other: ValidationErrors)
        ensures
            final(self).codes() == old(self).codes() + other.codes(),
            final(self).messages() == old(self).messages() + other.messages(),
    {
        let ghost before = self.codes();
        let ghost added = other.codes();
        let ghost before_m = self.messages();
        let ghost added_m = other.messages();
        let mut other = other;
        self.errors.append(&mut other.errors);
        assert(self.codes() =~= before + added);
        assert(self.messages() =~= before_m + added_m);
    }

    pub fn is_empty(&self) -> (res: bool)
        ensures
            res == (self.codes().len() == 0),
    {
        self.errors.len() == 0
    }
}

/// `c` is in `a-z A-Z 0-9`.
pub open spec fn is_ascii_alnum(c: char) -> bool {
    ('a' <= c && c <= 'z') || ('A' <= c && c <= 'Z') || ('0' <= c && c <= '9')
}

/// `c` is in `A-Z`.
pub open spec fn is_ascii_upper(c: char) -> bool {
    'A' <= c && c <= 'Z'
}

/// Every character of `s` is in `a-z A-Z 0-9 _ - .` or a space.
pub open spec fn is_clean_text(s: Seq<char>) -> bool {
    forall|i: int|
        0 <= i < s.len() ==> {
            let c = #[trigger] s[i];
            is_ascii_alnum(c) || c == '_' || c == '-' || c == '.' || c == ' '
        }
}

/// Every character of `s` is in `a-z A-Z 0-9 _ .`.
pub open spec fn is_column_name(s: Seq<char>) -> bool {
    forall|i: int|
        0 <= i < s.len() ==> {
            let c = #[trigger] s[i];
            is_ascii_alnum(c) || c == '_' || c == '.'
        }
}

/// Every character of `s` is in `a-z A-Z 0-9 _`.
pub open spec fn is_underscored_name(s: Seq<char>) -> bool {
    forall|i: int|
        0 <= i < s.len() ==> {
            let c = #[trigger] s[i];
            is_ascii_alnum(c) || c == '_'
        }
}

/// `s` is empty or begins with a character in `A-Z`.
pub open spec fn begins_with_capital(s: Seq<char>) -> bool {
    s.len() == 0 || is_ascii_upper(s[0])
}

fn ascii_alnum(c: char) -> (res: bool)
    ensures
        res == is_ascii_alnum(c),
{
    ('a' <= c && c <= 'z') || ('A' <= c && c <= 'Z') || ('0' <= c && c <= '9')
}

/// Allows strings that consist of `a-z A-Z 0-9 _-.` and spaces.
pub fn ascii_alphanumeric_clean(s: &str) -> (res: bool)
    ensures
        res == is_clean_text(s@),
{
    let cs = chars_of(s);
    let mut i: usize = 0;
    while i < cs.len()
        invariant
            i <= cs@.len(),
            cs@ == s@,
            is_clean_text(cs@.take(i as int)),
        decreases cs.len() - i,
    {
        let c = cs[i];
        if !(ascii_alnum(c) || c == '_' || c == '-' || c == '.' || c == ' ') {
            assert(!is_clean_text(s@)) by {
                assert(s@[i as int] == c);
            }
            return false;
        }
        i = i + 1;
        assert(is_clean_text(cs@.take(i as int))) by {
            assert forall|k: int| 0 <= k < i implies {
                let d = #[trigger] cs@.take(i as int)[k];
                is_ascii_alnum(d) || d == '_' || d == '-' || d == '.' || d == ' '
            } by {
                if k < i - 1 {
                    assert(cs@.take(i as int)[k] == cs@.take(i - 1)[k]);
                }
            }
        }
    }
    assert(cs@.take(i as int) =~= s@);
    true
}

/// A stricter version of [ascii_alphanumeric_clean]: `a-z A-Z 0-9 _ .` only.
pub fn ascii_alphanumeric_column(s: &str) -> (res: bool)
    ensures
        res == is_column_name(s@),
{
    let cs = chars_of(s);
    let mut i: usize = 0;
    while i < cs.len()
        invariant
            i <= cs@.len(),
            cs@ == s@,
            is_column_name(cs@.take(i as int)),
        decreases cs.len() - i,
    {
        let c = cs[i];
        if !(ascii_alnum(c) || c == '_' || c == '.') {
            assert(!is_column_name(s@)) by {
                assert(s@[i as int] == c);
            }
            return false;
        }
        i = i + 1;
        assert(is_column_name(cs@.take(i as int))) by {
            assert forall|k: int| 0 <= k < i implies {
                let d = #[trigger] cs@.take(i as int)[k];
                is_ascii_alnum(d) || d == '_' || d == '.'
            } by {
                if k < i - 1 {
                    assert(cs@.take(i as int)[k] == cs@.take(i - 1)[k]);
                }
            }
        }
    }
    assert(cs@.take(i as int) =~= s@);
    true
}

/// Names made of `a-z A-Z 0-9 _` only.
pub fn ascii_alphanumeric_underscored(s: &str) -> (res: bool)
    ensures
        res == is_underscored_name(s@),
{
    let cs = chars_of(s);
    let mut i: usize = 0;
    while i < cs.len()
        invariant
            i <= cs@.len(),
            cs@ == s@,
            is_underscored_name(cs@.take(i as int)),
        decreases cs.len() - i,
    {
        let c = cs[i];
        if !(ascii_alnum(c) || c == '_') {
            assert(!is_underscored_name(s@)) by {
                assert(s@[i as int] == c);
            }
            return false;
        }
        i = i + 1;
        assert(is_underscored_name(cs@.take(i as int))) by {
            assert forall|k: int| 0 <= k < i implies {
                let d = #[trigger] cs@.take(i as int)[k];
                is_ascii_alnum(d) || d == '_'
            } by {
                if k < i - 1 {
                    assert(cs@.take(i as int)[k] == cs@.take(i - 1)[k]);
                }
            }
        }
    }
    assert(cs@.take(i as int) =~= s@);
    true
}

/// Collection names must start with a capital character `A-Z`.
pub fn begins_with_capital_ascii_letter(s: &str) -> (res: bool)
    ensures
        res == begins_with_capital(s@),
{
    let cs = chars_of(s);
    if cs.len() == 0 {
        return true;
    }
    let c = cs[0];
    'A' <= c && c <= 'Z'
}

/// Number of characters of `s`, the measure of length rules.
pub fn char_count(s: &str) -> (res: usize)
    ensures
        res == s@.len(),
{
    let cs = chars_of(s);
    cs.len()
}

} // verus!
