//! The input extractor: locates a field in a decoded form submission and
//! converts each of its submitted text values into an unsigned integer,
//! failing fast on the first value that is not a valid decimal numeral.

use vstd::prelude::*;

verus! {

use vstd::string::StrSliceExecFns;
use crate::numbers::digits_value;
use crate::numbers::is_u64_numeral;
use crate::numbers::parse_u64;

/// A decoded form submission: an ordered list of fields, each a field name
/// with the ordered list of text values submitted under that name.
pub struct FormSubmission {
    pub fields: Vec<(String, Vec<String>)>,
}

/// The values of the first field named `name`, if any.
pub open spec fn spec_lookup(fields: Seq<(String, Vec<String>)>, name: Seq<char>) -> Option<
    Vec<String>,
>
    decreases fields.len(),
{
    if fields.len() == 0 {
        None
    } else if fields[0].0@ == name {
        Some(fields[0].1)
    } else {
        spec_lookup(fields.drop_first(), name)
    }
}

/// Why extraction failed: the field is absent, the field carries no values,
/// or a value is not a decimal numeral (that first offending value).
#[derive(Debug, Clone, PartialEq, Eq)]
pub enum ExtractionError {
    MissingField(String),
    NoValuesProvided,
    NotANumber(String),
}

/// Every submitted value is a valid decimal numeral for a 64-bit integer.
pub open spec fn all_values_numeric(vals: Seq<Seq<char>>) -> bool {
    forall|i: int| 0 <= i < vals.len() ==> is_u64_numeral(#[trigger] vals[i])
}

impl FormSubmission {
    /// The text values submitted under `name`, as character sequences.
    pub open spec fn values_of(self, name: Seq<char>) -> Option<Seq<Seq<char>>> {
        match spec_lookup(self.fields@, name) {
            Some(v) => Some(v.deep_view()),
            None => None,
        }
    }

    /// Finds the first field named `name` and borrows its values.
    fn lookup<'a>(&'a self, name: &str) -> (r: Option<&'a Vec<String>>)
        ensures
            match r {
                Some(v) => self.values_of(name@) == Some(v.deep_view()),
                None => self.values_of(name@) is None,
            },
    {
        let mut i: usize = 0;
        proof {
            assert(self.fields@.skip(0) =~= self.fields@);
        }
        while i < self.fields.len()
            invariant
                0 <= i <= self.fields@.len(),
                spec_lookup(self.fields@.skip(i as int), name@) == spec_lookup(
                    self.fields@,
                    name@,
                ),
            decreases self.fields@.len() - i,
        {
            let pair = &self.fields[i];
            proof {
                assert(self.fields@.skip(i as int)[0] == self.fields@[i as int]);
                assert(self.fields@.skip(i as int).drop_first() =~= self.fields@.skip(
                    i as int + 1,
                ));
            }
            if str_eq(pair.0.as_str(), name) {
                return Some(&pair.1);
            }
            i += 1;
        }
        proof {
            assert(self.fields@.skip(self.fields@.len() as int) =~= Seq::<(
                String,
                Vec<String>,
            )>::empty());
        }
        None
    }

    /// Extracts the integers submitted under `field_name`, in submission
    /// order: `MissingField` when no such field exists, `NoValuesProvided`
    /// when the field carries no values, and `NotANumber` with the first
    /// offending value when one is not a decimal numeral.
    pub fn extract_numbers(&self, field_name: &str) -> (r: Result<Vec<u64>, ExtractionError>)
        ensures
            self.values_of(field_name@) is None ==> (r matches Err(
                ExtractionError::MissingField(f),
            ) && f@ == field_name@),
            self.values_of(field_name@) matches Some(vals) ==> (vals.len() == 0 ==> r matches Err(
                ExtractionError::NoValuesProvided,
            )),
            self.values_of(field_name@) matches Some(vals) ==> ((vals.len() >= 1
                && all_values_numeric(vals)) ==> (r matches Ok(nums) && nums@.len() == vals.len()
                && (forall|i: int|
                0 <= i < vals.len() ==> #[trigger] nums@[i] as nat == digits_value(vals[i])))),
            self.values_of(field_name@) matches Some(vals) ==> (!all_values_numeric(vals) ==> (r
                matches Err(ExtractionError::NotANumber(t)) && (exists|j: int|
                0 <= j < vals.len() && !is_u64_numeral(#[trigger] vals[j]) && t@ == vals[j] && (
                forall|k: int| 0 <= k < j ==> is_u64_numeral(#[trigger] vals[k]))))),
    {
        let values = match self.lookup(field_name) {
            None => {
                return Err(ExtractionError::MissingField(field_name.to_owned()));
            },
            Some(v) => v,
        };
        if values.len() == 0 {
            return Err(ExtractionError::NoValuesProvided);
        }
        let mut integers: Vec<u64> = Vec::new();
        let mut i: usize = 0;
        while i < values.len()
            invariant
                0 <= i <= values@.len(),
                integers@.len() == i,
                self.values_of(field_name@) == Some(values.deep_view()),
                forall|k: int| 0 <= k < i ==> is_u64_numeral(#[trigger] values@[k]@),
                forall|k: int|
                    0 <= k < i ==> #[trigger] integers@[k] as nat == digits_value(values@[k]@),
            decreases values@.len() - i,
        {
            let token = &values[i];
            match parse_u64(token.as_str()) {
                None => {
                    proof {
                        assert(values.deep_view()[i as int] == values@[i as int]@);
                    }
                    return Err(ExtractionError::NotANumber(token.clone()));
                },
                Some(n) => {
                    integers.push(n);
                },
            }
            i += 1;
        }
        proof {
            assert(forall|k: int|
                0 <= k < values.deep_view().len() ==> #[trigger] values.deep_view()[k]
                    == values@[k]@);
        }
        Ok(integers)
    }
}

/// Character-by-character string equality, proved against the string views.
pub fn str_eq(a: &str, b: &str) -> (r: bool)
    ensures
        r == (a@ == b@),
{
    let len_a = a.unicode_len();
    let len_b = b.unicode_len();
    if len_a != len_b {
        return false;
    }
    let mut i: usize = 0;
    while i < len_a
        invariant
            0 <= i <= len_a,
            len_a == a@.len(),
            len_a == b@.len(),
            forall|j: int| 0 <= j < i ==> a@[j] == b@[j],
        decreases len_a - i,
    {
        if a.get_char(i) != b.get_char(i) {
            return false;
        }
        i += 1;
    }
    proof {
        assert(a@ =~= b@);
    }
    true
}

} // verus!
