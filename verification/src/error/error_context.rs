//! An error as it is reported: its code, where it occurred and the values
//! that fill its message template.
use vstd::prelude::*;
use super::error_code::ErrorCode;
use crate::text::owned;

verus! {

#[derive(Debug, PartialEq, Clone)]
pub struct ErrorContext {
    pub error_code: ErrorCode,
    pub row: u32,
    pub col: u32,
    pub params: Vec<(String, String)>,
}

/// The names and values of a list of message parameters.
pub open spec fn pairs_view(params: Seq<(String, String)>) -> Seq<(Seq<char>, Seq<char>)> {
    params.map_values(|p: (String, String)| (p.0@, p.1@))
}

/// The names and values of a list of borrowed message parameters.
pub open spec fn str_pairs_view(params: Seq<(&str, &str)>) -> Seq<(Seq<char>, Seq<char>)> {
    params.map_values(|p: (&str, &str)| (p.0@, p.1@))
}

impl ErrorContext {
    /// The parameters of the error, as names and values.
    pub open spec fn params_view(&self) -> Seq<(Seq<char>, Seq<char>)> {
        pairs_view(self.params@)
    }

    pub fn new(error_code: ErrorCode, row: u32, col: u32, params: Vec<(&str, &str)>) -> (r: Self)
        ensures
            r.error_code == error_code,
            r.row == row,
            r.col == col,
            r.params_view() == str_pairs_view(params@),
    {
        let mut owned_params: Vec<(String, String)> = Vec::new();
        let mut i: usize = 0;
        while i < params.len()
            invariant
                i <= params.len(),
                pairs_view(owned_params@) == str_pairs_view(params@.take(i as int)),
            decreases params.len() - i,
        {
            let (k, v) = params[i];
            let ghost before = owned_params@;
            owned_params.push((owned(k), owned(v)));
            i = i + 1;
            assert(params@.take(i as int) == params@.take((i - 1) as int).push(params@[i - 1]));
            assert(pairs_view(owned_params@) =~= pairs_view(before).push((k@, v@)));
            assert(str_pairs_view(params@.take(i as int)) =~= str_pairs_view(
                params@.take((i - 1) as int),
            ).push((k@, v@)));
        }
        assert(params@.take(params.len() as int) == params@);
        Self { error_code, row, col, params: owned_params }
    }
}

} // verus!
