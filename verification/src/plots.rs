//! Plot construction: splitting equation strings at their `=` sign and
//! assigning each plot its channel mask.
//!
//! Expression parsing itself is an outside concern; the library keeps
//! the two expression source strings, which the embedding hands to its
//! parser, together with the color mask the compositor uses.

use vstd::prelude::*;
use vstd::string::*;
use crate::color::spec_plot_mask;

verus! {

/// Number of `=` characters among the first `n` characters of `s`.
pub open spec fn eq_count_to(s: Seq<char>, n: int) -> int
    decreases n,
{
    if n <= 0 {
        0
    } else {
        eq_count_to(s, n - 1) + if s[n - 1] == '=' {
            1int
        } else {
            0int
        }
    }
}

/// Number of `=` characters in `s`.
pub open spec fn eq_count(s: Seq<char>) -> int {
    eq_count_to(s, s.len() as int)
}

/// `l` and `r` are the two sides of `s` around its single `=`.
pub open spec fn is_split_of(l: Seq<char>, r: Seq<char>, s: Seq<char>) -> bool {
    exists|k: int|
        0 <= k < s.len() && s[k] == '=' && eq_count_to(s, k) == 0 && l == s.subrange(0, k) && r
            == s.subrange(k + 1, s.len() as int)
}

/// Why a set of equation strings was rejected.
#[derive(Clone, Copy, Debug, PartialEq, Eq, Structural)]
pub enum PlotError {
    /// No equation was given.
    NoEquations,
    /// More than three equations were given.
    TooManyEquations,
    /// An equation does not contain exactly one `=` sign.
    NotOneEquals,
}

/// One equation to draw: the expression sources left and right of its
/// `=` sign, and the channel mask its intensity darkens the pixel
/// through.
#[derive(Debug)]
pub struct Plot {
    pub lhs_src: String,
    pub rhs_src: String,
    pub color: u8,
}

/// Splits an equation string at its `=` sign. Succeeds if and only if
/// the string holds exactly one `=`; the two sides are returned
/// without it.
pub fn split_equation(s: &str) -> (res: Result<(String, String), PlotError>)
    ensures
        res is Ok <==> eq_count(s@) == 1,
        res is Err ==> res == Err::<(String, String), PlotError>(PlotError::NotOneEquals),
        res is Ok ==> is_split_of(res->Ok_0.0@, res->Ok_0.1@, s@),
{
    let len = s.unicode_len();
    let mut count: usize = 0;
    let mut first: usize = 0;
    let mut i: usize = 0;
    while i < len
        invariant
            i <= len,
            len == s@.len(),
            count <= i,
            count == eq_count_to(s@, i as int),
            count > 0 ==> first < i && s@[first as int] == '=' && eq_count_to(s@, first as int)
                == 0,
        decreases len - i,
    {
        let c = s.get_char(i);
        if c == '=' {
            if count == 0 {
                first = i;
            }
            count = count + 1;
        }
        i = i + 1;
    }
    if count != 1 {
        return Err(PlotError::NotOneEquals);
    }
    let lhs = s.substring_char(0, first).to_owned();
    let rhs = s.substring_char(first + 1, len).to_owned();
    proof {
        assert(0 <= first < s@.len() && s@[first as int] == '=' && eq_count_to(s@, first as int)
            == 0 && lhs@ == s@.subrange(0, first as int) && rhs@ == s@.subrange(
            first as int + 1,
            s@.len() as int,
        ));
    }
    Ok((lhs, rhs))
}

/// Whether every equation in the sequence holds exactly one `=`.
pub open spec fn all_equations_ok(equations: Seq<String>) -> bool {
    forall|e: int| 0 <= e < equations.len() ==> eq_count((#[trigger] equations[e])@) == 1
}

/// Builds the plot list from the given equation strings: each is split
/// at its `=` sign and assigned its channel mask. Succeeds if and only
/// if there are one to three equations, each with exactly one `=`.
pub fn make_plots(equations: &Vec<String>) -> (res: Result<Vec<Plot>, PlotError>)
    ensures
        res is Ok <==> (1 <= equations@.len() <= 3 && all_equations_ok(equations@)),
        res == Err::<Vec<Plot>, PlotError>(PlotError::NoEquations) <==> equations@.len() == 0,
        res == Err::<Vec<Plot>, PlotError>(PlotError::TooManyEquations) <==> equations@.len() > 3,
        1 <= equations@.len() <= 3 ==> (res == Err::<Vec<Plot>, PlotError>(
            PlotError::NotOneEquals,
        ) <==> !all_equations_ok(equations@)),
        res is Ok ==> {
            let plots = res->Ok_0;
            plots@.len() == equations@.len() && forall|e: int|
                0 <= e < plots@.len() ==> (#[trigger] plots@[e]).color == spec_plot_mask(
                    equations@.len() as int,
                    e,
                ) && is_split_of(plots@[e].lhs_src@, plots@[e].rhs_src@, equations@[e]@)
        },
{
    if equations.len() == 0 {
        return Err(PlotError::NoEquations);
    }
    if equations.len() > 3 {
        return Err(PlotError::TooManyEquations);
    }
    let mut plots: Vec<Plot> = Vec::new();
    let mut e: usize = 0;
    while e < equations.len()
        invariant
            e <= equations@.len(),
            1 <= equations@.len() <= 3,
            plots@.len() == e,
            forall|q: int| 0 <= q < e ==> eq_count((#[trigger] equations@[q])@) == 1,
            forall|q: int|
                0 <= q < e ==> (#[trigger] plots@[q]).color == spec_plot_mask(
                    equations@.len() as int,
                    q,
                ) && is_split_of(plots@[q].lhs_src@, plots@[q].rhs_src@, equations@[q]@),
        decreases equations@.len() - e,
    {
        let split = split_equation(equations[e].as_str());
        match split {
            Err(_) => {
                return Err(PlotError::NotOneEquals);
            },
            Ok((lhs_src, rhs_src)) => {
                let color = crate::color::plot_color(equations.len(), e);
                plots.push(Plot { lhs_src, rhs_src, color });
            },
        }
        e = e + 1;
    }
    Ok(plots)
}

} // verus!
