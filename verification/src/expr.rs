//! Expression items of the projection list: either a pass-through reference
//! to one input column, or an opaque computed expression (including
//! row-expanding, table-valued ones) with a declared return type and a
//! pre-rendered textual form for diagnostics.

use vstd::prelude::*;

use crate::catalog::DataType;

verus! {

/// The mathematical value of an [`ExprImpl`].
#[verifier::ext_equal]
pub ghost enum ExprV {
    InputRef { index: usize, data_type: DataType },
    Computed { display: Seq<char>, data_type: DataType },
}

/// One item of a projection's expression list.
#[derive(Debug)]
pub enum ExprImpl {
    /// A pass-through reference to the input column `index`. It may still be
    /// wrapped or cast, so it carries its own declared return type.
    InputRef { index: usize, data_type: DataType },
    /// An opaque computed expression: a declared return type and the
    /// expression's textual form, rendered by the expression layer.
    Computed { display: String, data_type: DataType },
}

impl View for ExprImpl {
    type V = ExprV;

    open spec fn view(&self) -> ExprV {
        match self {
            ExprImpl::InputRef { index, data_type } => ExprV::InputRef {
                index: *index,
                data_type: *data_type,
            },
            ExprImpl::Computed { display, data_type } => ExprV::Computed {
                display: display@,
                data_type: *data_type,
            },
        }
    }
}

impl ExprV {
    /// The expression's declared return type.
    pub open spec fn return_type(self) -> DataType {
        match self {
            ExprV::InputRef { data_type, .. } => data_type,
            ExprV::Computed { data_type, .. } => data_type,
        }
    }
}

/// Whether `e` is a pass-through reference to input column `i`.
pub open spec fn is_ref_to(e: ExprV, i: int) -> bool {
    e matches ExprV::InputRef { index, .. } && index == i
}

/// The element-wise mathematical value of an expression list.
pub open spec fn exprs_view(s: Seq<ExprImpl>) -> Seq<ExprV> {
    s.map_values(|e: ExprImpl| e@)
}

/// The decimal digit character for `d` in `0..10`.
pub open spec fn dec_digit(d: int) -> char {
    if d == 0 {
        '0'
    } else if d == 1 {
        '1'
    } else if d == 2 {
        '2'
    } else if d == 3 {
        '3'
    } else if d == 4 {
        '4'
    } else if d == 5 {
        '5'
    } else if d == 6 {
        '6'
    } else if d == 7 {
        '7'
    } else if d == 8 {
        '8'
    } else {
        '9'
    }
}

/// The digits of `n` written in base ten, most significant first; empty for
/// `n <= 0`.
pub open spec fn dec_rep(n: int) -> Seq<char>
    decreases n,
{
    if n <= 0 {
        Seq::empty()
    } else {
        dec_rep(n / 10).push(dec_digit(n % 10))
    }
}

/// The usual decimal rendering of a non-negative number: `"0"` for zero,
/// no leading zeros otherwise.
pub open spec fn dec_str(n: int) -> Seq<char> {
    if n == 0 {
        seq!['0']
    } else {
        dec_rep(n)
    }
}

/// The textual form of an expression: `$i` for a reference to input column
/// `i`, the stored rendering for a computed expression.
pub open spec fn expr_render(e: ExprV) -> Seq<char> {
    match e {
        ExprV::InputRef { index, .. } => seq!['$'] + dec_str(index as int),
        ExprV::Computed { display, .. } => display,
    }
}

fn digit_str(d: usize) -> (r: &'static str)
    requires
        d < 10,
    ensures
        r@ == seq![dec_digit(d as int)],
{
    let r: &'static str = if d == 0 {
        "0"
    } else if d == 1 {
        "1"
    } else if d == 2 {
        "2"
    } else if d == 3 {
        "3"
    } else if d == 4 {
        "4"
    } else if d == 5 {
        "5"
    } else if d == 6 {
        "6"
    } else if d == 7 {
        "7"
    } else if d == 8 {
        "8"
    } else {
        "9"
    };
    proof {
        reveal_strlit("0");
        reveal_strlit("1");
        reveal_strlit("2");
        reveal_strlit("3");
        reveal_strlit("4");
        reveal_strlit("5");
        reveal_strlit("6");
        reveal_strlit("7");
        reveal_strlit("8");
        reveal_strlit("9");
        assert(r@ =~= seq![dec_digit(d as int)]);
    }
    r
}

fn push_dec_rep(s: &mut String, n: usize)
    requires
        n > 0,
    ensures
        final (s)@ == old(s)@ + dec_rep(n as int),
    decreases n,
{
    proof {
        assert(n / 10 < n) by (nonlinear_arith)
            requires
                n > 0,
        ;
    }
    if n >= 10 {
        push_dec_rep(s, n / 10);
    }
    let d = n % 10;
    s.append(digit_str(d));
    proof {
        if n >= 10 {
            assert(s@ =~= old(s)@ + dec_rep(n as int));
        } else {
            assert(n as int / 10 == 0);
            assert(dec_rep(0) == Seq::<char>::empty());
            assert(dec_rep(n as int) =~= seq![dec_digit(n as int % 10)]);
            assert(s@ =~= old(s)@ + dec_rep(n as int));
        }
    }
}

/// Renders `n` in decimal.
pub fn usize_to_string(n: usize) -> (s: String)
    ensures
        s@ == dec_str(n as int),
{
    if n == 0 {
        let s = String::from_str("0");
        proof {
            reveal_strlit("0");
            assert(s@ =~= dec_str(0));
        }
        s
    } else {
        let mut s = String::new();
        push_dec_rep(&mut s, n);
        proof {
            assert(s@ =~= dec_str(n as int));
        }
        s
    }
}

impl Clone for ExprImpl {
    /// An equal copy of the expression.
    fn clone(&self) -> (res: Self)
        ensures
            res == *self,
    {
        match self {
            ExprImpl::InputRef { index, data_type } => ExprImpl::InputRef {
                index: *index,
                data_type: *data_type,
            },
            ExprImpl::Computed { display, data_type } => ExprImpl::Computed {
                display: display.clone(),
                data_type: *data_type,
            },
        }
    }
}

impl ExprImpl {
    /// The expression's declared return type.
    pub fn return_type(&self) -> (r: DataType)
        ensures
            r == self@.return_type(),
    {
        match self {
            ExprImpl::InputRef { data_type, .. } => *data_type,
            ExprImpl::Computed { data_type, .. } => *data_type,
        }
    }

    /// The expression's textual form, used as a fallback column label.
    pub fn render(&self) -> (r: String)
        ensures
            r@ == expr_render(self@),
    {
        match self {
            ExprImpl::InputRef { index, .. } => {
                let mut s = String::from_str("$");
                let digits = usize_to_string(*index);
                s.append(digits.as_str());
                proof {
                    reveal_strlit("$");
                    assert(s@ =~= expr_render(self@));
                }
                s
            },
            ExprImpl::Computed { display, .. } => display.clone(),
        }
    }
}

} // verus!
