//! Kinds of file dialog and their failures.
use vstd::prelude::*;
use vstd::string::*;

verus! {

/// What a file dialog is opened for.
#[derive(Clone, Copy, Debug, PartialEq, Eq, Structural)]
pub enum FileDialogMode {
    SaveFile,
    SelectFolder,
}

/// Why a file dialog gave no path.
#[derive(Clone, Copy, Debug, PartialEq, Eq, Structural)]
pub enum FileDialogError {
    /// The platform has no file dialog.
    NoImplementation,
    /// Nothing was chosen, or the dialog failed otherwise.
    Other,
}

/// Decimal digits of `n`, most significant first, without leading zeros.
pub open spec fn decimal(n: nat) -> Seq<char>
    decreases n,
{
    if n < 10 {
        seq![(n + '0' as nat) as char]
    } else {
        decimal(n / 10).push(((n % 10) + '0' as nat) as char)
    }
}

/// The one-character text of a decimal digit.
fn digit_text(d: u32) -> (r: &'static str)
    requires
        d < 10,
    ensures
        r@ == seq![(d as nat + '0' as nat) as char],
{
    proof {
        reveal_strlit("0");
        reveal_strlit("1");
        reveal_strlit("2");
        reveal_strlit("3");
        reveal_strlit("4");
        reveal_strlit("5");
        reveal_strlit("6");
        reveal_strlit("7");
        reveal_strlit("8");
        reveal_strlit("9");
    }
    match d {
        0 => "0",
        1 => "1",
        2 => "2",
        3 => "3",
        4 => "4",
        5 => "5",
        6 => "6",
        7 => "7",
        8 => "8",
        _ => "9",
    }
}

/// Decimal digits of `n`.
fn decimal_text(n: u32) -> (r: String)
    ensures
        r@ == decimal(n as nat),
    decreases n,
{
    if n < 10 {
        String::from_str(digit_text(n))
    } else {
        decimal_text(n / 10).concat(digit_text(n % 10))
    }
}

/// Name of a dump file taken at time `stamp`: `<stamp>.png` on the first
/// attempt, `<stamp>(<attempt>).png` on the later ones.
pub fn dump_file_name(stamp: &str, attempt: u32) -> (r: String)
    ensures
        attempt == 0 ==> r@ == stamp@ + ".png"@,
        attempt > 0 ==> r@ == stamp@ + "("@ + decimal(attempt as nat) + ")"@ + ".png"@,
{
    let name = String::from_str(stamp);
    if attempt == 0 {
        name.concat(".png")
    } else {
        let digits = decimal_text(attempt);
        name.concat("(").concat(digits.as_str()).concat(")").concat(".png")
    }
}

/// One step of the search for a free dump file name: the attempt to try
/// after `attempt`, or `None` when the name of `attempt` is to be used,
/// because it is not `taken` or because no later attempt can be numbered.
pub fn dump_search_step(attempt: u32, taken: bool) -> (r: Option<u32>)
    ensures
        !taken ==> r is None,
        taken && attempt < u32::MAX ==> r == Some((attempt + 1) as u32),
        taken && attempt == u32::MAX ==> r is None,
{
    if taken && attempt < u32::MAX {
        Some(attempt + 1)
    } else {
        None
    }
}

} // verus!
