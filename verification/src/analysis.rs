//! The choice of the portfolios that an analysis loads.

use vstd::prelude::*;

use crate::error::Error;
use crate::text::str_equals;

verus! {

/// The portfolios to load, by their index among the configured ones (`names`): the
/// one called `name` where a name is given, else all of them.
pub fn select_portfolios(names: &Vec<String>, name: Option<&str>) -> (r: Result<Vec<usize>, Error>)
    ensures
        name matches Some(name) ==> match r {
            Ok(selected) => selected@.len() == 1 && names@[selected@[0] as int]@ == name@
                && forall|j: int| 0 <= j < selected@[0] ==> (#[trigger] names@[j])@ != name@,
            Err(e) => e matches Error::UnknownPortfolio(n) && n@ == name@
                && forall|j: int| 0 <= j < names@.len() ==> (#[trigger] names@[j])@ != name@,
        },
        name is None ==> match r {
            Ok(selected) => names@.len() > 0 && selected@.len() == names@.len()
                && forall|j: int| 0 <= j < names@.len() ==> #[trigger] selected@[j] == j,
            Err(e) => e == Error::NoPortfolios && names@.len() == 0,
        },
{
    match name {
        Some(wanted) => {
            for i in 0..names.len()
                invariant
                    name == Some(wanted),
                    forall|j: int| 0 <= j < i ==> (#[trigger] names@[j])@ != wanted@,
            {
                if str_equals(names[i].as_str(), wanted) {
                    let mut selected: Vec<usize> = Vec::new();
                    selected.push(i);
                    assert(selected@[0] == i);
                    return Ok(selected);
                }
            }
            Err(Error::UnknownPortfolio(wanted.to_owned()))
        },
        None => {
            if names.len() == 0 {
                return Err(Error::NoPortfolios);
            }
            let mut selected: Vec<usize> = Vec::new();
            for i in 0..names.len()
                invariant
                    selected@.len() == i,
                    forall|j: int| 0 <= j < i ==> #[trigger] selected@[j] == j,
            {
                selected.push(i);
            }
            Ok(selected)
        },
    }
}

} // verus!
