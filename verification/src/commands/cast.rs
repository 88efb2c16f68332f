//! Casting a spell.

use vstd::prelude::*;

verus! {

/// The address at which an execution of `spell` is started.
pub fn spell_executions_uri(spell: &str) -> (r: String)
    ensures
        r@ == "http://api.runebook.local/spells/"@ + spell@ + "/executions"@,
{
    let mut r = String::from_str("http://api.runebook.local/spells/");
    r.append(spell);
    r.append("/executions");
    r
}

} // verus!
