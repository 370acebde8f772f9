//! Command templates: texts in which `{{name}}` stands for a value.

use vstd::prelude::*;
use vstd::string::*;
use crate::split::{replace, replaced};
use crate::text::concat3;

verus! {

/// The name of a variable and the value that takes its place.
#[derive(Debug)]
pub struct TemplateVar {
    pub name: String,
    pub value: String,
}

/// The names of the variables that command templates use.
pub struct TemplateVars {}

impl TemplateVars {
    pub const SITE_PATH: &'static str = "sitePath";

    pub const CLI_PATH: &'static str = "cliPath";

    pub const TABLE: &'static str = "table";

    pub const QUERY: &'static str = "query";

    pub const FORMAT: &'static str = "format";

    pub const DOMAIN: &'static str = "domain";
}

/// The variables of a list as pairs of name and value.
pub open spec fn var_views(vars: Seq<TemplateVar>) -> Seq<(Seq<char>, Seq<char>)> {
    Seq::new(vars.len(), |i: int| (vars[i].name@, vars[i].value@))
}

/// How a variable is written in a template.
pub open spec fn placeholder(name: Seq<char>) -> Seq<char> {
    "{{"@ + name + "}}"@
}

/// The template with the values in the places of the variables, one variable after the
/// other in the order of the list.
pub open spec fn rendered(template: Seq<char>, vars: Seq<(Seq<char>, Seq<char>)>) -> Seq<char>
    decreases vars.len(),
{
    if vars.len() == 0 {
        template
    } else {
        replaced(rendered(template, vars.drop_last()), placeholder(vars.last().0), vars.last().1)
    }
}

/// Puts the values in the places of the variables.
pub fn render_map(template: &str, vars: &Vec<TemplateVar>) -> (r: String)
    ensures
        r@ == rendered(template@, var_views(vars@)),
{
    let ghost all = var_views(vars@);
    let mut out = String::from_str(template);
    let mut i: usize = 0;
    assert(all.take(0) =~= Seq::<(Seq<char>, Seq<char>)>::empty());
    while i < vars.len()
        invariant
            i <= vars.len(),
            all == var_views(vars@),
            out@ == rendered(template@, all.take(i as int)),
        decreases vars.len() - i,
    {
        proof {
            assert(all.take(i + 1).drop_last() =~= all.take(i as int));
            assert(all.take(i + 1).last() == (vars@[i as int].name@, vars@[i as int].value@));
            reveal_strlit("{{");
        }
        let pattern = concat3("{{", vars[i].name.as_str(), "}}");
        out = replace(out.as_str(), pattern.as_str(), vars[i].value.as_str());
        i += 1;
    }
    proof {
        assert(all.take(vars@.len() as int) =~= all);
    }
    out
}

/// A variable with its value.
pub fn binding(name: &str, value: &str) -> (r: TemplateVar)
    ensures
        r.name@ == name@,
        r.value@ == value@,
{
    TemplateVar { name: String::from_str(name), value: String::from_str(value) }
}

} // verus!
