//! Global editor variables a document may set, rendered as `vim.g`
//! assignments.

use vstd::prelude::*;

verus! {

/// Global variables in declaration order, each a name and a value.
#[derive(Debug)]
pub struct Global(pub Vec<(String, String)>);

/// The assignment lines, one `vim.g.{name} = "{value}"` per variable.
pub open spec fn spec_global_lines(vars: Seq<(String, String)>) -> Seq<char>
    decreases vars.len(),
{
    if vars.len() == 0 {
        Seq::<char>::empty()
    } else {
        spec_global_lines(vars.drop_last()) + "vim.g."@ + vars.last().0@ + " = \""@
            + vars.last().1@ + "\"\n"@
    }
}

/// A rendered global block: its comment line and the assignments.
pub open spec fn spec_render_global(vars: Seq<(String, String)>) -> Seq<char> {
    "-- set global variables\n"@ + spec_global_lines(vars)
}

impl Global {
    /// Renders the comment line and one assignment per variable, in
    /// declaration order.
    #[verifier::loop_isolation(false)]
    pub fn render(&self) -> (r: String)
        ensures
            r@ == spec_render_global(self.0@),
    {
        let mut out = String::from_str("-- set global variables\n");
        let ghost head = out@;
        proof {
            assert(self.0@.take(0) =~= Seq::<(String, String)>::empty());
        }
        let mut i: usize = 0;
        while i < self.0.len()
            invariant
                0 <= i <= self.0.len(),
                out@ == head + spec_global_lines(self.0@.take(i as int)),
            decreases self.0.len() - i,
        {
            let var = &self.0[i];
            out.append("vim.g.");
            out.append(var.0.as_str());
            out.append(" = \"");
            out.append(var.1.as_str());
            out.append("\"\n");
            proof {
                assert(self.0@.take(i + 1).drop_last() =~= self.0@.take(i as int));
                assert(self.0@.take(i + 1).last() == self.0@[i as int]);
            }
            i += 1;
        }
        proof {
            assert(self.0@.take(self.0@.len() as int) =~= self.0@);
        }
        out
    }
}

} // verus!
