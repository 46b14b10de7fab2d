//! Prefix completion of command names.
//!
//! The completer holds a fixed list of command names and, for a line prefix,
//! offers the names that begin with it, in their listed order.  The
//! surrounding line editor decides how the chosen completion is displayed
//! and inserted.

use vstd::prelude::*;
use vstd::string::StrSliceExecFns;

use crate::strutil::spec_starts_with;

verus! {

/// The names among `commands` that begin with `prefix`, in order.
pub open spec fn spec_matching(commands: Seq<Seq<char>>, prefix: Seq<char>) -> Seq<Seq<char>>
    decreases commands.len(),
{
    if commands.len() == 0 {
        Seq::empty()
    } else {
        let rest = spec_matching(commands.drop_last(), prefix);
        if spec_starts_with(commands.last(), prefix) {
            rest.push(commands.last())
        } else {
            rest
        }
    }
}

/// Completion helper over the command names it knows.
pub struct AutoCompleter {
    commands: Vec<String>,
}

impl View for AutoCompleter {
    type V = Seq<Seq<char>>;

    closed spec fn view(&self) -> Seq<Seq<char>> {
        self.commands.deep_view()
    }
}

impl AutoCompleter {
    /// A completer that knows `echo` and `exit`.
    pub fn new() -> (r: Self)
        ensures
            r@ == seq!["echo"@, "exit"@],
    {
        let mut commands: Vec<String> = Vec::new();
        commands.push(crate::strutil::to_owned_str("echo"));
        commands.push(crate::strutil::to_owned_str("exit"));
        proof {
            assert(commands.deep_view() =~= seq!["echo"@, "exit"@]);
        }
        AutoCompleter { commands }
    }

    /// The known commands that begin with `prefix`, in their listed order.
    pub fn matching_commands(&self, prefix: &str) -> (r: Vec<String>)
        ensures
            r.deep_view() == spec_matching(self@, prefix@),
    {
        let mut r: Vec<String> = Vec::new();
        let mut i: usize = 0;
        proof {
            assert(self@.take(0) =~= Seq::<Seq<char>>::empty());
            assert(r.deep_view() =~= Seq::<Seq<char>>::empty());
        }
        while i < self.commands.len()
            invariant
                i <= self.commands@.len(),
                self@ == self.commands.deep_view(),
                r.deep_view() == spec_matching(self@.take(i as int), prefix@),
            decreases self.commands@.len() - i,
        {
            let ghost prev = r.deep_view();
            proof {
                assert(self@.take(i + 1).drop_last() =~= self@.take(i as int));
                assert(self@.take(i + 1).last() == self@[i as int]);
            }
            if crate::strutil::str_starts_with(self.commands[i].as_str(), prefix) {
                r.push(self.commands[i].clone());
                proof {
                    assert(r.deep_view() =~= prev.push(self@[i as int]));
                }
            }
            i = i + 1;
        }
        proof {
            assert(self@.take(self.commands@.len() as int) =~= self@);
        }
        r
    }
}

} // verus!
