use vstd::prelude::*;

use crate::text::{append_text, push_char, starts_with};
use crate::tokenizer::views;

verus! {

/// One completion offered for a line: the text shown, and the text that
/// replaces the line.
pub struct CustomCandidate {
    display: String,
    replacement: String,
}

impl CustomCandidate {
    pub closed spec fn shown(&self) -> Seq<char> {
        self.display@
    }

    pub closed spec fn replaced_by(&self) -> Seq<char> {
        self.replacement@
    }

    pub fn display(&self) -> (r: &str)
        ensures
            r@ == self.shown(),
    {
        self.display.as_str()
    }

    pub fn replacement(&self) -> (r: &str)
        ensures
            r@ == self.replaced_by(),
    {
        self.replacement.as_str()
    }
}

/// The command names that complete `line`, in the order given.
pub open spec fn completions(names: Seq<Seq<char>>, line: Seq<char>) -> Seq<Seq<char>>
    decreases names.len(),
{
    if names.len() == 0 {
        seq![]
    } else if line.is_prefix_of(names.last()) {
        completions(names.drop_last(), line).push(names.last())
    } else {
        completions(names.drop_last(), line)
    }
}

/// Offers command names to complete a line.
pub struct ShellHelper {
    pub commands: Vec<String>,
}

impl ShellHelper {
    pub fn new(commands: Vec<String>) -> (r: Self)
        ensures
            r.commands == commands,
    {
        Self { commands }
    }

    /// The candidates for `line`: none for an empty line, else each command
    /// name that begins with it, shown as it is and completed with a space
    /// after it.
    pub fn complete(&self, line: &str) -> (r: Vec<CustomCandidate>)
        ensures
            line@.len() == 0 ==> r@.len() == 0,
            line@.len() > 0 ==> {
                let names = completions(views(self.commands@), line@);
                &&& r@.len() == names.len()
                &&& forall|i: int|
                    0 <= i < names.len() ==> (#[trigger] r@[i]).shown() == names[i]
                        && r@[i].replaced_by() == names[i].push(' ')
            },
    {
        let mut r: Vec<CustomCandidate> = Vec::new();
        if line.unicode_len() == 0 {
            return r;
        }
        let ghost all = views(self.commands@);
        let mut i: usize = 0;
        while i < self.commands.len()
            invariant
                i <= self.commands.len(),
                all == views(self.commands@),
                ({
                    let names = completions(all.subrange(0, i as int), line@);
                    &&& r@.len() == names.len()
                    &&& forall|j: int|
                        0 <= j < names.len() ==> (#[trigger] r@[j]).shown() == names[j]
                            && r@[j].replaced_by() == names[j].push(' ')
                }),
            decreases self.commands.len() - i,
        {
            assert(all.subrange(0, i + 1).drop_last() =~= all.subrange(0, i as int));
            let command = &self.commands[i];
            if starts_with(command.as_str(), line) {
                let mut replacement = String::new();
                append_text(&mut replacement, command.as_str());
                push_char(&mut replacement, ' ');
                assert(replacement@ =~= command@.push(' '));
                r.push(CustomCandidate { display: command.clone(), replacement });
            }
            i = i + 1;
        }
        assert(all.subrange(0, i as int) =~= all);
        r
    }
}

} // verus!
