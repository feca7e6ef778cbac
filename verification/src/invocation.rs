use vstd::prelude::*;

verus! {

/// A program to start, with the arguments to hand to it.
#[derive(Debug)]
pub struct Invocation {
    /// The program: a bare name to look up on the search path, or a path.
    pub program: String,
    /// The arguments, in order, the program itself not among them.
    pub args: Vec<String>,
    /// The name under which the program is told it was called, where that is not `program`.
    pub name: Option<String>,
}

impl Invocation {
    /// Whether `self` starts `program` with `args` and reports the name `name` to it.
    pub open spec fn is(self, program: Seq<char>, args: Seq<Seq<char>>, name: Option<Seq<char>>) -> bool {
        &&& self.program@ == program
        &&& self.args.deep_view() == args
        &&& self.name.deep_view() == name
    }
}

/// Appends a copy of every string of `more` to `args`.
pub(crate) fn push_all(args: &mut Vec<String>, more: &Vec<String>)
    ensures
        final(args).deep_view() == old(args).deep_view() + more.deep_view(),
{
    let n: usize = more.len();
    let mut i: usize = 0;
    while i < n
        invariant
            n == more@.len(),
            i <= n,
            args.deep_view() == old(args).deep_view() + more.deep_view().take(i as int),
        decreases n - i,
    {
        let ghost before = args.deep_view();
        args.push(more[i].clone());
        assert(args.deep_view() =~= before.push(more@[i as int]@));
        i += 1;
    }
}

/// Appends a copy of `arg` to `args`.
pub(crate) fn push_str(args: &mut Vec<String>, arg: &str)
    ensures
        final(args).deep_view() == old(args).deep_view().push(arg@),
{
    args.push(arg.to_owned());
}

} // verus!
