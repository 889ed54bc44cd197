//! Which renderer module runs: switching between modules by name.

use vstd::prelude::*;
use crate::modules::ModuleInfo;

verus! {

/// What the caller does to a module (by its index).
#[derive(Debug, Clone, Copy, PartialEq, Eq, Structural)]
pub enum ModuleCommand {
    Run(usize),
    Stop(usize),
    Pause(usize),
    Resume(usize),
}

/// The modules, by their information, and the one that runs.
#[derive(Debug)]
pub struct Executor {
    modules: Vec<ModuleInfo>,
    current_module: Option<usize>,
}

/// The index of the first module named `name`.
pub open spec fn first_named(names: Seq<Seq<char>>, name: Seq<char>) -> Option<int>
    decreases names.len(),
{
    if names.len() == 0 {
        None
    } else {
        match first_named(names.drop_last(), name) {
            Some(i) => Some(i),
            None => if names.last() == name {
                Some(names.len() - 1)
            } else {
                None
            },
        }
    }
}

impl Executor {
    pub closed spec fn names(&self) -> Seq<Seq<char>> {
        Seq::new(self.modules@.len(), |i: int| self.modules@[i].name@)
    }

    pub closed spec fn current(&self) -> Option<usize> {
        self.current_module
    }

    /// The modules `modules`, none running.
    pub fn new(modules: Vec<ModuleInfo>) -> (r: Self)
        ensures
            r.names() == Seq::new(modules@.len(), |i: int| modules@[i].name@),
            r.current() is None,
    {
        Executor { modules, current_module: None }
    }

    /// The index of the first module named `name`, if any.
    pub fn match_module(&self, name: &str) -> (r: Option<usize>)
        ensures
            match first_named(self.names(), name@) {
                Some(i) => r == Some(i as usize),
                None => r is None,
            },
    {
        let ghost names = self.names();
        let mut i: usize = 0;
        proof {
            assert(names.subrange(0, 0) =~= Seq::<Seq<char>>::empty());
        }
        while i < self.modules.len()
            invariant
                i <= self.modules@.len(),
                names == self.names(),
                first_named(names.subrange(0, i as int), name@) is None,
            decreases self.modules@.len() - i,
        {
            proof {
                assert(names.subrange(0, i + 1).drop_last() =~= names.subrange(0, i as int));
            }
            if str_equal(self.modules[i].name, name) {
                proof {
                    lemma_first_named_prefix(names, i as int + 1, name@);
                }
                return Some(i);
            }
            i = i + 1;
        }
        proof {
            assert(names.subrange(0, names.len() as int) =~= names);
        }
        None
    }

    /// Runs the module named `name`, stopping the one that ran.
    pub fn run(&mut self, name: &str) -> (r: Vec<ModuleCommand>)
        requires
            first_named(old(self).names(), name@) is Some,
        ensures
            ({
                let i = first_named(old(self).names(), name@)->0 as usize;
                &&& final(self).current() == Some(i)
                &&& r@ == match old(self).current() {
                    Some(c) => seq![ModuleCommand::Stop(c), ModuleCommand::Run(i)],
                    None => seq![ModuleCommand::Run(i)],
                }
            }),
            final(self).names() == old(self).names(),
    {
        let i = match self.match_module(name) {
            Some(i) => i,
            None => {
                proof {
                    assert(false);
                }
                0
            },
        };
        let mut cmds: Vec<ModuleCommand> = Vec::new();
        if let Some(c) = self.current_module {
            cmds.push(ModuleCommand::Stop(c));
        }
        self.current_module = Some(i);
        cmds.push(ModuleCommand::Run(i));
        proof {
            match old(self).current() {
                Some(c) => assert(cmds@ =~= seq![ModuleCommand::Stop(c), ModuleCommand::Run(i)]),
                None => assert(cmds@ =~= seq![ModuleCommand::Run(i)]),
            }
        }
        cmds
    }

    pub fn stop(&self) -> (r: ModuleCommand)
        requires
            self.current() is Some,
        ensures
            r == ModuleCommand::Stop(self.current()->0),
    {
        ModuleCommand::Stop(self.current_module.unwrap())
    }

    pub fn pause(&self) -> (r: ModuleCommand)
        requires
            self.current() is Some,
        ensures
            r == ModuleCommand::Pause(self.current()->0),
    {
        ModuleCommand::Pause(self.current_module.unwrap())
    }

    pub fn resume(&self) -> (r: ModuleCommand)
        requires
            self.current() is Some,
        ensures
            r == ModuleCommand::Resume(self.current()->0),
    {
        ModuleCommand::Resume(self.current_module.unwrap())
    }

    /// Stops and runs the running module again.
    pub fn restart(&self) -> (r: Vec<ModuleCommand>)
        requires
            self.current() is Some,
        ensures
            r@ == seq![ModuleCommand::Stop(self.current()->0), ModuleCommand::Run(self.current()->0)],
    {
        let c = self.current_module.unwrap();
        let mut cmds: Vec<ModuleCommand> = Vec::new();
        cmds.push(ModuleCommand::Stop(c));
        cmds.push(ModuleCommand::Run(c));
        proof {
            assert(cmds@ =~= seq![ModuleCommand::Stop(c), ModuleCommand::Run(c)]);
        }
        cmds
    }

    /// The information of the modules.
    pub fn list(&self) -> (r: &Vec<ModuleInfo>)
        ensures
            Seq::new(r@.len(), |i: int| r@[i].name@) == self.names(),
    {
        &self.modules
    }
}

proof fn lemma_first_named_prefix(names: Seq<Seq<char>>, k: int, name: Seq<char>)
    requires
        0 < k <= names.len(),
        first_named(names.subrange(0, k - 1), name) is None,
        names[k - 1] == name,
    ensures
        first_named(names, name) == Some(k - 1),
    decreases names.len() - k,
{
    assert(names.subrange(0, k).drop_last() =~= names.subrange(0, k - 1));
    if k == names.len() {
        assert(names.subrange(0, k) =~= names);
    } else {
        lemma_first_named_more(names, k, name);
    }
}

proof fn lemma_first_named_more(names: Seq<Seq<char>>, k: int, name: Seq<char>)
    requires
        0 < k <= names.len(),
        first_named(names.subrange(0, k), name) is Some,
    ensures
        first_named(names, name) == first_named(names.subrange(0, k), name),
    decreases names.len() - k,
{
    if k == names.len() {
        assert(names.subrange(0, k) =~= names);
    } else {
        assert(names.subrange(0, k + 1).drop_last() =~= names.subrange(0, k));
        lemma_first_named_more(names, k + 1, name);
    }
}

/// Whether two strings are equal.
fn str_equal(a: &str, b: &str) -> (r: bool)
    ensures
        r == (a@ == b@),
{
    let x = crate::text::str_chars(a);
    let y = crate::text::str_chars(b);
    crate::preprocessor::eval::chars_eq(&x, &y)
}

} // verus!
