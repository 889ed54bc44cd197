//! The configuration of a pool of worker threads.

use vstd::prelude::*;

verus! {

/// `num_cpus::get`: the number of CPUs the process may use; it is at least 1.
#[verifier::external_body]
fn available_cpus() -> (r: usize)
    ensures
        r >= 1,
{
    num_cpus::get()
}

/// How many workers a task pool starts, and their thread name.
#[derive(Debug)]
pub struct TaskPoolBuilder {
    n: usize,
    name: String,
}

impl TaskPoolBuilder {
    /// The worker count.
    pub closed spec fn count(&self) -> usize {
        self.n
    }

    /// The thread name.
    pub closed spec fn name_view(&self) -> Seq<char> {
        self.name@
    }

    /// One worker per available CPU, unnamed.
    pub fn new() -> (r: Self)
        ensures
            r.count() >= 1,
            r.name_view() == Seq::<char>::empty(),
    {
        TaskPoolBuilder { n: available_cpus(), name: String::new() }
    }

    /// Sets the worker count.
    pub fn nums(self, n: usize) -> (r: Self)
        ensures
            r.count() == n,
            r.name_view() == self.name_view(),
    {
        let mut r = self;
        r.n = n;
        r
    }

    /// Sets the thread name.
    pub fn name(self, name: String) -> (r: Self)
        ensures
            r.count() == self.count(),
            r.name_view() == name@,
    {
        let mut r = self;
        r.name = name;
        r
    }

    /// The worker count.
    pub fn workers(&self) -> (r: usize)
        ensures
            r == self.count(),
    {
        self.n
    }

    /// The thread name.
    pub fn thread_name(&self) -> (r: &String)
        ensures
            r@ == self.name_view(),
    {
        &self.name
    }
}

} // verus!
