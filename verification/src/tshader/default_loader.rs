use vstd::prelude::*;

verus! {

pub open spec fn pairs_view(v: Seq<(String, String)>) -> Seq<(Seq<char>, Seq<char>)> {
    Seq::new(v.len(), |i: int| (v[i].0@, v[i].1@))
}

/// The value of the first entry of `map` named `name`.
pub open spec fn first_value(map: Seq<(Seq<char>, Seq<char>)>, name: Seq<char>) -> Option<Seq<char>>
    decreases map.len(),
{
    if map.len() == 0 {
        None
    } else if map[0].0 == name {
        Some(map[0].1)
    } else {
        first_value(map.drop_first(), name)
    }
}

/// Finds shader techniques by name in a description: each name maps to the
/// description file of a technique, relative to the description's
/// directory.
#[derive(Debug)]
pub struct DefaultShaderTechLoader {
    map: Vec<(String, String)>,
    desc_path: String,
}

impl DefaultShaderTechLoader {
    pub closed spec fn entries(&self) -> Seq<(Seq<char>, Seq<char>)> {
        pairs_view(self.map@)
    }

    pub closed spec fn desc_path_view(&self) -> Seq<char> {
        self.desc_path@
    }

    /// A loader for the description `map`, read from directory `desc_path`.
    pub fn from_desc(map: Vec<(String, String)>, desc_path: String) -> (r: Self)
        ensures
            r.entries() == pairs_view(map@),
            r.desc_path_view() == desc_path@,
    {
        DefaultShaderTechLoader { map, desc_path }
    }

    /// The description file of technique `name`, if the description names it.
    pub fn tech_source(&self, name: &String) -> (r: Option<&String>)
        ensures
            match r {
                Some(s) => first_value(self.entries(), name@) == Some(s@),
                None => first_value(self.entries(), name@) is None,
            },
    {
        let ghost e = self.entries();
        let mut i: usize = 0;
        proof {
            assert(e.subrange(0, e.len() as int) =~= e);
        }
        while i < self.map.len()
            invariant
                i <= self.map@.len(),
                e == pairs_view(self.map@),
                first_value(e, name@) == first_value(e.subrange(i as int, e.len() as int), name@),
            decreases self.map@.len() - i,
        {
            proof {
                assert(e.subrange(i as int, e.len() as int).drop_first() =~= e.subrange(i + 1, e.len() as int));
            }
            if self.map[i].0 == *name {
                return Some(&self.map[i].1);
            }
            i = i + 1;
        }
        None
    }

    /// The directory of the description.
    pub fn desc_path(&self) -> (r: &String)
        ensures
            r@ == self.desc_path_view(),
    {
        &self.desc_path
    }
}

} // verus!
