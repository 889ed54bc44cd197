use vstd::prelude::*;
use std::hash::Hasher;

verus! {

/// The flags joined by `+`, as `itertools::join` writes them.
pub open spec fn join_plus(view: Seq<Seq<char>>) -> Seq<char>
    decreases view.len(),
{
    if view.len() == 0 {
        Seq::empty()
    } else if view.len() == 1 {
        view[0]
    } else {
        join_plus(view.drop_last()) + seq!['+'] + view.last()
    }
}

pub open spec fn strings_view(v: Seq<String>) -> Seq<Seq<char>> {
    Seq::new(v.len(), |i: int| v[i]@)
}

/// `FxHasher` fed with the UTF-8 bytes of `key`. FxHasher works on machine
/// words, so its result differs between 32 and 64 bit targets; nothing is
/// stated of it.
#[verifier::external_body]
fn fx_hash_str(key: &str) -> (r: u64) {
    let mut h = fxhash::FxHasher::default();
    h.write(key.as_bytes());
    h.finish()
}

/// The variant of a shader technique: its flags, the key they join to and a
/// hash of that key.
#[derive(Debug)]
pub struct VariantFlags {
    full_key: String,
    view: Vec<String>,
    hash_key: u64,
}

impl VariantFlags {
    /// The key: the flags joined by `+`.
    pub closed spec fn key_view(&self) -> Seq<char> {
        self.full_key@
    }

    /// The flags, in order.
    pub closed spec fn flags(&self) -> Seq<Seq<char>> {
        strings_view(self.view@)
    }

    pub closed spec fn hash_view(&self) -> u64 {
        self.hash_key
    }

    /// Flags `view`, keyed by their `+`-join and its FxHash.
    pub fn new(view: Vec<String>) -> (r: Self)
        ensures
            r.flags() == strings_view(view@),
            r.key_view() == join_plus(strings_view(view@)),
    {
        let ghost vv = strings_view(view@);
        let mut full_key = String::new();
        let mut i: usize = 0;
        proof {
            reveal_strlit("+");
            assert(full_key@ =~= join_plus(vv.subrange(0, 0)));
        }
        while i < view.len()
            invariant
                i <= view@.len(),
                vv == strings_view(view@),
                full_key@ == join_plus(vv.subrange(0, i as int)),
                "+"@ == seq!['+'],
            decreases view@.len() - i,
        {
            if i > 0 {
                full_key.append("+");
            }
            full_key.append(view[i].as_str());
            proof {
                let s = vv.subrange(0, i + 1);
                assert(s.drop_last() =~= vv.subrange(0, i as int));
                if i == 0 {
                    assert(full_key@ =~= s[0]);
                } else {
                    assert(full_key@ =~= join_plus(s.drop_last()) + seq!['+'] + s.last());
                }
            }
            i = i + 1;
        }
        proof {
            assert(vv.subrange(0, view@.len() as int) =~= vv);
        }
        let hash_key = fx_hash_str(full_key.as_str());
        VariantFlags { full_key, view, hash_key }
    }

    /// The key: the flags joined by `+`.
    pub fn key(&self) -> (r: &str)
        ensures
            r@ == self.key_view(),
    {
        self.full_key.as_str()
    }

    /// The hash of the key.
    pub fn hash_key(&self) -> (r: u64)
        ensures
            r == self.hash_view(),
    {
        self.hash_key
    }

    /// The flags, in order.
    pub fn view(&self) -> (r: &Vec<String>)
        ensures
            strings_view(r@) == self.flags(),
    {
        &self.view
    }
}

impl Default for VariantFlags {
    /// No flags, with the key `-` and the hash 123.
    fn default() -> (r: Self)
        ensures
            r.flags() == Seq::<Seq<char>>::empty(),
            r.key_view() == seq!['-'],
            r.hash_view() == 123,
    {
        let full_key = String::from_str("-");
        let r = VariantFlags { full_key, view: Vec::new(), hash_key: 123 };
        proof {
            reveal_strlit("-");
            assert(r.flags() =~= Seq::<Seq<char>>::empty());
        }
        r
    }
}

/// Collects the flags of a variant.
#[derive(Debug)]
pub struct VariantFlagsBuilder {
    view: Vec<String>,
}

impl VariantFlagsBuilder {
    /// The flags added so far.
    pub closed spec fn flags(&self) -> Seq<Seq<char>> {
        strings_view(self.view@)
    }

    pub fn new() -> (r: Self)
        ensures
            r.flags() == Seq::<Seq<char>>::empty(),
    {
        let r = VariantFlagsBuilder { view: Vec::new() };
        proof {
            assert(r.flags() =~= Seq::<Seq<char>>::empty());
        }
        r
    }

    /// Adds a flag after those added before.
    pub fn add_flag(&mut self, s: &str)
        ensures
            final(self).flags() == old(self).flags().push(s@),
    {
        let ghost f0 = self.flags();
        self.view.push(s.to_owned());
        proof {
            assert(self.flags() =~= f0.push(s@));
        }
    }

    /// The variant of the flags added.
    pub fn build(self) -> (r: VariantFlags)
        ensures
            r.flags() == self.flags(),
            r.key_view() == join_plus(self.flags()),
    {
        VariantFlags::new(self.view)
    }
}

impl Default for VariantFlagsBuilder {
    fn default() -> (r: Self)
        ensures
            r.flags() == Seq::<Seq<char>>::empty(),
    {
        VariantFlagsBuilder::new()
    }
}

} // verus!
