//! The banner table: the names of the players and teams of a match, by
//! banner number. Banner 0 is the system's own and is never removed; a name
//! that is already taken gets ".copy" appended until it is unique.
use vstd::prelude::*;
use vstd::set_lib::{set_int_range, lemma_int_range, lemma_len_subset};

verus! {

/// The suffix appended to a name that is already taken.
pub open spec fn copy_suffix() -> Seq<char> {
    seq!['.', 'c', 'o', 'p', 'y']
}

/// `s` with `k` copies of the suffix appended.
pub open spec fn suffixed(s: Seq<char>, k: nat) -> Seq<char>
    decreases k,
{
    if k == 0 {
        s
    } else {
        suffixed(s, (k - 1) as nat) + copy_suffix()
    }
}

proof fn lemma_suffixed_len(s: Seq<char>, k: nat)
    ensures
        suffixed(s, k).len() == s.len() + 5 * k,
    decreases k,
{
    if k > 0 {
        lemma_suffixed_len(s, (k - 1) as nat);
    }
}

/// Whether some entry of `names` reads `s`.
pub open spec fn name_taken(names: Seq<String>, s: Seq<char>) -> bool {
    exists|i: int| 0 <= i < names.len() && #[trigger] names[i]@ == s
}

pub struct BannerTable {
    pub names: Vec<String>,
}

impl BannerTable {
    pub open spec fn wf(&self) -> bool {
        self.names@.len() >= 1
    }

    /// A table that holds the system banner alone.
    pub fn new(system_name: String) -> (r: Self)
        ensures
            r.wf(),
            r.names@.len() == 1,
            r.names@[0]@ == system_name@,
    {
        let mut names: Vec<String> = Vec::new();
        names.push(system_name);
        BannerTable { names }
    }

    /// The index of an entry that reads `s`, if there is one.
    fn find(&self, s: &String) -> (r: Option<usize>)
        ensures
            r.is_none() == !name_taken(self.names@, s@),
            r.is_some() ==> r.unwrap() < self.names@.len() && self.names@[r.unwrap() as int]@ == s@,
    {
        let mut i: usize = 0;
        while i < self.names.len()
            invariant
                i <= self.names@.len(),
                forall|j: int| 0 <= j < i ==> self.names@[j]@ != s@,
            decreases self.names@.len() - i,
        {
            if self.names[i] == *s {
                return Some(i);
            }
            i = i + 1;
        }
        None
    }

    /// Adds `banner` under a new number, which is returned. A taken name gets
    /// ".copy" appended as often as needed: `k` times, where `k` is the least
    /// count that gives a name not yet in the table, and `k` is at most the
    /// number of names already there.
    pub fn banner_add(&mut self, banner: String) -> (r: usize)
        requires
            old(self).wf(),
            old(self).names@.len() < usize::MAX,
        ensures
            final(self).wf(),
            r == old(self).names@.len(),
            final(self).names@.len() == old(self).names@.len() + 1,
            final(self).names@.subrange(0, r as int) == old(self).names@,
            exists|k: nat|
                {
                    &&& k <= old(self).names@.len()
                    &&& final(self).names@[r as int]@ == suffixed(banner@, k)
                    &&& !name_taken(old(self).names@, suffixed(banner@, k))
                    &&& forall|j: nat| j < k ==> name_taken(old(self).names@, #[trigger] suffixed(banner@, j))
                },
    {
        let mut name = banner;
        let ghost n = self.names@.len();
        let ghost mut k: nat = 0;
        let ghost mut tried: Set<int> = Set::empty();
        let mut found = self.find(&name);
        while found.is_some()
            invariant
                self.names@ == old(self).names@,
                n == self.names@.len(),
                name@ == suffixed(banner@, k),
                found.is_none() == !name_taken(self.names@, name@),
                found.is_some() ==> found.unwrap() < n && self.names@[found.unwrap() as int]@
                    == name@,
                forall|j: nat| j < k ==> name_taken(self.names@, #[trigger] suffixed(banner@, j)),
                tried.finite(),
                tried.len() == k,
                tried.subset_of(set_int_range(0, n as int)),
                forall|i: int| tried.contains(i) ==> self.names@[i]@.len() < name@.len(),
                k <= n,
            decreases n - k,
        {
            let ghost i = found.unwrap() as int;
            proof {
                assert(!tried.contains(i));
                tried = tried.insert(i);
                lemma_int_range(0, n as int);
                lemma_len_subset(tried, set_int_range(0, n as int));
                lemma_suffixed_len(banner@, k);
                lemma_suffixed_len(banner@, k + 1);
                reveal_strlit(".copy");
            }
            name.append(".copy");
            proof {
                assert(".copy"@ =~= copy_suffix());
                assert(name@ == suffixed(banner@, k + 1));
                assert forall|j: nat| j < k + 1 implies name_taken(self.names@, #[trigger] suffixed(banner@, j)) by {
                    if j == k {
                        assert(self.names@[i]@ == suffixed(banner@, k));
                    }
                }
                k = k + 1;
            }
            found = self.find(&name);
        }
        let r = self.names.len();
        self.names.push(name);
        proof {
            assert(self.names@.subrange(0, r as int) =~= old(self).names@);
        }
        r
    }

    /// Removes every banner but the system's own.
    pub fn clear_banners(&mut self)
        requires
            old(self).wf(),
        ensures
            final(self).wf(),
            final(self).names@ == old(self).names@.subrange(0, 1),
    {
        self.names.truncate(1);
    }

    pub fn len(&self) -> (r: usize)
        ensures
            r == self.names@.len(),
    {
        self.names.len()
    }
}

} // verus!
