use vstd::prelude::*;

verus! {

/// The mapping described by a list of (username, secret) pairs: a later pair
/// for a key overrides an earlier one.
pub open spec fn pairs_map(s: Seq<(Seq<char>, Seq<char>)>) -> Map<Seq<char>, Seq<char>>
    decreases s.len(),
{
    if s.len() == 0 {
        Map::empty()
    } else {
        pairs_map(s.drop_last()).insert(s.last().0, s.last().1)
    }
}

/// No username occurs twice in the list.
pub open spec fn keys_unique(s: Seq<(Seq<char>, Seq<char>)>) -> bool {
    forall|i: int, j: int| 0 <= i < j < s.len() ==> s[i].0 != s[j].0
}

/// With unique keys, a key is in the mapping exactly when some pair holds it,
/// and it maps to that pair's secret.
proof fn lemma_pairs_map_lookup(s: Seq<(Seq<char>, Seq<char>)>, k: Seq<char>)
    requires
        keys_unique(s),
    ensures
        pairs_map(s).contains_key(k) <==> exists|i: int| 0 <= i < s.len() && s[i].0 == k,
        forall|i: int| 0 <= i < s.len() && s[i].0 == k ==> pairs_map(s)[k] == s[i].1,
    decreases s.len(),
{
    if s.len() > 0 {
        let p = s.drop_last();
        assert(keys_unique(p));
        lemma_pairs_map_lookup(p, k);
        let n = s.len() - 1;
        if k == s.last().0 {
            assert(s[n].0 == k);
        } else {
            if pairs_map(p).contains_key(k) {
                let i = choose|i: int| 0 <= i < p.len() && p[i].0 == k;
                assert(s[i].0 == k);
            }
            if exists|i: int| 0 <= i < s.len() && s[i].0 == k {
                let i = choose|i: int| 0 <= i < s.len() && s[i].0 == k;
                assert(p[i] == s[i]);
            }
            assert forall|i: int| 0 <= i < s.len() && s[i].0 == k implies pairs_map(s)[k] == s[i].1 by {
                assert(i < n);
                assert(p[i] == s[i]);
            }
        }
    }
}

/// The username -> credential secret mapping of the service. Usernames are
/// unique; entries are only ever added.
pub struct CredentialStore {
    entries: Vec<(String, String)>,
}

impl CredentialStore {
    /// The entries as (username, secret) pairs of character sequences.
    pub closed spec fn pairs(&self) -> Seq<(Seq<char>, Seq<char>)> {
        self.entries@.map_values(|e: (String, String)| (e.0@, e.1@))
    }

    /// Well-formedness: no username is stored twice.
    pub closed spec fn wf(&self) -> bool {
        keys_unique(self.pairs())
    }

    /// Creates an empty store.
    pub fn new() -> (r: CredentialStore)
        ensures
            r.wf(),
            r@ == Map::<Seq<char>, Seq<char>>::empty(),
    {
        let r = CredentialStore { entries: Vec::new() };
        assert(r.pairs() =~= Seq::<(Seq<char>, Seq<char>)>::empty());
        r
    }

    /// The index of the entry for `username`, if there is one.
    fn position(&self, username: &String) -> (r: Option<usize>)
        ensures
            match r {
                None => forall|i: int| 0 <= i < self.pairs().len() ==> self.pairs()[i].0 != username@,
                Some(i) => i < self.pairs().len() && self.pairs()[i as int].0 == username@,
            },
    {
        let mut i: usize = 0;
        while i < self.entries.len()
            invariant
                i <= self.entries.len(),
                forall|j: int| 0 <= j < i ==> self.pairs()[j].0 != username@,
            decreases self.entries.len() - i,
        {
            if self.entries[i].0 == *username {
                return Some(i);
            }
            i = i + 1;
        }
        None
    }

    /// The secret stored for `username`, or `None` when it is unknown.
    pub fn lookup(&self, username: &String) -> (r: Option<String>)
        requires
            self.wf(),
        ensures
            match r {
                None => !self@.contains_key(username@),
                Some(s) => self@.contains_key(username@) && self@[username@] == s@,
            },
    {
        proof {
            lemma_pairs_map_lookup(self.pairs(), username@);
        }
        match self.position(username) {
            None => None,
            Some(i) => Some(self.entries[i].1.clone()),
        }
    }

    /// Stores `secret` for `username` unless the username is already present.
    /// Returns whether the entry was added; the store is unchanged otherwise.
    pub fn insert_if_absent(&mut self, username: String, secret: String) -> (r: bool)
        requires
            old(self).wf(),
        ensures
            final(self).wf(),
            r == !old(self)@.contains_key(username@),
            r ==> final(self)@ == old(self)@.insert(username@, secret@),
            !r ==> final(self)@ == old(self)@,
    {
        proof {
            lemma_pairs_map_lookup(self.pairs(), username@);
        }
        match self.position(&username) {
            Some(_) => false,
            None => {
                let ghost before = self.pairs();
                let ghost u = username@;
                let ghost s = secret@;
                self.entries.push((username, secret));
                assert(self.pairs() =~= before.push((u, s)));
                assert(self.pairs().drop_last() =~= before);
                true
            },
        }
    }
}

impl View for CredentialStore {
    type V = Map<Seq<char>, Seq<char>>;

    closed spec fn view(&self) -> Map<Seq<char>, Seq<char>> {
        pairs_map(self.pairs())
    }
}

} // verus!
