//! Where API keys are kept: the storage interface and an in-memory store.
use vstd::prelude::*;

verus! {

/// Why a secret could not be read or written.
#[derive(Debug, Clone, PartialEq, Eq)]
pub enum SecretError {
    NotFound(String),
    Storage(String),
}

impl SecretError {
    /// The text the error is shown as.
    pub fn message(&self) -> (r: String)
        ensures
            match *self {
                SecretError::NotFound(k) => r@ == "secret not found: "@ + k@,
                SecretError::Storage(m) => r@ == "secret storage failed: "@ + m@,
            },
    {
        match self {
            SecretError::NotFound(k) => {
                let mut out = crate::text::chars_of("secret not found: ");
                crate::text::push_str(&mut out, k.as_str());
                crate::text::string_of(&out)
            },
            SecretError::Storage(m) => {
                let mut out = crate::text::chars_of("secret storage failed: ");
                crate::text::push_str(&mut out, m.as_str());
                crate::text::string_of(&out)
            },
        }
    }
}

/// A place to keep secrets under a reference.
pub trait SecretStore {
    fn set_secret(&mut self, key_ref: &str, value: &str) -> Result<(), SecretError>;

    fn get_secret(&self, key_ref: &str) -> Result<String, SecretError>;

    fn delete_secret(&mut self, key_ref: &str) -> Result<(), SecretError>;
}

/// The secrets that a list of entries holds: a later entry for a key hides
/// an earlier one.
pub open spec fn entries_map(s: Seq<(String, String)>) -> Map<Seq<char>, Seq<char>>
    decreases s.len(),
{
    if s.len() == 0 {
        Map::empty()
    } else {
        entries_map(s.drop_last()).insert(s.last().0@, s.last().1@)
    }
}

/// The entries without those for `key`, in order.
pub open spec fn without_key(s: Seq<(String, String)>, key: Seq<char>) -> Seq<(String, String)>
    decreases s.len(),
{
    if s.len() == 0 {
        s
    } else if s.last().0@ == key {
        without_key(s.drop_last(), key)
    } else {
        without_key(s.drop_last(), key).push(s.last())
    }
}

proof fn lemma_without_key_map(s: Seq<(String, String)>, key: Seq<char>)
    ensures
        entries_map(without_key(s, key)) == entries_map(s).remove(key),
    decreases s.len(),
{
    if s.len() > 0 {
        lemma_without_key_map(s.drop_last(), key);
        if s.last().0@ != key {
            let w = without_key(s.drop_last(), key);
            assert(w.push(s.last()).drop_last() =~= w);
            assert(entries_map(s.drop_last()).remove(key).insert(s.last().0@, s.last().1@)
                =~= entries_map(s.drop_last()).insert(s.last().0@, s.last().1@).remove(key));
        } else {
            assert(entries_map(s.drop_last()).remove(key) =~= entries_map(s.drop_last()).insert(
                key,
                s.last().1@,
            ).remove(key));
        }
    } else {
        assert(entries_map(s).remove(key) =~= Map::empty());
    }
}

proof fn lemma_entries_map_dom(s: Seq<(String, String)>, key: Seq<char>)
    ensures
        entries_map(s).dom().contains(key) <==> exists|i: int| 0 <= i < s.len() && (#[trigger] s[i]).0@ == key,
    decreases s.len(),
{
    if s.len() > 0 {
        let init = s.drop_last();
        lemma_entries_map_dom(init, key);
        if entries_map(s).dom().contains(key) && s.last().0@ != key {
            let i = choose|i: int| 0 <= i < init.len() && (#[trigger] init[i]).0@ == key;
            assert(s[i] == init[i]);
        }
        if exists|i: int| 0 <= i < s.len() && (#[trigger] s[i]).0@ == key {
            let i = choose|i: int| 0 <= i < s.len() && (#[trigger] s[i]).0@ == key;
            if i < s.len() - 1 {
                assert(init[i] == s[i]);
            }
        }
    }
}

proof fn lemma_entries_map_last(s: Seq<(String, String)>, key: Seq<char>, j: int)
    requires
        0 <= j < s.len(),
        s[j].0@ == key,
        forall|k: int| j < k < s.len() ==> (#[trigger] s[k]).0@ != key,
    ensures
        entries_map(s).dom().contains(key),
        entries_map(s)[key] == s[j].1@,
    decreases s.len(),
{
    if j < s.len() - 1 {
        let init = s.drop_last();
        assert(s[s.len() - 1].0@ != key);
        assert(init[j] == s[j]);
        assert forall|k: int| j < k < init.len() implies (#[trigger] init[k]).0@ != key by {
            assert(init[k] == s[k]);
        }
        lemma_entries_map_last(init, key, j);
    }
}

/// Secrets kept in memory for the life of the process.
pub struct MemorySecretStore {
    values: Vec<(String, String)>,
}

impl View for MemorySecretStore {
    type V = Map<Seq<char>, Seq<char>>;

    closed spec fn view(&self) -> Map<Seq<char>, Seq<char>> {
        entries_map(self.values@)
    }
}

impl MemorySecretStore {
    /// An empty store.
    pub fn new() -> (s: Self)
        ensures
            s@ == Map::<Seq<char>, Seq<char>>::empty(),
    {
        MemorySecretStore { values: Vec::new() }
    }

    fn remove_key(&mut self, key_ref: &str)
        ensures
            final(self)@ == old(self)@.remove(key_ref@),
    {
        let wanted = crate::text::chars_of(key_ref);
        let ghost all = self.values@;
        let n = self.values.len();
        let mut i: usize = 0;
        let mut k: usize = 0;
        assert(all.subrange(0, 0) =~= Seq::<(String, String)>::empty());
        assert(self.values@ =~= without_key(all.subrange(0, 0), key_ref@) + all.subrange(
            0,
            all.len() as int,
        ));
        while i < self.values.len()
            invariant
                wanted@ == key_ref@,
                k <= all.len(),
                all.len() == n,
                i == without_key(all.subrange(0, k as int), key_ref@).len(),
                self.values@ == without_key(all.subrange(0, k as int), key_ref@) + all.subrange(
                    k as int,
                    all.len() as int,
                ),
            decreases self.values.len() - i,
        {
            let ghost before = self.values@;
            let ghost w = without_key(all.subrange(0, k as int), key_ref@);
            let ghost x = all[k as int];
            assert(all.subrange(0, k + 1).drop_last() =~= all.subrange(0, k as int));
            assert(all.subrange(0, k + 1).last() == x);
            assert(before[i as int] == x);
            let name = crate::text::chars_of(self.values[i].0.as_str());
            if crate::text::chars_eq(&name, &wanted) {
                let _removed = self.values.remove(i);
                assert(self.values@ =~= w + all.subrange(k + 1, all.len() as int));
            } else {
                assert(w.push(x) + all.subrange(k + 1, all.len() as int) =~= before);
                i = i + 1;
            }
            k = k + 1;
        }
        proof {
            assert(all.subrange(0, all.len() as int) =~= all);
            if k < all.len() {
                assert(self.values@.len() > i);
            }
            assert(self.values@ =~= without_key(all, key_ref@));
            lemma_without_key_map(all, key_ref@);
        }
    }
}

impl SecretStore for MemorySecretStore {
    /// Keeps `value` under `key_ref`, replacing what was there.
    fn set_secret(&mut self, key_ref: &str, value: &str) -> (r: Result<(), SecretError>)
        ensures
            r is Ok,
            final(self)@ == old(self)@.insert(key_ref@, value@),
    {
        self.remove_key(key_ref);
        let ghost before = self.values@;
        self.values.push((crate::text::owned(key_ref), crate::text::owned(value)));
        proof {
            assert(self.values@.drop_last() =~= before);
            assert(old(self)@.remove(key_ref@).insert(key_ref@, value@) =~= old(self)@.insert(
                key_ref@,
                value@,
            ));
        }
        Ok(())
    }

    /// The secret under `key_ref`, or `NotFound` with the reference.
    fn get_secret(&self, key_ref: &str) -> (r: Result<String, SecretError>)
        ensures
            match r {
                Ok(v) => self@.dom().contains(key_ref@) && v@ == self@[key_ref@],
                Err(e) => !self@.dom().contains(key_ref@) && (e matches SecretError::NotFound(k)
                    && k@ == key_ref@),
            },
    {
        let wanted = crate::text::chars_of(key_ref);
        let mut i: usize = self.values.len();
        while i > 0
            invariant
                i <= self.values@.len(),
                wanted@ == key_ref@,
                forall|k: int| i <= k < self.values@.len() ==> (#[trigger] self.values@[k]).0@ != key_ref@,
            decreases i,
        {
            let name = crate::text::chars_of(self.values[i - 1].0.as_str());
            if crate::text::chars_eq(&name, &wanted) {
                proof {
                    lemma_entries_map_last(self.values@, key_ref@, i - 1);
                }
                return Ok(crate::text::owned(self.values[i - 1].1.as_str()));
            }
            i = i - 1;
        }
        proof {
            lemma_entries_map_dom(self.values@, key_ref@);
        }
        Err(SecretError::NotFound(crate::text::owned(key_ref)))
    }

    /// Forgets the secret under `key_ref`, if any.
    fn delete_secret(&mut self, key_ref: &str) -> (r: Result<(), SecretError>)
        ensures
            r is Ok,
            final(self)@ == old(self)@.remove(key_ref@),
    {
        self.remove_key(key_ref);
        Ok(())
    }
}

impl Default for MemorySecretStore {
    fn default() -> (s: Self)
        ensures
            s@ == Map::<Seq<char>, Seq<char>>::empty(),
    {
        Self::new()
    }
}

} // verus!
