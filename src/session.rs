//! The in-memory registry of live sessions, keyed by session key.
use vstd::prelude::*;

verus! {

/// The live state of one logged-in account: its name, an optional open
/// collection, an optional sync in progress, its media handle and its folder.
pub struct Session<C, S, M> {
    pub name: String,
    pub col: Option<C>,
    pub sync_state: Option<S>,
    pub media: M,
    pub folder: String,
}

impl<C, S, M> Session<C, S, M> {
    /// A session with no open collection and no sync in progress.
    pub fn new(name: String, folder: String, media: M) -> (r: Session<C, S, M>)
        ensures
            r.name@ == name@,
            r.folder@ == folder@,
            r.media == media,
            r.col is None,
            r.sync_state is None,
    {
        Session { name, col: None, sync_state: None, media, folder }
    }
}

/// Session keys mapped to sessions; each key appears once.
pub struct SessionRegistry<C, S, M> {
    keys: Vec<String>,
    sessions: Vec<Session<C, S, M>>,
}

impl<C, S, M> SessionRegistry<C, S, M> {
    pub closed spec fn wf(&self) -> bool {
        &&& self.keys@.len() == self.sessions@.len()
        &&& forall|i: int, j: int|
            0 <= i < self.keys@.len() && 0 <= j < self.keys@.len() && i != j ==> self.keys@[i]@
                != self.keys@[j]@
    }

    spec fn has_at(&self, k: Seq<char>, i: int) -> bool {
        0 <= i < self.keys@.len() && self.keys@[i]@ == k
    }

    /// The registry as a map from session key to session.
    pub closed spec fn view(&self) -> Map<Seq<char>, Session<C, S, M>> {
        Map::new(
            |k: Seq<char>| exists|i: int| self.has_at(k, i),
            |k: Seq<char>| self.sessions@[choose|i: int| self.has_at(k, i)],
        )
    }

    proof fn lemma_at(&self, k: Seq<char>, i: int)
        requires
            self.wf(),
            self.has_at(k, i),
        ensures
            self@.contains_key(k),
            self@[k] == self.sessions@[i],
    {
        let j = choose|j: int| self.has_at(k, j);
        assert(self.has_at(k, j));
    }

    /// An empty registry.
    pub fn new() -> (r: SessionRegistry<C, S, M>)
        ensures
            r.wf(),
            r@ == Map::<Seq<char>, Session<C, S, M>>::empty(),
    {
        let r = SessionRegistry { keys: Vec::new(), sessions: Vec::new() };
        assert(r@ =~= Map::<Seq<char>, Session<C, S, M>>::empty());
        r
    }

    fn find(&self, key: &str) -> (r: Option<usize>)
        requires
            self.wf(),
        ensures
            match r {
                Some(i) => self.has_at(key@, i as int),
                None => forall|i: int| !self.has_at(key@, i),
            },
    {
        let wanted = String::from_str(key);
        let mut i: usize = 0;
        while i < self.keys.len()
            invariant
                self.wf(),
                wanted@ == key@,
                i <= self.keys@.len(),
                forall|j: int| 0 <= j < i ==> !self.has_at(key@, j),
            decreases self.keys@.len() - i,
        {
            if self.keys[i].eq(&wanted) {
                return Some(i);
            }
            i = i + 1;
        }
        None
    }

    /// Whether a session is registered under `key`.
    pub fn contains_key(&self, key: &str) -> (r: bool)
        requires
            self.wf(),
        ensures
            r == self@.contains_key(key@),
    {
        match self.find(key) {
            Some(i) => {
                proof {
                    self.lemma_at(key@, i as int);
                }
                true
            },
            None => false,
        }
    }

    /// Registers `session` under `key` unless a session is already there,
    /// in which case the registry is left as it was.
    pub fn insert_if_absent(&mut self, key: String, session: Session<C, S, M>)
        requires
            old(self).wf(),
        ensures
            final(self).wf(),
            old(self)@.contains_key(key@) ==> final(self)@ == old(self)@,
            !old(self)@.contains_key(key@) ==> final(self)@ == old(self)@.insert(key@, session),
    {
        if self.contains_key(key.as_str()) {
            return;
        }
        let ghost k = key@;
        let ghost prev = *self;
        self.keys.push(key);
        self.sessions.push(session);
        let ghost n = prev.keys@.len() as int;
        assert forall|i: int| 0 <= i < n implies prev.keys@[i]@ != k by {
            if prev.keys@[i]@ == k {
                prev.lemma_at(k, i);
            }
        }
        assert(self.keys@[n]@ == k);
        assert(self.wf());
        assert(self.has_at(k, n));
        assert forall|q: Seq<char>| #[trigger] self@.contains_key(q) == prev@.insert(k, session).contains_key(q) by {
            if exists|i: int| self.has_at(q, i) {
                let i = choose|i: int| self.has_at(q, i);
                if i < n {
                    assert(prev.has_at(q, i));
                }
            }
            if exists|i: int| prev.has_at(q, i) {
                let i = choose|i: int| prev.has_at(q, i);
                assert(self.has_at(q, i));
            }
        }
        assert forall|q: Seq<char>| #[trigger] self@.contains_key(q) implies self@[q] == prev@.insert(k, session)[q] by {
            let i = choose|i: int| self.has_at(q, i);
            self.lemma_at(q, i);
            if i < n {
                assert(prev.has_at(q, i));
                prev.lemma_at(q, i);
            }
        }
        assert(self@ =~= prev@.insert(k, session));
    }

    /// Runs `op` with exclusive access to the session registered under `key`
    /// and returns what it returns; `None`, without running `op`, when no
    /// session is registered there.
    pub fn with_session_mut<F, O>(&mut self, key: &str, op: F) -> (r: Option<O>)
        where
            F: FnOnce(&mut Session<C, S, M>) -> O,
        requires
            old(self).wf(),
            forall|s: &mut Session<C, S, M>| op.requires((s,)),
        ensures
            final(self).wf(),
            final(self)@.dom() == old(self)@.dom(),
            r is None <==> !old(self)@.contains_key(key@),
            r is None ==> final(self)@ == old(self)@,
            forall|q: Seq<char>|
                q != key@ && old(self)@.contains_key(q) ==> #[trigger] final(self)@[q] == old(self)@[q],
            r matches Some(o) ==> exists|s: &mut Session<C, S, M>|
                *s == old(self)@[key@] && *final(s) == final(self)@[key@] && op.ensures((s,), o),
    {
        match self.find(key) {
            None => {
                proof {
                    assert(!old(self)@.contains_key(key@));
                }
                None
            },
            Some(i) => {
                let ghost prev = *self;
                proof {
                    prev.lemma_at(key@, i as int);
                }
                let s = &mut self.sessions[i];
                let o = op(s);
                proof {
                    assert(self.keys@ == prev.keys@);
                    self.lemma_at(key@, i as int);
                    assert forall|q: Seq<char>| #[trigger] self@.contains_key(q) == prev@.contains_key(q) by {
                        if exists|j: int| self.has_at(q, j) {
                            let j = choose|j: int| self.has_at(q, j);
                            assert(prev.has_at(q, j));
                        }
                        if exists|j: int| prev.has_at(q, j) {
                            let j = choose|j: int| prev.has_at(q, j);
                            assert(self.has_at(q, j));
                        }
                    }
                    assert(self@.dom() =~= prev@.dom());
                    assert forall|q: Seq<char>|
                        q != key@ && prev@.contains_key(q) implies #[trigger] self@[q] == prev@[q] by {
                        let j = choose|j: int| prev.has_at(q, j);
                        prev.lemma_at(q, j);
                        self.lemma_at(q, j);
                    }
                }
                Some(o)
            },
        }
    }
}

} // verus!
