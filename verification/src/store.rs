//! Session-scoped stores: the per-mailbox cursor map of the pager, and
//! the identifier-keyed detail cache. Both are association vectors with
//! unique keys, viewed as maps in contracts.

use vstd::prelude::*;
use vstd::string::*;
use vstd::pervasive::VecAdditionalExecFns;
use vstd::map::*;
use crate::codec::EmailDetail;

verus! {

/// The map an association vector denotes (a later entry would win, but
/// the stores keep their keys unique).
pub open spec fn assoc_map<V>(s: Seq<(String, V)>) -> Map<Seq<char>, V>
    decreases s.len(),
{
    if s.len() == 0 {
        Map::empty()
    } else {
        assoc_map(s.drop_last()).insert(s.last().0@, s.last().1)
    }
}

/// No two entries share a key.
pub open spec fn assoc_unique<V>(s: Seq<(String, V)>) -> bool {
    forall|i: int, j: int| 0 <= i < j < s.len() ==> s[i].0@ != s[j].0@
}

/// With unique keys, the denoted map has exactly the entries' keys, each
/// bound to its entry's value.
pub proof fn lemma_assoc_props<V>(s: Seq<(String, V)>)
    requires
        assoc_unique(s),
    ensures
        forall|k: Seq<char>| #[trigger]
            assoc_map(s).contains_key(k) ==> exists|i: int| 0 <= i < s.len() && s[i].0@ == k,
        forall|i: int|
            0 <= i < s.len() ==> assoc_map(s).contains_key(#[trigger] s[i].0@) && assoc_map(
                s,
            )[s[i].0@] == s[i].1,
    decreases s.len(),
{
    if s.len() > 0 {
        let rest = s.drop_last();
        assert(assoc_unique(rest));
        lemma_assoc_props(rest);
        assert forall|k: Seq<char>| #[trigger] assoc_map(s).contains_key(k) implies exists|i: int|
            0 <= i < s.len() && s[i].0@ == k by {
            if k == s.last().0@ {
                assert(s[s.len() - 1].0@ == k);
            } else {
                assert(assoc_map(rest).contains_key(k));
                let i = choose|i: int| 0 <= i < rest.len() && rest[i].0@ == k;
                assert(s[i].0@ == k);
            }
        }
        assert forall|i: int| 0 <= i < s.len() implies assoc_map(s).contains_key(
            #[trigger] s[i].0@,
        ) && assoc_map(s)[s[i].0@] == s[i].1 by {
            if i < s.len() - 1 {
                assert(rest[i] == s[i]);
                assert(s[i].0@ != s.last().0@);
            }
        }
    }
}

/// The per-mailbox cursor map: for each mailbox selected in this session,
/// the next unread 1-based sequence position. A cursor starts at 1 and
/// only ever grows.
pub struct CursorMap {
    entries: Vec<(String, usize)>,
}

impl CursorMap {
    /// The map this store denotes.
    pub closed spec fn view(&self) -> Map<Seq<char>, usize> {
        assoc_map(self.entries@)
    }

    /// Keys are unique and every cursor is at least 1.
    pub closed spec fn wf(&self) -> bool {
        &&& assoc_unique(self.entries@)
        &&& forall|i: int| 0 <= i < self.entries@.len() ==> (#[trigger] self.entries@[i].1) >= 1
    }

    /// An empty cursor map.
    pub fn new() -> (r: CursorMap)
        ensures
            r.wf(),
            r@ == Map::<Seq<char>, usize>::empty(),
    {
        CursorMap { entries: Vec::new() }
    }

    /// The position of the entry for `mailbox`, if any.
    fn find(&self, mailbox: &String) -> (r: Option<usize>)
        requires
            self.wf(),
        ensures
            match r {
                Some(i) => i < self.entries@.len() && self.entries@[i as int].0@ == mailbox@,
                None => !self@.contains_key(mailbox@),
            },
    {
        let n = self.entries.len();
        let mut i: usize = 0;
        while i < n
            invariant
                i <= n,
                n == self.entries@.len(),
                self.wf(),
                forall|j: int| 0 <= j < i ==> self.entries@[j].0@ != mailbox@,
            decreases n - i,
        {
            if self.entries[i].0.eq(mailbox) {
                return Some(i);
            }
            i = i + 1;
        }
        proof {
            lemma_assoc_props(self.entries@);
            if self@.contains_key(mailbox@) {
                let j = choose|j: int|
                    0 <= j < self.entries@.len() && self.entries@[j].0@ == mailbox@;
                assert(false);
            }
        }
        None
    }

    /// The cursor for `mailbox`: the stored position, or 1 — stored on
    /// first use — when the mailbox has not been selected this session.
    pub fn get_or_insert(&mut self, mailbox: &String) -> (r: usize)
        requires
            old(self).wf(),
        ensures
            final(self).wf(),
            r >= 1,
            old(self)@.contains_key(mailbox@) ==> r == old(self)@[mailbox@] && final(self)@
                == old(self)@,
            !old(self)@.contains_key(mailbox@) ==> r == 1 && final(self)@ == old(self)@.insert(
                mailbox@,
                1,
            ),
    {
        match self.find(mailbox) {
            Some(i) => {
                let r = self.entries[i].1;
                proof {
                    lemma_assoc_props(self.entries@);
                }
                r
            },
            None => {
                let ghost entries0 = self.entries@;
                self.entries.push((mailbox.clone(), 1));
                proof {
                    assert(self.entries@.drop_last() =~= entries0);
                    assert forall|i: int, j: int|
                        0 <= i < j < self.entries@.len() implies self.entries@[i].0@
                        != self.entries@[j].0@ by {
                        if j == self.entries@.len() - 1 {
                            lemma_assoc_props(entries0);
                            assert(entries0[i].0@ != mailbox@) by {
                                if entries0[i].0@ == mailbox@ {
                                    assert(assoc_map(entries0).contains_key(entries0[i].0@));
                                }
                            }
                        }
                    }
                }
                1
            },
        }
    }

    /// Advances the cursor for `mailbox` to `next`. A cursor is never
    /// decremented.
    pub fn advance(&mut self, mailbox: &String, next: usize)
        requires
            old(self).wf(),
            old(self)@.contains_key(mailbox@),
            next >= old(self)@[mailbox@],
        ensures
            final(self).wf(),
            final(self)@ == old(self)@.insert(mailbox@, next),
    {
        let i = match self.find(mailbox) {
            Some(i) => i,
            None => {
                proof {
                    assert(false);
                }
                0
            },
        };
        let ghost entries0 = self.entries@;
        let key = self.entries[i].0.clone();
        self.entries.set(i, (key, next));
        proof {
            assert forall|i2: int, j2: int|
                0 <= i2 < j2 < self.entries@.len() implies self.entries@[i2].0@
                != self.entries@[j2].0@ by {
                assert(self.entries@[i2].0@ == entries0[i2].0@);
                assert(self.entries@[j2].0@ == entries0[j2].0@);
            }
            lemma_assoc_props(entries0);
            lemma_assoc_props(self.entries@);
            let m1 = assoc_map(self.entries@);
            let m2 = assoc_map(entries0).insert(mailbox@, next);
            assert_maps_equal!(m1, m2, k => {
                    lemma_assoc_contains(entries0, k);
                    lemma_assoc_contains(self.entries@, k);
                    if assoc_map(self.entries@).contains_key(k) {
                        let i2 = choose|i2: int|
                            0 <= i2 < self.entries@.len() && self.entries@[i2].0@ == k
                                && assoc_map(self.entries@)[k] == self.entries@[i2].1;
                        if i2 != i {
                            assert(self.entries@[i2] == entries0[i2]);
                        }
                    }
                    if assoc_map(entries0).contains_key(k) {
                        let i3 = choose|i3: int|
                            0 <= i3 < entries0.len() && entries0[i3].0@ == k
                                && assoc_map(entries0)[k] == entries0[i3].1;
                        assert(self.entries@[i3].0@ == k);
                    }
                }
            );
            assert(old(self)@ == assoc_map(entries0));
        }
    }
}

/// With unique keys: membership and value of the denoted map, described
/// entry-wise for one key.
pub proof fn lemma_assoc_contains<V>(s: Seq<(String, V)>, k: Seq<char>)
    requires
        assoc_unique(s),
    ensures
        assoc_map(s).contains_key(k) <==> exists|i: int| 0 <= i < s.len() && s[i].0@ == k,
        assoc_map(s).contains_key(k) ==> exists|i: int|
            0 <= i < s.len() && s[i].0@ == k && assoc_map(s)[k] == s[i].1,
{
    lemma_assoc_props(s);
    if assoc_map(s).contains_key(k) {
        let i = choose|i: int| 0 <= i < s.len() && s[i].0@ == k;
        assert(assoc_map(s)[s[i].0@] == s[i].1);
    }
}

/// The session's detail cache: each fetched message identifier bound to
/// the detail record produced for it, at most once per identifier.
pub struct DetailCache {
    entries: Vec<(String, EmailDetail)>,
}

/// The observable content of a detail record: its body and its attachment
/// names.
pub open spec fn detail_view(d: EmailDetail) -> (Seq<char>, Seq<Seq<char>>) {
    (d.body@, d.attachments@.map_values(|t: String| t@))
}

impl DetailCache {
    /// The map this store denotes.
    pub closed spec fn view(&self) -> Map<Seq<char>, EmailDetail> {
        assoc_map(self.entries@)
    }

    pub closed spec fn wf(&self) -> bool {
        assoc_unique(self.entries@)
    }

    /// An empty cache.
    pub fn new() -> (r: DetailCache)
        ensures
            r.wf(),
            r@ == Map::<Seq<char>, EmailDetail>::empty(),
    {
        DetailCache { entries: Vec::new() }
    }

    /// The position of the entry for `uid`, if any.
    fn find(&self, uid: &String) -> (r: Option<usize>)
        requires
            self.wf(),
        ensures
            match r {
                Some(i) => i < self.entries@.len() && self.entries@[i as int].0@ == uid@,
                None => !self@.contains_key(uid@),
            },
    {
        let n = self.entries.len();
        let mut i: usize = 0;
        while i < n
            invariant
                i <= n,
                n == self.entries@.len(),
                self.wf(),
                forall|j: int| 0 <= j < i ==> self.entries@[j].0@ != uid@,
            decreases n - i,
        {
            if self.entries[i].0.eq(uid) {
                return Some(i);
            }
            i = i + 1;
        }
        proof {
            lemma_assoc_props(self.entries@);
            if self@.contains_key(uid@) {
                let j = choose|j: int| 0 <= j < self.entries@.len() && self.entries@[j].0@ == uid@;
                assert(false);
            }
        }
        None
    }

    /// Returns a copy of the cached record for `uid`, reading back equal
    /// to what was stored.
    pub fn lookup(&self, uid: &String) -> (r: Option<EmailDetail>)
        requires
            self.wf(),
        ensures
            r is Some <==> self@.contains_key(uid@),
            r is Some ==> detail_view(r->Some_0) == detail_view(self@[uid@]),
    {
        match self.find(uid) {
            Some(i) => {
                proof {
                    lemma_assoc_props(self.entries@);
                }
                let d = &self.entries[i].1;
                Some(duplicate_detail(d))
            },
            None => None,
        }
    }

    /// Stores the record produced for `uid`. A cached identifier is never
    /// overwritten: the store is used only after a cache miss.
    pub fn insert(&mut self, uid: &String, detail: EmailDetail)
        requires
            old(self).wf(),
            !old(self)@.contains_key(uid@),
        ensures
            final(self).wf(),
            final(self)@ == old(self)@.insert(uid@, detail),
    {
        let ghost entries0 = self.entries@;
        self.entries.push((uid.clone(), detail));
        proof {
            assert(self.entries@.drop_last() =~= entries0);
            lemma_assoc_props(entries0);
            assert forall|i: int, j: int|
                0 <= i < j < self.entries@.len() implies self.entries@[i].0@
                != self.entries@[j].0@ by {
                if j == self.entries@.len() - 1 {
                    assert(entries0[i].0@ != uid@) by {
                        if entries0[i].0@ == uid@ {
                            assert(assoc_map(entries0).contains_key(entries0[i].0@));
                        }
                    }
                }
            }
        }
    }
}

/// Copies a detail record; the copy reads back equal.
pub fn duplicate_detail(d: &EmailDetail) -> (r: EmailDetail)
    ensures
        detail_view(r) == detail_view(*d),
{
    let body = d.body.clone();
    let attachments = crate::codec::copy_names(&d.attachments);
    EmailDetail { body, attachments }
}

} // verus!
